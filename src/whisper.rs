pub mod whisper_buf_reader;
