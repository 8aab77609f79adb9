pub mod ollama;
pub mod types;
