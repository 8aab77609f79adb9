use ollisten::whisper::whisper_buf_reader::{clear, flush, push, whisper_buf_reader, whisper_step};

#[test]
fn sentences_are_split_and_trimmed() {
    let lines = whisper_buf_reader(b"  Hello there. How are you?\nok\n");
    assert_eq!(lines, vec!["Hello there.".to_string(), "How are you?".to_string()]);
}

#[test]
fn short_text_is_kept_until_long_enough() {
    let lines = whisper_buf_reader(b"ab\ncd\n");
    assert_eq!(lines, vec!["abcd".to_string()]);
}

#[test]
fn erase_line_sequence_clears_buffer() {
    let lines = whisper_buf_reader(b"noise\x1b[2Kreal text\n");
    assert_eq!(lines, vec!["real text".to_string()]);
}

#[test]
fn capital_k_is_kept_elsewhere() {
    let lines = whisper_buf_reader(b"OK then\r");
    assert_eq!(lines, vec!["OK then".to_string()]);
}

#[test]
fn unfinished_text_is_not_handed_out() {
    assert!(whisper_buf_reader(b"no end").is_empty());
    assert!(whisper_buf_reader(b"").is_empty());
}

#[test]
fn latin1_bytes_become_chars() {
    let lines = whisper_buf_reader(b"caf\xe9\n");
    assert_eq!(lines, vec!["caf\u{e9}".to_string()]);
}

#[test]
fn unicode_white_space_is_trimmed() {
    // Byte 0xA0 becomes U+00A0, a no-break space; 0x0B is a vertical tab.
    let lines = whisper_buf_reader(b"\xa0\x0bhi there\xa0.\n");
    assert_eq!(lines, vec!["hi there\u{a0}.".to_string()]);
    let lines = whisper_buf_reader(b"\xa0 \x0b\n");
    assert_eq!(lines, vec!["".to_string()]);
}

#[test]
fn helpers_act_on_buffer() {
    let mut buffer = String::new();
    assert_eq!(push(&mut buffer, 'a'), None);
    assert_eq!(buffer, "a");
    assert_eq!(flush(&mut buffer), None);
    assert_eq!(buffer, "a");
    push(&mut buffer, ' ');
    push(&mut buffer, 'b');
    push(&mut buffer, ' ');
    assert_eq!(flush(&mut buffer), Some("a b".to_string()));
    assert_eq!(buffer, "");
    push(&mut buffer, 'x');
    assert_eq!(clear(&mut buffer), None);
    assert_eq!(buffer, "");
}

#[test]
fn step_hands_out_on_question_mark() {
    let mut buffer = "Why".to_string();
    assert_eq!(whisper_step(&mut buffer, b'?'), Some("Why?".to_string()));
    assert_eq!(buffer, "");
    assert_eq!(whisper_step(&mut buffer, 0x1b), None);
    assert_eq!(buffer, "E");
}
