use std::cell::RefCell;

use apyxl::output::{Buffer, Sink};
use apyxl::Output;

#[test]
fn write_str() {
    let mut output = Buffer::default();
    output.write_str("asdf").unwrap();
    assert_eq!(output.to_string(), "asdf");
}

#[test]
fn write_char() {
    let mut output = Buffer::default();
    output.write(':').unwrap();
    assert_eq!(output.to_string(), ":");
}

#[test]
fn write_appends() {
    let mut output = Buffer::default();
    output.write_str("abc").unwrap();
    output.write('d').unwrap();
    output.write_str("efg").unwrap();
    assert_eq!(output.to_string(), "abcdefg");
}

#[test]
fn newline_appends_a_line_feed() {
    let mut output = Buffer::default();
    output.write_str("a").unwrap();
    output.newline().unwrap();
    output.write('b').unwrap();
    assert_eq!(output.to_string(), "a\nb");
}

#[test]
fn chunk_marks_write_nothing() {
    let mut output = Buffer::default();
    let chunk = apyxl::model::Chunk::with_relative_file_path("a/b.rs");
    output.start_chunk(&chunk).unwrap();
    output.write_str("x").unwrap();
    output.end_chunk(&chunk).unwrap();
    assert_eq!(output.to_string(), "x");
}

#[test]
fn sink_hands_over_what_is_written() {
    let log = RefCell::new(Vec::<String>::new());
    let mut output = Sink::new(|data: &str| {
        log.borrow_mut().push(data.to_string());
        true
    });
    let chunk = apyxl::model::Chunk::new();
    output.start_chunk(&chunk).unwrap();
    output.write_str("ab").unwrap();
    output.write('c').unwrap();
    output.newline().unwrap();
    output.end_chunk(&chunk).unwrap();
    assert_eq!(*log.borrow(), vec!["ab", "c", "\n"]);
}

#[test]
fn sink_says_when_text_was_not_taken() {
    let mut output = Sink::new(|data: &str| data.len() < 3);
    assert!(output.write_str("ab").is_ok());
    assert!(output.write_str("abc").is_err());
    assert!(output.write('d').is_ok());
}
