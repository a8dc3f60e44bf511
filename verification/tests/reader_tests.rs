use gato_http_server::reader::{StreamReader, CHUNK_SIZE};
use gato_http_server::scan::find_str;

#[test]
fn short_read_ends_the_message() {
    let mut r = StreamReader::new();
    assert!(r.wants_more());
    r.feed(b"hello", 5);
    assert!(!r.wants_more());
    assert_eq!(r.into_data(), b"hello".to_vec());
}

#[test]
fn only_the_valid_prefix_of_a_chunk_is_kept() {
    let mut r = StreamReader::new();
    let mut chunk = vec![0u8; CHUNK_SIZE];
    chunk[0] = b'h';
    chunk[1] = b'i';
    r.feed(&chunk, 2);
    assert_eq!(r.into_data(), b"hi".to_vec());
}

#[test]
fn exact_chunk_multiple_is_fully_captured() {
    // one read that exactly fills a chunk, then the peer closes
    let mut r = StreamReader::new();
    let chunk: Vec<u8> = (0..CHUNK_SIZE).map(|i| (i % 251) as u8).collect();
    r.feed(&chunk, CHUNK_SIZE);
    assert!(r.wants_more());
    r.feed(&[], 0);
    assert!(!r.wants_more());
    let data = r.into_data();
    assert_eq!(data.len(), CHUNK_SIZE);
    assert_eq!(data, chunk);
}

#[test]
fn a_failed_read_keeps_what_was_buffered() {
    let mut r = StreamReader::new();
    let chunk = vec![7u8; CHUNK_SIZE];
    r.feed(&chunk, CHUNK_SIZE);
    r.feed_error();
    assert!(!r.wants_more());
    assert_eq!(r.into_data(), chunk);
}

#[test]
fn find_str_reports_the_first_occurrence() {
    assert_eq!(find_str("abcabc", "bc"), Some(1));
    assert_eq!(find_str("abc", "x"), None);
    assert_eq!(find_str("line\r\n\r\nbody", "\r\n\r\n"), Some(4));
    assert_eq!(find_str("abc", ""), Some(0));
}
