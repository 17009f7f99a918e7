use valve::text::{address, contains, decimal};

#[test]
fn decimal_writes_every_port_as_std_does() {
    for port in 0..=u16::MAX {
        assert_eq!(decimal(port), port.to_string());
    }
}

#[test]
fn address_is_host_and_port() {
    assert_eq!(address("127.0.0.1", 8000), "127.0.0.1:8000");
    assert_eq!(address("localhost", 0), "localhost:0");
    assert_eq!(address("", 65535), ":65535");
}

#[test]
fn addresses_of_different_workers_differ() {
    assert_ne!(address("127.0.0.1", 8000), address("127.0.0.1", 800));
    assert_ne!(address("a:1", 2), address("a", 12));
}

#[test]
fn contains_finds_a_phrase_anywhere() {
    assert!(contains("Running swagger", "Running swagger"));
    assert!(contains("x Running swagger", "Running swagger"));
    assert!(contains("Running swagger Docs at http://127.0.0.1", "Running swagger"));
    assert!(contains("aab", "ab"));
    assert!(contains("\u{e9}t\u{e9} \u{1f600}!", "\u{1f600}"));
}

#[test]
fn contains_rejects_what_is_not_there() {
    assert!(!contains("", "a"));
    assert!(!contains("Running swagge", "Running swagger"));
    assert!(!contains("running swagger", "Running swagger"));
    assert!(!contains("a-b", "ab"));
}

#[test]
fn empty_phrase_is_everywhere() {
    assert!(contains("", ""));
    assert!(contains("abc", ""));
}
