use valve::output::{read_line, settle, strip_line_end, tagged, tagged_raw, Readiness, StderrReader};

#[test]
fn lines_are_tagged() {
    assert_eq!(tagged("127.0.0.1:8000", "hello"), "[127.0.0.1:8000] hello");
    assert_eq!(tagged("h:1", ""), "[h:1] ");
}

#[test]
fn ready_at_the_first_announcement_only() {
    let mut reader = StderrReader::new("127.0.0.1", 8000);
    let lines = [
        ("Loading required package", false),
        ("Running plumber API at http://127.0.0.1:8000", false),
        ("Running swagger Docs at http://127.0.0.1:8000/__docs__/", true),
        ("Running swagger Docs again", false),
        ("Running rapidoc Docs", false),
    ];
    for (line, ready) in lines {
        let report = reader.line(line);
        assert_eq!(report.ready, ready);
        assert_eq!(report.log, format!("[127.0.0.1:8000] {}", line));
    }
    assert!(reader.signalled);
}

#[test]
fn rapidoc_announces_too() {
    let mut reader = StderrReader::new("h", 1);
    assert!(!reader.signalled);
    assert!(reader.line("-- Running rapidoc").ready);
}

#[test]
fn end_of_output_is_logged() {
    let reader = StderrReader::new("h", 1);
    assert_eq!(reader.closed(), "[h:1] worker stderr closed (process exited)");
}

#[test]
fn only_an_announced_worker_settles() {
    assert_eq!(settle(Readiness::Announced), Some(100));
    assert_eq!(settle(Readiness::Exited), None);
    assert_eq!(settle(Readiness::TimedOut), None);
}

#[test]
fn whole_stderr_is_logged_in_order() {
    let mut reader = StderrReader::new("h", 1);
    let mut log = Vec::new();
    for line in ["a", "Running swagger", "", "b"] {
        log.push(reader.line(line).log);
    }
    log.push(reader.closed());
    assert_eq!(
        log,
        vec![
            "[h:1] a",
            "[h:1] Running swagger",
            "[h:1] ",
            "[h:1] b",
            "[h:1] worker stderr closed (process exited)"
        ]
    );
}

#[test]
fn silent_worker_is_never_ready() {
    let mut reader = StderrReader::new("h", 1);
    assert!(!reader.line("Running").ready);
    assert!(!reader.line("swagger").ready);
    assert!(!reader.signalled);
}

#[test]
fn line_ends_are_taken_off() {
    assert_eq!(strip_line_end(b"abc\n".to_vec()), b"abc");
    assert_eq!(strip_line_end(b"abc\r\n".to_vec()), b"abc");
    assert_eq!(strip_line_end(b"abc".to_vec()), b"abc");
    assert_eq!(strip_line_end(b"abc\r".to_vec()), b"abc\r");
    assert_eq!(strip_line_end(b"\r\r\n".to_vec()), b"\r");
    assert_eq!(strip_line_end(b"\n".to_vec()), b"");
    assert_eq!(strip_line_end(b"".to_vec()), b"");
    assert_eq!(strip_line_end(vec![0xff, b'\n']), vec![0xff]);
}

#[test]
fn lines_are_read_as_they_were_written() {
    assert_eq!(read_line(b"abc\r\n".to_vec()), "abc");
    assert_eq!(read_line("\u{e9}t\u{e9}\n".as_bytes().to_vec()), "\u{e9}t\u{e9}");
    assert_eq!(read_line(Vec::new()), "");
}

#[test]
fn line_that_is_not_utf8_is_logged_all_the_same() {
    assert_eq!(read_line(vec![b'a', 0xff, b'b', b'\n']), "a\u{fffd}b");
    assert_eq!(tagged_raw("h:1", vec![0xff, b'\n']), "[h:1] \u{fffd}");
    let mut reader = StderrReader::new("h", 1);
    assert_eq!(reader.raw_line(vec![0xc3, b'\n']).log, "[h:1] \u{fffd}");
    let report = reader.raw_line(b"\xff Running swagger\n".to_vec());
    assert!(report.ready);
    assert_eq!(report.log, "[h:1] \u{fffd} Running swagger");
}
