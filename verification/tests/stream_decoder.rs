use tabby_tui::decoder::StreamDecoder;
use tabby_tui::error::TabbyApiError;

#[test]
fn one_record_per_line() {
    let mut d = StreamDecoder::new();
    let deltas = d.feed(b"{\"content\":\"Hi\"}\n{\"content\":\" there\"}\n").unwrap();
    assert_eq!(deltas, vec!["Hi".to_string(), " there".to_string()]);
    assert_eq!(d.accumulated(), "Hi there");
}

#[test]
fn record_split_across_frames() {
    let mut d = StreamDecoder::new();
    let first = d.feed(b"{\"content\":\"He").unwrap();
    assert!(first.is_empty());
    let second = d.feed(b"llo\"}\n").unwrap();
    assert_eq!(second, vec!["Hello".to_string()]);
    assert_eq!(d.accumulated(), "Hello");
}

#[test]
fn trailing_record_without_newline_at_finish() {
    let mut d = StreamDecoder::new();
    let deltas = d.feed(b"{\"content\":\"a\"}\n{\"content\":\"b\"}").unwrap();
    assert_eq!(deltas, vec!["a".to_string()]);
    let last = d.finish().unwrap();
    assert_eq!(last, Some("b".to_string()));
    assert_eq!(d.accumulated(), "ab");
}

#[test]
fn finish_on_blank_tail_yields_nothing() {
    let mut d = StreamDecoder::new();
    d.feed(b"{\"content\":\"a\"}\n").unwrap();
    assert_eq!(d.finish().unwrap(), None);
    assert_eq!(d.accumulated(), "a");
}

#[test]
fn blank_lines_are_skipped() {
    let mut d = StreamDecoder::new();
    let deltas = d.feed(b"\n  \r\n{\"content\":\"x\"}\n\n").unwrap();
    assert_eq!(deltas, vec!["x".to_string()]);
}

#[test]
fn whitespace_around_tokens_is_accepted() {
    let mut d = StreamDecoder::new();
    let deltas = d.feed(b" { \"content\" : \"x\" } \n").unwrap();
    assert_eq!(deltas, vec!["x".to_string()]);
}

#[test]
fn escapes_are_decoded() {
    let mut d = StreamDecoder::new();
    let deltas = d
        .feed(b"{\"content\":\"a\\n\\t\\\"q\\\"\\\\\\/\\b\\f\\r\"}\n")
        .unwrap();
    assert_eq!(deltas, vec!["a\n\t\"q\"\\/\u{8}\u{c}\r".to_string()]);
}

#[test]
fn unicode_escapes_are_decoded() {
    let mut d = StreamDecoder::new();
    let deltas = d.feed(b"{\"content\":\"\\u0041\\u00e9\\ud83d\\ude00\"}\n").unwrap();
    assert_eq!(deltas, vec!["A\u{e9}\u{1F600}".to_string()]);
}

#[test]
fn lone_surrogate_escape_is_an_error() {
    let mut d = StreamDecoder::new();
    let r = d.feed(b"{\"content\":\"\\ud83d\"}\n");
    assert!(matches!(r, Err(TabbyApiError::DecodeError(_))));
}

#[test]
fn raw_utf8_content_passes_through() {
    let mut d = StreamDecoder::new();
    let deltas = d.feed("{\"content\":\"caf\u{e9} 😀\"}\n".as_bytes()).unwrap();
    assert_eq!(deltas, vec!["caf\u{e9} 😀".to_string()]);
}

#[test]
fn invalid_utf8_frame_is_an_error_and_keeps_state() {
    let mut d = StreamDecoder::new();
    d.feed(b"{\"content\":\"a\"}\n{\"cont").unwrap();
    let r = d.feed(&[0xff, 0xfe]);
    match r {
        Err(TabbyApiError::DecodeError(m)) => assert_eq!(m, "invalid UTF-8 in stream frame"),
        other => panic!("expected decode error, got {:?}", other),
    }
    // the earlier delta and the pending text survive
    assert_eq!(d.accumulated(), "a");
    let rest = d.feed(b"ent\":\"b\"}\n").unwrap();
    assert_eq!(rest, vec!["b".to_string()]);
}

#[test]
fn malformed_record_is_an_error() {
    let mut d = StreamDecoder::new();
    let r = d.feed(b"{\"other\":\"a\"}\n");
    match r {
        Err(TabbyApiError::DecodeError(m)) => assert_eq!(m, "malformed stream record"),
        other => panic!("expected decode error, got {:?}", other),
    }
    // refused as a unit: nothing was accumulated
    assert_eq!(d.accumulated(), "");
}

#[test]
fn truncated_record_at_finish_is_an_error() {
    let mut d = StreamDecoder::new();
    d.feed(b"{\"content\":\"a\"").unwrap();
    assert!(matches!(d.finish(), Err(TabbyApiError::DecodeError(_))));
}

#[test]
fn accumulation_preserves_order_over_many_frames() {
    let mut d = StreamDecoder::new();
    let parts = ["alpha ", "beta ", "gamma"];
    let mut expected = String::new();
    for p in parts {
        let frame = format!("{{\"content\":\"{}\"}}\n", p);
        let deltas = d.feed(frame.as_bytes()).unwrap();
        assert_eq!(deltas, vec![p.to_string()]);
        expected.push_str(p);
    }
    assert_eq!(d.accumulated(), expected);
}

#[test]
fn crlf_line_endings_are_tolerated() {
    let mut d = StreamDecoder::new();
    let deltas = d.feed(b"{\"content\":\"x\"}\r\n{\"content\":\"y\"}\r\n").unwrap();
    assert_eq!(deltas, vec!["x".to_string(), "y".to_string()]);
}
