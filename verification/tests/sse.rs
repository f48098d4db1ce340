use bytes::Bytes;
use scut_ai_proxy::sse::{find_event_boundary, parse_event, SseEvent, SseParser};

#[test]
fn parses_data_events() {
    let mut parser = SseParser::default();
    let events = parser.push(&Bytes::from_static(b"data: {\"a\":1}\n\ndata: [DONE]\n\n"));
    assert_eq!(events.len(), 2);
    assert_eq!(events[0].data, "{\"a\":1}");
    assert!(events[1].is_done());
}

#[test]
fn handles_split_chunks() {
    let mut parser = SseParser::default();
    assert!(parser.push(&Bytes::from_static(b"data: {\"a\"")).is_empty());
    let events = parser.push(&Bytes::from_static(b":1}\n\n"));
    assert_eq!(events[0].data, "{\"a\":1}");
}

#[test]
fn joins_the_data_of_an_event() {
    let event = parse_event("event: x\r\ndata: a\ndata:b\n: note").unwrap();
    assert_eq!(event.data, "a\nb");
    assert!(parse_event("event: x").is_none());
    assert!(parse_event("data:").is_none());
    assert!(parse_event("").is_none());
}

#[test]
fn knows_both_boundaries() {
    let find = |text: &str, from: usize| {
        let chars: Vec<char> = text.chars().collect();
        find_event_boundary(&chars, from)
    };
    assert_eq!(find("a\n\nb", 0), Some(1));
    assert_eq!(find("a\r\n\r\nb", 0), Some(1));
    assert_eq!(find("a\n\nb\n\n", 2), Some(4));
    assert_eq!(find("a\r\nb", 0), None);
}

#[test]
fn knows_the_end_by_its_word() {
    assert!(SseEvent { data: " [DONE] ".to_string() }.is_done());
    assert!(!SseEvent { data: "[done]".to_string() }.is_done());
}

#[test]
fn ends_with_what_is_left() {
    let mut parser = SseParser::default();
    assert!(parser.push(b"data: last").is_empty());
    assert_eq!(parser.finish(), vec![SseEvent { data: "last".to_string() }]);
    assert!(parser.finish().is_empty());
    assert!(parser.push(b" \r\n ").is_empty());
    assert!(parser.finish().is_empty());
}

#[test]
fn gives_the_same_events_however_cut() {
    let stream = "data: 你\n\ndata: a\r\n\r\nevent: b\n\ndata: c\ndata: d\n\n";
    let mut whole = SseParser::default();
    let expected = whole.push(stream.as_bytes());
    assert_eq!(expected.len(), 3);
    for (cut, _) in stream.char_indices() {
        let mut parser = SseParser::default();
        let mut events = parser.push(&stream.as_bytes()[..cut]);
        events.extend(parser.push(&stream.as_bytes()[cut..]));
        assert_eq!(events, expected);
    }
}

#[test]
fn replaces_what_is_no_utf8() {
    let mut parser = SseParser::default();
    let events = parser.push(b"data: a\xffb\n\n");
    assert_eq!(events[0].data, "a\u{fffd}b");
}

#[test]
fn takes_text_as_it_takes_bytes() {
    let mut parser = SseParser::default();
    assert!(parser.push_text("data: 你").is_empty());
    assert_eq!(parser.push_text("好\n\n"), vec![SseEvent { data: "你好".to_string() }]);
}
