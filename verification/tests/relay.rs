use scut_ai_proxy::relay::{relay_data, relay_data_at, relay_text, RelayItem, StreamRelay};
use serde_json::Value;

const STREAM: &str = "data: {\"choices\":[{\"delta\":{\"content\":\" 你好 \"}}]}\n\n\
data: {\"choices\":[{\"delta\":{\"content\":\"  \"}}]}\n\n\
data: {\"choices\":[{\"delta\":{\"content\":\"<think>a</think>b\"}}]}\r\n\r\n\
data: nothing\n\ndata: [DONE]\n\n\
data: {\"choices\":[{\"delta\":{\"content\":\"late\"}}]}";

fn told(items: Vec<RelayItem>) -> Vec<String> {
    items
        .into_iter()
        .map(|item| match item {
            RelayItem::Content(content) => content,
            RelayItem::Failure(message) => format!("failed: {message}"),
            RelayItem::Done => "done".to_string(),
        })
        .collect()
}

#[test]
fn relays_a_stream_however_it_is_cut() {
    for (cut, _) in STREAM.char_indices() {
        let mut relay = StreamRelay::new();
        let mut all = told(relay.push(&STREAM.as_bytes()[..cut]));
        all.extend(told(relay.push(&STREAM.as_bytes()[cut..])));
        all.extend(told(relay.finish()));
        assert_eq!(all, ["你好", "b", "done", "late"]);
    }
}

#[test]
fn relays_no_end_from_what_is_left() {
    let mut relay = StreamRelay::new();
    assert!(relay.push(b"data: [DONE]").is_empty());
    assert!(relay.finish().is_empty());
    assert!(StreamRelay::new().finish().is_empty());
}

#[test]
fn relays_a_failure() {
    assert_eq!(told(StreamRelay::fail("lost".to_string())), ["failed: lost", "done"]);
}

#[test]
fn writes_what_is_relayed() {
    let data = relay_data_at("m", RelayItem::Content("hi".to_string()), 7, 8).unwrap();
    assert_eq!(
        data,
        r#"{"id":"chatcmpl-7","object":"chat.completion.chunk","created":8,"model":"m","choices":[{"index":0,"delta":{"content":"hi"},"finish_reason":null}]}"#
    );
    assert_eq!(relay_data("m", RelayItem::Done).unwrap(), "[DONE]");
    let failure = relay_data("m", RelayItem::Failure("lost".to_string())).unwrap();
    let value: Value = serde_json::from_str(&failure).unwrap();
    assert_eq!(value["error"]["message"], "lost");
    assert_eq!(value["error"]["type"], "upstream_error");
    assert_eq!(value["error"]["code"], Value::Null);
    let fresh = relay_data("m", RelayItem::Content("hi".to_string())).unwrap();
    let value: Value = serde_json::from_str(&fresh).unwrap();
    assert!(value["created"].as_i64().unwrap() > 1_600_000_000);
}

#[test]
fn relays_only_what_is_left_of_a_text() {
    assert!(relay_text(None).is_none());
    assert!(relay_text(Some(" \n".to_string())).is_none());
    match relay_text(Some("<think>a</think> b".to_string())) {
        Some(RelayItem::Content(content)) => assert_eq!(content, "b"),
        _ => panic!("the text is passed on"),
    }
}
