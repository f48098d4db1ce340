use scut_ai_proxy::chat3::CollectedChat;
use scut_ai_proxy::json::{parse_json, Json};
use scut_ai_proxy::openai::{
    ChatCompletionChunk, ResponseToolCall, ResponseToolCallFunction,
};
use scut_ai_proxy::planner::{PlannerCall, PlannerDecision};
use scut_ai_proxy::reply::{
    chunk_response, collected_response, collected_response_at, content_chunk_response,
    content_chunk_with_finish_response, final_chat_reply, final_chat_reply_at,
    final_text_stream_response, finish_chunk_response, planner_decision_response,
    planner_decision_response_at, stream_item_data, tool_call_chunk_response,
    tool_calls_stream_response, ChatReply, StreamItem,
};
use scut_ai_proxy::wire::write_chunk;
use serde_json::Value;

fn to_value(chunk: ChatCompletionChunk) -> Value {
    serde_json::from_str(&write_chunk(&chunk).unwrap()).unwrap()
}

#[test]
fn serializes_openai_streaming_tool_call_chunk() {
    let chunk = tool_call_chunk_response(
        "chatcmpl-test",
        123,
        "test-model",
        0,
        ResponseToolCall {
            id: "call_000000".to_string(),
            kind: "function".to_string(),
            function: ResponseToolCallFunction {
                name: "pods_list_in_namespace".to_string(),
                arguments: r#"{"namespace":"store"}"#.to_string(),
            },
        },
    );

    let value = to_value(chunk);

    assert_eq!(value["object"], "chat.completion.chunk");
    assert_eq!(
        value["choices"][0]["finish_reason"],
        serde_json::Value::Null
    );
    assert_eq!(value["choices"][0]["delta"]["role"], "assistant");
    assert_eq!(
        value["choices"][0]["delta"]["tool_calls"][0]["function"]["name"],
        "pods_list_in_namespace"
    );
    assert_eq!(
        value["choices"][0]["delta"]["tool_calls"][0]["function"]["arguments"],
        r#"{"namespace":"store"}"#
    );
    assert!(value["choices"][0]["delta"].get("content").is_none());
}

#[test]
fn serializes_tool_call_finish_chunk() {
    let chunk = finish_chunk_response("chatcmpl-test", 123, "test-model", "tool_calls");
    let value = to_value(chunk);

    assert_eq!(value["choices"][0]["finish_reason"], "tool_calls");
    assert!(value["choices"][0]["delta"].get("tool_calls").is_none());
    assert!(value["choices"][0]["delta"].get("content").is_none());
}

fn call(name: &str) -> ResponseToolCall {
    ResponseToolCall {
        id: format!("id_{name}"),
        kind: "function".to_string(),
        function: ResponseToolCallFunction {
            name: name.to_string(),
            arguments: "{}".to_string(),
        },
    }
}

fn values(items: &[StreamItem]) -> Vec<Option<Value>> {
    items
        .iter()
        .map(|item| serde_json::from_str(&stream_item_data(item).unwrap()).ok())
        .collect()
}

#[test]
fn streams_tool_calls() {
    let items = tool_calls_stream_response(
        "i".to_string(),
        9,
        "m".to_string(),
        vec![call("a"), call("b")],
    );
    let values = values(&items);
    assert_eq!(values.len(), 4);
    for (i, name) in ["a", "b"].iter().enumerate() {
        let value = values[i].as_ref().unwrap();
        let told = &value["choices"][0]["delta"]["tool_calls"][0];
        assert_eq!(told["index"], i);
        assert_eq!(told["id"], format!("id_{name}"));
        assert_eq!(told["type"], "function");
        assert_eq!(told["function"]["name"], *name);
        assert_eq!(value["id"], "i");
        assert_eq!(value["created"], 9);
    }
    let finish = values[2].as_ref().unwrap();
    assert_eq!(finish["choices"][0]["finish_reason"], "tool_calls");
    assert!(matches!(items[3], StreamItem::Done));
    assert_eq!(stream_item_data(&items[3]).unwrap(), "[DONE]");
}

#[test]
fn streams_a_text() {
    let stream = |content: &str| {
        final_text_stream_response("i".to_string(), 9, "m".to_string(), content.to_string())
    };
    let items = stream("hi");
    assert_eq!(items.len(), 3);
    let spoken = values(&items);
    assert_eq!(spoken[0].as_ref().unwrap()["choices"][0]["delta"]["content"], "hi");
    assert_eq!(spoken[0].as_ref().unwrap()["choices"][0]["finish_reason"], Value::Null);
    assert_eq!(spoken[1].as_ref().unwrap()["choices"][0]["finish_reason"], "stop");
    assert!(matches!(items[2], StreamItem::Done));
    let silent = stream("");
    assert_eq!(silent.len(), 2);
    assert_eq!(values(&silent)[0].as_ref().unwrap()["choices"][0]["finish_reason"], "stop");
}

#[test]
fn makes_pieces_of_text() {
    let chunk = content_chunk_response("i", 9, "m", "hi".to_string());
    assert_eq!(chunk.choices[0].delta.content, Some("hi".to_string()));
    assert_eq!(chunk.choices[0].delta.role, None);
    assert_eq!(chunk.choices[0].finish_reason, None);
    let last = content_chunk_with_finish_response(
        "i",
        9,
        "m",
        "hi".to_string(),
        Some("stop".to_string()),
    );
    assert_eq!(last.choices[0].finish_reason, Some("stop".to_string()));
    let fresh = chunk_response("m", "hi".to_string(), None);
    assert!(fresh.id.strip_prefix("chatcmpl-").unwrap().parse::<i64>().unwrap() > 0);
    assert!(fresh.created > 1_600_000_000);
    assert_eq!(fresh.choices[0].delta.content, Some("hi".to_string()));
}

fn collected(id: &str, model: &str, created: i64, raw: &str) -> CollectedChat {
    CollectedChat {
        id: id.to_string(),
        model: model.to_string(),
        created,
        raw_content: raw.to_string(),
    }
}

#[test]
fn answers_with_what_was_collected() {
    let told = collected_response_at(
        "asked".to_string(),
        collected("i", "m", 4, "<think>x</think> hi"),
        1,
        2,
    );
    assert_eq!((told.id.as_str(), told.model.as_str(), told.created), ("i", "m", 4));
    assert_eq!(told.choices[0].message.content.as_ref().and_then(Json::as_str), Some("hi"));
    let silent = collected_response_at("asked".to_string(), collected("", "", 0, ""), 1, 2);
    assert_eq!(
        (silent.id.as_str(), silent.model.as_str(), silent.created),
        ("chatcmpl-1", "asked", 2)
    );
    let now = collected_response("asked".to_string(), collected("", "", 0, "x"));
    assert!(now.created > 1_600_000_000);
}

#[test]
fn answers_a_plan_in_one_piece() {
    let decision = PlannerDecision::ToolCalls {
        calls: vec![PlannerCall {
            name: "t".to_string(),
            arguments: parse_json("{\"a\": 1}").unwrap(),
        }],
    };
    match planner_decision_response_at("m".to_string(), decision, false, 1, 2) {
        ChatReply::Whole(response) => {
            assert_eq!(response.id, "chatcmpl-1");
            assert_eq!(response.created, 2);
            assert_eq!(response.choices[0].finish_reason, "tool_calls");
            let message = &response.choices[0].message;
            assert!(message.content.is_none());
            let calls = message.tool_calls.as_ref().unwrap();
            assert_eq!(calls[0].id, "call_000000");
            assert_eq!(calls[0].function.arguments, "{\"a\":1}");
        }
        _ => panic!("one piece is owed"),
    }
    let text = PlannerDecision::Final { content: "hi".to_string() };
    match planner_decision_response("m".to_string(), text, false) {
        ChatReply::Whole(response) => {
            assert_eq!(response.choices[0].finish_reason, "stop");
            assert!(response.created > 1_600_000_000);
        }
        _ => panic!("one piece is owed"),
    }
}

#[test]
fn answers_a_plan_as_a_stream() {
    let decision = PlannerDecision::ToolCalls {
        calls: vec![PlannerCall { name: "t".to_string(), arguments: Json::Null }],
    };
    match planner_decision_response_at("m".to_string(), decision, true, -1, 2) {
        ChatReply::Stream(items) => {
            assert_eq!(items.len(), 3);
            let first = values(&items)[0].clone().unwrap();
            assert_eq!(first["id"], "chatcmpl--1");
            let told = &first["choices"][0]["delta"]["tool_calls"][0];
            assert_eq!(told["function"]["arguments"], "null");
        }
        _ => panic!("a stream is owed"),
    }
    let text = PlannerDecision::Final { content: "hi".to_string() };
    match planner_decision_response_at("m".to_string(), text, true, 1, 2) {
        ChatReply::Stream(items) => assert_eq!(items.len(), 3),
        _ => panic!("a stream is owed"),
    }
}

#[test]
fn answers_after_the_results_of_tools() {
    let chat = || collected("", "up", 0, "<think>x</think>done");
    match final_chat_reply_at("asked".to_string(), true, chat(), 5, 6) {
        ChatReply::Stream(items) => {
            let first = values(&items)[0].clone().unwrap();
            assert_eq!(first["id"], "chatcmpl-5");
            assert_eq!(first["created"], 6);
            assert_eq!(first["model"], "up");
            assert_eq!(first["choices"][0]["delta"]["content"], "done");
        }
        _ => panic!("a stream is owed"),
    }
    match final_chat_reply("asked".to_string(), false, chat()) {
        ChatReply::Whole(response) => {
            assert_eq!(response.model, "up");
            let content = response.choices[0].message.content.as_ref();
            assert_eq!(content.and_then(Json::as_str), Some("done"));
        }
        _ => panic!("one piece is owed"),
    }
}
