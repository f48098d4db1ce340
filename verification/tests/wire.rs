use scut_ai_proxy::json::parse_json;
use scut_ai_proxy::openai::{
    error_response, ChatChunkChoice, ChatChunkDelta, ChatCompletionChunk, ResponseToolCall,
    ResponseToolCallFunction,
};
use scut_ai_proxy::reply::{completion_response_at, tool_call_chunk_response};
use scut_ai_proxy::wire::{write_chunk, write_error, write_failure, write_response};

fn call() -> ResponseToolCall {
    ResponseToolCall {
        id: "call_000000".to_string(),
        kind: "function".to_string(),
        function: ResponseToolCallFunction {
            name: "f".to_string(),
            arguments: "{\"a\":1}".to_string(),
        },
    }
}

#[test]
fn writes_a_piece_with_a_call() {
    let chunk = tool_call_chunk_response("i", -3, "m", 2, call());
    assert_eq!(
        write_chunk(&chunk).unwrap(),
        r#"{"id":"i","object":"chat.completion.chunk","created":-3,"model":"m","choices":[{"index":0,"delta":{"role":"assistant","tool_calls":[{"index":2,"id":"call_000000","type":"function","function":{"name":"f","arguments":"{\"a\":1}"}}]},"finish_reason":null}]}"#
    );
}

#[test]
fn writes_pieces_without_and_with_choices() {
    let mut chunk = ChatCompletionChunk {
        id: "\"".to_string(),
        object: "o".to_string(),
        created: 1,
        model: "\n".to_string(),
        choices: vec![],
    };
    assert_eq!(
        write_chunk(&chunk).unwrap(),
        r#"{"id":"\"","object":"o","created":1,"model":"\n","choices":[]}"#
    );
    for reason in [None, Some("stop".to_string())] {
        chunk.choices.push(ChatChunkChoice {
            index: 1,
            delta: ChatChunkDelta { role: None, content: None, tool_calls: Some(vec![]) },
            finish_reason: reason,
        });
    }
    assert_eq!(
        write_chunk(&chunk).unwrap(),
        r#"{"id":"\"","object":"o","created":1,"model":"\n","choices":[{"index":1,"delta":{"tool_calls":[]},"finish_reason":null},{"index":1,"delta":{"tool_calls":[]},"finish_reason":"stop"}]}"#
    );
}

#[test]
fn writes_a_response() {
    let mut response =
        completion_response_at("m".to_string(), "你好".to_string(), "i".to_string(), 4, 0, 0);
    assert_eq!(
        write_response(&response).unwrap(),
        r#"{"id":"i","object":"chat.completion","created":4,"model":"m","choices":[{"index":0,"message":{"role":"assistant","content":"你好"},"finish_reason":"stop"}]}"#
    );
    let message = &mut response.choices[0].message;
    message.content = Some(parse_json("[{\"b\":1,\"a\":null}]").unwrap());
    message.name = Some("n".to_string());
    message.tool_call_id = Some("t".to_string());
    message.tool_calls = Some(vec![call(), call()]);
    let told = r#"{"id":"call_000000","type":"function","function":{"name":"f","arguments":"{\"a\":1}"}}"#;
    assert_eq!(
        write_response(&response).unwrap(),
        format!(
            "{}{told},{told}{}",
            r#"{"id":"i","object":"chat.completion","created":4,"model":"m","choices":[{"index":0,"message":{"role":"assistant","content":[{"a":null,"b":1}],"name":"n","tool_call_id":"t","tool_calls":["#,
            r#"]},"finish_reason":"stop"}]}"#
        )
    );
}

#[test]
fn writes_errors() {
    let reply = error_response(401, "k".to_string(), "m".to_string(), Some("c".to_string()));
    assert_eq!(
        write_error(&reply).unwrap(),
        r#"{"error":{"message":"m","type":"k","code":"c"}}"#
    );
    let reply = error_response(401, "k".to_string(), "m".to_string(), None);
    assert_eq!(
        write_error(&reply).unwrap(),
        r#"{"error":{"message":"m","type":"k","code":null}}"#
    );
    assert_eq!(
        write_failure(&"lost \"it\"".to_string()).unwrap(),
        r#"{"error":{"code":null,"message":"lost \"it\"","type":"upstream_error"}}"#
    );
}
