use scut_ai_proxy::chat3::{
    auth_headers, chat_url, completion_response, event_content, json_or_error, models_url,
    normalize_tool_messages_for_upstream, parse_delta, stringify_message_content, succeeded,
    truncate_for_upstream, upstream_request, Chat3Error, ChatCollector, MAX_TOOL_RESULT_CHARS,
};
use scut_ai_proxy::json::{parse_json, Json};
use scut_ai_proxy::openai::{
    ChatCompletionRequest, ChatMessage, ResponseToolCall, ResponseToolCallFunction, ToolChoice,
};
use scut_ai_proxy::sse::SseEvent;

fn message(role: &str, content: Option<Json>) -> ChatMessage {
    ChatMessage {
        role: role.to_string(),
        content,
        name: None,
        tool_call_id: None,
        tool_calls: None,
    }
}

fn request(messages: Vec<ChatMessage>) -> ChatCompletionRequest {
    ChatCompletionRequest {
        model: "m".to_string(),
        messages,
        stream: false,
        temperature: None,
        top_p: None,
        max_tokens: None,
        tools: None,
        tool_choice: None,
    }
}

#[test]
fn converts_tool_role_messages_to_user_text_for_chat3() {
    let mut request = ChatCompletionRequest {
        model: "m".to_string(),
        messages: vec![ChatMessage {
            role: "tool".to_string(),
            content: Some(Json::String("{\"ok\":true}".to_string())),
            name: Some("query_prometheus".to_string()),
            tool_call_id: Some("call_1".to_string()),
            tool_calls: None,
        }],
        stream: false,
        temperature: None,
        top_p: None,
        max_tokens: None,
        tools: None,
        tool_choice: None,
    };

    normalize_tool_messages_for_upstream(&mut request);

    assert_eq!(request.messages[0].role, "user");
    assert_eq!(request.messages[0].name, None);
    assert_eq!(request.messages[0].tool_call_id, None);
    assert!(request.messages[0]
        .content
        .as_ref()
        .and_then(Json::as_str)
        .unwrap()
        .contains("Tool result from query_prometheus"));
}

#[test]
fn truncates_large_tool_results_for_chat3() {
    let large = "x".repeat(MAX_TOOL_RESULT_CHARS + 100);
    let mut request = ChatCompletionRequest {
        model: "chat3".to_string(),
        messages: vec![ChatMessage {
            role: "tool".to_string(),
            content: Some(Json::String(large)),
            name: Some("pods_list_in_namespace".to_string()),
            tool_call_id: Some("call_1".to_string()),
            tool_calls: None,
        }],
        stream: false,
        temperature: None,
        top_p: None,
        max_tokens: None,
        tools: None,
        tool_choice: None,
    };

    normalize_tool_messages_for_upstream(&mut request);

    let content = request.messages[0]
        .content
        .as_ref()
        .and_then(Json::as_str)
        .unwrap();
    assert!(content.contains("Tool result from pods_list_in_namespace"));
    assert!(content.contains("truncated tool result"));
    assert!(content.len() < MAX_TOOL_RESULT_CHARS + 300);
    assert!(request.tools.is_none());
    assert!(request.tool_choice.is_none());
}

#[test]
fn converts_assistant_tool_calls_to_text_for_chat3() {
    let mut request = ChatCompletionRequest {
        model: "m".to_string(),
        messages: vec![ChatMessage {
            role: "assistant".to_string(),
            content: None,
            name: None,
            tool_call_id: None,
            tool_calls: Some(vec![ResponseToolCall {
                id: "call_1".to_string(),
                kind: "function".to_string(),
                function: ResponseToolCallFunction {
                    name: "nodes_top".to_string(),
                    arguments: "{}".to_string(),
                },
            }]),
        }],
        stream: false,
        temperature: None,
        top_p: None,
        max_tokens: None,
        tools: None,
        tool_choice: None,
    };

    normalize_tool_messages_for_upstream(&mut request);

    assert!(request.messages[0].tool_calls.is_none());
    assert_eq!(
        request.messages[0].content.as_ref().and_then(Json::as_str),
        Some("Tool calls requested:\nnodes_top({})")
    );
}

#[test]
fn keeps_what_the_assistant_said_before_its_calls() {
    let call = |name: &str| ResponseToolCall {
        id: "call_1".to_string(),
        kind: "function".to_string(),
        function: ResponseToolCallFunction {
            name: name.to_string(),
            arguments: "{\"a\":1}".to_string(),
        },
    };
    let mut said = message("assistant", Some(Json::String("Let me see.".to_string())));
    said.tool_calls = Some(vec![call("first"), call("second")]);
    let mut request = request(vec![message("user", None), said]);
    request.tool_choice = Some(ToolChoice::String("auto".to_string()));
    request.tools = Some(vec![]);

    let sent = upstream_request(request);

    assert_eq!(
        sent.messages[1].content.as_ref().and_then(Json::as_str),
        Some("Let me see.\n\nTool calls requested:\nfirst({\"a\":1})\nsecond({\"a\":1})")
    );
    assert_eq!(sent.messages[0].role, "user");
    assert!(sent.messages[0].content.is_none());
    assert!(sent.tools.is_none());
    assert!(sent.tool_choice.is_none());
    assert!(sent.stream);
}

#[test]
fn names_a_tool_result_by_what_is_known() {
    let mut by_id = message("tool", None);
    by_id.tool_call_id = Some("call_9".to_string());
    let mut request = request(vec![by_id, message("tool", Some(Json::Null))]);
    normalize_tool_messages_for_upstream(&mut request);
    assert_eq!(
        request.messages[0].content.as_ref().and_then(Json::as_str),
        Some("Tool result from call_9:\n")
    );
    assert_eq!(
        request.messages[1].content.as_ref().and_then(Json::as_str),
        Some("Tool result from tool:\nnull")
    );
}

#[test]
fn leaves_a_conversation_without_tools_alone() {
    let mut request = request(vec![message("assistant", Some(Json::String("hi".to_string())))]);
    request.tools = Some(vec![]);
    let sent = upstream_request(request);
    assert_eq!(sent.messages[0].content.as_ref().and_then(Json::as_str), Some("hi"));
    assert!(sent.tools.is_some());
}

#[test]
fn cuts_at_characters() {
    assert_eq!(truncate_for_upstream("节点", 2), "节点");
    assert_eq!(
        truncate_for_upstream("节点信息", 2),
        "节点\n\n[scut-ai-proxy truncated tool result: original_chars=4, kept_chars=2]"
    );
    assert_eq!(truncate_for_upstream("", 0), "");
}

#[test]
fn writes_other_content_as_json() {
    let value = parse_json("{ \"b\": [1, 2.5, null], \"a\": \"x\" }").unwrap();
    assert_eq!(stringify_message_content(&value), "{\"a\":\"x\",\"b\":[1,2.5,null]}");
    assert_eq!(stringify_message_content(&Json::String("x".to_string())), "x");
}

#[test]
fn reads_the_text_of_a_piece() {
    let data = "{\"choices\":[{\"delta\":{\"content\":\"你好\"}}]}";
    assert_eq!(event_content(data), Some("你好".to_string()));
    assert_eq!(event_content("{\"choices\":[]}"), None);
    assert_eq!(event_content("{\"choices\":[{\"delta\":{\"content\":1}}]}"), None);
    assert_eq!(event_content("no json"), None);
}

#[test]
fn reads_what_a_piece_tells() {
    let event = SseEvent {
        data: "{\"id\":\"i\",\"model\":\"m\",\"created\":7,\"choices\":[{\"delta\":{}}]}".to_string(),
    };
    let delta = parse_delta(&event).unwrap();
    assert_eq!(delta.id, Some("i".to_string()));
    assert_eq!(delta.model, Some("m".to_string()));
    assert_eq!(delta.created, Some(7));
    assert_eq!(delta.content, None);
    assert!(parse_delta(&SseEvent { data: "[DONE]".to_string() }).is_none());
}

fn collect(chunks: &[&[u8]]) -> scut_ai_proxy::chat3::CollectedChat {
    let mut collector = ChatCollector::new();
    for chunk in chunks {
        collector.push(chunk);
    }
    collector.finish()
}

#[test]
fn collects_an_answer_however_it_is_cut() {
    let stream: &[u8] = b"data: {\"id\":\"a\",\"choices\":[{\"delta\":{\"content\":\"He\"}}]}\n\n\
data: {\"id\":\"b\",\"model\":\"m\",\"created\":5,\"choices\":[{\"delta\":{\"content\":\"llo\"}}]}\r\n\r\n\
data: [DONE]\n\ndata: {\"id\":\"c\",\"choices\":[{\"delta\":{\"content\":\"!\"}}]}";
    for cut in 0..stream.len() {
        let chat = collect(&[&stream[..cut], &stream[cut..]]);
        assert_eq!(chat.id, "a");
        assert_eq!(chat.model, "m");
        assert_eq!(chat.created, 5);
        assert_eq!(chat.raw_content, "Hello!");
    }
}

#[test]
fn collects_nothing_from_nothing() {
    let chat = collect(&[]);
    assert_eq!(chat.id, "");
    assert_eq!(chat.model, "");
    assert_eq!(chat.created, 0);
    assert_eq!(chat.raw_content, "");
}

#[test]
fn says_what_went_wrong() {
    assert_eq!(Chat3Error::InvalidAuthHeader.message(), "invalid authorization header");
    assert_eq!(
        Chat3Error::Request("timed out".to_string()).message(),
        "upstream request failed: timed out"
    );
    let status = Chat3Error::UpstreamStatus { status: 404, body: "gone".to_string() };
    assert_eq!(status.message(), "upstream returned status 404: gone");
    let json = Chat3Error::InvalidJson { source: "s".to_string(), body: "b".to_string() };
    assert_eq!(json.message(), "upstream returned invalid json: s; body=b");
}

#[test]
fn reports_what_went_wrong() {
    let status = |status| Chat3Error::UpstreamStatus { status, body: "b".to_string() };
    assert_eq!(status(404).into_report(), (404, "b".to_string()));
    assert_eq!(status(99).into_report(), (502, "b".to_string()));
    assert_eq!(status(1000).into_report(), (502, "b".to_string()));
    assert_eq!(
        Chat3Error::InvalidAuthHeader.into_report(),
        (401, "invalid authorization header".to_string())
    );
    assert_eq!(
        Chat3Error::Request("x".to_string()).into_report(),
        (502, "upstream request failed: x".to_string())
    );
}

#[test]
fn tells_success_by_the_status() {
    assert!(succeeded(200) && succeeded(299));
    assert!(!succeeded(300) && !succeeded(199));
}

#[test]
fn reads_the_json_of_an_answer() {
    let models = json_or_error(200, "{\"data\":[]}".to_string()).unwrap();
    assert!(models.get("data").is_some());
    match json_or_error(500, "down".to_string()) {
        Err(Chat3Error::UpstreamStatus { status, body }) => {
            assert_eq!(status, 500);
            assert_eq!(body, "down");
        }
        _ => panic!("a failure is owed"),
    }
    match json_or_error(200, "<html>".to_string()) {
        Err(Chat3Error::InvalidJson { source, body }) => {
            assert_eq!(source, "expected value at line 1 column 1");
            assert_eq!(body, "<html>");
        }
        _ => panic!("a failure is owed"),
    }
}

#[test]
fn passes_the_authorization_on() {
    assert_eq!(
        auth_headers("Bearer abc").unwrap(),
        vec![
            ("authorization".to_string(), "Bearer abc".to_string()),
            ("content-type".to_string(), "application/json".to_string()),
        ]
    );
    assert!(matches!(auth_headers("Bearer\nabc"), Err(Chat3Error::InvalidAuthHeader)));
    assert!(matches!(auth_headers("\u{7f}"), Err(Chat3Error::InvalidAuthHeader)));
    assert!(auth_headers("Bearer\tabc").is_ok());
    assert!(auth_headers("令牌").is_ok());
}

#[test]
fn knows_the_addresses() {
    assert_eq!(models_url("https://h/api"), "https://h/api/models");
    assert_eq!(chat_url("https://h/api"), "https://h/api/chat/completions");
}

#[test]
fn makes_a_completion() {
    let response = completion_response("m".to_string(), "hi".to_string(), "i".to_string(), 3);
    assert_eq!(response.id, "i");
    assert_eq!(response.object, "chat.completion");
    assert_eq!(response.created, 3);
    assert_eq!(response.model, "m");
    assert_eq!(response.choices.len(), 1);
    assert_eq!(response.choices[0].index, 0);
    assert_eq!(response.choices[0].finish_reason, "stop");
    let message = &response.choices[0].message;
    assert_eq!(message.role, "assistant");
    assert_eq!(message.content.as_ref().and_then(Json::as_str), Some("hi"));
}

#[test]
fn gives_a_completion_an_identity_and_a_time() {
    let response = completion_response("m".to_string(), "hi".to_string(), String::new(), 0);
    let millis: i64 = response.id.strip_prefix("chatcmpl-").unwrap().parse().unwrap();
    assert!(response.created > 1_600_000_000);
    assert!((millis / 1000 - response.created).abs() <= 1);
}
