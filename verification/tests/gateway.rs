use scut_ai_proxy::chat3::{auth_headers, Chat3Error};
use scut_ai_proxy::gateway::{
    authorization, chat_route, is_unrequested_pod_metrics_call, names_resource_usage,
    planner_mode, proxy_headers, upstream_error, user_asked_for_resource_usage, ChatRoute,
};
use scut_ai_proxy::json::{parse_json, Json};
use scut_ai_proxy::openai::{
    error_response, ChatCompletionRequest, ChatMessage, Tool, ToolChoice, ToolFunction,
};
use scut_ai_proxy::planner::{PlannerCall, PlannerDecision};

#[test]
fn marks_streaming_planner_mode() {
    assert_eq!(planner_mode("tool_planner", true), "tool_planner_stream");
    assert_eq!(planner_mode("tool_planner", false), "tool_planner");
    assert_eq!(
        planner_mode("tool_planner_fallback", true),
        "tool_planner_fallback_stream"
    );
}

#[test]
fn keeps_other_modes() {
    assert_eq!(
        planner_mode("tool_planner_required", true),
        "tool_planner_required_stream"
    );
    assert_eq!(planner_mode("tool_planner_final_chat", true), "tool_planner_final_chat");
    assert_eq!(planner_mode("tool_planner_fallback", false), "tool_planner_fallback");
}

fn refusal(value: Option<&[u8]>) -> (u16, String, String, Option<String>) {
    let reply = authorization(value).unwrap_err();
    let error = reply.body.error;
    (reply.status, error.message, error.kind, error.code)
}

#[test]
fn refuses_requests_without_a_token() {
    let refused = |message: &str, code: &str| {
        (
            401,
            message.to_string(),
            "invalid_request_error".to_string(),
            Some(code.to_string()),
        )
    };
    assert_eq!(refusal(None), refused("missing Authorization header", "missing_authorization"));
    assert_eq!(
        refusal(Some("Bearer 令牌".as_bytes())),
        refused("invalid Authorization header", "invalid_authorization")
    );
    assert_eq!(
        refusal(Some(b"Bearer \x7f")),
        refused("invalid Authorization header", "invalid_authorization")
    );
    for value in ["", "Bearer", "bearer x", "Basic x"] {
        assert_eq!(
            refusal(Some(value.as_bytes())),
            refused("Authorization must use Bearer scheme", "invalid_authorization_scheme")
        );
    }
}

#[test]
fn lets_a_token_through() {
    for value in ["Bearer abc", "Bearer ", "Bearer a\tb ~"] {
        let auth = authorization(Some(value.as_bytes())).unwrap();
        assert_eq!(auth, value);
        assert_eq!(auth_headers(&auth).unwrap()[0].1, value);
    }
}

#[test]
fn reports_failures_of_chat3() {
    let status_of = |status: u16| {
        let reply = upstream_error(Chat3Error::UpstreamStatus { status, body: "b".to_string() });
        assert_eq!(reply.body.error.message, "b");
        assert_eq!(reply.body.error.kind, "upstream_error");
        assert_eq!(reply.body.error.code, Some("chat3_error".to_string()));
        reply.status
    };
    assert_eq!(status_of(500), 500);
    assert_eq!(status_of(599), 599);
    assert_eq!(status_of(401), 401);
    assert_eq!(status_of(403), 403);
    for status in [0, 200, 302, 400, 404, 429, 600, 1000] {
        assert_eq!(status_of(status), 502);
    }
    assert_eq!(upstream_error(Chat3Error::InvalidAuthHeader).status, 401);
    let failed = upstream_error(Chat3Error::Request("t".to_string()));
    assert_eq!(failed.status, 502);
    assert_eq!(failed.body.error.message, "upstream request failed: t");
}

#[test]
fn makes_error_answers() {
    let reply = error_response(418, "k".to_string(), "m".to_string(), None);
    assert_eq!(reply.status, 418);
    assert_eq!(reply.body.error.kind, "k");
    assert_eq!(reply.body.error.message, "m");
    assert_eq!(reply.body.error.code, None);
}

#[test]
fn tells_the_mode_and_the_time() {
    assert_eq!(
        proxy_headers("models", 12),
        vec![
            ("x-scut-proxy-mode".to_string(), "models".to_string()),
            ("x-scut-proxy-upstream-ms".to_string(), "12".to_string()),
        ]
    );
}

fn message(role: &str, content: Option<&str>) -> ChatMessage {
    let mut message = ChatMessage::system(content.unwrap_or_default().to_string());
    message.role = role.to_string();
    if content.is_none() {
        message.content = None;
    }
    message
}

fn request(messages: Vec<ChatMessage>, with_tools: bool, stream: bool) -> ChatCompletionRequest {
    let tool = Tool {
        kind: "function".to_string(),
        function: ToolFunction {
            name: "t".to_string(),
            description: None,
            parameters: Json::Null,
        },
    };
    ChatCompletionRequest {
        model: "m".to_string(),
        messages,
        stream,
        temperature: None,
        top_p: None,
        max_tokens: None,
        tools: if with_tools { Some(vec![tool]) } else { None },
        tool_choice: None,
    }
}

#[test]
fn routes_a_request() {
    assert_eq!(chat_route(&request(vec![], true, true), 1), ChatRoute::Plan);
    assert_eq!(chat_route(&request(vec![], true, false), 0), ChatRoute::Collect);
    let answered = vec![message("tool", Some("x"))];
    assert_eq!(chat_route(&request(answered, true, true), 1), ChatRoute::Stream);
    assert_eq!(chat_route(&request(vec![], false, true), 1), ChatRoute::Stream);
    assert_eq!(chat_route(&request(vec![], false, false), 1), ChatRoute::Collect);
    let mut declined = request(vec![], true, false);
    declined.tool_choice = Some(ToolChoice::String("none".to_string()));
    assert_eq!(chat_route(&declined, 1), ChatRoute::Collect);
}

#[test]
fn knows_questions_about_usage() {
    let asks = |messages: Vec<ChatMessage>| {
        user_asked_for_resource_usage(&request(messages, false, false))
    };
    assert!(asks(vec![message("user", Some("How much CPU is used?"))]));
    assert!(asks(vec![message("user", Some("节点内存"))]));
    assert!(!asks(vec![message("user", Some("list the pods"))]));
    assert!(!asks(vec![message("assistant", Some("cpu"))]));
    assert!(!asks(vec![message("user", Some("cpu")), message("user", Some("pods"))]));
    assert!(asks(vec![message("user", Some("cpu")), message("user", None)]));
    assert!(!asks(vec![]));
    assert!(!names_resource_usage("CPU"));
    let mut parts = message("user", None);
    parts.content = Some(parse_json("[{\"text\":\"Memory?\"}]").unwrap());
    assert!(asks(vec![parts]));
}

#[test]
fn notices_metrics_that_nobody_asked_for() {
    let decision = |name: &str| PlannerDecision::ToolCalls {
        calls: vec![PlannerCall { name: name.to_string(), arguments: Json::Null }],
    };
    let idle = request(vec![message("user", Some("list the pods"))], false, false);
    let asked = request(vec![message("user", Some("pod cpu"))], false, false);
    assert!(is_unrequested_pod_metrics_call(&idle, &decision("pods_top")));
    assert!(!is_unrequested_pod_metrics_call(&asked, &decision("pods_top")));
    assert!(!is_unrequested_pod_metrics_call(&idle, &decision("pods_list")));
    let text = PlannerDecision::Final { content: "pods_top".to_string() };
    assert!(!is_unrequested_pod_metrics_call(&idle, &text));
}
