use scut_ai_proxy::json::{parse_json, Json};
use scut_ai_proxy::openai::{ChatCompletionRequest, ChatMessage, Tool, ToolFunction};
use scut_ai_proxy::plan::{PlanEnd, PlanProgress, PlanSession};
use scut_ai_proxy::planner::{PlannerCall, PlannerDecision, PlannerError};

fn tool(name: &str) -> Tool {
    Tool {
        kind: "function".to_string(),
        function: ToolFunction {
            name: name.to_string(),
            description: None,
            parameters: Json::Null,
        },
    }
}

fn message(role: &str, content: &str) -> ChatMessage {
    let mut message = ChatMessage::system(content.to_string());
    message.role = role.to_string();
    message
}

fn request(messages: Vec<ChatMessage>, stream: bool) -> ChatCompletionRequest {
    ChatCompletionRequest {
        model: "m".to_string(),
        messages,
        stream,
        temperature: None,
        top_p: None,
        max_tokens: None,
        tools: Some(vec![tool("pods_top"), tool("list")]),
        tool_choice: None,
    }
}

fn asked(stream: bool) -> ChatCompletionRequest {
    request(vec![message("user", "list the pods")], stream)
}

fn answered() -> ChatCompletionRequest {
    request(vec![message("user", "list the pods"), message("tool", "p1")], false)
}

fn call(name: &str) -> PlannerDecision {
    PlannerDecision::ToolCalls {
        calls: vec![PlannerCall {
            name: name.to_string(),
            arguments: parse_json("{}").unwrap(),
        }],
    }
}

fn text(content: &str) -> PlannerDecision {
    PlannerDecision::Final { content: content.to_string() }
}

fn begin(request: ChatCompletionRequest, attempts: usize) -> PlanSession {
    PlanSession::start(request, attempts, None, None).ok().unwrap()
}

/// The end in short: its mode, `chat`, or the error's status and message.
fn end(progress: PlanProgress) -> String {
    match progress {
        PlanProgress::Ask(_) => "ask".to_string(),
        PlanProgress::End(_, PlanEnd::Reply { decision, mode }) => match decision {
            PlannerDecision::ToolCalls { calls } => format!("{mode}: {}", calls[0].name),
            PlannerDecision::Final { content } => format!("{mode}: {content}"),
        },
        PlanProgress::End(_, PlanEnd::FinalChat) => "chat".to_string(),
        PlanProgress::End(_, PlanEnd::Fail(reply)) => {
            format!("{} {}", reply.status, reply.body.error.message)
        }
    }
}

fn parse(json: String) -> Result<PlannerDecision, String> {
    match json.as_str() {
        "{list}" => Ok(call("list")),
        "{drop}" => Ok(call("drop")),
        other => Err(format!("not read: {other}")),
    }
}

#[test]
fn needs_tools() {
    let mut bare = asked(false);
    bare.tools = None;
    let reply = PlanSession::start(bare, 1, None, None).err().unwrap();
    assert_eq!(reply.status, 400);
    assert_eq!(reply.body.error.message, "tools are required for tool planning");
    assert_eq!(reply.body.error.kind, "invalid_request_error");
    assert_eq!(reply.body.error.code, Some("missing_tools".to_string()));
}

#[test]
fn answers_a_valid_plan() {
    assert_eq!(end(begin(asked(false), 1).after(Ok(call("list")))), "tool_planner: list");
    assert_eq!(end(begin(asked(true), 1).after(Ok(call("list")))), "tool_planner_stream: list");
    assert_eq!(end(begin(asked(false), 1).after(Ok(text("hi")))), "tool_planner: hi");
    assert_eq!(end(begin(asked(false), 1).after(Ok(call("pods_top")))), "tool_planner: pods_top");
}

#[test]
fn chats_after_the_results_of_tools() {
    assert_eq!(end(begin(answered(), 1).after(Ok(text("hi")))), "chat");
    assert_eq!(end(begin(answered(), 1).after(Ok(call("pods_top")))), "chat");
    assert_eq!(end(begin(answered(), 1).after(Ok(call("list")))), "tool_planner: list");
    let mut usage = answered();
    usage.messages[0] = message("user", "cpu of the pods");
    assert_eq!(end(begin(usage, 1).after(Ok(call("pods_top")))), "tool_planner: pods_top");
    assert_eq!(end(begin(answered(), 0).after(Err(PlannerError::PrematureFinal))), "chat");
}

#[test]
fn decides_what_was_required_or_kept_in_reserve() {
    let start = |stream: bool| {
        PlanSession::start(asked(stream), 0, Some(call("list")), Some(text("sorry"))).ok().unwrap()
    };
    assert_eq!(end(start(false).after(Ok(text("hi")))), "tool_planner_required: list");
    assert_eq!(end(start(true).after(Ok(text("hi")))), "tool_planner_required_stream: list");
    assert_eq!(end(start(false).after(Ok(call("pods_top")))), "tool_planner: pods_top");
    assert_eq!(
        end(start(false).after(Err(PlannerError::RequiredToolCall))),
        "tool_planner_fallback: sorry"
    );
    assert_eq!(
        end(start(true).after(Err(PlannerError::RequiredToolCall))),
        "tool_planner_fallback_stream: sorry"
    );
}

#[test]
fn asks_once_more_than_it_repairs() {
    for attempts in 0..4 {
        let mut session = begin(asked(false), attempts);
        for attempt in 0..=attempts {
            match session.on_reply("<think>{x}</think>{drop}", parse) {
                PlanProgress::Ask(next) => {
                    assert!(attempt < attempts);
                    session = next;
                    let again = session.next_request();
                    let prompt = again.messages[0].content.as_ref().and_then(Json::as_str);
                    assert!(prompt.unwrap().contains(
                        "Your previous output was invalid: requested tool is not available: drop"
                    ));
                }
                progress => {
                    assert_eq!(attempt, attempts);
                    assert_eq!(
                        end(progress),
                        "502 tool planner failed: requested tool is not available: drop"
                    );
                    break;
                }
            }
        }
    }
}

#[test]
fn reads_the_planners_answer() {
    let session = begin(asked(false), 1);
    let first = session.next_request();
    let prompt = first.messages[0].content.as_ref().and_then(Json::as_str).unwrap();
    assert!(!prompt.contains("Your previous output was invalid"));
    match session.on_reply("Sure: {list} there.", parse) {
        PlanProgress::End(request, PlanEnd::Reply { mode, .. }) => {
            assert_eq!(mode, "tool_planner");
            assert_eq!(request.model, "m");
            assert_eq!(request.messages.len(), 1);
        }
        _ => panic!("the plan is valid"),
    }
    assert_eq!(
        end(begin(asked(false), 0).on_reply("{oops}", parse)),
        "502 tool planner failed: planner output is not valid json: not read: {oops}"
    );
}
