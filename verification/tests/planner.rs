use scut_ai_proxy::json::{import, parse_json, Json};
use scut_ai_proxy::openai::{
    ChatCompletionRequest, ChatMessage, Tool, ToolChoice, ToolChoiceFunction, ToolChoiceObject,
    ToolFunction,
};
use scut_ai_proxy::planner::{
    defers_tool_use, extract_json, frame_tool, has_json_span, judge_decision,
    looks_like_deferred_tool_use,
    parse_and_validate, planner_prompt, planner_request, response_tool_calls, should_plan,
    tool_result_count, validate_arguments, validate_parsed, PlannerCall, PlannerDecision,
    PlannerError, ONE_BITS, PROMPT_CHOICE, PROMPT_HEAD, PROMPT_RULES, ZERO_BITS,
};
use serde_json::Value;

fn tool_schema(name: &str) -> Tool {
    Tool {
        kind: "function".to_string(),
        function: ToolFunction {
            name: name.to_string(),
            description: None,
            parameters: parse_json(
                r#"{"type":"object","properties":{"city":{"type":"string"}},"required":["city"]}"#,
            )
            .unwrap(),
        },
    }
}

/// Reads the JSON of a decision.
fn read_decision(text: String) -> Result<PlannerDecision, String> {
    let value: Value = serde_json::from_str(&text).map_err(|error| error.to_string())?;
    match value["type"].as_str() {
        Some("tool_calls") => Ok(PlannerDecision::ToolCalls {
            calls: value["calls"]
                .as_array()
                .ok_or("no calls")?
                .iter()
                .map(|call| PlannerCall {
                    name: call["name"].as_str().unwrap_or_default().to_string(),
                    arguments: import(call["arguments"].clone()),
                })
                .collect(),
        }),
        Some("final") => Ok(PlannerDecision::Final {
            content: value["content"].as_str().unwrap_or_default().to_string(),
        }),
        _ => Err("unknown decision".to_string()),
    }
}

#[test]
fn validates_tool_call() {
    let tools = vec![tool_schema("get_weather")];
    let decision = parse_and_validate(
        r#"{"type":"tool_calls","calls":[{"name":"get_weather","arguments":{"city":"广州"}}]}"#,
        &tools,
        &Some(ToolChoice::String("auto".to_string())),
        read_decision,
    )
    .unwrap();
    assert!(matches!(decision, PlannerDecision::ToolCalls { .. }));
}

#[test]
fn rejects_missing_required() {
    let tools = vec![tool_schema("get_weather")];
    let err = parse_and_validate(
        r#"{"type":"tool_calls","calls":[{"name":"get_weather","arguments":{}}]}"#,
        &tools,
        &None,
        read_decision,
    )
    .unwrap_err();
    assert!(matches!(err, PlannerError::MissingRequired { .. }));
}

#[test]
fn respects_none_choice() {
    let req = ChatCompletionRequest {
        model: "m".to_string(),
        messages: vec![],
        stream: false,
        temperature: None,
        top_p: None,
        max_tokens: None,
        tools: Some(vec![tool_schema("x")]),
        tool_choice: Some(ToolChoice::String("none".to_string())),
    };
    assert!(!should_plan(&req));
}

#[test]
fn rejects_final_answer_that_defers_tool_call() {
    let tools = vec![tool_schema("nodes_top")];
    let err = parse_and_validate(
        r#"{"type":"final","content":"请稍等，我将调用工具 nodes_top 获取节点 CPU 信息。"}"#,
        &tools,
        &Some(ToolChoice::String("auto".to_string())),
        read_decision,
    )
    .unwrap_err();
    assert!(matches!(err, PlannerError::PrematureFinal));
}

#[test]
fn allows_final_answer_without_tool_promise() {
    let tools = vec![tool_schema("nodes_top")];
    let decision = parse_and_validate(
        r#"{"type":"final","content":"你好，我可以帮助你分析集群状态。"}"#,
        &tools,
        &Some(ToolChoice::String("auto".to_string())),
        read_decision,
    )
    .unwrap();
    assert!(matches!(decision, PlannerDecision::Final { .. }));
}

fn request(tools: Option<Vec<Tool>>, tool_choice: Option<ToolChoice>) -> ChatCompletionRequest {
    ChatCompletionRequest {
        model: "m".to_string(),
        messages: vec![],
        stream: true,
        temperature: None,
        top_p: None,
        max_tokens: None,
        tools,
        tool_choice,
    }
}

fn specific(name: &str) -> Option<ToolChoice> {
    Some(ToolChoice::Object(ToolChoiceObject {
        kind: "function".to_string(),
        function: ToolChoiceFunction { name: name.to_string() },
    }))
}

fn calls(names: &[&str]) -> PlannerDecision {
    PlannerDecision::ToolCalls {
        calls: names
            .iter()
            .map(|name| PlannerCall {
                name: name.to_string(),
                arguments: parse_json(r#"{"city":"x"}"#).unwrap(),
            })
            .collect(),
    }
}

fn answer(content: &str) -> PlannerDecision {
    PlannerDecision::Final { content: content.to_string() }
}

#[test]
fn plans_where_tools_are_offered() {
    assert!(should_plan(&request(Some(vec![tool_schema("x")]), None)));
    assert!(should_plan(&request(Some(vec![tool_schema("x")]), specific("none"))));
    assert!(!should_plan(&request(Some(vec![]), None)));
    assert!(!should_plan(&request(None, None)));
}

#[test]
fn counts_the_results_of_tools() {
    let mut asked = request(None, None);
    assert_eq!(tool_result_count(&asked), 0);
    for role in ["user", "tool", "assistant", "tool", "Tool"] {
        let mut message = ChatMessage::system("x".to_string());
        message.role = role.to_string();
        asked.messages.push(message);
    }
    assert_eq!(tool_result_count(&asked), 2);
}

#[test]
fn obeys_the_tool_choice() {
    let tools = vec![tool_schema("a"), tool_schema("b")];
    let required = Some(ToolChoice::String("required".to_string()));
    assert!(matches!(
        validate_parsed(Ok(answer("x")), &tools, &required),
        Err(PlannerError::RequiredToolCall)
    ));
    assert!(matches!(
        validate_parsed(Ok(calls(&[])), &tools, &required),
        Err(PlannerError::RequiredToolCall)
    ));
    assert!(validate_parsed(Ok(calls(&["a"])), &tools, &required).is_ok());
    match validate_parsed(Ok(calls(&["a"])), &tools, &specific("b")) {
        Err(PlannerError::SpecificToolRequired(name)) => assert_eq!(name, "b"),
        _ => panic!("the other tool is required"),
    }
    assert!(matches!(
        validate_parsed(Ok(answer("x")), &tools, &specific("b")),
        Err(PlannerError::SpecificToolRequired(_))
    ));
    assert!(validate_parsed(Ok(calls(&["a", "b"])), &tools, &specific("b")).is_ok());
}

#[test]
fn rejects_a_tool_that_is_not_offered() {
    match validate_parsed(Ok(calls(&["a", "c"])), &[tool_schema("a")], &None) {
        Err(PlannerError::UnknownTool(name)) => assert_eq!(name, "c"),
        _ => panic!("the tool is unknown"),
    }
}

#[test]
fn passes_on_what_the_parser_says() {
    match validate_parsed(Err("bad".to_string()), &[], &None) {
        Err(PlannerError::InvalidJson(source)) => assert_eq!(source, "bad"),
        _ => panic!("the parser failed"),
    }
    let result = parse_and_validate("nothing here", &[], &None, read_decision);
    assert_eq!(
        result.unwrap_err().message(),
        "planner output is not valid json: expected ident at line 1 column 2"
    );
}

#[test]
fn reads_a_plan_with_text_around_it() {
    let raw = "Sure:\n```json\n{\"type\":\"final\",\"content\":\"ok {}\"}\n```";
    match parse_and_validate(raw, &[], &None, read_decision) {
        Ok(PlannerDecision::Final { content }) => assert_eq!(content, "ok {}"),
        _ => panic!("the plan is there"),
    }
}

#[test]
fn finds_the_json_of_an_answer() {
    assert_eq!(extract_json(" a {\"x\": {}} b "), "{\"x\": {}}");
    assert_eq!(extract_json("  no braces "), "no braces");
    assert_eq!(extract_json("{ open"), "{ open");
    assert_eq!(extract_json("close }"), "close }");
    assert_eq!(extract_json("}{"), "");
    assert!(has_json_span("}{"));
    assert!(!has_json_span("} {"));
}

#[test]
fn checks_the_types_of_arguments() {
    let check = |schema: &str, arguments: &str| {
        let mut tool = tool_schema("t");
        tool.function.parameters = parse_json(schema).unwrap();
        validate_arguments(&tool, &parse_json(arguments).unwrap())
    };
    let of_type = |kind: &str, value: &str| {
        check(
            &format!("{{\"properties\":{{\"a\":{{\"type\":\"{kind}\"}}}}}}"),
            &format!("{{\"a\":{value}}}"),
        )
        .is_ok()
    };
    assert!(of_type("string", "\"x\"") && !of_type("string", "1"));
    assert!(of_type("number", "1.5") && of_type("number", "1") && !of_type("number", "\"1\""));
    assert!(of_type("integer", "1") && of_type("integer", "-1") && !of_type("integer", "1.5"));
    assert!(of_type("integer", "18446744073709551615"));
    assert!(of_type("boolean", "true") && !of_type("boolean", "null"));
    assert!(of_type("object", "{}") && !of_type("object", "[]"));
    assert!(of_type("array", "[]") && !of_type("array", "{}"));
    assert!(of_type("anything", "null"));
    assert!(check("{\"properties\":{\"a\":{\"type\":\"string\"}}}", "{}").is_ok());
    assert!(check("{\"required\":[1,\"a\"]}", "{\"a\":null}").is_ok());
    assert!(matches!(check("null", "[]"), Err(PlannerError::ArgumentsNotObject(_))));
    match check("{\"properties\":{\"a\":{\"type\":\"string\"}}}", "{\"a\":1}") {
        Err(PlannerError::TypeMismatch { tool, argument, expected }) => {
            assert_eq!((tool.as_str(), argument.as_str(), expected.as_str()), ("t", "a", "string"));
        }
        _ => panic!("the type is wrong"),
    }
}

#[test]
fn says_what_is_wrong_with_a_plan() {
    let text = |error: PlannerError| error.message();
    assert_eq!(text(PlannerError::InvalidJson("s".into())), "planner output is not valid json: s");
    assert_eq!(text(PlannerError::UnknownTool("t".into())), "requested tool is not available: t");
    assert_eq!(
        text(PlannerError::ArgumentsNotObject("t".into())),
        "tool arguments for t must be a json object"
    );
    assert_eq!(
        text(PlannerError::MissingRequired { tool: "t".into(), argument: "a".into() }),
        "tool t missing required argument a"
    );
    assert_eq!(
        text(PlannerError::TypeMismatch {
            tool: "t".into(),
            argument: "a".into(),
            expected: "e".into()
        }),
        "tool t argument a must be e"
    );
    assert_eq!(text(PlannerError::RequiredToolCall), "tool_choice requires a tool call");
    assert_eq!(text(PlannerError::SpecificToolRequired("t".into())), "tool_choice requires tool t");
    assert_eq!(
        text(PlannerError::PrematureFinal),
        "planner returned a final answer that promises tool use instead of returning tool_calls"
    );
}

#[test]
fn knows_a_promise_in_any_case() {
    let tools = vec![tool_schema("Nodes_Top")];
    assert!(looks_like_deferred_tool_use("I WILL CALL nodes_TOP", &tools));
    assert!(!looks_like_deferred_tool_use("I will call you", &tools));
    assert!(looks_like_deferred_tool_use("I'll use a tool", &[]));
    assert!(!looks_like_deferred_tool_use("nodes_top is a tool of the trade", &tools));
    assert!(!defers_tool_use("I WILL CALL a tool", &vec![]));
    assert!(defers_tool_use("i will call x", &vec!["x".to_string()]));
    assert!(!looks_like_deferred_tool_use("I will call x", &[tool_schema("")]));
}

#[test]
fn judges_a_text_by_its_promise() {
    assert!(judge_decision(&answer("x"), &[], &None, false).is_ok());
    assert!(matches!(
        judge_decision(&answer("x"), &[], &None, true),
        Err(PlannerError::PrematureFinal)
    ));
    let required = Some(ToolChoice::String("required".to_string()));
    assert!(matches!(
        judge_decision(&answer("x"), &[], &required, true),
        Err(PlannerError::RequiredToolCall)
    ));
}

#[test]
fn frames_a_tool() {
    assert_eq!(
        frame_tool("1", "2", "3", "{\n}"),
        "  {\n    \"type\": 1,\n    \"function\": {\n      \"name\": 2,\n      \"description\": 3,\n      \"parameters\": {\n      }\n    }\n  }"
    );
}

#[test]
fn answers_with_numbered_calls() {
    let answered = response_tool_calls(calls(&["a", "b"])).unwrap();
    assert_eq!(answered.len(), 2);
    assert_eq!(answered[0].id, "call_000000");
    assert_eq!(answered[1].id, "call_000001");
    assert_eq!(answered[1].kind, "function");
    assert_eq!(answered[1].function.name, "b");
    assert_eq!(answered[1].function.arguments, "{\"city\":\"x\"}");
    assert!(response_tool_calls(answer("x")).is_none());
}

#[test]
fn asks_in_these_words() {
    let expected = r#"You are a tool-call planner for an OpenAI-compatible API gateway.
Return only a single JSON object. Do not use markdown. Do not explain.

Available tools:
[]

tool_choice:
"auto"

If a tool should be called, return:
{"type":"tool_calls","calls":[{"name":"tool_name","arguments":{}}]}

If no tool is needed, return:
{"type":"final","content":"your final answer"}

Use only tool names from the available tools. Arguments must be a JSON object.
For tool_choice "auto", call a tool whenever the user asks to check, inspect, query,
search, list, diagnose, troubleshoot, verify current state, or use external/live
information. Do not answer that you will call a tool later; return tool_calls now.
Return "final" only when the user's request can be fully answered without any tool.
"#;
    let auto = Some(ToolChoice::String("auto".to_string()));
    assert_eq!(planner_prompt(&[], &auto, None), expected);
}

#[test]
fn describes_the_tools_in_the_prompt() {
    let mut plain = tool_schema("plain");
    plain.function.parameters = Json::Null;
    plain.function.description = Some("says \"hi\"".to_string());
    let tools = vec![tool_schema("get_weather"), plain];
    let expected = r#"[
  {
    "type": "function",
    "function": {
      "name": "get_weather",
      "description": null,
      "parameters": {
        "properties": {
          "city": {
            "type": "string"
          }
        },
        "required": [
          "city"
        ],
        "type": "object"
      }
    }
  },
  {
    "type": "function",
    "function": {
      "name": "plain",
      "description": "says \"hi\"",
      "parameters": null
    }
  }
]"#;
    assert_eq!(
        planner_prompt(&tools, &specific("plain"), Some("bad")),
        format!(
            "{PROMPT_HEAD}{expected}{PROMPT_CHOICE}{}{PROMPT_RULES}{}",
            "{\"type\":\"function\",\"function\":{\"name\":\"plain\"}}",
            "\nYour previous output was invalid: bad\nReturn only corrected JSON."
        )
    );
    assert_eq!(
        planner_prompt(&[], &None, None),
        format!("{PROMPT_HEAD}[]{PROMPT_CHOICE}null{PROMPT_RULES}")
    );
    assert!(planner_prompt(&[], &Some(ToolChoice::String("auto".to_string())), None)
        .contains("tool_choice:\n\"auto\"\n"));
}

#[test]
fn asks_for_a_plan() {
    let mut original = request(Some(vec![tool_schema("x")]), None);
    original.messages.push(ChatMessage::system("be brief".to_string()));
    let asked = planner_request(&original, Some("why"));
    assert_eq!(asked.model, "m");
    assert!(!asked.stream);
    assert_eq!(asked.temperature.map(f64::from_bits), Some(0.0));
    assert_eq!(asked.top_p.map(f64::from_bits), Some(1.0));
    assert_eq!((ZERO_BITS, ONE_BITS), (0.0f64.to_bits(), 1.0f64.to_bits()));
    assert_eq!(asked.max_tokens, Some(512));
    assert!(asked.tools.is_none() && asked.tool_choice.is_none());
    assert_eq!(asked.messages.len(), 2);
    assert_eq!(asked.messages[0].role, "system");
    let prompt = asked.messages[0].content.as_ref().and_then(Json::as_str).unwrap();
    assert!(prompt.contains("Your previous output was invalid: why"));
    assert_eq!(asked.messages[1].content.as_ref().and_then(Json::as_str), Some("be brief"));
    assert!(!should_plan(&asked));
}
