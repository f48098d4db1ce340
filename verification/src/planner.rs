//! Planning tool calls: the prompt that asks for a plan, and the rules that a
//! plan has to meet.

use crate::json::{Json, JsonModel, JsonObject};
use crate::openai::{
    ChatCompletionRequest, ChatMessage, MessageModel, RequestModel, ResponseToolCall,
    ResponseToolCallFunction, Tool, ToolCallModel, ToolChoice, ToolChoiceModel, ToolModel,
};
use crate::{chat3, json, openai, text, views};
use vstd::prelude::*;

verus! {

// ---------------------------------------------------------------------------
// Decisions and errors
// ---------------------------------------------------------------------------

/// What the planner decided.
#[derive(Debug)]
pub enum PlannerDecision {
    ToolCalls { calls: Vec<PlannerCall> },
    Final { content: String },
}

pub enum DecisionModel {
    ToolCalls(Seq<PlannerCallModel>),
    Final(Seq<char>),
}

impl DeepView for PlannerDecision {
    type V = DecisionModel;

    open spec fn deep_view(&self) -> DecisionModel {
        match self {
            PlannerDecision::ToolCalls { calls } => DecisionModel::ToolCalls(calls.deep_view()),
            PlannerDecision::Final { content } => DecisionModel::Final(content@),
        }
    }
}

/// A tool call that the planner wants.
#[derive(Debug)]
pub struct PlannerCall {
    pub name: String,
    pub arguments: Json,
}

pub struct PlannerCallModel {
    pub name: Seq<char>,
    pub arguments: JsonModel,
}

impl DeepView for PlannerCall {
    type V = PlannerCallModel;

    open spec fn deep_view(&self) -> PlannerCallModel {
        PlannerCallModel { name: self.name@, arguments: self.arguments.deep_view() }
    }
}

/// Why a plan was rejected.
#[derive(Debug)]
pub enum PlannerError {
    InvalidJson(String),
    UnknownTool(String),
    ArgumentsNotObject(String),
    MissingRequired { tool: String, argument: String },
    TypeMismatch { tool: String, argument: String, expected: String },
    RequiredToolCall,
    SpecificToolRequired(String),
    PrematureFinal,
}

pub enum PlannerErrorModel {
    InvalidJson(Seq<char>),
    UnknownTool(Seq<char>),
    ArgumentsNotObject(Seq<char>),
    MissingRequired { tool: Seq<char>, argument: Seq<char> },
    TypeMismatch { tool: Seq<char>, argument: Seq<char>, expected: Seq<char> },
    RequiredToolCall,
    SpecificToolRequired(Seq<char>),
    PrematureFinal,
}

impl DeepView for PlannerError {
    type V = PlannerErrorModel;

    open spec fn deep_view(&self) -> PlannerErrorModel {
        match self {
            PlannerError::InvalidJson(source) => PlannerErrorModel::InvalidJson(source@),
            PlannerError::UnknownTool(tool) => PlannerErrorModel::UnknownTool(tool@),
            PlannerError::ArgumentsNotObject(tool) => PlannerErrorModel::ArgumentsNotObject(tool@),
            PlannerError::MissingRequired { tool, argument } => PlannerErrorModel::MissingRequired {
                tool: tool@,
                argument: argument@,
            },
            PlannerError::TypeMismatch { tool, argument, expected } => {
                PlannerErrorModel::TypeMismatch {
                    tool: tool@,
                    argument: argument@,
                    expected: expected@,
                }
            },
            PlannerError::RequiredToolCall => PlannerErrorModel::RequiredToolCall,
            PlannerError::SpecificToolRequired(tool) => PlannerErrorModel::SpecificToolRequired(
                tool@,
            ),
            PlannerError::PrematureFinal => PlannerErrorModel::PrematureFinal,
        }
    }
}

impl PlannerErrorModel {
    /// The error in words.
    pub open spec fn message(self) -> Seq<char> {
        match self {
            PlannerErrorModel::InvalidJson(source) => "planner output is not valid json: "@
                + source,
            PlannerErrorModel::UnknownTool(tool) => "requested tool is not available: "@ + tool,
            PlannerErrorModel::ArgumentsNotObject(tool) => "tool arguments for "@ + tool
                + " must be a json object"@,
            PlannerErrorModel::MissingRequired { tool, argument } => "tool "@ + tool
                + " missing required argument "@ + argument,
            PlannerErrorModel::TypeMismatch { tool, argument, expected } => "tool "@ + tool
                + " argument "@ + argument + " must be "@ + expected,
            PlannerErrorModel::RequiredToolCall => "tool_choice requires a tool call"@,
            PlannerErrorModel::SpecificToolRequired(tool) => "tool_choice requires tool "@ + tool,
            PlannerErrorModel::PrematureFinal =>
                "planner returned a final answer that promises tool use instead of returning tool_calls"@,
        }
    }
}

impl PlannerError {
    /// The error in words.
    pub fn message(&self) -> (message: String)
        ensures
            message@ == self.deep_view().message(),
    {
        match self {
            PlannerError::InvalidJson(source) => {
                "planner output is not valid json: ".to_owned().concat(source.as_str())
            },
            PlannerError::UnknownTool(tool) => {
                "requested tool is not available: ".to_owned().concat(tool.as_str())
            },
            PlannerError::ArgumentsNotObject(tool) => {
                "tool arguments for ".to_owned().concat(tool.as_str()).concat(
                    " must be a json object",
                )
            },
            PlannerError::MissingRequired { tool, argument } => {
                "tool ".to_owned().concat(tool.as_str()).concat(
                    " missing required argument ",
                ).concat(argument.as_str())
            },
            PlannerError::TypeMismatch { tool, argument, expected } => {
                "tool ".to_owned().concat(tool.as_str()).concat(" argument ").concat(
                    argument.as_str(),
                ).concat(" must be ").concat(expected.as_str())
            },
            PlannerError::RequiredToolCall => "tool_choice requires a tool call".to_owned(),
            PlannerError::SpecificToolRequired(tool) => {
                "tool_choice requires tool ".to_owned().concat(tool.as_str())
            },
            PlannerError::PrematureFinal =>
                "planner returned a final answer that promises tool use instead of returning tool_calls".to_owned(),
        }
    }
}

// ---------------------------------------------------------------------------
// When to plan
// ---------------------------------------------------------------------------

/// Tools are offered, and the client has not ruled them out.
pub open spec fn wants_plan(request: RequestModel) -> bool {
    (request.tools matches Some(tools) && tools.len() > 0) && request.tool_choice != Some(
        ToolChoiceModel::String("none"@),
    )
}

/// Whether the request is answered by planning tool calls.
pub fn should_plan(request: &ChatCompletionRequest) -> (plan: bool)
    ensures
        plan == wants_plan(request.deep_view()),
{
    let offered = match &request.tools {
        Some(tools) => tools.len() > 0,
        None => false,
    };
    let ruled_out = match &request.tool_choice {
        Some(ToolChoice::String(choice)) => text::same_text(choice.as_str(), "none"),
        _ => false,
    };
    offered && !ruled_out
}

/// How many of the messages are results of tools.
pub open spec fn count_tool_results(messages: Seq<MessageModel>) -> nat
    decreases messages.len(),
{
    if messages.len() == 0 {
        0
    } else {
        count_tool_results(messages.drop_last()) + (if messages.last().role == "tool"@ {
            1nat
        } else {
            0nat
        })
    }
}

/// How many results of tools the conversation holds.
pub fn tool_result_count(request: &ChatCompletionRequest) -> (count: usize)
    ensures
        count == count_tool_results(request.deep_view().messages),
{
    let ghost all = request.messages.deep_view();
    let mut count: usize = 0;
    let mut i: usize = 0;
    while i < request.messages.len()
        invariant
            i <= request.messages@.len(),
            all == request.messages.deep_view(),
            count <= i,
            count == count_tool_results(all.take(i as int)),
        decreases request.messages@.len() - i,
    {
        assert(all.take(i + 1).drop_last() =~= all.take(i as int));
        if text::same_text(request.messages[i].role.as_str(), "tool") {
            count = count + 1;
        }
        i = i + 1;
    }
    assert(all.take(i as int) =~= all);
    count
}

// ---------------------------------------------------------------------------
// The rules for a plan
// ---------------------------------------------------------------------------

/// The tool with this name: the last one, where several have it.
pub open spec fn tool_named(tools: Seq<ToolModel>, name: Seq<char>) -> Option<ToolModel>
    decreases tools.len(),
{
    if tools.len() == 0 {
        None
    } else if tools.last().function.name == name {
        Some(tools.last())
    } else {
        tool_named(tools.drop_last(), name)
    }
}

/// The first required argument, from position `from` on, that is not given.
/// What is no text in the list of the required ones is passed over.
pub open spec fn missing_argument(
    required: Seq<JsonModel>,
    given: Seq<(Seq<char>, JsonModel)>,
    from: int,
) -> Option<Seq<char>>
    decreases required.len() - from,
{
    if from < 0 || from >= required.len() {
        None
    } else {
        match required[from] {
            JsonModel::Text(name) => if json::lookup_from(given, name, 0) is None {
                Some(name)
            } else {
                missing_argument(required, given, from + 1)
            },
            _ => missing_argument(required, given, from + 1),
        }
    }
}

/// The value is of the type that a schema names. A type of another name is
/// not checked.
pub open spec fn has_type(value: JsonModel, expected: Seq<char>) -> bool {
    if expected == "string"@ {
        value is Text
    } else if expected == "number"@ {
        value is Number
    } else if expected == "integer"@ {
        match value {
            JsonModel::Number { signed, unsigned, .. } => signed is Some || unsigned is Some,
            _ => false,
        }
    } else if expected == "boolean"@ {
        value is Bool
    } else if expected == "object"@ {
        value is Object
    } else if expected == "array"@ {
        value is List
    } else {
        true
    }
}

/// The first argument, in the order of the schema's properties from position
/// `from` on, that is given but not of its type; with that type.
pub open spec fn mistyped_argument(
    properties: Seq<(Seq<char>, JsonModel)>,
    given: Seq<(Seq<char>, JsonModel)>,
    from: int,
) -> Option<(Seq<char>, Seq<char>)>
    decreases properties.len() - from,
{
    if from < 0 || from >= properties.len() {
        None
    } else {
        let name = properties[from].0;
        match (json::lookup_from(given, name, 0), chat3::member_text(properties[from].1, "type"@)) {
            (Some(value), Some(expected)) => if has_type(value, expected) {
                mistyped_argument(properties, given, from + 1)
            } else {
                Some((name, expected))
            },
            _ => mistyped_argument(properties, given, from + 1),
        }
    }
}

/// What is wrong with the arguments of a call, if anything is: they are no
/// object, a required one is missing, or one is not of its type.
pub open spec fn arguments_error(tool: ToolModel, arguments: JsonModel) -> Option<PlannerErrorModel> {
    let name = tool.function.name;
    match arguments {
        JsonModel::Object(given) => {
            let missing = match tool.function.parameters.get("required"@) {
                Some(JsonModel::List(required)) => missing_argument(required, given, 0),
                _ => None,
            };
            let mistyped = match tool.function.parameters.get("properties"@) {
                Some(JsonModel::Object(properties)) => mistyped_argument(properties, given, 0),
                _ => None,
            };
            match missing {
                Some(argument) => Some(
                    PlannerErrorModel::MissingRequired { tool: name, argument },
                ),
                None => match mistyped {
                    Some((argument, expected)) => Some(
                        PlannerErrorModel::TypeMismatch { tool: name, argument, expected },
                    ),
                    None => None,
                },
            }
        },
        _ => Some(PlannerErrorModel::ArgumentsNotObject(name)),
    }
}

/// What is wrong with one call, if anything is.
pub open spec fn call_error(call: PlannerCallModel, tools: Seq<ToolModel>) -> Option<PlannerErrorModel> {
    match tool_named(tools, call.name) {
        Some(tool) => arguments_error(tool, call.arguments),
        None => Some(PlannerErrorModel::UnknownTool(call.name)),
    }
}

/// What is wrong with the first wrong call, from position `from` on.
pub open spec fn calls_error(
    calls: Seq<PlannerCallModel>,
    tools: Seq<ToolModel>,
    from: int,
) -> Option<PlannerErrorModel>
    decreases calls.len() - from,
{
    if from < 0 || from >= calls.len() {
        None
    } else {
        match call_error(calls[from], tools) {
            Some(error) => Some(error),
            None => calls_error(calls, tools, from + 1),
        }
    }
}

/// One of the calls is of the tool with this name.
pub open spec fn calls_tool(calls: Seq<PlannerCallModel>, name: Seq<char>) -> bool {
    exists|i: int| 0 <= i < calls.len() && (#[trigger] calls[i]).name == name
}

/// What the client's tool choice has against a decision, if anything.
pub open spec fn choice_error(
    decision: DecisionModel,
    choice: Option<ToolChoiceModel>,
) -> Option<PlannerErrorModel> {
    match choice {
        Some(ToolChoiceModel::String(word)) => {
            if word == "required"@ && !(decision matches DecisionModel::ToolCalls(calls)
                && calls.len() > 0) {
                Some(PlannerErrorModel::RequiredToolCall)
            } else {
                None
            }
        },
        Some(ToolChoiceModel::Object { name, .. }) => {
            if decision matches DecisionModel::ToolCalls(calls) && calls_tool(calls, name) {
                None
            } else {
                Some(PlannerErrorModel::SpecificToolRequired(name))
            }
        },
        None => None,
    }
}

/// The phrases with which an answer promises to use a tool later.
pub open spec fn deferred_markers() -> Seq<Seq<char>> {
    seq![
        "i will call"@,
        "i'll call"@,
        "i will use"@,
        "i'll use"@,
        "i will query"@,
        "i'll query"@,
        "i will check"@,
        "i'll check"@,
        "need to call"@,
        "need to use"@,
        "need to query"@,
        "calling tool"@,
        "call tool"@,
        "use tool"@,
        "query tool"@,
        "tool:"@,
        "tool："@,
        "调用工具"@,
        "调用 "@,
        "使用工具"@,
        "查询工具"@,
        "我将"@,
        "我会"@,
        "需要先"@,
        "请稍等"@,
        "正在查询"@,
        "将查询"@,
        "先查询"@,
    ]
}

/// One of the phrases stands in the text.
pub open spec fn contains_any(content: Seq<char>, phrases: Seq<Seq<char>>) -> bool {
    exists|i: int|
        0 <= i < phrases.len() && text::contains_text(content, #[trigger] phrases[i])
}

/// One of the names that are not empty stands in the text.
pub open spec fn holds_name(content: Seq<char>, names: Seq<Seq<char>>) -> bool {
    exists|i: int|
        0 <= i < names.len() && (#[trigger] names[i]).len() > 0 && text::contains_text(
            content,
            names[i],
        )
}

/// A text promises to use a tool later: it holds one of the phrases, and speaks
/// of a tool. The text and the names of the tools are in lower case.
pub open spec fn promises_tool(normalized: Seq<char>, names: Seq<Seq<char>>) -> bool {
    contains_any(normalized, deferred_markers()) && (holds_name(normalized, names)
        || text::contains_text(normalized, "tool"@) || text::contains_text(normalized, "工具"@))
}

/// The names of the tools, in lower case.
pub open spec fn lowercase_names(tools: Seq<ToolModel>) -> Seq<Seq<char>> {
    Seq::new(tools.len(), |i: int| text::lowercase(tools[i].function.name))
}

/// An answer promises to use a tool later, whatever the case of its letters.
pub open spec fn defers_tools(content: Seq<char>, tools: Seq<ToolModel>) -> bool {
    promises_tool(text::lowercase(content), lowercase_names(tools))
}

/// What is wrong with a decision, if anything is. The client's tool choice
/// speaks first. `deferred` says whether a text promises to use a tool later.
pub open spec fn fault_of(
    decision: DecisionModel,
    tools: Seq<ToolModel>,
    choice: Option<ToolChoiceModel>,
    deferred: bool,
) -> Option<PlannerErrorModel> {
    match choice_error(decision, choice) {
        Some(error) => Some(error),
        None => match decision {
            DecisionModel::Final(_) => if deferred {
                Some(PlannerErrorModel::PrematureFinal)
            } else {
                None
            },
            DecisionModel::ToolCalls(calls) => calls_error(calls, tools, 0),
        },
    }
}

/// What is wrong with a decision, if anything is.
pub open spec fn decision_error(
    decision: DecisionModel,
    tools: Seq<ToolModel>,
    choice: Option<ToolChoiceModel>,
) -> Option<PlannerErrorModel> {
    fault_of(
        decision,
        tools,
        choice,
        decision matches DecisionModel::Final(content) && defers_tools(content, tools),
    )
}

/// The tool with this name.
fn find_tool<'a>(tools: &'a [Tool], name: &str) -> (tool: Option<&'a Tool>)
    ensures
        tool.deep_view() == tool_named(views::slice_view(tools@), name@),
{
    let ghost all = views::slice_view(tools@);
    let mut i: usize = tools.len();
    assert(all.take(i as int) =~= all);
    while i > 0
        invariant
            i <= tools@.len(),
            all == views::slice_view(tools@),
            tool_named(all, name@) == tool_named(all.take(i as int), name@),
        decreases i,
    {
        i = i - 1;
        assert(all.take(i + 1).drop_last() =~= all.take(i as int));
        if text::same_text(tools[i].function.name.as_str(), name) {
            return Some(&tools[i]);
        }
    }
    None
}

/// Whether a value is of the type that a schema names.
fn is_of_type(value: &Json, expected: &str) -> (ok: bool)
    ensures
        ok == has_type(value.deep_view(), expected@),
{
    if text::same_text(expected, "string") {
        matches!(value, Json::String(_))
    } else if text::same_text(expected, "number") {
        matches!(value, Json::Number(_))
    } else if text::same_text(expected, "integer") {
        match value {
            Json::Number(number) => number.as_i64().is_some() || number.as_u64().is_some(),
            _ => false,
        }
    } else if text::same_text(expected, "boolean") {
        matches!(value, Json::Bool(_))
    } else if text::same_text(expected, "object") {
        matches!(value, Json::Object(_))
    } else if text::same_text(expected, "array") {
        matches!(value, Json::Array(_))
    } else {
        true
    }
}

/// The first required argument that is not given.
fn find_missing(required: &Vec<Json>, given: &JsonObject) -> (missing: Option<String>)
    ensures
        missing.deep_view() == missing_argument(required.deep_view(), given.model(), 0),
{
    let ghost all = required.deep_view();
    let mut i: usize = 0;
    while i < required.len()
        invariant
            i <= required@.len(),
            all == required.deep_view(),
            missing_argument(all, given.model(), 0) == missing_argument(
                all,
                given.model(),
                i as int,
            ),
        decreases required@.len() - i,
    {
        if let Json::String(name) = &required[i] {
            if given.get(name.as_str()).is_none() {
                return Some(name.clone());
            }
        }
        i = i + 1;
    }
    None
}

/// The first argument that is given but not of its type; with that type.
fn find_mistyped(properties: &JsonObject, given: &JsonObject) -> (mistyped: Option<
    (String, String),
>)
    ensures
        mistyped.deep_view() == mistyped_argument(properties.model(), given.model(), 0),
{
    let mut i: usize = 0;
    while i < properties.len()
        invariant
            i <= properties.model().len(),
            mistyped_argument(properties.model(), given.model(), 0) == mistyped_argument(
                properties.model(),
                given.model(),
                i as int,
            ),
        decreases properties.model().len() - i,
    {
        let name = properties.key_at(i);
        if let Some(value) = given.get(name.as_str()) {
            if let Some(kind) = properties.value_at(i).get("type") {
                if let Some(expected) = kind.as_str() {
                    if !is_of_type(value, expected) {
                        return Some((name.clone(), expected.to_owned()));
                    }
                }
            }
        }
        i = i + 1;
    }
    None
}

/// Checks the arguments of a call against the schema of the tool.
pub fn validate_arguments(tool: &Tool, arguments: &Json) -> (result: Result<(), PlannerError>)
    ensures
        match result {
            Ok(()) => arguments_error(tool.deep_view(), arguments.deep_view()) is None,
            Err(error) => arguments_error(tool.deep_view(), arguments.deep_view()) == Some(
                error.deep_view(),
            ),
        },
{
    let given = match arguments {
        Json::Object(given) => given,
        _ => {
            return Err(PlannerError::ArgumentsNotObject(tool.function.name.clone()));
        },
    };
    let parameters = &tool.function.parameters;
    if let Some(Json::Array(required)) = parameters.get("required") {
        assert(required.deep_view() =~= parameters.deep_view().get("required"@)->0->List_0);
        if let Some(argument) = find_missing(required, given) {
            return Err(
                PlannerError::MissingRequired { tool: tool.function.name.clone(), argument },
            );
        }
    }
    if let Some(Json::Object(properties)) = parameters.get("properties") {
        if let Some((argument, expected)) = find_mistyped(properties, given) {
            return Err(
                PlannerError::TypeMismatch {
                    tool: tool.function.name.clone(),
                    argument,
                    expected,
                },
            );
        }
    }
    Ok(())
}

/// The phrases with which an answer promises to use a tool later.
fn deferred_marker_list() -> (markers: Vec<&'static str>)
    ensures
        markers.deep_view() == deferred_markers(),
{
    let markers: Vec<&'static str> = vec![
        "i will call",
        "i'll call",
        "i will use",
        "i'll use",
        "i will query",
        "i'll query",
        "i will check",
        "i'll check",
        "need to call",
        "need to use",
        "need to query",
        "calling tool",
        "call tool",
        "use tool",
        "query tool",
        "tool:",
        "tool：",
        "调用工具",
        "调用 ",
        "使用工具",
        "查询工具",
        "我将",
        "我会",
        "需要先",
        "请稍等",
        "正在查询",
        "将查询",
        "先查询",
    ];
    assert(markers.deep_view() =~= deferred_markers());
    markers
}

/// Whether one of the phrases stands in the text.
pub fn holds_any(content: &str, phrases: &Vec<&'static str>) -> (found: bool)
    ensures
        found == contains_any(content@, phrases.deep_view()),
{
    let ghost all = phrases.deep_view();
    let mut i: usize = 0;
    while i < phrases.len()
        invariant
            i <= phrases@.len(),
            all == phrases.deep_view(),
            forall|k: int| 0 <= k < i ==> !text::contains_text(content@, #[trigger] all[k]),
        decreases phrases@.len() - i,
    {
        if text::text_contains(content, phrases[i]) {
            assert(text::contains_text(content@, all[i as int]));
            return true;
        }
        i = i + 1;
    }
    false
}

/// Whether a text promises to use a tool later. The text and the names of the
/// tools are in lower case.
pub fn defers_tool_use(normalized: &str, names: &Vec<String>) -> (deferred: bool)
    ensures
        deferred == promises_tool(normalized@, names.deep_view()),
{
    if !holds_any(normalized, &deferred_marker_list()) {
        return false;
    }
    let ghost all = names.deep_view();
    let mut i: usize = 0;
    while i < names.len()
        invariant
            i <= names@.len(),
            all == names.deep_view(),
            contains_any(normalized@, deferred_markers()),
            forall|k: int|
                0 <= k < i ==> !((#[trigger] all[k]).len() > 0 && text::contains_text(
                    normalized@,
                    all[k],
                )),
        decreases names@.len() - i,
    {
        let name = names[i].as_str();
        assert(all[i as int] == name@);
        if !name.is_empty() && text::text_contains(normalized, name) {
            assert(holds_name(normalized@, all));
            return true;
        }
        i = i + 1;
    }
    assert(!holds_name(normalized@, all));
    text::text_contains(normalized, "tool") || text::text_contains(normalized, "工具")
}

/// Whether an answer promises to use a tool later.
pub fn looks_like_deferred_tool_use(content: &str, tools: &[Tool]) -> (deferred: bool)
    ensures
        deferred == defers_tools(content@, views::slice_view(tools@)),
{
    let mut names: Vec<String> = Vec::new();
    let mut i: usize = 0;
    while i < tools.len()
        invariant
            i <= tools@.len(),
            names@.len() == i,
            forall|k: int|
                0 <= k < i ==> (#[trigger] names@[k])@ == text::lowercase(
                    tools@[k].function.name@,
                ),
        decreases tools@.len() - i,
    {
        names.push(text::to_lowercase(tools[i].function.name.as_str()));
        i = i + 1;
    }
    assert(names.deep_view() =~= lowercase_names(views::slice_view(tools@)));
    defers_tool_use(text::to_lowercase(content).as_str(), &names)
}

/// Whether one of the calls is of the tool with this name.
pub fn has_call_of(calls: &Vec<PlannerCall>, name: &str) -> (found: bool)
    ensures
        found == calls_tool(calls.deep_view(), name@),
{
    let ghost all = calls.deep_view();
    let mut i: usize = 0;
    while i < calls.len()
        invariant
            i <= calls@.len(),
            all == calls.deep_view(),
            forall|k: int| 0 <= k < i ==> (#[trigger] all[k]).name != name@,
        decreases calls@.len() - i,
    {
        if text::same_text(calls[i].name.as_str(), name) {
            assert(all[i as int].name == name@);
            return true;
        }
        i = i + 1;
    }
    false
}

/// Holds a decision against the client's tool choice.
fn check_choice(decision: &PlannerDecision, choice: &Option<ToolChoice>) -> (result: Result<
    (),
    PlannerError,
>)
    ensures
        match result {
            Ok(()) => choice_error(decision.deep_view(), choice.deep_view()) is None,
            Err(error) => choice_error(decision.deep_view(), choice.deep_view()) == Some(
                error.deep_view(),
            ),
        },
{
    match choice {
        Some(ToolChoice::String(word)) => {
            let satisfied = match decision {
                PlannerDecision::ToolCalls { calls } => calls.len() > 0,
                PlannerDecision::Final { .. } => false,
            };
            if text::same_text(word.as_str(), "required") && !satisfied {
                return Err(PlannerError::RequiredToolCall);
            }
            Ok(())
        },
        Some(ToolChoice::Object(object)) => {
            let satisfied = match decision {
                PlannerDecision::ToolCalls { calls } => {
                    has_call_of(calls, object.function.name.as_str())
                },
                PlannerDecision::Final { .. } => false,
            };
            if !satisfied {
                return Err(PlannerError::SpecificToolRequired(object.function.name.clone()));
            }
            Ok(())
        },
        None => Ok(()),
    }
}

/// Checks a decision against the offered tools and the client's tool choice.
pub fn validate_decision(
    decision: &PlannerDecision,
    tools: &[Tool],
    choice: &Option<ToolChoice>,
) -> (result: Result<(), PlannerError>)
    ensures
        match result {
            Ok(()) => decision_error(
                decision.deep_view(),
                views::slice_view(tools@),
                choice.deep_view(),
            ) is None,
            Err(error) => decision_error(
                decision.deep_view(),
                views::slice_view(tools@),
                choice.deep_view(),
            ) == Some(error.deep_view()),
        },
{
    let deferred = match decision {
        PlannerDecision::Final { content } => {
            looks_like_deferred_tool_use(content.as_str(), tools)
        },
        PlannerDecision::ToolCalls { .. } => false,
    };
    judge_decision(decision, tools, choice, deferred)
}

/// Checks a decision of which it is known whether it promises to use a tool
/// later.
pub fn judge_decision(
    decision: &PlannerDecision,
    tools: &[Tool],
    choice: &Option<ToolChoice>,
    deferred: bool,
) -> (result: Result<(), PlannerError>)
    ensures
        match result {
            Ok(()) => fault_of(
                decision.deep_view(),
                views::slice_view(tools@),
                choice.deep_view(),
                deferred,
            ) is None,
            Err(error) => fault_of(
                decision.deep_view(),
                views::slice_view(tools@),
                choice.deep_view(),
                deferred,
            ) == Some(error.deep_view()),
        },
{
    if let Err(error) = check_choice(decision, choice) {
        return Err(error);
    }
    match decision {
        PlannerDecision::Final { .. } => {
            if deferred {
                return Err(PlannerError::PrematureFinal);
            }
            Ok(())
        },
        PlannerDecision::ToolCalls { calls } => {
            let ghost all = calls.deep_view();
            let ghost offered = views::slice_view(tools@);
            let mut i: usize = 0;
            while i < calls.len()
                invariant
                    i <= calls@.len(),
                    all == calls.deep_view(),
                    offered == views::slice_view(tools@),
                    decision.deep_view() == DecisionModel::ToolCalls(all),
                    choice_error(decision.deep_view(), choice.deep_view()) is None,
                    calls_error(all, offered, 0) == calls_error(all, offered, i as int),
                decreases calls@.len() - i,
            {
                let call = &calls[i];
                assert(all[i as int] == call.deep_view());
                match find_tool(tools, call.name.as_str()) {
                    Some(tool) => {
                        if let Err(error) = validate_arguments(tool, &call.arguments) {
                            return Err(error);
                        }
                    },
                    None => {
                        return Err(PlannerError::UnknownTool(call.name.clone()));
                    },
                }
                i = i + 1;
            }
            Ok(())
        },
    }
}

// ---------------------------------------------------------------------------
// Reading a plan
// ---------------------------------------------------------------------------

/// The last position of a character.
pub open spec fn last_position(chars: Seq<char>, c: char) -> Option<int>
    decreases chars.len(),
{
    if chars.len() == 0 {
        None
    } else if chars.last() == c {
        Some(chars.len() - 1)
    } else {
        last_position(chars.drop_last(), c)
    }
}

/// The opening brace of the trimmed text, if there is one, does not stand
/// further behind its last closing brace than right behind it.
pub open spec fn braces_in_order(raw: Seq<char>) -> bool {
    match (text::find(text::trim(raw), seq!['{']), last_position(text::trim(raw), '}')) {
        (Some(start), Some(end)) => start <= end + 1,
        _ => true,
    }
}

/// What stands from the first opening brace to the last closing brace; the
/// trimmed text where one of them is missing.
pub open spec fn json_span(raw: Seq<char>) -> Seq<char> {
    let trimmed = text::trim(raw);
    match (text::find(trimmed, seq!['{']), last_position(trimmed, '}')) {
        (Some(start), Some(end)) => trimmed.subrange(start, end + 1),
        _ => trimmed,
    }
}

proof fn lemma_last_position(chars: Seq<char>, c: char)
    ensures
        last_position(chars, c) matches Some(at) ==> 0 <= at < chars.len() && chars[at] == c,
    decreases chars.len(),
{
    if chars.len() > 0 && chars.last() != c {
        lemma_last_position(chars.drop_last(), c);
    }
}

/// Where the first opening and the last closing brace stand.
fn find_braces(chars: &[char]) -> (braces: (Option<usize>, Option<usize>))
    ensures
        match braces.0 {
            Some(start) => text::find(chars@, seq!['{']) == Some(start as int) && start
                < chars@.len(),
            None => text::find(chars@, seq!['{']) is None,
        },
        match braces.1 {
            Some(end) => last_position(chars@, '}') == Some(end as int) && end < chars@.len(),
            None => last_position(chars@, '}') is None,
        },
{
    let opening: [char; 1] = ['{'];
    assert(opening@ =~= seq!['{']);
    proof {
        text::lemma_find_from(chars@, seq!['{'], 0);
        lemma_last_position(chars@, '}');
    }
    let start = text::position_from(chars, opening.as_slice(), 0);
    let mut i: usize = chars.len();
    assert(chars@.take(i as int) =~= chars@);
    while i > 0
        invariant
            i <= chars@.len(),
            last_position(chars@, '}') == last_position(chars@.take(i as int), '}'),
            match start {
                Some(s) => text::find(chars@, seq!['{']) == Some(s as int) && s < chars@.len(),
                None => text::find(chars@, seq!['{']) is None,
            },
        decreases i,
    {
        i = i - 1;
        assert(chars@.take(i + 1).drop_last() =~= chars@.take(i as int));
        if chars[i] == '}' {
            return (start, Some(i));
        }
    }
    (start, None)
}

/// Whether the span from the first opening to the last closing brace of a
/// text exists, or one of the braces is missing.
pub fn has_json_span(raw: &str) -> (ok: bool)
    ensures
        ok == braces_in_order(raw@),
{
    let chars = text::chars_of(text::trimmed(raw).as_str());
    match find_braces(chars.as_slice()) {
        (Some(start), Some(end)) => start <= end || start - end == 1,
        _ => true,
    }
}

/// The part of an answer that should be JSON.
pub fn extract_json(raw: &str) -> (span: String)
    requires
        braces_in_order(raw@),
    ensures
        span@ == json_span(raw@),
{
    let trimmed = text::trimmed(raw);
    let chars = text::chars_of(trimmed.as_str());
    let len: usize = chars.len();
    match find_braces(chars.as_slice()) {
        (Some(start), Some(end)) => {
            assert(end < len);
            text::text_of(chars.as_slice(), start, end + 1)
        },
        _ => trimmed,
    }
}

/// The JSON of a decision is found in an answer that says something before it
/// or behind it, as long as it does so without braces of the same kind.
pub proof fn law_json_is_found(before: Seq<char>, object: Seq<char>, after: Seq<char>)
    requires
        object.len() >= 2,
        object[0] == '{',
        object.last() == '}',
        !before.contains('{'),
        !after.contains('}'),
    ensures
        braces_in_order(before + object + after),
        json_span(before + object + after) == object,
{
    text::lemma_trim_around(before, object, after);
    let front = text::trim_start(before);
    let back = text::trim_end(after);
    let trimmed = front + object + back;
    let start = front.len() as int;
    assert(trimmed.subrange(start, start + 1) =~= seq!['{']);
    assert forall|i: int| 0 <= i < start implies !text::occurs_at(trimmed, seq!['{'], i) by {
        assert(trimmed[i] == before[before.len() - start + i]);
        assert(before.contains(before[before.len() - start + i]));
        if text::occurs_at(trimmed, seq!['{'], i) {
            assert(trimmed.subrange(i, i + 1)[0] == '{');
        }
    }
    text::lemma_find_is(trimmed, seq!['{'], start);
    assert forall|i: int| 0 <= i < back.len() implies back[i] != '}' by {
        assert(after.contains(after[i]));
    }
    lemma_last_position_before(front + object, back, '}');
    assert(trimmed.subrange(start, start + object.len()) =~= object);
}

proof fn lemma_last_position_before(chars: Seq<char>, behind: Seq<char>, c: char)
    requires
        chars.len() > 0,
        chars.last() == c,
        forall|i: int| 0 <= i < behind.len() ==> #[trigger] behind[i] != c,
    ensures
        last_position(chars + behind, c) == Some(chars.len() - 1),
    decreases behind.len(),
{
    if behind.len() == 0 {
        assert(chars + behind =~= chars);
    } else {
        assert((chars + behind).last() == behind[behind.len() - 1]);
        assert((chars + behind).drop_last() =~= chars + behind.drop_last());
        lemma_last_position_before(chars, behind.drop_last(), c);
    }
}

/// What reading and checking a plan comes to.
pub open spec fn outcome(
    parsed: Result<DecisionModel, Seq<char>>,
    tools: Seq<ToolModel>,
    choice: Option<ToolChoiceModel>,
) -> Result<DecisionModel, PlannerErrorModel> {
    match parsed {
        Ok(decision) => match decision_error(decision, tools, choice) {
            Some(error) => Err(error),
            None => Ok(decision),
        },
        Err(source) => Err(PlannerErrorModel::InvalidJson(source)),
    }
}

/// Checks a plan that has been read, or has failed to be read with a message.
pub fn validate_parsed(
    parsed: Result<PlannerDecision, String>,
    tools: &[Tool],
    choice: &Option<ToolChoice>,
) -> (result: Result<PlannerDecision, PlannerError>)
    ensures
        views::result_view(result) == outcome(
            views::result_view(parsed),
            views::slice_view(tools@),
            choice.deep_view(),
        ),
{
    match parsed {
        Ok(decision) => match validate_decision(&decision, tools, choice) {
            Ok(()) => Ok(decision),
            Err(error) => Err(error),
        },
        Err(source) => Err(PlannerError::InvalidJson(source)),
    }
}

/// Reads a plan out of an answer and checks it. `parse` reads the JSON of a
/// decision; it is given the part of the answer that should be JSON.
pub fn parse_and_validate<F: Fn(String) -> Result<PlannerDecision, String>>(
    raw: &str,
    tools: &[Tool],
    choice: &Option<ToolChoice>,
    parse: F,
) -> (result: Result<PlannerDecision, PlannerError>)
    requires
        braces_in_order(raw@),
        forall|span: String| span@ == json_span(raw@) ==> call_requires(parse, (span,)),
    ensures
        exists|span: String, parsed: Result<PlannerDecision, String>|
            {
                &&& span@ == json_span(raw@)
                &&& #[trigger] call_ensures(parse, (span,), parsed)
                &&& views::result_view(result) == outcome(
                    views::result_view(parsed),
                    views::slice_view(tools@),
                    choice.deep_view(),
                )
            },
{
    let span = extract_json(raw);
    let parsed = parse(span);
    validate_parsed(parsed, tools, choice)
}

// ---------------------------------------------------------------------------
// Answering with tool calls
// ---------------------------------------------------------------------------

/// The identity of the tool call at a position.
pub open spec fn call_id(position: int) -> Seq<char> {
    "call_"@ + text::zero_padded(text::decimal(position), 6)
}

/// A planned call as it is answered.
pub open spec fn answered_call(call: PlannerCallModel, position: int) -> ToolCallModel {
    ToolCallModel {
        id: call_id(position),
        kind: "function"@,
        name: call.name,
        arguments: match json::json_compact(call.arguments) {
            Some(arguments) => arguments,
            None => "{}"@,
        },
    }
}

/// The planned calls as they are answered.
pub open spec fn answered_calls(calls: Seq<PlannerCallModel>) -> Seq<ToolCallModel> {
    Seq::new(calls.len(), |i: int| answered_call(calls[i], i))
}

/// The tool calls that a decision answers with.
pub fn response_tool_calls(decision: PlannerDecision) -> (calls: Option<Vec<ResponseToolCall>>)
    ensures
        calls.deep_view() == (match decision.deep_view() {
            DecisionModel::ToolCalls(planned) => Some(answered_calls(planned)),
            DecisionModel::Final(_) => None,
        }),
{
    match decision {
        PlannerDecision::ToolCalls { calls } => Some(tool_calls_of(calls)),
        PlannerDecision::Final { .. } => None,
    }
}

/// The planned calls as they are answered.
pub fn tool_calls_of(calls: Vec<PlannerCall>) -> (answered: Vec<ResponseToolCall>)
    ensures
        answered.deep_view() == answered_calls(calls.deep_view()),
{
    let ghost whole = calls@;
    let mut answered: Vec<ResponseToolCall> = Vec::new();
    for call in it: calls
        invariant
            it.seq() == whole,
            answered@.len() == it.index(),
            forall|k: int|
                0 <= k < it.index() ==> (#[trigger] answered@[k]).deep_view() == answered_call(
                    whole[k].deep_view(),
                    k,
                ),
    {
        let arguments = match json::compact_text(&call.arguments) {
            Some(arguments) => arguments,
            None => "{}".to_owned(),
        };
        let id = "call_".to_owned().concat(text::padded_text(answered.len(), 6).as_str());
        answered.push(
            ResponseToolCall {
                id,
                kind: "function".to_owned(),
                function: ResponseToolCallFunction { name: call.name, arguments },
            },
        );
    }
    assert(answered.deep_view() =~= answered_calls(calls.deep_view()));
    answered
}

// ---------------------------------------------------------------------------
// The prompt
// ---------------------------------------------------------------------------

/// A text with `pad` behind each of its line feeds.
pub open spec fn indented(chars: Seq<char>, pad: Seq<char>) -> Seq<char>
    decreases chars.len(),
{
    if chars.len() == 0 {
        Seq::empty()
    } else if chars.last() == '\n' {
        indented(chars.drop_last(), pad) + seq!['\n'] + pad
    } else {
        indented(chars.drop_last(), pad).push(chars.last())
    }
}

/// The JSON text of a tool whose parts have these JSON texts, as an item of a
/// list over several lines.
pub open spec fn framed_tool(
    kind: Seq<char>,
    name: Seq<char>,
    description: Seq<char>,
    parameters: Seq<char>,
) -> Seq<char> {
    "  {\n    \"type\": "@ + kind + ",\n    \"function\": {\n      \"name\": "@ + name
        + ",\n      \"description\": "@ + description + ",\n      \"parameters\": "@ + indented(
        parameters,
        "      "@,
    ) + "\n    }\n  }"@
}

/// The JSON text of a tool, as an item of a list over several lines.
pub open spec fn tool_spec(tool: ToolModel) -> Option<Seq<char>> {
    let description = match tool.function.description {
        Some(description) => json::json_pretty(JsonModel::Text(description)),
        None => json::json_pretty(JsonModel::Null),
    };
    match (
        json::json_pretty(JsonModel::Text(tool.kind)),
        json::json_pretty(JsonModel::Text(tool.function.name)),
        description,
        json::json_pretty(tool.function.parameters),
    ) {
        (Some(kind), Some(name), Some(description), Some(parameters)) => Some(
            framed_tool(kind, name, description, parameters),
        ),
        _ => None,
    }
}

/// The JSON texts of the tools, if all of them have one.
pub open spec fn each_tool_spec(tools: Seq<ToolModel>) -> Option<Seq<Seq<char>>>
    decreases tools.len(),
{
    if tools.len() == 0 {
        Some(Seq::empty())
    } else {
        match (each_tool_spec(tools.drop_last()), tool_spec(tools.last())) {
            (Some(before), Some(last)) => Some(before.push(last)),
            _ => None,
        }
    }
}

/// The JSON text of the list of tools, over several lines.
pub open spec fn tool_specs(tools: Seq<ToolModel>) -> Seq<char> {
    match each_tool_spec(tools) {
        Some(specs) => if specs.len() == 0 {
            "[]"@
        } else {
            "[\n"@ + text::join(specs, ",\n"@) + "\n]"@
        },
        None => "[]"@,
    }
}

/// The JSON text of the tool choice.
pub open spec fn choice_spec(choice: Option<ToolChoiceModel>) -> Seq<char> {
    match choice {
        None => "null"@,
        Some(ToolChoiceModel::String(word)) => match json::json_compact(JsonModel::Text(word)) {
            Some(word) => word,
            None => "null"@,
        },
        Some(ToolChoiceModel::Object { kind, name }) => match (
            json::json_compact(JsonModel::Text(kind)),
            json::json_compact(JsonModel::Text(name)),
        ) {
            (Some(kind), Some(name)) => "{\"type\":"@ + kind + ",\"function\":{\"name\":"@ + name
                + "}}"@,
            _ => "null"@,
        },
    }
}

/// What the prompt says about an earlier output that was rejected.
pub open spec fn repair_note(repair: Option<Seq<char>>) -> Seq<char> {
    match repair {
        Some(error) => "\nYour previous output was invalid: "@ + error
            + "\nReturn only corrected JSON."@,
        None => Seq::empty(),
    }
}

/// The prompt up to the list of tools.
pub const PROMPT_HEAD: &'static str = "You are a tool-call planner for an OpenAI-compatible API gateway.\nReturn only a single JSON object. Do not use markdown. Do not explain.\n\nAvailable tools:\n";

/// The prompt between the list of tools and the tool choice.
pub const PROMPT_CHOICE: &'static str = "\n\ntool_choice:\n";

/// The prompt behind the tool choice.
pub const PROMPT_RULES: &'static str = "\n\nIf a tool should be called, return:\n{\"type\":\"tool_calls\",\"calls\":[{\"name\":\"tool_name\",\"arguments\":{}}]}\n\nIf no tool is needed, return:\n{\"type\":\"final\",\"content\":\"your final answer\"}\n\nUse only tool names from the available tools. Arguments must be a JSON object.\nFor tool_choice \"auto\", call a tool whenever the user asks to check, inspect, query,\nsearch, list, diagnose, troubleshoot, verify current state, or use external/live\ninformation. Do not answer that you will call a tool later; return tool_calls now.\nReturn \"final\" only when the user's request can be fully answered without any tool.\n";

/// The prompt that asks for a plan.
pub open spec fn prompt(
    tools: Seq<ToolModel>,
    choice: Option<ToolChoiceModel>,
    repair: Option<Seq<char>>,
) -> Seq<char> {
    PROMPT_HEAD@ + tool_specs(tools) + PROMPT_CHOICE@ + choice_spec(choice) + PROMPT_RULES@
        + repair_note(repair)
}

/// A text with `pad` behind each of its line feeds.
fn indent(lines: &str, pad: &str) -> (result: String)
    ensures
        result@ == indented(lines@, pad@),
{
    let chars = text::chars_of(lines);
    let mut result = String::new();
    let mut i: usize = 0;
    while i < chars.len()
        invariant
            i <= chars@.len(),
            chars@ == lines@,
            result@ == indented(lines@.take(i as int), pad@),
        decreases chars@.len() - i,
    {
        assert(lines@.take(i + 1).drop_last() =~= lines@.take(i as int));
        result.push(chars[i]);
        if chars[i] == '\n' {
            result.append(pad);
        }
        assert(result@ =~= indented(lines@.take(i + 1), pad@));
        i = i + 1;
    }
    assert(lines@.take(i as int) =~= lines@);
    result
}

/// The JSON text of a text, where a value stands over several lines.
fn pretty_string(chars: &String) -> (result: Option<String>)
    ensures
        result.deep_view() == json::json_pretty(JsonModel::Text(chars@)),
{
    json::pretty_text(&Json::String(chars.clone()))
}

/// The JSON text of a text.
fn compact_string(chars: &String) -> (result: Option<String>)
    ensures
        result.deep_view() == json::json_compact(JsonModel::Text(chars@)),
{
    json::compact_text(&Json::String(chars.clone()))
}

/// The JSON text of a tool.
fn spec_of_tool(tool: &Tool) -> (result: Option<String>)
    ensures
        result.deep_view() == tool_spec(tool.deep_view()),
{
    let description = match &tool.function.description {
        Some(description) => pretty_string(description),
        None => json::pretty_text(&Json::Null),
    };
    match (
        pretty_string(&tool.kind),
        pretty_string(&tool.function.name),
        description,
        json::pretty_text(&tool.function.parameters),
    ) {
        (Some(kind), Some(name), Some(description), Some(parameters)) => Some(
            frame_tool(
                kind.as_str(),
                name.as_str(),
                description.as_str(),
                parameters.as_str(),
            ),
        ),
        _ => None,
    }
}

/// The JSON text of a tool whose parts have these JSON texts.
pub fn frame_tool(kind: &str, name: &str, description: &str, parameters: &str) -> (result: String)
    ensures
        result@ == framed_tool(kind@, name@, description@, parameters@),
{
    let mut result = "  {\n    \"type\": ".to_owned();
    result.append(kind);
    result.append(",\n    \"function\": {\n      \"name\": ");
    result.append(name);
    result.append(",\n      \"description\": ");
    result.append(description);
    result.append(",\n      \"parameters\": ");
    result.append(indent(parameters, "      ").as_str());
    result.append("\n    }\n  }");
    result
}

/// The JSON text of the list of tools.
fn specs_of_tools(tools: &[Tool]) -> (result: String)
    ensures
        result@ == tool_specs(views::slice_view(tools@)),
{
    let ghost all = views::slice_view(tools@);
    let mut specs: Vec<String> = Vec::new();
    let mut complete = true;
    let mut i: usize = 0;
    while i < tools.len()
        invariant
            i <= tools@.len(),
            all == views::slice_view(tools@),
            match each_tool_spec(all.take(i as int)) {
                Some(texts) => complete && specs.deep_view() == texts,
                None => !complete,
            },
        decreases tools@.len() - i,
    {
        assert(all.take(i + 1).drop_last() =~= all.take(i as int));
        let ghost before = specs.deep_view();
        match spec_of_tool(&tools[i]) {
            Some(spec_text) => {
                specs.push(spec_text);
                assert(specs.deep_view() =~= before.push(spec_text@));
            },
            None => {
                complete = false;
            },
        }
        i = i + 1;
    }
    assert(all.take(i as int) =~= all);
    if !complete || specs.len() == 0 {
        "[]".to_owned()
    } else {
        let mut result = "[\n".to_owned();
        result.append(text::joined(&specs, ",\n").as_str());
        result.append("\n]");
        result
    }
}

/// The JSON text of the tool choice.
fn spec_of_choice(choice: &Option<ToolChoice>) -> (result: String)
    ensures
        result@ == choice_spec(choice.deep_view()),
{
    match choice {
        None => "null".to_owned(),
        Some(ToolChoice::String(word)) => match compact_string(word) {
            Some(word) => word,
            None => "null".to_owned(),
        },
        Some(ToolChoice::Object(object)) => match (
            compact_string(&object.kind),
            compact_string(&object.function.name),
        ) {
            (Some(kind), Some(name)) => {
                let mut result = "{\"type\":".to_owned();
                result.append(kind.as_str());
                result.append(",\"function\":{\"name\":");
                result.append(name.as_str());
                result.append("}}");
                result
            },
            _ => "null".to_owned(),
        },
    }
}

/// The prompt that asks for a plan.
pub fn planner_prompt(tools: &[Tool], choice: &Option<ToolChoice>, repair: Option<&str>) -> (result:
    String)
    ensures
        result@ == prompt(views::slice_view(tools@), choice.deep_view(), repair.deep_view()),
{
    let mut result = PROMPT_HEAD.to_owned();
    result.append(specs_of_tools(tools).as_str());
    result.append(PROMPT_CHOICE);
    result.append(spec_of_choice(choice).as_str());
    result.append(PROMPT_RULES);
    if let Some(error) = repair {
        result.append("\nYour previous output was invalid: ");
        result.append(error);
        result.append("\nReturn only corrected JSON.");
    }
    assert(result@ =~= prompt(
        views::slice_view(tools@),
        choice.deep_view(),
        repair.deep_view(),
    ));
    result
}

/// The tools of a request; none where it offers none.
pub open spec fn offered_tools(request: RequestModel) -> Seq<ToolModel> {
    match request.tools {
        Some(tools) => tools,
        None => Seq::empty(),
    }
}

/// The bits of the IEEE 754 double 0.
pub const ZERO_BITS: u64 = 0;

/// The bits of the IEEE 754 double 1.
pub const ONE_BITS: u64 = 0x3FF0_0000_0000_0000;

/// The request that asks for a plan: the prompt, then the conversation.
pub open spec fn plan_request(original: RequestModel, repair: Option<Seq<char>>) -> RequestModel {
    RequestModel {
        model: original.model,
        messages: seq![
            openai::text_message(
                "system"@,
                prompt(offered_tools(original), original.tool_choice, repair),
            ),
        ] + original.messages,
        stream: false,
        temperature: Some(ZERO_BITS),
        top_p: Some(ONE_BITS),
        max_tokens: Some(512),
        tools: None,
        tool_choice: None,
    }
}

/// The request that asks for a plan. After an output that was rejected,
/// `repair` says why.
pub fn planner_request(original: &ChatCompletionRequest, repair: Option<&str>) -> (request:
    ChatCompletionRequest)
    ensures
        request.deep_view() == plan_request(original.deep_view(), repair.deep_view()),
{
    let no_tools: Vec<Tool> = Vec::new();
    let tools: &Vec<Tool> = match &original.tools {
        Some(tools) => tools,
        None => &no_tools,
    };
    assert(views::slice_view(tools@) =~= offered_tools(original.deep_view()));
    let system = ChatMessage::system(
        planner_prompt(tools.as_slice(), &original.tool_choice, repair),
    );
    let ghost first = system.deep_view();
    let mut messages: Vec<ChatMessage> = Vec::new();
    messages.push(system);
    let mut i: usize = 0;
    while i < original.messages.len()
        invariant
            i <= original.messages@.len(),
            messages@.len() == i + 1,
            messages@[0].deep_view() == first,
            forall|k: int|
                0 < k <= i ==> (#[trigger] messages@[k]).deep_view() == original.messages@[k
                    - 1].deep_view(),
        decreases original.messages@.len() - i,
    {
        messages.push(original.messages[i].clone());
        i = i + 1;
    }
    assert(messages.deep_view() =~= seq![first] + original.messages.deep_view());
    ChatCompletionRequest {
        model: original.model.clone(),
        messages,
        stream: false,
        temperature: Some(ZERO_BITS),
        top_p: Some(ONE_BITS),
        max_tokens: Some(512),
        tools: None,
        tool_choice: None,
    }
}

// ---------------------------------------------------------------------------
// Laws
// ---------------------------------------------------------------------------

/// A request that asks for a plan is itself not answered by planning.
pub proof fn law_plan_request_is_not_planned(original: RequestModel, repair: Option<Seq<char>>)
    ensures
        !wants_plan(plan_request(original, repair)),
{
}

/// An accepted plan calls only tools that are offered, each with the
/// arguments that it requires and none of a wrong type.
pub proof fn law_accepted_calls_are_valid(
    calls: Seq<PlannerCallModel>,
    tools: Seq<ToolModel>,
    choice: Option<ToolChoiceModel>,
)
    requires
        decision_error(DecisionModel::ToolCalls(calls), tools, choice) is None,
    ensures
        forall|i: int|
            0 <= i < calls.len() ==> {
                &&& tool_named(tools, (#[trigger] calls[i]).name) is Some
                &&& arguments_error(
                    tool_named(tools, calls[i].name)->0,
                    calls[i].arguments,
                ) is None
            },
{
    assert forall|i: int| 0 <= i < calls.len() implies call_error(
        #[trigger] calls[i],
        tools,
    ) is None by {
        lemma_no_calls_error(calls, tools, 0, i);
    }
}

proof fn lemma_no_calls_error(
    calls: Seq<PlannerCallModel>,
    tools: Seq<ToolModel>,
    from: int,
    at: int,
)
    requires
        0 <= from <= at < calls.len(),
        calls_error(calls, tools, from) is None,
    ensures
        call_error(calls[at], tools) is None,
    decreases at - from,
{
    if from < at {
        lemma_no_calls_error(calls, tools, from + 1, at);
    }
}

/// Arguments without a fault are an object that holds every required argument.
pub proof fn law_required_arguments_are_given(
    tool: ToolModel,
    arguments: JsonModel,
    required: Seq<JsonModel>,
    at: int,
)
    requires
        arguments_error(tool, arguments) is None,
        tool.function.parameters.get("required"@) == Some(JsonModel::List(required)),
        0 <= at < required.len(),
        required[at] is Text,
    ensures
        arguments is Object,
        arguments.get(required[at]->Text_0) is Some,
{
    lemma_none_missing(required, arguments->Object_0, 0, at);
}

proof fn lemma_none_missing(
    required: Seq<JsonModel>,
    given: Seq<(Seq<char>, JsonModel)>,
    from: int,
    at: int,
)
    requires
        0 <= from <= at < required.len(),
        missing_argument(required, given, from) is None,
        required[at] is Text,
    ensures
        json::lookup_from(given, required[at]->Text_0, 0) is Some,
    decreases at - from,
{
    if from < at {
        lemma_none_missing(required, given, from + 1, at);
    }
}

/// Arguments without a fault are of the types that the schema names.
pub proof fn law_given_arguments_have_their_type(
    tool: ToolModel,
    arguments: JsonModel,
    properties: Seq<(Seq<char>, JsonModel)>,
    at: int,
    value: JsonModel,
    expected: Seq<char>,
)
    requires
        arguments_error(tool, arguments) is None,
        tool.function.parameters.get("properties"@) == Some(JsonModel::Object(properties)),
        0 <= at < properties.len(),
        arguments.get(properties[at].0) == Some(value),
        chat3::member_text(properties[at].1, "type"@) == Some(expected),
    ensures
        has_type(value, expected),
{
    lemma_none_mistyped(properties, arguments->Object_0, 0, at);
}

proof fn lemma_none_mistyped(
    properties: Seq<(Seq<char>, JsonModel)>,
    given: Seq<(Seq<char>, JsonModel)>,
    from: int,
    at: int,
)
    requires
        0 <= from <= at < properties.len(),
        mistyped_argument(properties, given, from) is None,
    ensures
        match (
            json::lookup_from(given, properties[at].0, 0),
            chat3::member_text(properties[at].1, "type"@),
        ) {
            (Some(value), Some(expected)) => has_type(value, expected),
            _ => true,
        },
    decreases at - from,
{
    if from < at {
        lemma_none_mistyped(properties, given, from + 1, at);
    }
}

/// Where the client requires a tool call, an accepted plan has one; where it
/// requires one tool, an accepted plan calls it.
pub proof fn law_tool_choice_is_obeyed(
    decision: DecisionModel,
    tools: Seq<ToolModel>,
    choice: Option<ToolChoiceModel>,
)
    requires
        decision_error(decision, tools, choice) is None,
    ensures
        choice == Some(ToolChoiceModel::String("required"@)) ==> (decision matches
            DecisionModel::ToolCalls(calls) && calls.len() > 0),
        choice matches Some(ToolChoiceModel::Object { name, .. }) ==> (decision matches
            DecisionModel::ToolCalls(calls) && calls_tool(calls, name)),
{
}

/// A tool that is found is one of the offered ones and has the name.
pub proof fn law_tool_named_is_offered(tools: Seq<ToolModel>, name: Seq<char>)
    ensures
        tool_named(tools, name) matches Some(tool) ==> tools.contains(tool) && tool.function.name
            == name,
        tool_named(tools, name) is None ==> forall|i: int|
            0 <= i < tools.len() ==> (#[trigger] tools[i]).function.name != name,
    decreases tools.len(),
{
    if tools.len() > 0 && tools.last().function.name != name {
        law_tool_named_is_offered(tools.drop_last(), name);
        if let Some(tool) = tool_named(tools.drop_last(), name) {
            let i = choose|i: int| 0 <= i < tools.drop_last().len() && tools.drop_last()[i] == tool;
            assert(tools[i] == tool);
        } else {
            assert forall|i: int| 0 <= i < tools.len() implies (
            #[trigger] tools[i]).function.name != name by {
                if i < tools.len() - 1 {
                    assert(tools.drop_last()[i] == tools[i]);
                }
            }
        }
    }
}

/// The tool calls of one answer have different identities.
pub proof fn law_call_ids_differ(a: int, b: int)
    requires
        0 <= a,
        0 <= b,
        call_id(a) == call_id(b),
    ensures
        a == b,
{
    let pa = text::zero_padded(text::decimal(a), 6);
    let pb = text::zero_padded(text::decimal(b), 6);
    let prefix = "call_"@;
    assert(call_id(a).skip(prefix.len() as int) =~= pa);
    assert(call_id(b).skip(prefix.len() as int) =~= pb);
    text::lemma_digits_read_back(a as nat);
    text::lemma_digits_read_back(b as nat);
    text::lemma_zero_padded_value(text::decimal(a), 6);
    text::lemma_zero_padded_value(text::decimal(b), 6);
}

} // verus!
