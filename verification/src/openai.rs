//! The messages of the OpenAI chat-completions protocol.

use crate::json::{Json, JsonModel};
use vstd::prelude::*;

verus! {

// ---------------------------------------------------------------------------
// Requests
// ---------------------------------------------------------------------------

/// A request for a chat completion. A temperature or a `top_p` is held as the
/// bits of its IEEE 754 double.
#[derive(Debug)]
pub struct ChatCompletionRequest {
    pub model: String,
    pub messages: Vec<ChatMessage>,
    pub stream: bool,
    pub temperature: Option<u64>,
    pub top_p: Option<u64>,
    pub max_tokens: Option<u64>,
    pub tools: Option<Vec<Tool>>,
    pub tool_choice: Option<ToolChoice>,
}

pub struct RequestModel {
    pub model: Seq<char>,
    pub messages: Seq<MessageModel>,
    pub stream: bool,
    pub temperature: Option<u64>,
    pub top_p: Option<u64>,
    pub max_tokens: Option<u64>,
    pub tools: Option<Seq<ToolModel>>,
    pub tool_choice: Option<ToolChoiceModel>,
}

impl DeepView for ChatCompletionRequest {
    type V = RequestModel;

    open spec fn deep_view(&self) -> RequestModel {
        RequestModel {
            model: self.model@,
            messages: self.messages.deep_view(),
            stream: self.stream,
            temperature: self.temperature,
            top_p: self.top_p,
            max_tokens: self.max_tokens,
            tools: self.tools.deep_view(),
            tool_choice: self.tool_choice.deep_view(),
        }
    }
}

/// One message of a conversation.
#[derive(Debug)]
pub struct ChatMessage {
    pub role: String,
    pub content: Option<Json>,
    pub name: Option<String>,
    pub tool_call_id: Option<String>,
    pub tool_calls: Option<Vec<ResponseToolCall>>,
}

pub struct MessageModel {
    pub role: Seq<char>,
    pub content: Option<JsonModel>,
    pub name: Option<Seq<char>>,
    pub tool_call_id: Option<Seq<char>>,
    pub tool_calls: Option<Seq<ToolCallModel>>,
}

impl DeepView for ChatMessage {
    type V = MessageModel;

    open spec fn deep_view(&self) -> MessageModel {
        MessageModel {
            role: self.role@,
            content: self.content.deep_view(),
            name: self.name.deep_view(),
            tool_call_id: self.tool_call_id.deep_view(),
            tool_calls: self.tool_calls.deep_view(),
        }
    }
}

/// A message that holds a text and nothing else.
pub open spec fn text_message(role: Seq<char>, content: Seq<char>) -> MessageModel {
    MessageModel {
        role,
        content: Some(JsonModel::Text(content)),
        name: None,
        tool_call_id: None,
        tool_calls: None,
    }
}

impl ChatMessage {
    /// A system message.
    pub fn system(content: String) -> (message: Self)
        ensures
            message.deep_view() == text_message("system"@, content@),
    {
        ChatMessage {
            role: "system".to_owned(),
            content: Some(Json::String(content)),
            name: None,
            tool_call_id: None,
            tool_calls: None,
        }
    }
}

/// A copy of an optional text.
pub fn copy_text(text: &Option<String>) -> (copy: Option<String>)
    ensures
        copy.deep_view() == text.deep_view(),
{
    match text {
        Some(value) => Some(value.clone()),
        None => None,
    }
}

/// A copy of a list of tool calls.
fn copy_tool_calls(calls: &Vec<ResponseToolCall>) -> (copies: Vec<ResponseToolCall>)
    ensures
        copies.deep_view() == calls.deep_view(),
{
    let mut copies: Vec<ResponseToolCall> = Vec::new();
    let mut i: usize = 0;
    while i < calls.len()
        invariant
            i <= calls@.len(),
            copies@.len() == i,
            forall|k: int|
                0 <= k < i ==> (#[trigger] copies@[k]).deep_view() == calls@[k].deep_view(),
        decreases calls@.len() - i,
    {
        copies.push(calls[i].clone());
        i = i + 1;
    }
    assert(copies.deep_view() =~= calls.deep_view());
    copies
}

impl Clone for ChatMessage {
    fn clone(&self) -> (copy: Self)
        ensures
            copy.deep_view() == self.deep_view(),
    {
        ChatMessage {
            role: self.role.clone(),
            content: match &self.content {
                Some(content) => Some(content.clone()),
                None => None,
            },
            name: copy_text(&self.name),
            tool_call_id: copy_text(&self.tool_call_id),
            tool_calls: match &self.tool_calls {
                Some(calls) => Some(copy_tool_calls(calls)),
                None => None,
            },
        }
    }
}

/// A tool that the client offers.
#[derive(Debug)]
pub struct Tool {
    pub kind: String,
    pub function: ToolFunction,
}

pub struct ToolModel {
    pub kind: Seq<char>,
    pub function: ToolFunctionModel,
}

impl DeepView for Tool {
    type V = ToolModel;

    open spec fn deep_view(&self) -> ToolModel {
        ToolModel { kind: self.kind@, function: self.function.deep_view() }
    }
}

/// The function of a tool, with the schema of its parameters.
#[derive(Debug)]
pub struct ToolFunction {
    pub name: String,
    pub description: Option<String>,
    pub parameters: Json,
}

pub struct ToolFunctionModel {
    pub name: Seq<char>,
    pub description: Option<Seq<char>>,
    pub parameters: JsonModel,
}

impl DeepView for ToolFunction {
    type V = ToolFunctionModel;

    open spec fn deep_view(&self) -> ToolFunctionModel {
        ToolFunctionModel {
            name: self.name@,
            description: self.description.deep_view(),
            parameters: self.parameters.deep_view(),
        }
    }
}

/// Which tool the client wants to be called.
#[derive(Debug)]
pub enum ToolChoice {
    String(String),
    Object(ToolChoiceObject),
}

pub enum ToolChoiceModel {
    String(Seq<char>),
    Object { kind: Seq<char>, name: Seq<char> },
}

impl DeepView for ToolChoice {
    type V = ToolChoiceModel;

    open spec fn deep_view(&self) -> ToolChoiceModel {
        match self {
            ToolChoice::String(word) => ToolChoiceModel::String(word@),
            ToolChoice::Object(object) => ToolChoiceModel::Object {
                kind: object.kind@,
                name: object.function.name@,
            },
        }
    }
}

/// The choice of one tool by its name.
#[derive(Debug)]
pub struct ToolChoiceObject {
    pub kind: String,
    pub function: ToolChoiceFunction,
}

#[derive(Debug)]
pub struct ToolChoiceFunction {
    pub name: String,
}

// ---------------------------------------------------------------------------
// Responses
// ---------------------------------------------------------------------------

/// The whole answer to a request.
#[derive(Debug)]
pub struct ChatCompletionResponse {
    pub id: String,
    pub object: String,
    pub created: i64,
    pub model: String,
    pub choices: Vec<ChatChoice>,
}

pub struct ResponseModel {
    pub id: Seq<char>,
    pub object: Seq<char>,
    pub created: i64,
    pub model: Seq<char>,
    pub choices: Seq<ChoiceModel>,
}

impl DeepView for ChatCompletionResponse {
    type V = ResponseModel;

    open spec fn deep_view(&self) -> ResponseModel {
        ResponseModel {
            id: self.id@,
            object: self.object@,
            created: self.created,
            model: self.model@,
            choices: self.choices.deep_view(),
        }
    }
}

#[derive(Debug)]
pub struct ChatChoice {
    pub index: u32,
    pub message: ChatMessage,
    pub finish_reason: String,
}

pub struct ChoiceModel {
    pub index: u32,
    pub message: MessageModel,
    pub finish_reason: Seq<char>,
}

impl DeepView for ChatChoice {
    type V = ChoiceModel;

    open spec fn deep_view(&self) -> ChoiceModel {
        ChoiceModel {
            index: self.index,
            message: self.message.deep_view(),
            finish_reason: self.finish_reason@,
        }
    }
}

/// A call of a tool that the client is asked to make.
#[derive(Debug)]
pub struct ResponseToolCall {
    pub id: String,
    pub kind: String,
    pub function: ResponseToolCallFunction,
}

pub struct ToolCallModel {
    pub id: Seq<char>,
    pub kind: Seq<char>,
    pub name: Seq<char>,
    pub arguments: Seq<char>,
}

impl DeepView for ResponseToolCall {
    type V = ToolCallModel;

    open spec fn deep_view(&self) -> ToolCallModel {
        ToolCallModel {
            id: self.id@,
            kind: self.kind@,
            name: self.function.name@,
            arguments: self.function.arguments@,
        }
    }
}

impl Clone for ResponseToolCall {
    fn clone(&self) -> (copy: Self)
        ensures
            copy.deep_view() == self.deep_view(),
    {
        ResponseToolCall {
            id: self.id.clone(),
            kind: self.kind.clone(),
            function: ResponseToolCallFunction {
                name: self.function.name.clone(),
                arguments: self.function.arguments.clone(),
            },
        }
    }
}

#[derive(Debug)]
pub struct ResponseToolCallFunction {
    pub name: String,
    pub arguments: String,
}

/// One piece of an answer that is sent as a stream.
#[derive(Debug)]
pub struct ChatCompletionChunk {
    pub id: String,
    pub object: String,
    pub created: i64,
    pub model: String,
    pub choices: Vec<ChatChunkChoice>,
}

pub struct ChunkModel {
    pub id: Seq<char>,
    pub object: Seq<char>,
    pub created: i64,
    pub model: Seq<char>,
    pub choices: Seq<ChunkChoiceModel>,
}

impl DeepView for ChatCompletionChunk {
    type V = ChunkModel;

    open spec fn deep_view(&self) -> ChunkModel {
        ChunkModel {
            id: self.id@,
            object: self.object@,
            created: self.created,
            model: self.model@,
            choices: self.choices.deep_view(),
        }
    }
}

#[derive(Debug)]
pub struct ChatChunkChoice {
    pub index: u32,
    pub delta: ChatChunkDelta,
    pub finish_reason: Option<String>,
}

pub struct ChunkChoiceModel {
    pub index: u32,
    pub delta: DeltaModel,
    pub finish_reason: Option<Seq<char>>,
}

impl DeepView for ChatChunkChoice {
    type V = ChunkChoiceModel;

    open spec fn deep_view(&self) -> ChunkChoiceModel {
        ChunkChoiceModel {
            index: self.index,
            delta: self.delta.deep_view(),
            finish_reason: self.finish_reason.deep_view(),
        }
    }
}

/// What a piece adds to the answer.
#[derive(Debug)]
pub struct ChatChunkDelta {
    pub role: Option<String>,
    pub content: Option<String>,
    pub tool_calls: Option<Vec<ChatChunkToolCall>>,
}

pub struct DeltaModel {
    pub role: Option<Seq<char>>,
    pub content: Option<Seq<char>>,
    pub tool_calls: Option<Seq<ChunkToolCallModel>>,
}

impl DeepView for ChatChunkDelta {
    type V = DeltaModel;

    open spec fn deep_view(&self) -> DeltaModel {
        DeltaModel {
            role: self.role.deep_view(),
            content: self.content.deep_view(),
            tool_calls: self.tool_calls.deep_view(),
        }
    }
}

/// A tool call as a piece of a stream carries it.
#[derive(Debug)]
pub struct ChatChunkToolCall {
    pub index: u32,
    pub id: Option<String>,
    pub kind: Option<String>,
    pub function: ChatChunkToolCallFunction,
}

pub struct ChunkToolCallModel {
    pub index: u32,
    pub id: Option<Seq<char>>,
    pub kind: Option<Seq<char>>,
    pub name: Option<Seq<char>>,
    pub arguments: Option<Seq<char>>,
}

impl DeepView for ChatChunkToolCall {
    type V = ChunkToolCallModel;

    open spec fn deep_view(&self) -> ChunkToolCallModel {
        ChunkToolCallModel {
            index: self.index,
            id: self.id.deep_view(),
            kind: self.kind.deep_view(),
            name: self.function.name.deep_view(),
            arguments: self.function.arguments.deep_view(),
        }
    }
}

#[derive(Debug)]
pub struct ChatChunkToolCallFunction {
    pub name: Option<String>,
    pub arguments: Option<String>,
}

// ---------------------------------------------------------------------------
// Errors
// ---------------------------------------------------------------------------

/// The body of an error answer.
#[derive(Debug)]
pub struct OpenAiErrorBody {
    pub error: OpenAiError,
}

#[derive(Debug)]
pub struct OpenAiError {
    pub message: String,
    pub kind: String,
    pub code: Option<String>,
}

/// An error answer: its HTTP status and its body.
#[derive(Debug)]
pub struct ErrorReply {
    pub status: u16,
    pub body: OpenAiErrorBody,
}

pub struct ErrorModel {
    pub status: u16,
    pub message: Seq<char>,
    pub kind: Seq<char>,
    pub code: Option<Seq<char>>,
}

impl DeepView for ErrorReply {
    type V = ErrorModel;

    open spec fn deep_view(&self) -> ErrorModel {
        ErrorModel {
            status: self.status,
            message: self.body.error.message@,
            kind: self.body.error.kind@,
            code: self.body.error.code.deep_view(),
        }
    }
}

/// The error answer with the given parts.
pub fn error_response(status: u16, kind: String, message: String, code: Option<String>) -> (reply:
    ErrorReply)
    ensures
        reply.deep_view() == (ErrorModel {
            status,
            message: message@,
            kind: kind@,
            code: code.deep_view(),
        }),
{
    ErrorReply { status, body: OpenAiErrorBody { error: OpenAiError { message, kind, code } } }
}

// ---------------------------------------------------------------------------
// Laws
// ---------------------------------------------------------------------------

/// Requests and messages are seen in full: two of them that look alike are
/// alike in every part.
pub proof fn law_requests_are_seen_in_full(
    a: ChatCompletionRequest,
    b: ChatCompletionRequest,
    m: ChatMessage,
    n: ChatMessage,
)
    ensures
        a.deep_view() == b.deep_view() ==> {
            &&& a.model@ == b.model@
            &&& a.messages.deep_view() == b.messages.deep_view()
            &&& a.stream == b.stream
            &&& a.temperature == b.temperature
            &&& a.top_p == b.top_p
            &&& a.max_tokens == b.max_tokens
            &&& a.tools.deep_view() == b.tools.deep_view()
            &&& a.tool_choice.deep_view() == b.tool_choice.deep_view()
        },
        m.deep_view() == n.deep_view() ==> {
            &&& m.role@ == n.role@
            &&& m.content.deep_view() == n.content.deep_view()
            &&& m.name.deep_view() == n.name.deep_view()
            &&& m.tool_call_id.deep_view() == n.tool_call_id.deep_view()
            &&& m.tool_calls.deep_view() == n.tool_calls.deep_view()
        },
{
}

/// So are tools, and the choice among them.
pub proof fn law_tools_are_seen_in_full(a: Tool, b: Tool, c: ToolChoice, d: ToolChoice)
    ensures
        a.deep_view() == b.deep_view() ==> {
            &&& a.kind@ == b.kind@
            &&& a.function.name@ == b.function.name@
            &&& a.function.description.deep_view() == b.function.description.deep_view()
            &&& a.function.parameters.deep_view() == b.function.parameters.deep_view()
        },
        c.deep_view() == d.deep_view() ==> match (c, d) {
            (ToolChoice::String(x), ToolChoice::String(y)) => x@ == y@,
            (ToolChoice::Object(x), ToolChoice::Object(y)) => x.kind@ == y.kind@ && x.function.name@
                == y.function.name@,
            _ => false,
        },
{
}

/// So are responses and tool calls.
pub proof fn law_responses_are_seen_in_full(
    a: ChatCompletionResponse,
    b: ChatCompletionResponse,
    c: ChatChoice,
    d: ChatChoice,
    e: ResponseToolCall,
    f: ResponseToolCall,
)
    ensures
        a.deep_view() == b.deep_view() ==> {
            &&& a.id@ == b.id@
            &&& a.object@ == b.object@
            &&& a.created == b.created
            &&& a.model@ == b.model@
            &&& a.choices.deep_view() == b.choices.deep_view()
        },
        c.deep_view() == d.deep_view() ==> {
            &&& c.index == d.index
            &&& c.message.deep_view() == d.message.deep_view()
            &&& c.finish_reason@ == d.finish_reason@
        },
        e.deep_view() == f.deep_view() ==> {
            &&& e.id@ == f.id@
            &&& e.kind@ == f.kind@
            &&& e.function.name@ == f.function.name@
            &&& e.function.arguments@ == f.function.arguments@
        },
{
}

/// So are the pieces of a stream.
pub proof fn law_pieces_are_seen_in_full(
    a: ChatCompletionChunk,
    b: ChatCompletionChunk,
    c: ChatChunkChoice,
    d: ChatChunkChoice,
    e: ChatChunkDelta,
    f: ChatChunkDelta,
    g: ChatChunkToolCall,
    h: ChatChunkToolCall,
)
    ensures
        a.deep_view() == b.deep_view() ==> {
            &&& a.id@ == b.id@
            &&& a.object@ == b.object@
            &&& a.created == b.created
            &&& a.model@ == b.model@
            &&& a.choices.deep_view() == b.choices.deep_view()
        },
        c.deep_view() == d.deep_view() ==> {
            &&& c.index == d.index
            &&& c.delta.deep_view() == d.delta.deep_view()
            &&& c.finish_reason.deep_view() == d.finish_reason.deep_view()
        },
        e.deep_view() == f.deep_view() ==> {
            &&& e.role.deep_view() == f.role.deep_view()
            &&& e.content.deep_view() == f.content.deep_view()
            &&& e.tool_calls.deep_view() == f.tool_calls.deep_view()
        },
        g.deep_view() == h.deep_view() ==> {
            &&& g.index == h.index
            &&& g.id.deep_view() == h.id.deep_view()
            &&& g.kind.deep_view() == h.kind.deep_view()
            &&& g.function.name.deep_view() == h.function.name.deep_view()
            &&& g.function.arguments.deep_view() == h.function.arguments.deep_view()
        },
{
}

/// So are error answers.
pub proof fn law_errors_are_seen_in_full(a: ErrorReply, b: ErrorReply)
    ensures
        a.deep_view() == b.deep_view() ==> {
            &&& a.status == b.status
            &&& a.body.error.message@ == b.body.error.message@
            &&& a.body.error.kind@ == b.body.error.kind@
            &&& a.body.error.code.deep_view() == b.body.error.code.deep_view()
        },
{
}

/// A message that holds a text holds that text and its role, and nothing else.
pub proof fn law_text_message_holds_its_text(role: Seq<char>, content: Seq<char>)
    ensures
        text_message(role, content).role == role,
        text_message(role, content).content == Some(JsonModel::Text(content)),
        text_message(role, content).name is None,
        text_message(role, content).tool_call_id is None,
        text_message(role, content).tool_calls is None,
{
}

} // verus!
