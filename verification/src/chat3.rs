//! The chat3 service: what is sent to it, and what its answers mean.

use crate::json::{Json, JsonModel};
use crate::openai::{
    ChatCompletionRequest, ChatMessage, MessageModel, RequestModel, ResponseToolCall, ToolCallModel,
};
pub use crate::reply::completion_response;
use crate::sse::{SseEvent, SseParser};
use crate::{json, openai, sse, text, views};
use vstd::prelude::*;

verus! {

/// How much of a tool's result is sent upstream.
pub const MAX_TOOL_RESULT_CHARS: usize = 8000;

// ---------------------------------------------------------------------------
// Requests as chat3 understands them
// ---------------------------------------------------------------------------

/// The text of a JSON value: the characters of a text, the JSON of any other.
pub open spec fn value_text(value: JsonModel) -> Seq<char> {
    match value {
        JsonModel::Text(chars) => chars,
        other => json::json_display(other),
    }
}

/// The text of a message's content.
pub open spec fn content_text(content: Option<JsonModel>) -> Seq<char> {
    match content {
        Some(value) => value_text(value),
        None => Seq::empty(),
    }
}

/// The first `max` characters of a text that is longer, with a note that says
/// so; a shorter text as it is.
pub open spec fn truncated(content: Seq<char>, max: int) -> Seq<char> {
    if content.len() <= max {
        content
    } else {
        content.take(max) + "\n\n[scut-ai-proxy truncated tool result: original_chars="@
            + text::decimal(content.len() as int) + ", kept_chars="@ + text::decimal(max) + "]"@
    }
}

/// The name under which a tool's result is passed on.
pub open spec fn result_name(message: MessageModel) -> Seq<char> {
    match message.name {
        Some(name) => name,
        None => match message.tool_call_id {
            Some(id) => id,
            None => "tool"@,
        },
    }
}

/// The text that stands for a tool's result.
pub open spec fn result_text(message: MessageModel) -> Seq<char> {
    "Tool result from "@ + result_name(message) + ":\n"@ + truncated(
        content_text(message.content),
        MAX_TOOL_RESULT_CHARS as int,
    )
}

/// The text that stands for one requested tool call.
pub open spec fn call_text(call: ToolCallModel) -> Seq<char> {
    call.name + "("@ + call.arguments + ")"@
}

/// The text that stands for the tool calls of an assistant's message.
pub open spec fn calls_text(content: Option<JsonModel>, calls: Seq<ToolCallModel>) -> Seq<char> {
    let requested = "Tool calls requested:\n"@ + text::join(
        calls.map_values(|call: ToolCallModel| call_text(call)),
        "\n"@,
    );
    if text::trim(content_text(content)).len() == 0 {
        requested
    } else {
        content_text(content) + "\n\n"@ + requested
    }
}

/// The message belongs to the tool protocol, which chat3 does not know.
pub open spec fn uses_tool_protocol(message: MessageModel) -> bool {
    message.role == "tool"@ || (message.role == "assistant"@ && message.tool_calls is Some)
}

/// The message in plain text.
pub open spec fn plain_message(message: MessageModel) -> MessageModel {
    if message.role == "tool"@ {
        openai::text_message("user"@, result_text(message))
    } else if message.role == "assistant"@ && message.tool_calls is Some {
        MessageModel {
            content: Some(
                JsonModel::Text(calls_text(message.content, message.tool_calls->0)),
            ),
            tool_calls: None,
            ..message
        }
    } else {
        message
    }
}

/// Some message of the conversation belongs to the tool protocol.
pub open spec fn has_tool_protocol(messages: Seq<MessageModel>) -> bool {
    exists|i: int| 0 <= i < messages.len() && uses_tool_protocol(#[trigger] messages[i])
}

/// The request in plain text. Once the tool protocol has been used, the tools
/// are offered no more.
pub open spec fn plain_request(request: RequestModel) -> RequestModel {
    let messages = request.messages.map_values(|message: MessageModel| plain_message(message));
    if has_tool_protocol(request.messages) {
        RequestModel { messages, tools: None, tool_choice: None, ..request }
    } else {
        RequestModel { messages, ..request }
    }
}

/// The text of a JSON value.
pub fn stringify_message_content(value: &Json) -> (result: String)
    ensures
        result@ == value_text(value.deep_view()),
{
    match value {
        Json::String(chars) => chars.clone(),
        other => json::display_text(other),
    }
}

/// The text of a message's content.
fn text_of_content(content: &Option<Json>) -> (result: String)
    ensures
        result@ == content_text(content.deep_view()),
{
    match content {
        Some(value) => stringify_message_content(value),
        None => String::new(),
    }
}

/// Cuts a text to its first `max_chars` characters, with a note that says so.
pub fn truncate_for_upstream(content: &str, max_chars: usize) -> (result: String)
    ensures
        result@ == truncated(content@, max_chars as int),
{
    let chars = text::chars_of(content);
    if chars.len() <= max_chars {
        return content.to_owned();
    }
    let mut result = text::text_of(chars.as_slice(), 0, max_chars);
    assert(content@.take(max_chars as int) =~= content@.subrange(0, max_chars as int));
    result.append("\n\n[scut-ai-proxy truncated tool result: original_chars=");
    result.append(text::unsigned_text(chars.len() as u128).as_str());
    result.append(", kept_chars=");
    result.append(text::unsigned_text(max_chars as u128).as_str());
    result.append("]");
    result
}

/// The text that stands for the tool calls of an assistant's message.
fn text_of_calls(content: &Option<Json>, calls: &Vec<ResponseToolCall>) -> (result: String)
    ensures
        result@ == calls_text(content.deep_view(), calls.deep_view()),
{
    let existing = text_of_content(content);
    let mut parts: Vec<String> = Vec::new();
    let mut i: usize = 0;
    while i < calls.len()
        invariant
            i <= calls@.len(),
            parts@.len() == i,
            forall|k: int|
                0 <= k < i ==> (#[trigger] parts@[k])@ == call_text(calls@[k].deep_view()),
        decreases calls@.len() - i,
    {
        let call = &calls[i];
        let mut part = call.function.name.clone();
        part.append("(");
        part.append(call.function.arguments.as_str());
        part.append(")");
        parts.push(part);
        i = i + 1;
    }
    assert(parts.deep_view() =~= calls.deep_view().map_values(
        |call: ToolCallModel| call_text(call),
    ));
    let requested = "Tool calls requested:\n".to_owned().concat(
        text::joined(&parts, "\n").as_str(),
    );
    if text::trimmed(existing.as_str()).as_str().is_empty() {
        requested
    } else {
        existing.concat("\n\n").concat(requested.as_str())
    }
}

/// The message in plain text, and whether it belonged to the tool protocol.
fn plain_text_message(message: ChatMessage) -> (result: (ChatMessage, bool))
    ensures
        result.0.deep_view() == plain_message(message.deep_view()),
        result.1 == uses_tool_protocol(message.deep_view()),
{
    if text::same_text(message.role.as_str(), "tool") {
        let content = text_of_content(&message.content);
        let kept = truncate_for_upstream(content.as_str(), MAX_TOOL_RESULT_CHARS);
        let mut result = "Tool result from ".to_owned();
        match &message.name {
            Some(name) => {
                result.append(name.as_str());
            },
            None => match &message.tool_call_id {
                Some(id) => {
                    result.append(id.as_str());
                },
                None => {
                    result.append("tool");
                },
            },
        }
        result.append(":\n");
        result.append(kept.as_str());
        let plain = ChatMessage {
            role: "user".to_owned(),
            content: Some(Json::String(result)),
            name: None,
            tool_call_id: None,
            tool_calls: None,
        };
        (plain, true)
    } else if text::same_text(message.role.as_str(), "assistant") {
        match &message.tool_calls {
            Some(calls) => {
                let content = text_of_calls(&message.content, calls);
                let plain = ChatMessage {
                    role: message.role,
                    content: Some(Json::String(content)),
                    name: message.name,
                    tool_call_id: message.tool_call_id,
                    tool_calls: None,
                };
                (plain, true)
            },
            None => (message, false),
        }
    } else {
        (message, false)
    }
}

/// Rewrites the request in plain text, for a service that does not know the
/// tool protocol.
pub fn normalize_tool_messages_for_upstream(request: &mut ChatCompletionRequest)
    ensures
        final(request).deep_view() == plain_request(old(request).deep_view()),
{
    let ghost before = request.messages@;
    let mut messages: Vec<ChatMessage> = Vec::new();
    std::mem::swap(&mut messages, &mut request.messages);
    let mut plain: Vec<ChatMessage> = Vec::new();
    let mut saw_tool_protocol = false;
    for message in it: messages
        invariant
            it.seq() == before,
            plain@.len() == it.index(),
            forall|k: int|
                0 <= k < it.index() ==> (#[trigger] plain@[k]).deep_view() == plain_message(
                    before[k].deep_view(),
                ),
            saw_tool_protocol == exists|k: int|
                0 <= k < it.index() && uses_tool_protocol((#[trigger] before[k]).deep_view()),
    {
        let (rewritten, used) = plain_text_message(message);
        plain.push(rewritten);
        if used {
            saw_tool_protocol = true;
        }
    }
    let ghost models = old(request).messages.deep_view();
    assert(plain.deep_view() =~= models.map_values(
        |message: MessageModel| plain_message(message),
    ));
    proof {
        if saw_tool_protocol {
            let k = choose|k: int|
                0 <= k < before.len() && uses_tool_protocol((#[trigger] before[k]).deep_view());
            assert(uses_tool_protocol(models[k]));
        }
        if has_tool_protocol(models) {
            let k = choose|k: int|
                0 <= k < models.len() && uses_tool_protocol(#[trigger] models[k]);
            assert(uses_tool_protocol(before[k].deep_view()));
        }
    }
    request.messages = plain;
    if saw_tool_protocol {
        request.tools = None;
        request.tool_choice = None;
    }
}

/// The request as it is sent upstream: in plain text, and asking for a stream.
pub open spec fn sent_request(request: RequestModel) -> RequestModel {
    plain_request(RequestModel { stream: true, ..request })
}

/// The request as it is sent upstream: in plain text, and asking for a stream.
pub fn upstream_request(request: ChatCompletionRequest) -> (result: ChatCompletionRequest)
    ensures
        result.deep_view() == sent_request(request.deep_view()),
{
    let mut result = request;
    result.stream = true;
    normalize_tool_messages_for_upstream(&mut result);
    result
}

/// No message of a request in plain text belongs to the tool protocol, and
/// rewriting it again changes nothing.
pub proof fn law_plain_request_is_plain(request: RequestModel)
    ensures
        !has_tool_protocol(plain_request(request).messages),
        plain_request(plain_request(request)) == plain_request(request),
        plain_request(request).messages.len() == request.messages.len(),
{
    let plain = plain_request(request);
    reveal_strlit("user");
    reveal_strlit("tool");
    reveal_strlit("assistant");
    assert("user"@.len() == 4 && "tool"@.len() == 4 && "assistant"@.len() == 9);
    assert("user"@[0] != "tool"@[0]);
    assert forall|i: int| 0 <= i < plain.messages.len() implies !uses_tool_protocol(
        #[trigger] plain.messages[i],
    ) by {
        assert(plain.messages[i] == plain_message(request.messages[i]));
    }
    assert(plain_request(plain).messages =~= plain.messages);
}

/// Once the tool protocol has been used, neither tools nor a tool choice are
/// sent upstream.
pub proof fn law_no_tools_behind_tool_results(request: RequestModel)
    requires
        has_tool_protocol(request.messages),
    ensures
        plain_request(request).tools is None,
        plain_request(request).tool_choice is None,
{
}

/// Of a tool's result never more than the first `max` characters are kept.
pub proof fn law_truncation_keeps_a_prefix(content: Seq<char>, max: int)
    requires
        0 <= max,
    ensures
        content.len() <= max ==> truncated(content, max) == content,
        content.len() > max ==> truncated(content, max).take(max) == content.take(max),
{
    if content.len() > max {
        assert(truncated(content, max).take(max) =~= content.take(max));
    }
}

// ---------------------------------------------------------------------------
// Reading the stream of an answer
// ---------------------------------------------------------------------------

/// Where the text of a streamed piece stands.
pub open spec fn content_path() -> Seq<Seq<char>> {
    seq!["choices"@, "0"@, "delta"@, "content"@]
}

/// The text that a streamed piece adds to the answer.
pub open spec fn piece_content(value: JsonModel) -> Option<Seq<char>> {
    match value.pointer(content_path()) {
        Some(part) => part.as_text(),
        None => None,
    }
}

/// The text under a key.
pub open spec fn member_text(value: JsonModel, key: Seq<char>) -> Option<Seq<char>> {
    match value.get(key) {
        Some(part) => part.as_text(),
        None => None,
    }
}

/// What an event says of the answer.
#[derive(Debug)]
pub struct DeltaEvent {
    pub id: Option<String>,
    pub model: Option<String>,
    pub created: Option<i64>,
    pub content: Option<String>,
}

pub struct DeltaEventModel {
    pub id: Option<Seq<char>>,
    pub model: Option<Seq<char>>,
    pub created: Option<i64>,
    pub content: Option<Seq<char>>,
}

impl DeepView for DeltaEvent {
    type V = DeltaEventModel;

    open spec fn deep_view(&self) -> DeltaEventModel {
        DeltaEventModel {
            id: self.id.deep_view(),
            model: self.model.deep_view(),
            created: self.created,
            content: self.content.deep_view(),
        }
    }
}

/// What a JSON value says of the answer.
pub open spec fn delta_of(value: JsonModel) -> DeltaEventModel {
    DeltaEventModel {
        id: member_text(value, "id"@),
        model: member_text(value, "model"@),
        created: match value.get("created"@) {
            Some(part) => part.as_i64(),
            None => None,
        },
        content: piece_content(value),
    }
}

/// What the data of an event says of the answer: nothing where it is no JSON.
pub open spec fn delta_of_data(data: Seq<char>) -> Option<DeltaEventModel> {
    match json::json_from_text(data) {
        Ok(value) => Some(delta_of(value)),
        Err(_) => None,
    }
}

/// The text that the data of an event adds to the answer.
pub open spec fn content_of_data(data: Seq<char>) -> Option<Seq<char>> {
    match json::json_from_text(data) {
        Ok(value) => piece_content(value),
        Err(_) => None,
    }
}

/// The text that a streamed piece adds to the answer.
pub fn content_in(value: &Json) -> (content: Option<String>)
    ensures
        content.deep_view() == piece_content(value.deep_view()),
{
    let path: [&str; 4] = ["choices", "0", "delta", "content"];
    assert(path@.map_values(|token: &str| token@) =~= content_path());
    match value.pointer(path.as_slice()) {
        Some(part) => owned(part.as_str()),
        None => None,
    }
}

/// An owned copy of a text.
fn owned(chars: Option<&str>) -> (result: Option<String>)
    ensures
        result.deep_view() == chars.deep_view(),
{
    match chars {
        Some(c) => Some(c.to_owned()),
        None => None,
    }
}

/// The text under a key.
fn text_under(value: &Json, key: &str) -> (result: Option<String>)
    ensures
        result.deep_view() == member_text(value.deep_view(), key@),
{
    match value.get(key) {
        Some(part) => owned(part.as_str()),
        None => None,
    }
}

/// What a JSON value says of the answer.
pub fn delta_in(value: &Json) -> (delta: DeltaEvent)
    ensures
        delta.deep_view() == delta_of(value.deep_view()),
{
    DeltaEvent {
        id: text_under(value, "id"),
        model: text_under(value, "model"),
        created: match value.get("created") {
            Some(part) => part.as_i64(),
            None => None,
        },
        content: content_in(value),
    }
}

/// What an event says of the answer.
pub fn parse_delta(event: &SseEvent) -> (delta: Option<DeltaEvent>)
    ensures
        delta.deep_view() == delta_of_data(event.deep_view()),
{
    match json::parse_json(event.data.as_str()) {
        Ok(value) => Some(delta_in(&value)),
        Err(_) => None,
    }
}

/// The text that the data of an event adds to the answer.
pub fn event_content(data: &str) -> (content: Option<String>)
    ensures
        content.deep_view() == content_of_data(data@),
{
    match json::parse_json(data) {
        Ok(value) => content_in(&value),
        Err(_) => None,
    }
}

/// An answer that has been collected from its stream.
#[derive(Debug)]
pub struct CollectedChat {
    pub id: String,
    pub model: String,
    pub created: i64,
    pub raw_content: String,
}

pub struct CollectedModel {
    pub id: Seq<char>,
    pub model: Seq<char>,
    pub created: i64,
    pub raw_content: Seq<char>,
}

impl DeepView for CollectedChat {
    type V = CollectedModel;

    open spec fn deep_view(&self) -> CollectedModel {
        CollectedModel {
            id: self.id@,
            model: self.model@,
            created: self.created,
            raw_content: self.raw_content@,
        }
    }
}

/// The text, or nothing where there is none.
pub open spec fn text_or_empty(chars: Option<Seq<char>>) -> Seq<char> {
    match chars {
        Some(c) => c,
        None => Seq::empty(),
    }
}

/// An answer and one more piece of it: the first identity, model and time that
/// are told stay, and the text is appended.
pub open spec fn with_delta(collected: CollectedModel, delta: DeltaEventModel) -> CollectedModel {
    CollectedModel {
        id: if collected.id.len() == 0 {
            text_or_empty(delta.id)
        } else {
            collected.id
        },
        model: if collected.model.len() == 0 {
            text_or_empty(delta.model)
        } else {
            collected.model
        },
        created: if collected.created == 0 {
            match delta.created {
                Some(created) => created,
                None => 0,
            }
        } else {
            collected.created
        },
        raw_content: collected.raw_content + text_or_empty(delta.content),
    }
}

/// An answer and one more event of its stream. The event that ends the stream
/// and what is no JSON add nothing.
pub open spec fn with_event(collected: CollectedModel, data: Seq<char>) -> CollectedModel {
    if sse::is_done_data(data) {
        collected
    } else {
        match delta_of_data(data) {
            Some(delta) => with_delta(collected, delta),
            None => collected,
        }
    }
}

/// An answer and more events of its stream, one after another.
pub open spec fn with_events(collected: CollectedModel, events: Seq<Seq<char>>) -> CollectedModel
    decreases events.len(),
{
    if events.len() == 0 {
        collected
    } else {
        with_event(with_events(collected, events.drop_last()), events.last())
    }
}

/// An answer and the text of the events that the end of the stream leaves.
pub open spec fn with_last_events(collected: CollectedModel, events: Seq<Seq<char>>) -> CollectedModel
    decreases events.len(),
{
    if events.len() == 0 {
        collected
    } else {
        let before = with_last_events(collected, events.drop_last());
        CollectedModel {
            raw_content: before.raw_content + text_or_empty(content_of_data(events.last())),
            ..before
        }
    }
}

/// The answer before anything of it has arrived.
pub open spec fn nothing_collected() -> CollectedModel {
    CollectedModel {
        id: Seq::empty(),
        model: Seq::empty(),
        created: 0,
        raw_content: Seq::empty(),
    }
}

/// Collects an answer from the chunks of its stream.
pub struct ChatCollector {
    parser: SseParser,
    collected: CollectedChat,
}

impl ChatCollector {
    /// The text that belongs to no complete event yet.
    pub closed spec fn buffer(&self) -> Seq<char> {
        self.parser@
    }

    /// What has been collected.
    pub closed spec fn collected(&self) -> CollectedModel {
        self.collected.deep_view()
    }

    /// A collector to which nothing has arrived.
    pub fn new() -> (collector: Self)
        ensures
            collector.buffer() == Seq::<char>::empty(),
            collector.collected() == nothing_collected(),
    {
        ChatCollector {
            parser: SseParser::default(),
            collected: CollectedChat {
                id: String::new(),
                model: String::new(),
                created: 0,
                raw_content: String::new(),
            },
        }
    }

    /// Takes the next chunk of the stream.
    pub fn push(&mut self, chunk: &[u8])
        ensures
            final(self).buffer() == sse::unfinished(
                old(self).buffer() + sse::utf8_lossy(chunk@),
            ),
            final(self).collected() == with_events(
                old(self).collected(),
                sse::complete_events(old(self).buffer() + sse::utf8_lossy(chunk@)),
            ),
            vstd::utf8::valid_utf8(chunk@) ==> sse::utf8_lossy(chunk@)
                == vstd::utf8::decode_utf8(chunk@),
    {
        let events = self.parser.push(chunk);
        let ghost all = events.deep_view();
        let mut i: usize = 0;
        while i < events.len()
            invariant
                i <= events@.len(),
                all == events.deep_view(),
                self.parser@ == sse::unfinished(old(self).buffer() + sse::utf8_lossy(chunk@)),
                self.collected.deep_view() == with_events(
                    old(self).collected(),
                    all.take(i as int),
                ),
            decreases events@.len() - i,
        {
            assert(all.take(i + 1).drop_last() =~= all.take(i as int));
            if !events[i].is_done() {
                if let Some(delta) = parse_delta(&events[i]) {
                    add_delta(&mut self.collected, delta);
                }
            }
            i = i + 1;
        }
        assert(all.take(i as int) =~= all);
    }

    /// Ends the stream and returns the answer.
    pub fn finish(self) -> (chat: CollectedChat)
        ensures
            chat.deep_view() == with_last_events(
                self.collected(),
                sse::last_events(self.buffer()),
            ),
    {
        let mut parser = self.parser;
        let mut chat = self.collected;
        let events = parser.finish();
        let ghost all = events.deep_view();
        let mut i: usize = 0;
        while i < events.len()
            invariant
                i <= events@.len(),
                all == events.deep_view(),
                chat.deep_view() == with_last_events(self.collected(), all.take(i as int)),
            decreases events@.len() - i,
        {
            assert(all.take(i + 1).drop_last() =~= all.take(i as int));
            if let Some(delta) = parse_delta(&events[i]) {
                if let Some(content) = delta.content {
                    chat.raw_content.append(content.as_str());
                }
            }
            i = i + 1;
        }
        assert(all.take(i as int) =~= all);
        chat
    }
}

/// Adds one piece to an answer.
pub fn add_delta(chat: &mut CollectedChat, delta: DeltaEvent)
    ensures
        final(chat).deep_view() == with_delta(old(chat).deep_view(), delta.deep_view()),
{
    if chat.id.as_str().is_empty() {
        chat.id = match delta.id {
            Some(id) => id,
            None => String::new(),
        };
    }
    if chat.model.as_str().is_empty() {
        chat.model = match delta.model {
            Some(model) => model,
            None => String::new(),
        };
    }
    if chat.created == 0 {
        chat.created = match delta.created {
            Some(created) => created,
            None => 0,
        };
    }
    if let Some(content) = delta.content {
        chat.raw_content.append(content.as_str());
    }
}

/// Collecting events in two steps collects what one step does.
pub proof fn law_events_in_steps(
    collected: CollectedModel,
    first: Seq<Seq<char>>,
    second: Seq<Seq<char>>,
)
    ensures
        with_events(collected, first + second) == with_events(
            with_events(collected, first),
            second,
        ),
    decreases second.len(),
{
    if second.len() == 0 {
        assert(first + second =~= first);
    } else {
        law_events_in_steps(collected, first, second.drop_last());
        assert((first + second).drop_last() =~= first + second.drop_last());
    }
}

/// What is collected does not depend on where the stream is cut into pieces.
pub proof fn law_collects_the_same_however_cut(
    collected: CollectedModel,
    buffer: Seq<char>,
    first: Seq<char>,
    second: Seq<char>,
)
    ensures
        with_events(collected, sse::complete_events(buffer + (first + second))) == with_events(
            with_events(collected, sse::complete_events(buffer + first)),
            sse::complete_events(sse::unfinished(buffer + first) + second),
        ),
        sse::unfinished(buffer + (first + second)) == sse::unfinished(
            sse::unfinished(buffer + first) + second,
        ),
{
    assert(buffer + (first + second) =~= (buffer + first) + second);
    sse::law_split_anywhere(buffer + first, second);
    law_events_in_steps(
        collected,
        sse::complete_events(buffer + first),
        sse::complete_events(sse::unfinished(buffer + first) + second),
    );
}

/// An identity, a model or a time that has been told once stays, and the text
/// that has arrived stays at the front.
pub proof fn law_first_told_stays(collected: CollectedModel, events: Seq<Seq<char>>)
    ensures
        collected.id.len() > 0 ==> with_events(collected, events).id == collected.id,
        collected.model.len() > 0 ==> with_events(collected, events).model == collected.model,
        collected.created != 0 ==> with_events(collected, events).created == collected.created,
        collected.raw_content.is_prefix_of(with_events(collected, events).raw_content),
    decreases events.len(),
{
    if events.len() > 0 {
        law_first_told_stays(collected, events.drop_last());
    }
}

// ---------------------------------------------------------------------------
// Errors
// ---------------------------------------------------------------------------

/// Why a request to chat3 failed.
#[derive(Debug)]
pub enum Chat3Error {
    InvalidAuthHeader,
    Request(String),
    UpstreamStatus { status: u16, body: String },
    InvalidJson { source: String, body: String },
}

pub enum Chat3ErrorModel {
    InvalidAuthHeader,
    Request(Seq<char>),
    UpstreamStatus { status: u16, body: Seq<char> },
    InvalidJson { source: Seq<char>, body: Seq<char> },
}

impl DeepView for Chat3Error {
    type V = Chat3ErrorModel;

    open spec fn deep_view(&self) -> Chat3ErrorModel {
        match self {
            Chat3Error::InvalidAuthHeader => Chat3ErrorModel::InvalidAuthHeader,
            Chat3Error::Request(source) => Chat3ErrorModel::Request(source@),
            Chat3Error::UpstreamStatus { status, body } => Chat3ErrorModel::UpstreamStatus {
                status: *status,
                body: body@,
            },
            Chat3Error::InvalidJson { source, body } => Chat3ErrorModel::InvalidJson {
                source: source@,
                body: body@,
            },
        }
    }
}

impl Chat3ErrorModel {
    /// The error in words.
    pub open spec fn message(self) -> Seq<char> {
        match self {
            Chat3ErrorModel::InvalidAuthHeader => "invalid authorization header"@,
            Chat3ErrorModel::Request(source) => "upstream request failed: "@ + source,
            Chat3ErrorModel::UpstreamStatus { status, body } => "upstream returned status "@
                + text::decimal(status as int) + ": "@ + body,
            Chat3ErrorModel::InvalidJson { source, body } => "upstream returned invalid json: "@
                + source + "; body="@ + body,
        }
    }

    /// The HTTP status and the message that the error is reported with.
    pub open spec fn report(self) -> (u16, Seq<char>) {
        match self {
            Chat3ErrorModel::UpstreamStatus { status, body } => (
                if 100 <= status <= 999 {
                    status
                } else {
                    502
                },
                body,
            ),
            Chat3ErrorModel::InvalidAuthHeader => (401, "invalid authorization header"@),
            other => (502, other.message()),
        }
    }
}

impl Chat3Error {
    /// The error in words.
    pub fn message(&self) -> (message: String)
        ensures
            message@ == self.deep_view().message(),
    {
        match self {
            Chat3Error::InvalidAuthHeader => "invalid authorization header".to_owned(),
            Chat3Error::Request(source) => "upstream request failed: ".to_owned().concat(
                source.as_str(),
            ),
            Chat3Error::UpstreamStatus { status, body } => {
                "upstream returned status ".to_owned().concat(
                    text::unsigned_text(*status as u128).as_str(),
                ).concat(": ").concat(body.as_str())
            },
            Chat3Error::InvalidJson { source, body } => {
                "upstream returned invalid json: ".to_owned().concat(source.as_str()).concat(
                    "; body=",
                ).concat(body.as_str())
            },
        }
    }

    /// The HTTP status and the message that the error is reported with.
    pub fn into_report(self) -> (report: (u16, String))
        ensures
            (report.0, report.1@) == self.deep_view().report(),
    {
        match self {
            Chat3Error::UpstreamStatus { status, body } => {
                let known: u16 = if 100 <= status && status <= 999 {
                    status
                } else {
                    502
                };
                (known, body)
            },
            Chat3Error::InvalidAuthHeader => (401, "invalid authorization header".to_owned()),
            other => (502, other.message()),
        }
    }
}

/// The status says that the request succeeded.
pub open spec fn is_success(status: u16) -> bool {
    200 <= status < 300
}

/// Whether the status says that the request succeeded.
pub fn succeeded(status: u16) -> (success: bool)
    ensures
        success == is_success(status),
{
    200 <= status && status < 300
}

/// The JSON that an answer with this status and body holds.
pub open spec fn answered_json(status: u16, body: Seq<char>) -> Result<JsonModel, Chat3ErrorModel> {
    if !is_success(status) {
        Err(Chat3ErrorModel::UpstreamStatus { status, body })
    } else {
        match json::json_from_text(body) {
            Ok(value) => Ok(value),
            Err(source) => Err(Chat3ErrorModel::InvalidJson { source, body }),
        }
    }
}

/// The JSON that an answer with this status and body holds.
pub fn json_or_error(status: u16, body: String) -> (result: Result<Json, Chat3Error>)
    ensures
        views::result_view(result) == answered_json(status, body@),
{
    if !succeeded(status) {
        return Err(Chat3Error::UpstreamStatus { status, body });
    }
    match json::parse_json(body.as_str()) {
        Ok(value) => Ok(value),
        Err(source) => Err(Chat3Error::InvalidJson { source, body }),
    }
}

/// `byte` may stand in the value of an HTTP header.
pub open spec fn is_header_byte(byte: u8) -> bool {
    (byte >= 32 && byte != 127) || byte == 9
}

/// The text may be the value of an HTTP header: none of its bytes in UTF-8 is
/// a control character other than the tab.
pub open spec fn is_header_text(value: Seq<char>) -> bool {
    forall|i: int|
        0 <= i < vstd::utf8::encode_utf8(value).len() ==> is_header_byte(
            #[trigger] vstd::utf8::encode_utf8(value)[i],
        )
}

/// `http::HeaderValue::from_str` accepts a text where none of its bytes is a
/// control character other than the tab, and no other text.
#[verifier::external_body]
fn accepts_header_value(value: &str) -> (accepted: bool)
    ensures
        accepted == is_header_text(value@),
{
    http::HeaderValue::from_str(value).is_ok()
}

/// The headers of a request to chat3 for a caller with this authorization.
pub open spec fn request_headers(auth: Seq<char>) -> Result<
    Seq<(Seq<char>, Seq<char>)>,
    Chat3ErrorModel,
> {
    if is_header_text(auth) {
        Ok(seq![("authorization"@, auth), ("content-type"@, "application/json"@)])
    } else {
        Err(Chat3ErrorModel::InvalidAuthHeader)
    }
}

/// The headers of a request to chat3 for a caller with this authorization.
pub fn auth_headers(auth: &str) -> (headers: Result<Vec<(String, String)>, Chat3Error>)
    ensures
        views::result_view(headers) == request_headers(auth@),
{
    if !accepts_header_value(auth) {
        return Err(Chat3Error::InvalidAuthHeader);
    }
    let mut pairs: Vec<(String, String)> = Vec::new();
    pairs.push(("authorization".to_owned(), auth.to_owned()));
    pairs.push(("content-type".to_owned(), "application/json".to_owned()));
    assert(pairs.deep_view() =~= seq![
        ("authorization"@, auth@),
        ("content-type"@, "application/json"@),
    ]);
    Ok(pairs)
}

/// The address of the list of models.
pub fn models_url(base_url: &str) -> (url: String)
    ensures
        url@ == base_url@ + "/models"@,
{
    base_url.to_owned().concat("/models")
}

/// The address of the chat completions.
pub fn chat_url(base_url: &str) -> (url: String)
    ensures
        url@ == base_url@ + "/chat/completions"@,
{
    base_url.to_owned().concat("/chat/completions")
}

// ---------------------------------------------------------------------------
// Laws of what is sent
// ---------------------------------------------------------------------------

/// A message that does not belong to the tool protocol is sent as it is: its
/// role, its content, its name and all else.
pub proof fn law_other_messages_are_sent_unchanged(request: RequestModel, at: int)
    requires
        0 <= at < request.messages.len(),
        request.messages[at].role != "tool"@,
        request.messages[at].role != "assistant"@ || request.messages[at].tool_calls is None,
    ensures
        plain_request(request).messages[at] == request.messages[at],
{
}

/// A result of a tool is sent as a message of the user's with a text alone,
/// which says whose result it is: the name that the message gives, or the
/// call's identity, or just `tool`. A text of no more than 8000 characters
/// stands there in full, a longer one with its first 8000.
pub proof fn law_tool_results_are_told_by_the_user(request: RequestModel, at: int, content: Seq<char>)
    requires
        0 <= at < request.messages.len(),
        request.messages[at].role == "tool"@,
        request.messages[at].content == Some(JsonModel::Text(content)),
    ensures
        ({
            let message = request.messages[at];
            let sent = plain_request(request).messages[at];
            let teller = if message.name is Some {
                message.name->0
            } else if message.tool_call_id is Some {
                message.tool_call_id->0
            } else {
                "tool"@
            };
            let head = "Tool result from "@ + teller + ":\n"@;
            &&& sent.role == "user"@
            &&& sent.name is None
            &&& sent.tool_call_id is None
            &&& sent.tool_calls is None
            &&& sent.content is Some
            &&& sent.content->0 is Text
            &&& content.len() <= 8000 ==> sent.content->0->Text_0 == head + content
            &&& content.len() > 8000 ==> sent.content->0->Text_0 == head + content.take(8000)
                + "\n\n[scut-ai-proxy truncated tool result: original_chars="@ + text::decimal(
                content.len() as int,
            ) + ", kept_chars=8000]"@
        }),
{
    reveal_strlit(", kept_chars=8000]");
    reveal_strlit(", kept_chars=");
    reveal_strlit("]");
    lemma_decimal_8000();
    let message = request.messages[at];
    let sent = plain_request(request).messages[at];
    assert(sent == plain_message(message));
    assert(", kept_chars="@ + text::decimal(8000) + "]"@ =~= ", kept_chars=8000]"@);
    if content.len() > 8000 {
        let head = "Tool result from "@ + result_name(message) + ":\n"@;
        assert(sent.content->0->Text_0 =~= head + content.take(8000)
            + "\n\n[scut-ai-proxy truncated tool result: original_chars="@ + text::decimal(
            content.len() as int,
        ) + (", kept_chars="@ + text::decimal(8000) + "]"@));
    }
}

proof fn lemma_decimal_8000()
    ensures
        text::decimal(8000) == seq!['8', '0', '0', '0'],
{
    reveal_with_fuel(text::digits, 4);
    assert(text::digits(8) == seq![text::digit_char(8)]);
    assert(text::digits(80) =~= seq!['8', '0']);
    assert(text::digits(800) =~= seq!['8', '0', '0']);
    assert(text::digits(8000) =~= seq!['8', '0', '0', '0']);
}

/// Of a message of the tool protocol, content that is missing is told as an
/// empty text, and content that is no text as the JSON that its `Display`
/// gives; all else as for a text.
pub proof fn law_other_content_is_told_as_json(message: MessageModel, value: JsonModel)
    requires
        message.role == "tool"@ || (message.role == "assistant"@ && message.tool_calls is Some),
    ensures
        plain_message(MessageModel { content: None, ..message }) == plain_message(
            MessageModel { content: Some(JsonModel::Text(Seq::empty())), ..message },
        ),
        value !is Text ==> plain_message(MessageModel { content: Some(value), ..message })
            == plain_message(
            MessageModel { content: Some(JsonModel::Text(json::json_display(value))), ..message },
        ),
{
}

/// A message of the assistant's with tool calls keeps its role, its name and
/// its identity; what it said, unless that is blank, stays in front, and
/// behind it each call stands on a line of its own, as a name with the
/// arguments in brackets, in the order of the calls.
pub proof fn law_tool_calls_are_told_in_text(request: RequestModel, at: int, said: Seq<char>)
    requires
        0 <= at < request.messages.len(),
        request.messages[at].role == "assistant"@,
        request.messages[at].tool_calls is Some,
        request.messages[at].content == Some(JsonModel::Text(said)) || (
        request.messages[at].content is None && said.len() == 0),
    ensures
        ({
            let message = request.messages[at];
            let sent = plain_request(request).messages[at];
            let calls = message.tool_calls->0;
            let told = "Tool calls requested:\n"@ + text::join(
                Seq::new(
                    calls.len(),
                    |i: int| calls[i].name + "("@ + calls[i].arguments + ")"@,
                ),
                "\n"@,
            );
            &&& sent.role == "assistant"@
            &&& sent.name == message.name
            &&& sent.tool_call_id == message.tool_call_id
            &&& sent.tool_calls is None
            &&& sent.content is Some
            &&& sent.content->0 is Text
            &&& text::trim(said).len() > 0 ==> sent.content->0->Text_0 == said + "\n\n"@ + told
            &&& text::trim(said).len() == 0 ==> sent.content->0->Text_0 == told
        }),
{
    let message = request.messages[at];
    let calls = message.tool_calls->0;
    reveal_strlit("tool");
    reveal_strlit("assistant");
    assert("tool"@.len() == 4 && "assistant"@.len() == 9);
    assert(calls.map_values(|call: ToolCallModel| call_text(call)) =~= Seq::new(
        calls.len(),
        |i: int| calls[i].name + "("@ + calls[i].arguments + ")"@,
    ));
    assert(content_text(message.content) =~= said);
}

/// All that a request asks besides its messages and tools is sent as it is;
/// so are its tools and its tool choice, where no message belongs to the tool
/// protocol.
pub proof fn law_what_is_asked_is_kept(request: RequestModel)
    ensures
        plain_request(request).messages.len() == request.messages.len(),
        plain_request(request).model == request.model,
        plain_request(request).stream == request.stream,
        plain_request(request).temperature == request.temperature,
        plain_request(request).top_p == request.top_p,
        plain_request(request).max_tokens == request.max_tokens,
        (forall|i: int|
            0 <= i < request.messages.len() ==> (#[trigger] request.messages[i]).role != "tool"@
                && (request.messages[i].role != "assistant"@ || request.messages[i].tool_calls is None))
            ==> plain_request(request).tools == request.tools && plain_request(request).tool_choice
            == request.tool_choice && plain_request(request).messages == request.messages,
        (exists|i: int|
            0 <= i < request.messages.len() && ((#[trigger] request.messages[i]).role == "tool"@
                || (request.messages[i].role == "assistant"@ && request.messages[i].tool_calls
                is Some))) ==> plain_request(request).tools is None && plain_request(
            request,
        ).tool_choice is None,
{
    if forall|i: int|
        0 <= i < request.messages.len() ==> (#[trigger] request.messages[i]).role != "tool"@ && (
        request.messages[i].role != "assistant"@ || request.messages[i].tool_calls is None) {
        assert(plain_request(request).messages =~= request.messages);
        assert(!has_tool_protocol(request.messages));
    }
    if exists|i: int|
        0 <= i < request.messages.len() && ((#[trigger] request.messages[i]).role == "tool"@ || (
        request.messages[i].role == "assistant"@ && request.messages[i].tool_calls is Some)) {
        let i = choose|i: int|
            0 <= i < request.messages.len() && ((#[trigger] request.messages[i]).role == "tool"@
                || (request.messages[i].role == "assistant"@ && request.messages[i].tool_calls
                is Some));
        assert(uses_tool_protocol(request.messages[i]));
    }
}

/// A text within the limit is sent in full; of a longer one the first
/// characters, as many as the limit allows, and how many there were.
pub proof fn law_cut_text_says_how_long_it_was(content: Seq<char>, max: int)
    requires
        0 <= max,
    ensures
        content.len() <= max ==> truncated(content, max) == content,
        content.len() > max ==> truncated(content, max) == content.take(max)
            + "\n\n[scut-ai-proxy truncated tool result: original_chars="@ + text::decimal(
            content.len() as int,
        ) + ", kept_chars="@ + text::decimal(max) + "]"@,
{
}

// ---------------------------------------------------------------------------
// Laws of what is collected
// ---------------------------------------------------------------------------

/// An event with a text adds exactly that text behind what was collected: not
/// a character less, and none changed.
pub proof fn law_text_of_an_event_is_appended(
    collected: CollectedModel,
    events: Seq<Seq<char>>,
    data: Seq<char>,
    value: JsonModel,
    content: Seq<char>,
)
    requires
        text::trim(data) != "[DONE]"@,
        json::json_from_text(data) == Ok::<JsonModel, Seq<char>>(value),
        value.pointer(seq!["choices"@, "0"@, "delta"@, "content"@]) == Some(
            JsonModel::Text(content),
        ),
    ensures
        with_events(collected, events.push(data)).raw_content == with_events(
            collected,
            events,
        ).raw_content + content,
        with_events(collected, events.push(data)).raw_content.len() == with_events(
            collected,
            events,
        ).raw_content.len() + content.len(),
        with_last_events(collected, events.push(data)).raw_content == with_last_events(
            collected,
            events,
        ).raw_content + content,
        with_events(collected, Seq::empty()) == collected,
        with_last_events(collected, Seq::empty()) == collected,
        content_of_data(data) == Some(content),
        delta_of_data(data) matches Some(delta) && delta.content == Some(content),
{
    assert(events.push(data).drop_last() =~= events);
}

/// An event without a text, one that is no JSON, and the one that ends the
/// stream add no text.
pub proof fn law_other_events_add_no_text(
    collected: CollectedModel,
    events: Seq<Seq<char>>,
    data: Seq<char>,
)
    requires
        ({
            ||| text::trim(data) == "[DONE]"@
            ||| json::json_from_text(data) is Err
            ||| !(json::json_from_text(data)->Ok_0.pointer(
                seq!["choices"@, "0"@, "delta"@, "content"@],
            ) matches Some(JsonModel::Text(_)))
        }),
    ensures
        with_events(collected, events.push(data)).raw_content == with_events(
            collected,
            events,
        ).raw_content,
        text::trim(data) != "[DONE]"@ ==> content_of_data(data) is None,
        text::trim(data) != "[DONE]"@ ==> with_last_events(
            collected,
            events.push(data),
        ).raw_content == with_last_events(collected, events).raw_content,
{
    assert(events.push(data).drop_last() =~= events);
    let before = with_events(collected, events).raw_content;
    assert(before + Seq::<char>::empty() =~= before);
    let last = with_last_events(collected, events).raw_content;
    assert(last + Seq::<char>::empty() =~= last);
}

/// An identity, a model and a time are taken from the first event that tells
/// them; an event that does not, or comes later, changes nothing of them.
pub proof fn law_first_event_tells_who_answers(
    collected: CollectedModel,
    events: Seq<Seq<char>>,
    data: Seq<char>,
    value: JsonModel,
)
    requires
        text::trim(data) != "[DONE]"@,
        json::json_from_text(data) == Ok::<JsonModel, Seq<char>>(value),
    ensures
        ({
            let before = with_events(collected, events);
            let now = with_events(collected, events.push(data));
            let id = match value.get("id"@) {
                Some(JsonModel::Text(id)) => id,
                _ => Seq::empty(),
            };
            let model = match value.get("model"@) {
                Some(JsonModel::Text(model)) => model,
                _ => Seq::empty(),
            };
            let created = match value.get("created"@) {
                Some(JsonModel::Number { signed: Some(created), .. }) => created,
                _ => 0,
            };
            &&& before.id.len() > 0 ==> now.id == before.id
            &&& before.id.len() == 0 ==> now.id == id
            &&& before.model.len() > 0 ==> now.model == before.model
            &&& before.model.len() == 0 ==> now.model == model
            &&& before.created != 0 ==> now.created == before.created
            &&& before.created == 0 ==> now.created == created
        }),
{
    assert(events.push(data).drop_last() =~= events);
}

/// The event that ends the stream, and what is no JSON, change nothing at all.
pub proof fn law_end_and_noise_change_nothing(
    collected: CollectedModel,
    events: Seq<Seq<char>>,
    data: Seq<char>,
)
    requires
        text::trim(data) == "[DONE]"@ || json::json_from_text(data) is Err,
    ensures
        with_events(collected, events.push(data)) == with_events(collected, events),
{
    assert(events.push(data).drop_last() =~= events);
}

/// What the end of the stream leaves adds text, and nothing else.
pub proof fn law_what_is_left_adds_only_text(collected: CollectedModel, events: Seq<Seq<char>>)
    ensures
        with_last_events(collected, events).id == collected.id,
        with_last_events(collected, events).model == collected.model,
        with_last_events(collected, events).created == collected.created,
        collected.raw_content.is_prefix_of(with_last_events(collected, events).raw_content),
        nothing_collected().id.len() == 0,
        nothing_collected().model.len() == 0,
        nothing_collected().created == 0,
        nothing_collected().raw_content.len() == 0,
    decreases events.len(),
{
    if events.len() > 0 {
        law_what_is_left_adds_only_text(collected, events.drop_last());
    }
}

// ---------------------------------------------------------------------------
// Laws of failures
// ---------------------------------------------------------------------------

/// A status that chat3 answered is reported with its body, and the status
/// itself where it is one of HTTP.
pub proof fn law_answered_status_is_reported(status: u16, body: Seq<char>)
    ensures
        (Chat3ErrorModel::UpstreamStatus { status, body }).report().1 == body,
        (Chat3ErrorModel::UpstreamStatus { status, body }).report().0 == (if 100 <= status <= 999 {
            status
        } else {
            502
        }),
        (Chat3ErrorModel::UpstreamStatus { status, body }).message()
            == "upstream returned status "@ + text::decimal(status as int) + ": "@ + body,
{
}

/// Every other failure is reported as a bad gateway, in words, but for an
/// authorization that cannot be sent.
pub proof fn law_other_failures_are_reported_in_words(source: Seq<char>, body: Seq<char>)
    ensures
        Chat3ErrorModel::InvalidAuthHeader.report() == (401u16, "invalid authorization header"@),
        Chat3ErrorModel::InvalidAuthHeader.message() == "invalid authorization header"@,
        Chat3ErrorModel::Request(source).report() == (
            502u16,
            "upstream request failed: "@ + source,
        ),
        Chat3ErrorModel::Request(source).message() == "upstream request failed: "@ + source,
        (Chat3ErrorModel::InvalidJson { source, body }).report() == (
            502u16,
            "upstream returned invalid json: "@ + source + "; body="@ + body,
        ),
        (Chat3ErrorModel::InvalidJson { source, body }).message()
            == "upstream returned invalid json: "@ + source + "; body="@ + body,
{
}

/// Exactly the statuses from 200 to 299 say that a request succeeded.
pub proof fn law_success_is_two_hundred(status: u16)
    ensures
        is_success(status) <==> status / 100 == 2,
{
}

/// A text can be sent in a header exactly where each of its bytes in UTF-8 is
/// a tab, or neither below the blank nor the delete character.
pub proof fn law_header_text_has_no_control_characters(value: Seq<char>)
    ensures
        is_header_text(value) <==> !(exists|i: int|
            0 <= i < vstd::utf8::encode_utf8(value).len() && ((
            #[trigger] vstd::utf8::encode_utf8(value)[i]) < 32 && vstd::utf8::encode_utf8(value)[i]
                != 9 || vstd::utf8::encode_utf8(value)[i] == 127)),
{
}

// ---------------------------------------------------------------------------
// Laws of the views
// ---------------------------------------------------------------------------

/// What is collected, and what a piece tells, is seen in full: two of them
/// that look alike are alike.
pub proof fn law_views_hide_nothing(a: CollectedChat, b: CollectedChat, d: DeltaEvent, e: DeltaEvent)
    ensures
        a.deep_view() == b.deep_view() ==> a.id@ == b.id@ && a.model@ == b.model@ && a.created
            == b.created && a.raw_content@ == b.raw_content@,
        d.deep_view() == e.deep_view() ==> d.id.deep_view() == e.id.deep_view()
            && d.model.deep_view() == e.model.deep_view() && d.created == e.created
            && d.content.deep_view() == e.content.deep_view(),
{
}

/// Where the data of an event is no JSON, or its path leads to no text, the
/// event has no text.
pub proof fn law_text_is_where_the_path_leads(data: Seq<char>)
    ensures
        json::json_from_text(data) is Err || !(json::json_from_text(data)->Ok_0.pointer(
            seq!["choices"@, "0"@, "delta"@, "content"@],
        ) matches Some(JsonModel::Text(_))) <==> content_of_data(data) is None,
{
}

/// A request is sent asking for a stream, whatever the client asked for, and
/// otherwise as its plain form.
pub proof fn law_sent_request_asks_for_a_stream(request: RequestModel)
    ensures
        sent_request(request).stream,
        sent_request(request).messages == plain_request(request).messages,
        sent_request(request).tools == plain_request(request).tools,
        sent_request(request).tool_choice == plain_request(request).tool_choice,
        sent_request(request).model == request.model,
        sent_request(request).temperature == request.temperature,
        sent_request(request).top_p == request.top_p,
        sent_request(request).max_tokens == request.max_tokens,
{
}

/// The answer to a request that succeeded is the JSON of its body; a body that
/// is no JSON, and a request that failed, are told with the body in full.
pub proof fn law_answer_is_the_json_of_the_body(status: u16, body: Seq<char>)
    ensures
        status / 100 != 2 ==> answered_json(status, body) == Err::<JsonModel, Chat3ErrorModel>(
            Chat3ErrorModel::UpstreamStatus { status, body },
        ),
        status / 100 == 2 ==> (json::json_from_text(body) matches Ok(value) ==> answered_json(
            status,
            body,
        ) == Ok::<JsonModel, Chat3ErrorModel>(value)),
        status / 100 == 2 ==> (json::json_from_text(body) matches Err(source) ==> answered_json(
            status,
            body,
        ) == Err::<JsonModel, Chat3ErrorModel>(Chat3ErrorModel::InvalidJson { source, body })),
{
}

/// The caller's authorization is sent as it came, with JSON as the kind of
/// content, wherever it can be sent at all.
pub proof fn law_authorization_is_sent_as_it_came(auth: Seq<char>)
    ensures
        is_header_text(auth) <==> request_headers(auth) is Ok,
        request_headers(auth) matches Ok(headers) ==> {
            &&& headers.len() == 2
            &&& headers[0].0 == "authorization"@
            &&& headers[0].1 == auth
            &&& headers[1].0 == "content-type"@
            &&& headers[1].1 == "application/json"@
        },
        request_headers(auth) matches Err(error) ==> error is InvalidAuthHeader,
{
}

/// Failures are seen in full: two of them that look alike are alike.
pub proof fn law_failures_are_seen_in_full(a: Chat3Error, b: Chat3Error)
    ensures
        a.deep_view() == b.deep_view() ==> match (a, b) {
            (Chat3Error::InvalidAuthHeader, Chat3Error::InvalidAuthHeader) => true,
            (Chat3Error::Request(x), Chat3Error::Request(y)) => x@ == y@,
            (
                Chat3Error::UpstreamStatus { status: s, body: x },
                Chat3Error::UpstreamStatus { status: t, body: y },
            ) => s == t && x@ == y@,
            (
                Chat3Error::InvalidJson { source: s, body: x },
                Chat3Error::InvalidJson { source: t, body: y },
            ) => s@ == t@ && x@ == y@,
            _ => false,
        },
{
}

} // verus!
