//! The answers of the gateway: whole responses, and the pieces of a stream.

use crate::chat3::{CollectedChat, CollectedModel};
use crate::json::{Json, JsonModel};
use crate::openai::{
    ChatChoice, ChatChunkChoice, ChatChunkDelta, ChatChunkToolCall, ChatChunkToolCallFunction,
    ChatCompletionChunk, ChatCompletionResponse, ChatMessage, ChoiceModel, ChunkChoiceModel,
    ChunkModel, ChunkToolCallModel, DeltaModel, MessageModel, ResponseModel, ResponseToolCall,
    ToolCallModel,
};
use crate::planner::{DecisionModel, PlannerCallModel, PlannerDecision};
use crate::{openai, planner, reasoning, text, wire};
use vstd::prelude::*;

verus! {

// ---------------------------------------------------------------------------
// The clock
// ---------------------------------------------------------------------------

/// `chrono::Utc::now` as seconds since the epoch. Nothing is claimed of the
/// reading.
#[verifier::external_body]
pub(crate) fn now_seconds() -> i64 {
    chrono::Utc::now().timestamp()
}

/// `chrono::Utc::now` as milliseconds since the epoch. Nothing is claimed of
/// the reading.
#[verifier::external_body]
pub(crate) fn now_millis() -> i64 {
    chrono::Utc::now().timestamp_millis()
}

// ---------------------------------------------------------------------------
// Whole responses
// ---------------------------------------------------------------------------

/// The identity of an answer that is given one at this time.
pub open spec fn fresh_id(now_ms: i64) -> Seq<char> {
    "chatcmpl-"@ + text::decimal(now_ms as int)
}

/// The identity of an answer: its own, or a fresh one where it has none.
pub open spec fn id_or_fresh(id: Seq<char>, now_ms: i64) -> Seq<char> {
    if id.len() == 0 {
        fresh_id(now_ms)
    } else {
        id
    }
}

/// The time of an answer: its own, or the present where it has none.
pub open spec fn created_or_now(created: i64, now_s: i64) -> i64 {
    if created == 0 {
        now_s
    } else {
        created
    }
}

/// The response that holds one message.
pub open spec fn response_with(
    id: Seq<char>,
    created: i64,
    model: Seq<char>,
    message: MessageModel,
    finish_reason: Seq<char>,
) -> ResponseModel {
    ResponseModel {
        id,
        object: "chat.completion"@,
        created,
        model,
        choices: seq![ChoiceModel { index: 0, message, finish_reason }],
    }
}

/// The response that holds a text.
pub open spec fn text_response(
    model: Seq<char>,
    content: Seq<char>,
    id: Seq<char>,
    created: i64,
    now_ms: i64,
    now_s: i64,
) -> ResponseModel {
    response_with(
        id_or_fresh(id, now_ms),
        created_or_now(created, now_s),
        model,
        openai::text_message("assistant"@, content),
        "stop"@,
    )
}

/// A fresh identity.
pub fn make_id(now_ms: i64) -> (id: String)
    ensures
        id@ == fresh_id(now_ms),
{
    "chatcmpl-".to_owned().concat(text::signed_text(now_ms).as_str())
}

/// The response that holds one message.
fn respond_with(
    id: String,
    created: i64,
    model: String,
    message: ChatMessage,
    finish_reason: String,
) -> (response: ChatCompletionResponse)
    ensures
        response.deep_view() == response_with(
            id@,
            created,
            model@,
            message.deep_view(),
            finish_reason@,
        ),
{
    let mut choices: Vec<ChatChoice> = Vec::new();
    choices.push(ChatChoice { index: 0, message, finish_reason });
    assert(choices.deep_view() =~= seq![
        ChoiceModel { index: 0, message: message.deep_view(), finish_reason: finish_reason@ },
    ]);
    ChatCompletionResponse {
        id,
        object: "chat.completion".to_owned(),
        created,
        model,
        choices,
    }
}

/// The response that holds a text, at a given time.
pub fn completion_response_at(
    model: String,
    content: String,
    id: String,
    created: i64,
    now_ms: i64,
    now_s: i64,
) -> (response: ChatCompletionResponse)
    ensures
        response.deep_view() == text_response(model@, content@, id@, created, now_ms, now_s),
{
    let known_id = if id.as_str().is_empty() {
        make_id(now_ms)
    } else {
        id
    };
    let known_created: i64 = if created == 0 {
        now_s
    } else {
        created
    };
    let message = ChatMessage {
        role: "assistant".to_owned(),
        content: Some(Json::String(content)),
        name: None,
        tool_call_id: None,
        tool_calls: None,
    };
    respond_with(known_id, known_created, model, message, "stop".to_owned())
}

/// The response that holds a text. An answer without an identity or without a
/// time gets one of the present.
pub fn completion_response(model: String, content: String, id: String, created: i64) -> (response:
    ChatCompletionResponse)
    ensures
        exists|now_ms: i64, now_s: i64|
            response.deep_view() == #[trigger] text_response(
                model@,
                content@,
                id@,
                created,
                now_ms,
                now_s,
            ),
{
    completion_response_at(model, content, id, created, now_millis(), now_seconds())
}

/// The model of a collected answer: the one that it names, or the one that was
/// asked for.
pub open spec fn answering_model(requested: Seq<char>, collected: CollectedModel) -> Seq<char> {
    if collected.model.len() == 0 {
        requested
    } else {
        collected.model
    }
}

/// The response to a request whose answer has been collected.
pub open spec fn response_of_collected(
    requested: Seq<char>,
    collected: CollectedModel,
    now_ms: i64,
    now_s: i64,
) -> ResponseModel {
    text_response(
        answering_model(requested, collected),
        reasoning::cleaned(collected.raw_content),
        collected.id,
        collected.created,
        now_ms,
        now_s,
    )
}

/// The response to a request whose answer has been collected, at a given time.
pub fn collected_response_at(
    requested_model: String,
    collected: CollectedChat,
    now_ms: i64,
    now_s: i64,
) -> (response: ChatCompletionResponse)
    ensures
        response.deep_view() == response_of_collected(
            requested_model@,
            collected.deep_view(),
            now_ms,
            now_s,
        ),
{
    let content = reasoning::clean_reasoning(collected.raw_content.as_str());
    let model = if collected.model.as_str().is_empty() {
        requested_model
    } else {
        collected.model
    };
    completion_response_at(model, content, collected.id, collected.created, now_ms, now_s)
}

/// The response to a request whose answer has been collected.
pub fn collected_response(requested_model: String, collected: CollectedChat) -> (response:
    ChatCompletionResponse)
    ensures
        exists|now_ms: i64, now_s: i64|
            response.deep_view() == #[trigger] response_of_collected(
                requested_model@,
                collected.deep_view(),
                now_ms,
                now_s,
            ),
{
    collected_response_at(requested_model, collected, now_millis(), now_seconds())
}

// ---------------------------------------------------------------------------
// The pieces of a stream
// ---------------------------------------------------------------------------

/// A piece with one choice.
pub open spec fn chunk_with(
    id: Seq<char>,
    created: i64,
    model: Seq<char>,
    delta: DeltaModel,
    finish_reason: Option<Seq<char>>,
) -> ChunkModel {
    ChunkModel {
        id,
        object: "chat.completion.chunk"@,
        created,
        model,
        choices: seq![ChunkChoiceModel { index: 0, delta, finish_reason }],
    }
}

/// A piece that adds text.
pub open spec fn content_chunk(
    id: Seq<char>,
    created: i64,
    model: Seq<char>,
    content: Seq<char>,
    finish_reason: Option<Seq<char>>,
) -> ChunkModel {
    chunk_with(
        id,
        created,
        model,
        DeltaModel { role: None, content: Some(content), tool_calls: None },
        finish_reason,
    )
}

/// A piece that adds a tool call.
pub open spec fn tool_call_chunk(
    id: Seq<char>,
    created: i64,
    model: Seq<char>,
    index: u32,
    call: ToolCallModel,
) -> ChunkModel {
    chunk_with(
        id,
        created,
        model,
        DeltaModel {
            role: Some("assistant"@),
            content: None,
            tool_calls: Some(
                seq![
                    ChunkToolCallModel {
                        index,
                        id: Some(call.id),
                        kind: Some(call.kind),
                        name: Some(call.name),
                        arguments: Some(call.arguments),
                    },
                ],
            ),
        },
        None,
    )
}

/// The piece that ends an answer.
pub open spec fn finish_chunk(
    id: Seq<char>,
    created: i64,
    model: Seq<char>,
    finish_reason: Seq<char>,
) -> ChunkModel {
    chunk_with(
        id,
        created,
        model,
        DeltaModel { role: None, content: None, tool_calls: None },
        Some(finish_reason),
    )
}

/// A piece with one choice.
fn make_chunk(
    id: &str,
    created: i64,
    model: &str,
    delta: ChatChunkDelta,
    finish_reason: Option<String>,
) -> (chunk: ChatCompletionChunk)
    ensures
        chunk.deep_view() == chunk_with(
            id@,
            created,
            model@,
            delta.deep_view(),
            finish_reason.deep_view(),
        ),
{
    let mut choices: Vec<ChatChunkChoice> = Vec::new();
    choices.push(ChatChunkChoice { index: 0, delta, finish_reason });
    assert(choices.deep_view() =~= seq![
        ChunkChoiceModel {
            index: 0,
            delta: delta.deep_view(),
            finish_reason: finish_reason.deep_view(),
        },
    ]);
    ChatCompletionChunk {
        id: id.to_owned(),
        object: "chat.completion.chunk".to_owned(),
        created,
        model: model.to_owned(),
        choices,
    }
}

/// A piece that adds text, and may end the answer.
pub fn content_chunk_with_finish_response(
    id: &str,
    created: i64,
    model: &str,
    content: String,
    finish_reason: Option<String>,
) -> (chunk: ChatCompletionChunk)
    ensures
        chunk.deep_view() == content_chunk(
            id@,
            created,
            model@,
            content@,
            finish_reason.deep_view(),
        ),
{
    make_chunk(
        id,
        created,
        model,
        ChatChunkDelta { role: None, content: Some(content), tool_calls: None },
        finish_reason,
    )
}

/// A piece that adds text.
pub fn content_chunk_response(id: &str, created: i64, model: &str, content: String) -> (chunk:
    ChatCompletionChunk)
    ensures
        chunk.deep_view() == content_chunk(id@, created, model@, content@, None),
{
    content_chunk_with_finish_response(id, created, model, content, None)
}

/// A piece that adds text, with a fresh identity and the present time.
pub fn chunk_response(model: &str, content: String, finish_reason: Option<String>) -> (chunk:
    ChatCompletionChunk)
    ensures
        exists|now_ms: i64, now_s: i64|
            chunk.deep_view() == content_chunk(
                #[trigger] fresh_id(now_ms),
                #[trigger] created_or_now(0, now_s),
                model@,
                content@,
                finish_reason.deep_view(),
            ),
{
    let now_ms: i64 = now_millis();
    let now_s: i64 = now_seconds();
    let id = make_id(now_ms);
    assert(created_or_now(0, now_s) == now_s);
    content_chunk_with_finish_response(id.as_str(), now_s, model, content, finish_reason)
}

/// A piece that adds a tool call.
pub fn tool_call_chunk_response(
    id: &str,
    created: i64,
    model: &str,
    index: u32,
    tool_call: ResponseToolCall,
) -> (chunk: ChatCompletionChunk)
    ensures
        chunk.deep_view() == tool_call_chunk(id@, created, model@, index, tool_call.deep_view()),
{
    let mut calls: Vec<ChatChunkToolCall> = Vec::new();
    calls.push(
        ChatChunkToolCall {
            index,
            id: Some(tool_call.id),
            kind: Some(tool_call.kind),
            function: ChatChunkToolCallFunction {
                name: Some(tool_call.function.name),
                arguments: Some(tool_call.function.arguments),
            },
        },
    );
    assert(calls.deep_view() =~= seq![
        ChunkToolCallModel {
            index,
            id: Some(tool_call.id@),
            kind: Some(tool_call.kind@),
            name: Some(tool_call.function.name@),
            arguments: Some(tool_call.function.arguments@),
        },
    ]);
    make_chunk(
        id,
        created,
        model,
        ChatChunkDelta {
            role: Some("assistant".to_owned()),
            content: None,
            tool_calls: Some(calls),
        },
        None,
    )
}

/// The piece that ends an answer.
pub fn finish_chunk_response(id: &str, created: i64, model: &str, finish_reason: &str) -> (chunk:
    ChatCompletionChunk)
    ensures
        chunk.deep_view() == finish_chunk(id@, created, model@, finish_reason@),
{
    make_chunk(
        id,
        created,
        model,
        ChatChunkDelta { role: None, content: None, tool_calls: None },
        Some(finish_reason.to_owned()),
    )
}

// ---------------------------------------------------------------------------
// Streams
// ---------------------------------------------------------------------------

/// One event of an answer that is sent as a stream.
#[derive(Debug)]
pub enum StreamItem {
    Chunk(ChatCompletionChunk),
    Done,
}

pub enum StreamItemModel {
    Chunk(ChunkModel),
    Done,
}

impl DeepView for StreamItem {
    type V = StreamItemModel;

    open spec fn deep_view(&self) -> StreamItemModel {
        match self {
            StreamItem::Chunk(chunk) => StreamItemModel::Chunk(chunk.deep_view()),
            StreamItem::Done => StreamItemModel::Done,
        }
    }
}

/// The data of an event of a stream: the JSON of a piece, or the word that ends
/// the stream.
pub open spec fn item_data(item: StreamItemModel) -> Option<Seq<char>> {
    match item {
        StreamItemModel::Chunk(chunk) => wire::chunk_text(chunk),
        StreamItemModel::Done => Some("[DONE]"@),
    }
}

/// The data of an event of a stream.
pub fn stream_item_data(item: &StreamItem) -> (data: Option<String>)
    ensures
        data.deep_view() == item_data(item.deep_view()),
{
    match item {
        StreamItem::Chunk(chunk) => wire::write_chunk(chunk),
        StreamItem::Done => Some("[DONE]".to_owned()),
    }
}

/// The stream of an answer with tool calls: a piece for each of them, the
/// piece that ends the answer, and the end of the stream.
pub open spec fn tool_calls_stream(
    id: Seq<char>,
    created: i64,
    model: Seq<char>,
    calls: Seq<ToolCallModel>,
) -> Seq<StreamItemModel> {
    Seq::new(
        calls.len(),
        |i: int|
            StreamItemModel::Chunk(tool_call_chunk(id, created, model, (i as usize) as u32, calls[i])),
    ).push(StreamItemModel::Chunk(finish_chunk(id, created, model, "tool_calls"@))).push(
        StreamItemModel::Done,
    )
}

/// The stream of an answer with a text: the text, where there is one, the
/// piece that ends the answer, and the end of the stream.
pub open spec fn final_text_stream(
    id: Seq<char>,
    created: i64,
    model: Seq<char>,
    content: Seq<char>,
) -> Seq<StreamItemModel> {
    let finish = StreamItemModel::Chunk(finish_chunk(id, created, model, "stop"@));
    if content.len() == 0 {
        seq![finish, StreamItemModel::Done]
    } else {
        seq![
            StreamItemModel::Chunk(content_chunk(id, created, model, content, None)),
            finish,
            StreamItemModel::Done,
        ]
    }
}

/// The stream of an answer with tool calls.
pub fn tool_calls_stream_response(
    id: String,
    created: i64,
    model: String,
    tool_calls: Vec<ResponseToolCall>,
) -> (items: Vec<StreamItem>)
    ensures
        items.deep_view() == tool_calls_stream(id@, created, model@, tool_calls.deep_view()),
{
    let ghost whole = tool_calls@;
    let ghost count: usize = tool_calls.len();
    let mut items: Vec<StreamItem> = Vec::new();
    let mut index: usize = 0;
    for tool_call in it: tool_calls
        invariant
            it.seq() == whole,
            items@.len() == it.index(),
            index == it.index(),
            count == whole.len(),
            forall|k: int|
                0 <= k < it.index() ==> (#[trigger] items@[k]).deep_view()
                    == StreamItemModel::Chunk(
                    tool_call_chunk(
                        id@,
                        created,
                        model@,
                        (k as usize) as u32,
                        whole[k].deep_view(),
                    ),
                ),
    {
        let chunk = tool_call_chunk_response(
            id.as_str(),
            created,
            model.as_str(),
            index as u32,
            tool_call,
        );
        items.push(StreamItem::Chunk(chunk));
        index = index + 1;
    }
    items.push(
        StreamItem::Chunk(
            finish_chunk_response(id.as_str(), created, model.as_str(), "tool_calls"),
        ),
    );
    items.push(StreamItem::Done);
    assert(items.deep_view() =~= tool_calls_stream(
        id@,
        created,
        model@,
        tool_calls.deep_view(),
    ));
    items
}

/// The stream of an answer with a text.
pub fn final_text_stream_response(id: String, created: i64, model: String, content: String) -> (items:
    Vec<StreamItem>)
    ensures
        items.deep_view() == final_text_stream(id@, created, model@, content@),
{
    let mut items: Vec<StreamItem> = Vec::new();
    if !content.as_str().is_empty() {
        items.push(
            StreamItem::Chunk(
                content_chunk_response(id.as_str(), created, model.as_str(), content),
            ),
        );
    }
    items.push(
        StreamItem::Chunk(finish_chunk_response(id.as_str(), created, model.as_str(), "stop")),
    );
    items.push(StreamItem::Done);
    assert(items.deep_view() =~= final_text_stream(id@, created, model@, content@));
    items
}

/// The stream of an answer, whether of tool calls or of text, ends once, and
/// with nothing behind its end; right before it stands the piece that ends
/// the answer.
pub proof fn law_streams_end_once(
    id: Seq<char>,
    created: i64,
    model: Seq<char>,
    calls: Seq<ToolCallModel>,
    content: Seq<char>,
)
    ensures
        ends_once(tool_calls_stream(id, created, model, calls)),
        ends_once(final_text_stream(id, created, model, content)),
{
}

/// The last item is the end of the stream, the one before it ends the answer,
/// and no other item does either.
pub open spec fn ends_once(items: Seq<StreamItemModel>) -> bool {
    &&& items.len() >= 2
    &&& items.last() is Done
    &&& forall|i: int| 0 <= i < items.len() - 1 ==> (#[trigger] items[i]) is Chunk
    &&& forall|i: int|
        0 <= i < items.len() - 1 ==> ((#[trigger] items[i])->Chunk_0.choices[0].finish_reason is Some
            <==> i == items.len() - 2)
}

/// The texts that the items of a stream add, one after another.
pub open spec fn streamed_text(items: Seq<StreamItemModel>) -> Seq<char>
    decreases items.len(),
{
    if items.len() == 0 {
        Seq::empty()
    } else {
        streamed_text(items.drop_last()) + (match items.last() {
            StreamItemModel::Chunk(chunk) => match chunk.choices[0].delta.content {
                Some(content) => content,
                None => Seq::empty(),
            },
            StreamItemModel::Done => Seq::empty(),
        })
    }
}

/// The stream of an answer with a text tells that text.
pub proof fn law_stream_tells_the_text(
    id: Seq<char>,
    created: i64,
    model: Seq<char>,
    content: Seq<char>,
)
    ensures
        streamed_text(final_text_stream(id, created, model, content)) == content,
{
    let items = final_text_stream(id, created, model, content);
    reveal_with_fuel(streamed_text, 4);
    assert(streamed_text(items) =~= content);
}

/// The stream of an answer with tool calls tells each call at its place, and
/// no other.
pub proof fn law_stream_tells_the_calls(
    id: Seq<char>,
    created: i64,
    model: Seq<char>,
    calls: Seq<ToolCallModel>,
)
    requires
        calls.len() <= u32::MAX,
    ensures
        tool_calls_stream(id, created, model, calls).len() == calls.len() + 2,
        forall|i: int|
            0 <= i < calls.len() ==> (#[trigger] tool_calls_stream(
                id,
                created,
                model,
                calls,
            )[i])->Chunk_0.choices[0].delta.tool_calls == Some(
                seq![
                    ChunkToolCallModel {
                        index: i as u32,
                        id: Some(calls[i].id),
                        kind: Some(calls[i].kind),
                        name: Some(calls[i].name),
                        arguments: Some(calls[i].arguments),
                    },
                ],
            ),
{
}

// ---------------------------------------------------------------------------
// Answers to a plan
// ---------------------------------------------------------------------------

/// An answer: a whole response, or a stream.
#[derive(Debug)]
pub enum ChatReply {
    Whole(ChatCompletionResponse),
    Stream(Vec<StreamItem>),
}

pub enum ReplyModel {
    Whole(ResponseModel),
    Stream(Seq<StreamItemModel>),
}

impl DeepView for ChatReply {
    type V = ReplyModel;

    open spec fn deep_view(&self) -> ReplyModel {
        match self {
            ChatReply::Whole(response) => ReplyModel::Whole(response.deep_view()),
            ChatReply::Stream(items) => ReplyModel::Stream(items.deep_view()),
        }
    }
}

/// A message that holds tool calls and nothing else.
pub open spec fn tool_calls_message(calls: Seq<ToolCallModel>) -> MessageModel {
    MessageModel {
        role: "assistant"@,
        content: None,
        name: None,
        tool_call_id: None,
        tool_calls: Some(calls),
    }
}

/// The answer to a decision of the planner.
pub open spec fn reply_to_decision(
    model: Seq<char>,
    decision: DecisionModel,
    stream: bool,
    now_ms: i64,
    now_s: i64,
) -> ReplyModel {
    match decision {
        DecisionModel::ToolCalls(planned) => {
            let calls = planner::answered_calls(planned);
            if stream {
                ReplyModel::Stream(tool_calls_stream(fresh_id(now_ms), now_s, model, calls))
            } else {
                ReplyModel::Whole(
                    response_with(
                        fresh_id(now_ms),
                        now_s,
                        model,
                        tool_calls_message(calls),
                        "tool_calls"@,
                    ),
                )
            }
        },
        DecisionModel::Final(content) => if stream {
            ReplyModel::Stream(final_text_stream(fresh_id(now_ms), now_s, model, content))
        } else {
            ReplyModel::Whole(
                text_response(model, content, fresh_id(now_ms), now_s, now_ms, now_s),
            )
        },
    }
}

/// The answer to a decision of the planner, at a given time.
pub fn planner_decision_response_at(
    model: String,
    decision: PlannerDecision,
    stream_response: bool,
    now_ms: i64,
    now_s: i64,
) -> (reply: ChatReply)
    ensures
        reply.deep_view() == reply_to_decision(
            model@,
            decision.deep_view(),
            stream_response,
            now_ms,
            now_s,
        ),
{
    let id = make_id(now_ms);
    match decision {
        PlannerDecision::ToolCalls { calls } => {
            let tool_calls = planner::tool_calls_of(calls);
            if stream_response {
                return ChatReply::Stream(tool_calls_stream_response(id, now_s, model, tool_calls));
            }
            let message = ChatMessage {
                role: "assistant".to_owned(),
                content: None,
                name: None,
                tool_call_id: None,
                tool_calls: Some(tool_calls),
            };
            ChatReply::Whole(respond_with(id, now_s, model, message, "tool_calls".to_owned()))
        },
        PlannerDecision::Final { content } => {
            if stream_response {
                return ChatReply::Stream(final_text_stream_response(id, now_s, model, content));
            }
            ChatReply::Whole(completion_response_at(model, content, id, now_s, now_ms, now_s))
        },
    }
}

/// The answer to a decision of the planner.
pub fn planner_decision_response(model: String, decision: PlannerDecision, stream_response: bool) -> (reply:
    ChatReply)
    ensures
        exists|now_ms: i64, now_s: i64|
            reply.deep_view() == #[trigger] reply_to_decision(
                model@,
                decision.deep_view(),
                stream_response,
                now_ms,
                now_s,
            ),
{
    planner_decision_response_at(model, decision, stream_response, now_millis(), now_seconds())
}

/// The answer that a chat gives after the results of tools.
pub open spec fn reply_after_tools(
    requested: Seq<char>,
    stream: bool,
    collected: CollectedModel,
    now_ms: i64,
    now_s: i64,
) -> ReplyModel {
    if stream {
        ReplyModel::Stream(
            final_text_stream(
                id_or_fresh(collected.id, now_ms),
                created_or_now(collected.created, now_s),
                answering_model(requested, collected),
                reasoning::cleaned(collected.raw_content),
            ),
        )
    } else {
        ReplyModel::Whole(response_of_collected(requested, collected, now_ms, now_s))
    }
}

/// The answer that a chat gives after the results of tools, at a given time.
pub fn final_chat_reply_at(
    requested_model: String,
    stream_response: bool,
    collected: CollectedChat,
    now_ms: i64,
    now_s: i64,
) -> (reply: ChatReply)
    ensures
        reply.deep_view() == reply_after_tools(
            requested_model@,
            stream_response,
            collected.deep_view(),
            now_ms,
            now_s,
        ),
{
    if !stream_response {
        return ChatReply::Whole(collected_response_at(requested_model, collected, now_ms, now_s));
    }
    let content = reasoning::clean_reasoning(collected.raw_content.as_str());
    let model = if collected.model.as_str().is_empty() {
        requested_model
    } else {
        collected.model
    };
    let id = if collected.id.as_str().is_empty() {
        make_id(now_ms)
    } else {
        collected.id
    };
    let created: i64 = if collected.created == 0 {
        now_s
    } else {
        collected.created
    };
    ChatReply::Stream(final_text_stream_response(id, created, model, content))
}

/// The answer that a chat gives after the results of tools.
pub fn final_chat_reply(requested_model: String, stream_response: bool, collected: CollectedChat) -> (reply:
    ChatReply)
    ensures
        exists|now_ms: i64, now_s: i64|
            reply.deep_view() == #[trigger] reply_after_tools(
                requested_model@,
                stream_response,
                collected.deep_view(),
                now_ms,
                now_s,
            ),
{
    final_chat_reply_at(requested_model, stream_response, collected, now_millis(), now_seconds())
}

// ---------------------------------------------------------------------------
// Laws of the answers
// ---------------------------------------------------------------------------

/// An identity that an answer brings is kept, and so is its time; one that
/// brings none gets the present, its identity spelled in milliseconds.
pub proof fn law_answer_keeps_its_identity_and_time(
    id: Seq<char>,
    created: i64,
    now_ms: i64,
    now_s: i64,
)
    ensures
        id.len() > 0 ==> id_or_fresh(id, now_ms) == id,
        id.len() == 0 ==> id_or_fresh(id, now_ms) == "chatcmpl-"@ + text::decimal(now_ms as int),
        created != 0 ==> created_or_now(created, now_s) == created,
        created == 0 ==> created_or_now(created, now_s) == now_s,
        fresh_id(now_ms) == "chatcmpl-"@ + text::decimal(now_ms as int),
{
}

/// A text is answered in one message of the assistant's that holds exactly that
/// text, in one choice that ends with `stop`.
pub proof fn law_text_is_answered_whole(
    model: Seq<char>,
    content: Seq<char>,
    id: Seq<char>,
    created: i64,
    now_ms: i64,
    now_s: i64,
)
    ensures
        ({
            let response = text_response(model, content, id, created, now_ms, now_s);
            let message = response.choices[0].message;
            &&& response.choices.len() == 1
            &&& response.choices[0].index == 0
            &&& response.choices[0].finish_reason == "stop"@
            &&& message.role == "assistant"@
            &&& message.content == Some(JsonModel::Text(content))
            &&& message.name is None
            &&& message.tool_call_id is None
            &&& message.tool_calls is None
            &&& response.model == model
            &&& response.object == "chat.completion"@
            &&& response.id == id_or_fresh(id, now_ms)
            &&& response.created == created_or_now(created, now_s)
        }),
{
}

/// What was collected is answered without its reasoning, under the model that
/// it names, or the one that was asked where it names none.
pub proof fn law_collected_answer_is_answered_clean(
    requested: Seq<char>,
    collected: CollectedModel,
    now_ms: i64,
    now_s: i64,
)
    ensures
        ({
            let response = response_of_collected(requested, collected, now_ms, now_s);
            &&& response.choices.len() == 1
            &&& response.choices[0].message.content == Some(
                JsonModel::Text(reasoning::cleaned(collected.raw_content)),
            )
            &&& collected.model.len() > 0 ==> response.model == collected.model
            &&& collected.model.len() == 0 ==> response.model == requested
            &&& collected.id.len() > 0 ==> response.id == collected.id
            &&& collected.created != 0 ==> response.created == collected.created
            &&& response.choices[0].finish_reason == "stop"@
        }),
{
}

/// Each piece of a stream is made of the answer's identity, time and model, and
/// has one choice with one thing in it: a text, a tool call, or an end.
pub proof fn law_pieces_tell_one_thing(
    id: Seq<char>,
    created: i64,
    model: Seq<char>,
    content: Seq<char>,
    reason: Seq<char>,
    index: u32,
    call: ToolCallModel,
)
    ensures
        ({
            let piece = content_chunk(id, created, model, content, None);
            &&& is_piece_of(piece, id, created, model)
            &&& piece.choices[0].delta.content == Some(content)
            &&& piece.choices[0].delta.role is None
            &&& piece.choices[0].delta.tool_calls is None
            &&& piece.choices[0].finish_reason is None
        }),
        ({
            let piece = content_chunk(id, created, model, content, Some(reason));
            &&& is_piece_of(piece, id, created, model)
            &&& piece.choices[0].delta.content == Some(content)
            &&& piece.choices[0].finish_reason == Some(reason)
        }),
        ({
            let piece = tool_call_chunk(id, created, model, index, call);
            let delta = piece.choices[0].delta;
            &&& is_piece_of(piece, id, created, model)
            &&& delta.role == Some("assistant"@)
            &&& delta.content is None
            &&& delta.tool_calls is Some
            &&& delta.tool_calls->0.len() == 1
            &&& delta.tool_calls->0[0].index == index
            &&& delta.tool_calls->0[0].id == Some(call.id)
            &&& delta.tool_calls->0[0].kind == Some(call.kind)
            &&& delta.tool_calls->0[0].name == Some(call.name)
            &&& delta.tool_calls->0[0].arguments == Some(call.arguments)
            &&& piece.choices[0].finish_reason is None
        }),
        ({
            let piece = finish_chunk(id, created, model, reason);
            &&& is_piece_of(piece, id, created, model)
            &&& piece.choices[0].delta.role is None
            &&& piece.choices[0].delta.content is None
            &&& piece.choices[0].delta.tool_calls is None
            &&& piece.choices[0].finish_reason == Some(reason)
        }),
{
}

/// The piece belongs to the answer with this identity, time and model, and has
/// one choice.
pub open spec fn is_piece_of(
    piece: ChunkModel,
    id: Seq<char>,
    created: i64,
    model: Seq<char>,
) -> bool {
    &&& piece.id == id
    &&& piece.created == created
    &&& piece.model == model
    &&& piece.object == "chat.completion.chunk"@
    &&& piece.choices.len() == 1
    &&& piece.choices[0].index == 0
}

/// The streams of an answer are made of pieces of that answer, and end for the
/// reason that it has: tool calls to be made, or nothing more to say.
pub proof fn law_streams_belong_to_their_answer(
    id: Seq<char>,
    created: i64,
    model: Seq<char>,
    calls: Seq<ToolCallModel>,
    content: Seq<char>,
)
    ensures
        ({
            let items = tool_calls_stream(id, created, model, calls);
            &&& forall|i: int|
                0 <= i < calls.len() + 1 ==> (#[trigger] items[i]) is Chunk && is_piece_of(
                    items[i]->Chunk_0,
                    id,
                    created,
                    model,
                )
            &&& items[calls.len() as int]->Chunk_0.choices[0].finish_reason == Some("tool_calls"@)
            &&& items[(calls.len() + 1) as int] is Done
        }),
        ({
            let items = final_text_stream(id, created, model, content);
            let last = items.len() - 2;
            &&& items.len() == (if content.len() > 0 {
                3int
            } else {
                2int
            })
            &&& forall|i: int|
                0 <= i <= last ==> (#[trigger] items[i]) is Chunk && is_piece_of(
                    items[i]->Chunk_0,
                    id,
                    created,
                    model,
                )
            &&& items[last]->Chunk_0.choices[0].finish_reason == Some("stop"@)
            &&& items[last + 1] is Done
        }),
{
}

/// A piece is sent as its JSON, and the end of a stream as its word.
pub proof fn law_items_are_sent_as_they_are(chunk: ChunkModel)
    ensures
        item_data(StreamItemModel::Chunk(chunk)) == wire::chunk_text(chunk),
        item_data(StreamItemModel::Done) == Some("[DONE]"@),
{
}

/// A decision is answered in the form that the client asked for, with a fresh
/// identity and the present time: every call of it, or its text. In one piece,
/// the message of the calls holds nothing else.
pub proof fn law_decision_is_answered_in_full(
    model: Seq<char>,
    calls: Seq<PlannerCallModel>,
    content: Seq<char>,
    now_ms: i64,
    now_s: i64,
)
    requires
        now_s != 0,
    ensures
        ({
            let id = "chatcmpl-"@ + text::decimal(now_ms as int);
            let answered = planner::answered_calls(calls);
            let planned = DecisionModel::ToolCalls(calls);
            let said = DecisionModel::Final(content);
            &&& reply_to_decision(model, planned, true, now_ms, now_s) == ReplyModel::Stream(
                tool_calls_stream(id, now_s, model, answered),
            )
            &&& reply_to_decision(model, said, true, now_ms, now_s) == ReplyModel::Stream(
                final_text_stream(id, now_s, model, content),
            )
            &&& reply_to_decision(model, said, false, now_ms, now_s) is Whole
            &&& reply_to_decision(model, planned, false, now_ms, now_s) is Whole
        }),
        ({
            let id = "chatcmpl-"@ + text::decimal(now_ms as int);
            let said = reply_to_decision(
                model,
                DecisionModel::Final(content),
                false,
                now_ms,
                now_s,
            )->Whole_0;
            let planned = reply_to_decision(
                model,
                DecisionModel::ToolCalls(calls),
                false,
                now_ms,
                now_s,
            )->Whole_0;
            let message = planned.choices[0].message;
            &&& said.id == id && said.created == now_s && said.model == model
            &&& said.choices[0].message.content == Some(JsonModel::Text(content))
            &&& said.choices[0].finish_reason == "stop"@
            &&& planned.id == id && planned.created == now_s && planned.model == model
            &&& planned.object == "chat.completion"@
            &&& planned.choices.len() == 1 && planned.choices[0].index == 0
            &&& planned.choices[0].finish_reason == "tool_calls"@
            &&& message.role == "assistant"@ && message.content is None && message.name is None
            &&& message.tool_call_id is None
            &&& message.tool_calls == Some(planner::answered_calls(calls))
        }),
{
    reveal_strlit("chatcmpl-");
    assert(("chatcmpl-"@ + text::decimal(now_ms as int)).len() > 0);
}

/// The answer after results of tools is what was collected, without its
/// reasoning, in the form that the client asked for.
pub proof fn law_answer_after_tools_is_what_was_collected(
    requested: Seq<char>,
    collected: CollectedModel,
    now_ms: i64,
    now_s: i64,
)
    ensures
        reply_after_tools(requested, false, collected, now_ms, now_s) == ReplyModel::Whole(
            response_of_collected(requested, collected, now_ms, now_s),
        ),
        reply_after_tools(requested, true, collected, now_ms, now_s) is Stream,
        ({
            let items = reply_after_tools(requested, true, collected, now_ms, now_s)->Stream_0;
            let whole = response_of_collected(requested, collected, now_ms, now_s);
            let said = reasoning::cleaned(collected.raw_content);
            &&& streamed_text(items) == said
            &&& whole.choices[0].message.content == Some(JsonModel::Text(said))
            &&& forall|i: int|
                0 <= i < items.len() - 1 ==> (#[trigger] items[i]) is Chunk && is_piece_of(
                    items[i]->Chunk_0,
                    whole.id,
                    whole.created,
                    whole.model,
                )
        }),
{
    law_stream_tells_the_text(
        id_or_fresh(collected.id, now_ms),
        created_or_now(collected.created, now_s),
        answering_model(requested, collected),
        reasoning::cleaned(collected.raw_content),
    );
}

/// Items and answers are seen in full: two of them that look alike are alike.
pub proof fn law_answers_are_seen_in_full(a: StreamItem, b: StreamItem, c: ChatReply, d: ChatReply)
    ensures
        a.deep_view() == b.deep_view() ==> match (a, b) {
            (StreamItem::Chunk(x), StreamItem::Chunk(y)) => x.deep_view() == y.deep_view(),
            (StreamItem::Done, StreamItem::Done) => true,
            _ => false,
        },
        c.deep_view() == d.deep_view() ==> match (c, d) {
            (ChatReply::Whole(x), ChatReply::Whole(y)) => x.deep_view() == y.deep_view(),
            (ChatReply::Stream(x), ChatReply::Stream(y)) => x.deep_view() == y.deep_view(),
            _ => false,
        },
{
}

} // verus!
