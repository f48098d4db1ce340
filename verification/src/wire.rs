//! The JSON texts that the gateway answers with. Texts within them, and the
//! content of messages, are written by `serde_json`; where it fails there is
//! no text.

use crate::json::{Json, JsonModel};
use crate::openai::{
    ChatChoice, ChatChunkChoice, ChatChunkDelta, ChatChunkToolCall, ChatCompletionChunk,
    ChatCompletionResponse, ChatMessage, ChoiceModel, ChunkChoiceModel, ChunkModel,
    ChunkToolCallModel, DeltaModel, ErrorModel, ErrorReply, MessageModel, ResponseModel,
    ResponseToolCall, ToolCallModel,
};
use crate::{json, text};
use vstd::prelude::*;

verus! {

// ---------------------------------------------------------------------------
// Objects and lists
// ---------------------------------------------------------------------------

/// The JSON of a text.
pub open spec fn quoted(chars: Seq<char>) -> Option<Seq<char>> {
    json::json_compact(JsonModel::Text(chars))
}

/// The JSON of a text that may be missing.
pub open spec fn quoted_or_null(chars: Option<Seq<char>>) -> Option<Seq<char>> {
    match chars {
        Some(chars) => quoted(chars),
        None => Some("null"@),
    }
}

/// An object without members.
pub open spec fn no_members() -> Option<Seq<Seq<char>>> {
    Some(Seq::empty())
}

/// The members of an object and one more.
pub open spec fn with_member(
    members: Option<Seq<Seq<char>>>,
    key: Seq<char>,
    value: Option<Seq<char>>,
) -> Option<Seq<Seq<char>>> {
    match (members, value) {
        (Some(members), Some(value)) => Some(members.push("\""@ + key + "\":"@ + value)),
        _ => None,
    }
}

/// The members of an object and one more that holds a text; no more where the
/// text is missing.
pub open spec fn with_text_if_any(
    members: Option<Seq<Seq<char>>>,
    key: Seq<char>,
    chars: Option<Seq<char>>,
) -> Option<Seq<Seq<char>>> {
    match chars {
        Some(chars) => with_member(members, key, quoted(chars)),
        None => members,
    }
}

/// The JSON of an object.
pub open spec fn object_text(members: Option<Seq<Seq<char>>>) -> Option<Seq<char>> {
    match members {
        Some(members) => Some("{"@ + text::join(members, ","@) + "}"@),
        None => None,
    }
}

/// All of the texts, if none is missing.
pub open spec fn all_texts(texts: Seq<Option<Seq<char>>>) -> Option<Seq<Seq<char>>>
    decreases texts.len(),
{
    if texts.len() == 0 {
        Some(Seq::empty())
    } else {
        match (all_texts(texts.drop_last()), texts.last()) {
            (Some(before), Some(last)) => Some(before.push(last)),
            _ => None,
        }
    }
}

/// The JSON of a list whose items have these texts.
pub open spec fn list_text(items: Seq<Option<Seq<char>>>) -> Option<Seq<char>> {
    match all_texts(items) {
        Some(items) => Some("["@ + text::join(items, ","@) + "]"@),
        None => None,
    }
}

/// The JSON of a text.
fn quote(chars: &String) -> (result: Option<String>)
    ensures
        result.deep_view() == quoted(chars@),
{
    json::compact_text(&Json::String(chars.clone()))
}

/// The JSON of a text that may be missing.
fn quote_or_null(chars: &Option<String>) -> (result: Option<String>)
    ensures
        result.deep_view() == quoted_or_null(chars.deep_view()),
{
    match chars {
        Some(chars) => quote(chars),
        None => Some("null".to_owned()),
    }
}

/// The members of an object and one more.
pub fn add_member(members: Option<Vec<String>>, key: &str, value: Option<String>) -> (result: Option<
    Vec<String>,
>)
    ensures
        result.deep_view() == with_member(members.deep_view(), key@, value.deep_view()),
{
    match (members, value) {
        (Some(members), Some(value)) => {
            let ghost before = members.deep_view();
            let mut grown = members;
            let mut member = "\"".to_owned();
            member.append(key);
            member.append("\":");
            member.append(value.as_str());
            let ghost added = member@;
            grown.push(member);
            assert(grown.deep_view() =~= before.push(added));
            Some(grown)
        },
        _ => None,
    }
}

/// The members of an object and one more that holds a text, if there is one.
fn add_text_if_any(members: Option<Vec<String>>, key: &str, chars: &Option<String>) -> (result:
    Option<Vec<String>>)
    ensures
        result.deep_view() == with_text_if_any(members.deep_view(), key@, chars.deep_view()),
{
    match chars {
        Some(chars) => add_member(members, key, quote(chars)),
        None => members,
    }
}

/// An object without members.
pub fn new_members() -> (members: Option<Vec<String>>)
    ensures
        members.deep_view() == no_members(),
{
    let members: Vec<String> = Vec::new();
    assert(members.deep_view() =~= Seq::<Seq<char>>::empty());
    Some(members)
}

/// The JSON of an object.
pub fn close_object(members: Option<Vec<String>>) -> (result: Option<String>)
    ensures
        result.deep_view() == object_text(members.deep_view()),
{
    match members {
        Some(members) => {
            let mut result = "{".to_owned();
            result.append(text::joined(&members, ",").as_str());
            result.append("}");
            Some(result)
        },
        None => None,
    }
}

/// The JSON of a list whose items have these texts.
pub fn close_list(items: Vec<Option<String>>) -> (result: Option<String>)
    ensures
        result.deep_view() == list_text(items.deep_view()),
{
    let ghost all = items.deep_view();
    let ghost whole = items@;
    let mut known: Vec<String> = Vec::new();
    let mut complete = true;
    for item in it: items
        invariant
            it.seq() == whole,
            all == Seq::new(whole.len(), |i: int| whole[i].deep_view()),
            match all_texts(all.take(it.index())) {
                Some(texts) => complete && known.deep_view() == texts,
                None => !complete,
            },
    {
        let ghost i = it.index();
        assert(all.take(i + 1).drop_last() =~= all.take(i));
        let ghost before = known.deep_view();
        match item {
            Some(item) => {
                let ghost added = item@;
                known.push(item);
                assert(known.deep_view() =~= before.push(added));
            },
            None => {
                complete = false;
            },
        }
    }
    assert(all.take(all.len() as int) =~= all);
    if !complete {
        return None;
    }
    let mut result = "[".to_owned();
    result.append(text::joined(&known, ",").as_str());
    result.append("]");
    Some(result)
}

// ---------------------------------------------------------------------------
// Pieces of a stream
// ---------------------------------------------------------------------------

/// The JSON of a tool call in a piece of a stream.
pub open spec fn chunk_call_text(call: ChunkToolCallModel) -> Option<Seq<char>> {
    let function = object_text(
        with_text_if_any(
            with_text_if_any(no_members(), "name"@, call.name),
            "arguments"@,
            call.arguments,
        ),
    );
    let index = with_member(no_members(), "index"@, Some(text::decimal(call.index as int)));
    let id = with_text_if_any(index, "id"@, call.id);
    let kind = with_text_if_any(id, "type"@, call.kind);
    object_text(with_member(kind, "function"@, function))
}

/// The JSON of what a piece of a stream adds.
pub open spec fn delta_text(delta: DeltaModel) -> Option<Seq<char>> {
    let role = with_text_if_any(no_members(), "role"@, delta.role);
    let content = with_text_if_any(role, "content"@, delta.content);
    object_text(
        match delta.tool_calls {
            Some(calls) => with_member(
                content,
                "tool_calls"@,
                list_text(Seq::new(calls.len(), |i: int| chunk_call_text(calls[i]))),
            ),
            None => content,
        },
    )
}

/// The JSON of a choice in a piece of a stream.
pub open spec fn chunk_choice_text(choice: ChunkChoiceModel) -> Option<Seq<char>> {
    let index = with_member(no_members(), "index"@, Some(text::decimal(choice.index as int)));
    let delta = with_member(index, "delta"@, delta_text(choice.delta));
    object_text(with_member(delta, "finish_reason"@, quoted_or_null(choice.finish_reason)))
}

/// The members that responses and pieces of a stream begin with.
pub open spec fn head_members(
    id: Seq<char>,
    object: Seq<char>,
    created: i64,
    model: Seq<char>,
) -> Option<Seq<Seq<char>>> {
    let id = with_member(no_members(), "id"@, quoted(id));
    let object = with_member(id, "object"@, quoted(object));
    let created = with_member(object, "created"@, Some(text::decimal(created as int)));
    with_member(created, "model"@, quoted(model))
}

/// The JSON of a piece of a stream.
pub open spec fn chunk_text(chunk: ChunkModel) -> Option<Seq<char>> {
    object_text(
        with_member(
            head_members(chunk.id, chunk.object, chunk.created, chunk.model),
            "choices"@,
            list_text(
                Seq::new(chunk.choices.len(), |i: int| chunk_choice_text(chunk.choices[i])),
            ),
        ),
    )
}

/// The JSON of a tool call in a piece of a stream.
fn write_chunk_call(call: &ChatChunkToolCall) -> (result: Option<String>)
    ensures
        result.deep_view() == chunk_call_text(call.deep_view()),
{
    let name = add_text_if_any(new_members(), "name", &call.function.name);
    let function = close_object(add_text_if_any(name, "arguments", &call.function.arguments));
    let index = add_member(
        new_members(),
        "index",
        Some(text::unsigned_text(call.index as u128)),
    );
    let id = add_text_if_any(index, "id", &call.id);
    let kind = add_text_if_any(id, "type", &call.kind);
    close_object(add_member(kind, "function", function))
}

/// The JSON of the tool calls in a piece of a stream.
fn write_chunk_calls(calls: &Vec<ChatChunkToolCall>) -> (result: Option<String>)
    ensures
        result.deep_view() == list_text(
            Seq::new(calls@.len(), |i: int| chunk_call_text(calls.deep_view()[i])),
        ),
{
    let mut items: Vec<Option<String>> = Vec::new();
    let mut i: usize = 0;
    while i < calls.len()
        invariant
            i <= calls@.len(),
            items@.len() == i,
            forall|k: int|
                0 <= k < i ==> (#[trigger] items@[k]).deep_view() == chunk_call_text(
                    calls@[k].deep_view(),
                ),
        decreases calls@.len() - i,
    {
        items.push(write_chunk_call(&calls[i]));
        i = i + 1;
    }
    assert(items.deep_view() =~= Seq::new(
        calls@.len(),
        |i: int| chunk_call_text(calls.deep_view()[i]),
    ));
    close_list(items)
}

/// The JSON of what a piece of a stream adds.
fn write_delta(delta: &ChatChunkDelta) -> (result: Option<String>)
    ensures
        result.deep_view() == delta_text(delta.deep_view()),
{
    let role = add_text_if_any(new_members(), "role", &delta.role);
    let content = add_text_if_any(role, "content", &delta.content);
    match &delta.tool_calls {
        Some(calls) => close_object(add_member(content, "tool_calls", write_chunk_calls(calls))),
        None => close_object(content),
    }
}

/// The JSON of a choice in a piece of a stream.
fn write_chunk_choice(choice: &ChatChunkChoice) -> (result: Option<String>)
    ensures
        result.deep_view() == chunk_choice_text(choice.deep_view()),
{
    let index = add_member(
        new_members(),
        "index",
        Some(text::unsigned_text(choice.index as u128)),
    );
    let delta = add_member(index, "delta", write_delta(&choice.delta));
    close_object(add_member(delta, "finish_reason", quote_or_null(&choice.finish_reason)))
}

/// The members that responses and pieces of a stream begin with.
fn write_head(id: &String, object: &String, created: i64, model: &String) -> (members: Option<
    Vec<String>,
>)
    ensures
        members.deep_view() == head_members(id@, object@, created, model@),
{
    let id = add_member(new_members(), "id", quote(id));
    let object = add_member(id, "object", quote(object));
    let created = add_member(object, "created", Some(text::signed_text(created)));
    add_member(created, "model", quote(model))
}

/// The JSON of a piece of a stream.
pub fn write_chunk(chunk: &ChatCompletionChunk) -> (result: Option<String>)
    ensures
        result.deep_view() == chunk_text(chunk.deep_view()),
{
    let head = write_head(&chunk.id, &chunk.object, chunk.created, &chunk.model);
    let mut items: Vec<Option<String>> = Vec::new();
    let mut i: usize = 0;
    while i < chunk.choices.len()
        invariant
            i <= chunk.choices@.len(),
            items@.len() == i,
            forall|k: int|
                0 <= k < i ==> (#[trigger] items@[k]).deep_view() == chunk_choice_text(
                    chunk.choices@[k].deep_view(),
                ),
        decreases chunk.choices@.len() - i,
    {
        items.push(write_chunk_choice(&chunk.choices[i]));
        i = i + 1;
    }
    assert(items.deep_view() =~= Seq::new(
        chunk.deep_view().choices.len(),
        |i: int| chunk_choice_text(chunk.deep_view().choices[i]),
    ));
    close_object(add_member(head, "choices", close_list(items)))
}

// ---------------------------------------------------------------------------
// Whole responses
// ---------------------------------------------------------------------------

/// The JSON of a tool call.
pub open spec fn call_text(call: ToolCallModel) -> Option<Seq<char>> {
    let function = object_text(
        with_member(
            with_member(no_members(), "name"@, quoted(call.name)),
            "arguments"@,
            quoted(call.arguments),
        ),
    );
    let id = with_member(no_members(), "id"@, quoted(call.id));
    let kind = with_member(id, "type"@, quoted(call.kind));
    object_text(with_member(kind, "function"@, function))
}

/// The JSON of a message.
pub open spec fn message_text(message: MessageModel) -> Option<Seq<char>> {
    let role = with_member(no_members(), "role"@, quoted(message.role));
    let content = match message.content {
        Some(content) => with_member(role, "content"@, json::json_compact(content)),
        None => role,
    };
    let name = with_text_if_any(content, "name"@, message.name);
    let call_id = with_text_if_any(name, "tool_call_id"@, message.tool_call_id);
    object_text(
        match message.tool_calls {
            Some(calls) => with_member(
                call_id,
                "tool_calls"@,
                list_text(Seq::new(calls.len(), |i: int| call_text(calls[i]))),
            ),
            None => call_id,
        },
    )
}

/// The JSON of a choice.
pub open spec fn choice_text(choice: ChoiceModel) -> Option<Seq<char>> {
    let index = with_member(no_members(), "index"@, Some(text::decimal(choice.index as int)));
    let message = with_member(index, "message"@, message_text(choice.message));
    object_text(with_member(message, "finish_reason"@, quoted(choice.finish_reason)))
}

/// The JSON of a response.
pub open spec fn response_text(response: ResponseModel) -> Option<Seq<char>> {
    object_text(
        with_member(
            head_members(response.id, response.object, response.created, response.model),
            "choices"@,
            list_text(
                Seq::new(response.choices.len(), |i: int| choice_text(response.choices[i])),
            ),
        ),
    )
}

/// The JSON of a tool call.
fn write_call(call: &ResponseToolCall) -> (result: Option<String>)
    ensures
        result.deep_view() == call_text(call.deep_view()),
{
    let name = add_member(new_members(), "name", quote(&call.function.name));
    let function = close_object(add_member(name, "arguments", quote(&call.function.arguments)));
    let id = add_member(new_members(), "id", quote(&call.id));
    let kind = add_member(id, "type", quote(&call.kind));
    close_object(add_member(kind, "function", function))
}

/// The JSON of tool calls.
fn write_calls(calls: &Vec<ResponseToolCall>) -> (result: Option<String>)
    ensures
        result.deep_view() == list_text(
            Seq::new(calls@.len(), |i: int| call_text(calls.deep_view()[i])),
        ),
{
    let mut items: Vec<Option<String>> = Vec::new();
    let mut i: usize = 0;
    while i < calls.len()
        invariant
            i <= calls@.len(),
            items@.len() == i,
            forall|k: int|
                0 <= k < i ==> (#[trigger] items@[k]).deep_view() == call_text(
                    calls@[k].deep_view(),
                ),
        decreases calls@.len() - i,
    {
        items.push(write_call(&calls[i]));
        i = i + 1;
    }
    assert(items.deep_view() =~= Seq::new(calls@.len(), |i: int| call_text(calls.deep_view()[i])));
    close_list(items)
}

/// The JSON of a message.
fn write_message(message: &ChatMessage) -> (result: Option<String>)
    ensures
        result.deep_view() == message_text(message.deep_view()),
{
    let role = add_member(new_members(), "role", quote(&message.role));
    let content = match &message.content {
        Some(content) => add_member(role, "content", json::compact_text(content)),
        None => role,
    };
    let name = add_text_if_any(content, "name", &message.name);
    let call_id = add_text_if_any(name, "tool_call_id", &message.tool_call_id);
    match &message.tool_calls {
        Some(calls) => close_object(add_member(call_id, "tool_calls", write_calls(calls))),
        None => close_object(call_id),
    }
}

/// The JSON of a choice.
fn write_choice(choice: &ChatChoice) -> (result: Option<String>)
    ensures
        result.deep_view() == choice_text(choice.deep_view()),
{
    let index = add_member(
        new_members(),
        "index",
        Some(text::unsigned_text(choice.index as u128)),
    );
    let message = add_member(index, "message", write_message(&choice.message));
    close_object(add_member(message, "finish_reason", quote(&choice.finish_reason)))
}

/// The JSON of a response.
pub fn write_response(response: &ChatCompletionResponse) -> (result: Option<String>)
    ensures
        result.deep_view() == response_text(response.deep_view()),
{
    let head = write_head(&response.id, &response.object, response.created, &response.model);
    let mut items: Vec<Option<String>> = Vec::new();
    let mut i: usize = 0;
    while i < response.choices.len()
        invariant
            i <= response.choices@.len(),
            items@.len() == i,
            forall|k: int|
                0 <= k < i ==> (#[trigger] items@[k]).deep_view() == choice_text(
                    response.choices@[k].deep_view(),
                ),
        decreases response.choices@.len() - i,
    {
        items.push(write_choice(&response.choices[i]));
        i = i + 1;
    }
    assert(items.deep_view() =~= Seq::new(
        response.deep_view().choices.len(),
        |i: int| choice_text(response.deep_view().choices[i]),
    ));
    close_object(add_member(head, "choices", close_list(items)))
}

// ---------------------------------------------------------------------------
// Errors
// ---------------------------------------------------------------------------

/// The JSON of the body of an error answer.
pub open spec fn error_text(error: ErrorModel) -> Option<Seq<char>> {
    let message = with_member(no_members(), "message"@, quoted(error.message));
    let kind = with_member(message, "type"@, quoted(error.kind));
    let code = with_member(kind, "code"@, quoted_or_null(error.code));
    object_text(with_member(no_members(), "error"@, object_text(code)))
}

/// The JSON of the body of an error answer.
pub fn write_error(reply: &ErrorReply) -> (result: Option<String>)
    ensures
        result.deep_view() == error_text(reply.deep_view()),
{
    let error = &reply.body.error;
    let message = add_member(new_members(), "message", quote(&error.message));
    let kind = add_member(message, "type", quote(&error.kind));
    let code = add_member(kind, "code", quote_or_null(&error.code));
    close_object(add_member(new_members(), "error", close_object(code)))
}

/// The JSON of the event that reports a failure in the middle of a stream.
pub open spec fn failure_text(message: Seq<char>) -> Option<Seq<char>> {
    let code = with_member(no_members(), "code"@, Some("null"@));
    let told = with_member(code, "message"@, quoted(message));
    let kind = with_member(told, "type"@, quoted("upstream_error"@));
    object_text(with_member(no_members(), "error"@, object_text(kind)))
}

/// The JSON of the event that reports a failure in the middle of a stream.
pub fn write_failure(message: &String) -> (result: Option<String>)
    ensures
        result.deep_view() == failure_text(message@),
{
    let code = add_member(new_members(), "code", Some("null".to_owned()));
    let told = add_member(code, "message", quote(message));
    let kind = add_member(told, "type", quote(&"upstream_error".to_owned()));
    close_object(add_member(new_members(), "error", close_object(kind)))
}

// ---------------------------------------------------------------------------
// Laws
// ---------------------------------------------------------------------------

/// A member that is written stands behind those before it, as its key in
/// quotation marks, a colon and its value; where a value is missing there is no
/// object.
pub proof fn law_member_is_key_and_value(members: Seq<Seq<char>>, key: Seq<char>, value: Seq<char>)
    ensures
        with_member(Some(members), key, Some(value)) == Some(
            members.push("\""@ + key + "\":"@ + value),
        ),
        with_member(None, key, Some(value)) is None,
        with_member(Some(members), key, None) is None,
        object_text(None) is None,
{
}

/// An object is written in braces, and its members with commas between them,
/// in their order.
pub proof fn law_object_is_written_in_braces(first: Seq<Seq<char>>, second: Seq<Seq<char>>)
    requires
        first.len() > 0,
        second.len() > 0,
    ensures
        object_text(Some(first + second)) == Some(
            "{"@ + (text::join(first, ","@) + ","@ + text::join(second, ","@)) + "}"@,
        ),
        object_text(no_members()) == Some("{"@ + Seq::<char>::empty() + "}"@),
{
    text::law_join_is_piecewise(first, second, ","@);
}

/// A list is written in brackets, and its items with commas between them, in
/// their order; where one cannot be written the list cannot.
pub proof fn law_list_is_written_in_brackets(items: Seq<Option<Seq<char>>>, texts: Seq<Seq<char>>)
    requires
        texts.len() == items.len(),
    ensures
        (forall|i: int| 0 <= i < items.len() ==> (#[trigger] items[i]) == Some(texts[i]))
            ==> list_text(items) == Some("["@ + text::join(texts, ","@) + "]"@),
        (exists|i: int| 0 <= i < items.len() && (#[trigger] items[i]) is None) ==> list_text(items)
            is None,
{
    lemma_all_texts(items, texts);
}

proof fn lemma_all_texts(items: Seq<Option<Seq<char>>>, texts: Seq<Seq<char>>)
    requires
        texts.len() == items.len(),
    ensures
        (forall|i: int| 0 <= i < items.len() ==> (#[trigger] items[i]) == Some(texts[i]))
            ==> all_texts(items) == Some(texts),
        (exists|i: int| 0 <= i < items.len() && (#[trigger] items[i]) is None) ==> all_texts(items)
            is None,
    decreases items.len(),
{
    if items.len() == 0 {
        assert(texts =~= Seq::<Seq<char>>::empty());
    } else {
        let front = items.drop_last();
        let last = items.len() - 1;
        lemma_all_texts(front, texts.drop_last());
        assert(forall|i: int| 0 <= i < front.len() ==> front[i] == #[trigger] items[i]);
        if forall|i: int| 0 <= i < items.len() ==> (#[trigger] items[i]) == Some(texts[i]) {
            assert forall|i: int| 0 <= i < front.len() implies (#[trigger] front[i]) == Some(
                texts.drop_last()[i],
            ) by {
                assert(items[i] == Some(texts[i]));
            }
            assert(items[last] == Some(texts[last]));
            assert(texts.drop_last().push(texts.last()) =~= texts);
        }
        if exists|i: int| 0 <= i < items.len() && (#[trigger] items[i]) is None {
            let i = choose|i: int| 0 <= i < items.len() && (#[trigger] items[i]) is None;
            if i < last {
                assert(front[i] is None);
            }
        }
    }
}

/// A text is written as its JSON, a missing one as `null`; a member for a text
/// that is missing is left out.
pub proof fn law_missing_text_is_null_or_left_out(
    members: Option<Seq<Seq<char>>>,
    key: Seq<char>,
    chars: Seq<char>,
)
    ensures
        quoted_or_null(Some(chars)) == json::json_compact(JsonModel::Text(chars)),
        quoted_or_null(None) == Some("null"@),
        with_text_if_any(members, key, None) == members,
        with_text_if_any(members, key, Some(chars)) == with_member(
            members,
            key,
            json::json_compact(JsonModel::Text(chars)),
        ),
{
}

proof fn lemma_join_two(a: Seq<char>, b: Seq<char>)
    ensures
        text::join(seq![a, b], ","@) == a + ","@ + b,
{
    text::law_join_is_piecewise(seq![a], seq![b], ","@);
    assert(seq![a] + seq![b] =~= seq![a, b]);
}

proof fn lemma_join_three(a: Seq<char>, b: Seq<char>, c: Seq<char>)
    ensures
        text::join(seq![a, b, c], ","@) == a + ","@ + b + ","@ + c,
{
    lemma_join_two(a, b);
    text::law_join_is_piecewise(seq![a, b], seq![c], ","@);
    assert(seq![a, b] + seq![c] =~= seq![a, b, c]);
}

proof fn lemma_join_four(a: Seq<char>, b: Seq<char>, c: Seq<char>, d: Seq<char>)
    ensures
        text::join(seq![a, b, c, d], ","@) == a + ","@ + b + ","@ + c + ","@ + d,
{
    lemma_join_three(a, b, c);
    text::law_join_is_piecewise(seq![a, b, c], seq![d], ","@);
    assert(seq![a, b, c] + seq![d] =~= seq![a, b, c, d]);
}

proof fn lemma_join_five(a: Seq<char>, b: Seq<char>, c: Seq<char>, d: Seq<char>, e: Seq<char>)
    ensures
        text::join(seq![a, b, c, d, e], ","@) == a + ","@ + b + ","@ + c + ","@ + d + ","@ + e,
{
    lemma_join_four(a, b, c, d);
    text::law_join_is_piecewise(seq![a, b, c, d], seq![e], ","@);
    assert(seq![a, b, c, d] + seq![e] =~= seq![a, b, c, d, e]);
}

proof fn lemma_keys()
    ensures
        "\""@ + "id"@ + "\":"@ == "\"id\":"@,
        "\""@ + "object"@ + "\":"@ == "\"object\":"@,
        "\""@ + "created"@ + "\":"@ == "\"created\":"@,
        "\""@ + "model"@ + "\":"@ == "\"model\":"@,
        "\""@ + "choices"@ + "\":"@ == "\"choices\":"@,
        "\""@ + "index"@ + "\":"@ == "\"index\":"@,
        "\""@ + "delta"@ + "\":"@ == "\"delta\":"@,
        "\""@ + "content"@ + "\":"@ == "\"content\":"@,
        "\""@ + "finish_reason"@ + "\":"@ == "\"finish_reason\":"@,
        "\""@ + "error"@ + "\":"@ == "\"error\":"@,
        "\""@ + "code"@ + "\":"@ == "\"code\":"@,
        "\""@ + "message"@ + "\":"@ == "\"message\":"@,
        "\""@ + "type"@ + "\":"@ == "\"type\":"@,
        "\""@ + "role"@ + "\":"@ == "\"role\":"@,
        "\""@ + "tool_calls"@ + "\":"@ == "\"tool_calls\":"@,
        "\""@ + "function"@ + "\":"@ == "\"function\":"@,
        "\""@ + "name"@ + "\":"@ == "\"name\":"@,
        "\""@ + "arguments"@ + "\":"@ == "\"arguments\":"@,
{
    reveal_strlit("\"");
    reveal_strlit("\":");
    reveal_strlit("id");
    reveal_strlit("\"id\":");
    reveal_strlit("object");
    reveal_strlit("\"object\":");
    reveal_strlit("created");
    reveal_strlit("\"created\":");
    reveal_strlit("model");
    reveal_strlit("\"model\":");
    reveal_strlit("choices");
    reveal_strlit("\"choices\":");
    reveal_strlit("index");
    reveal_strlit("\"index\":");
    reveal_strlit("delta");
    reveal_strlit("\"delta\":");
    reveal_strlit("content");
    reveal_strlit("\"content\":");
    reveal_strlit("finish_reason");
    reveal_strlit("\"finish_reason\":");
    reveal_strlit("error");
    reveal_strlit("\"error\":");
    reveal_strlit("code");
    reveal_strlit("\"code\":");
    reveal_strlit("message");
    reveal_strlit("\"message\":");
    reveal_strlit("type");
    reveal_strlit("\"type\":");
    reveal_strlit("role");
    reveal_strlit("\"role\":");
    reveal_strlit("tool_calls");
    reveal_strlit("\"tool_calls\":");
    reveal_strlit("function");
    reveal_strlit("\"function\":");
    reveal_strlit("name");
    reveal_strlit("\"name\":");
    reveal_strlit("arguments");
    reveal_strlit("\"arguments\":");
    assert("\""@ + "id"@ + "\":"@ =~= "\"id\":"@);
    assert("\""@ + "object"@ + "\":"@ =~= "\"object\":"@);
    assert("\""@ + "created"@ + "\":"@ =~= "\"created\":"@);
    assert("\""@ + "model"@ + "\":"@ =~= "\"model\":"@);
    assert("\""@ + "choices"@ + "\":"@ =~= "\"choices\":"@);
    assert("\""@ + "index"@ + "\":"@ =~= "\"index\":"@);
    assert("\""@ + "delta"@ + "\":"@ =~= "\"delta\":"@);
    assert("\""@ + "content"@ + "\":"@ =~= "\"content\":"@);
    assert("\""@ + "finish_reason"@ + "\":"@ =~= "\"finish_reason\":"@);
    assert("\""@ + "error"@ + "\":"@ =~= "\"error\":"@);
    assert("\""@ + "code"@ + "\":"@ =~= "\"code\":"@);
    assert("\""@ + "message"@ + "\":"@ =~= "\"message\":"@);
    assert("\""@ + "type"@ + "\":"@ =~= "\"type\":"@);
    assert("\""@ + "role"@ + "\":"@ =~= "\"role\":"@);
    assert("\""@ + "tool_calls"@ + "\":"@ =~= "\"tool_calls\":"@);
    assert("\""@ + "function"@ + "\":"@ =~= "\"function\":"@);
    assert("\""@ + "name"@ + "\":"@ =~= "\"name\":"@);
    assert("\""@ + "arguments"@ + "\":"@ =~= "\"arguments\":"@);
}

/// A failure in the middle of a stream is written with its message.
pub proof fn law_failure_is_written(message: Seq<char>, message_json: Seq<char>, kind_json: Seq<char>)
    requires
        json::json_compact(JsonModel::Text(message)) == Some(message_json),
        json::json_compact(JsonModel::Text("upstream_error"@)) == Some(kind_json),
    ensures
        failure_text(message) == Some(
            "{"@ + ("\"error\":"@ + ("{"@ + ("\"code\":"@ + "null"@) + ","@ + ("\"message\":"@
                + message_json) + ","@ + ("\"type\":"@ + kind_json) + "}"@)) + "}"@,
        ),
{
    lemma_keys();
    let a = "\"code\":"@ + "null"@;
    let b = "\"message\":"@ + message_json;
    let c = "\"type\":"@ + kind_json;
    let none = Seq::<Seq<char>>::empty();
    assert(none.push(a).push(b).push(c) =~= seq![a, b, c]);
    lemma_join_three(a, b, c);
    let inner = "{"@ + (a + ","@ + b + ","@ + c) + "}"@;
    assert(inner =~= "{"@ + a + ","@ + b + ","@ + c + "}"@);
    assert(none.push("\"error\":"@ + inner) =~= seq!["\"error\":"@ + inner]);
}

/// An error is written with its message, its kind, and its code or `null`.
pub proof fn law_error_is_written(
    error: ErrorModel,
    message_json: Seq<char>,
    kind_json: Seq<char>,
    code_json: Seq<char>,
)
    requires
        json::json_compact(JsonModel::Text(error.message)) == Some(message_json),
        json::json_compact(JsonModel::Text(error.kind)) == Some(kind_json),
        error.code is Some ==> json::json_compact(JsonModel::Text(error.code->0)) == Some(
            code_json,
        ),
        error.code is None ==> code_json == "null"@,
    ensures
        error_text(error) == Some(
            "{"@ + ("\"error\":"@ + ("{"@ + ("\"message\":"@ + message_json) + ","@ + (
            "\"type\":"@ + kind_json) + ","@ + ("\"code\":"@ + code_json) + "}"@)) + "}"@,
        ),
{
    lemma_keys();
    let a = "\"message\":"@ + message_json;
    let b = "\"type\":"@ + kind_json;
    let c = "\"code\":"@ + code_json;
    let none = Seq::<Seq<char>>::empty();
    assert(none.push(a).push(b).push(c) =~= seq![a, b, c]);
    lemma_join_three(a, b, c);
    let inner = "{"@ + (a + ","@ + b + ","@ + c) + "}"@;
    assert(inner =~= "{"@ + a + ","@ + b + ","@ + c + "}"@);
    assert(none.push("\"error\":"@ + inner) =~= seq!["\"error\":"@ + inner]);
}

/// A piece of a stream is written with its identity, its object, its time, its
/// model, and all of its choices.
pub proof fn law_piece_is_written_in_full(
    chunk: ChunkModel,
    id_json: Seq<char>,
    object_json: Seq<char>,
    model_json: Seq<char>,
    choices: Seq<Seq<char>>,
)
    requires
        json::json_compact(JsonModel::Text(chunk.id)) == Some(id_json),
        json::json_compact(JsonModel::Text(chunk.object)) == Some(object_json),
        json::json_compact(JsonModel::Text(chunk.model)) == Some(model_json),
        choices.len() == chunk.choices.len(),
        forall|i: int|
            0 <= i < choices.len() ==> chunk_choice_text(#[trigger] chunk.choices[i]) == Some(
                choices[i],
            ),
    ensures
        chunk_text(chunk) == Some(
            "{"@ + ("\"id\":"@ + id_json) + ","@ + ("\"object\":"@ + object_json) + ","@ + (
            "\"created\":"@ + text::decimal(chunk.created as int)) + ","@ + ("\"model\":"@
                + model_json) + ","@ + ("\"choices\":"@ + ("["@ + text::join(choices, ","@)
                + "]"@)) + "}"@,
        ),
{
    let items = Seq::new(chunk.choices.len(), |i: int| chunk_choice_text(chunk.choices[i]));
    law_list_is_written_in_brackets(items, choices);
    lemma_head(
        chunk.id,
        chunk.object,
        chunk.created,
        chunk.model,
        id_json,
        object_json,
        model_json,
        "["@ + text::join(choices, ","@) + "]"@,
    );
}

proof fn lemma_head(
    id: Seq<char>,
    object: Seq<char>,
    created: i64,
    model: Seq<char>,
    id_json: Seq<char>,
    object_json: Seq<char>,
    model_json: Seq<char>,
    choices: Seq<char>,
)
    requires
        json::json_compact(JsonModel::Text(id)) == Some(id_json),
        json::json_compact(JsonModel::Text(object)) == Some(object_json),
        json::json_compact(JsonModel::Text(model)) == Some(model_json),
    ensures
        object_text(
            with_member(head_members(id, object, created, model), "choices"@, Some(choices)),
        ) == Some(
            "{"@ + ("\"id\":"@ + id_json) + ","@ + ("\"object\":"@ + object_json) + ","@ + (
            "\"created\":"@ + text::decimal(created as int)) + ","@ + ("\"model\":"@ + model_json)
                + ","@ + ("\"choices\":"@ + choices) + "}"@,
        ),
{
    lemma_keys();
    let a = "\"id\":"@ + id_json;
    let b = "\"object\":"@ + object_json;
    let c = "\"created\":"@ + text::decimal(created as int);
    let d = "\"model\":"@ + model_json;
    let e = "\"choices\":"@ + choices;
    let none = Seq::<Seq<char>>::empty();
    assert(none.push(a).push(b).push(c).push(d).push(e) =~= seq![a, b, c, d, e]);
    lemma_join_five(a, b, c, d, e);
    assert("{"@ + (a + ","@ + b + ","@ + c + ","@ + d + ","@ + e) + "}"@ =~= "{"@ + a + ","@ + b
        + ","@ + c + ","@ + d + ","@ + e + "}"@);
}

/// A choice of a piece is written with its index, what it adds, and why it
/// ends, or `null`.
pub proof fn law_choice_of_a_piece_is_written(
    choice: ChunkChoiceModel,
    delta: Seq<char>,
    reason: Seq<char>,
)
    requires
        delta_text(choice.delta) == Some(delta),
        choice.finish_reason is Some ==> json::json_compact(
            JsonModel::Text(choice.finish_reason->0),
        ) == Some(reason),
        choice.finish_reason is None ==> reason == "null"@,
    ensures
        chunk_choice_text(choice) == Some(
            "{"@ + ("\"index\":"@ + text::decimal(choice.index as int)) + ","@ + ("\"delta\":"@
                + delta) + ","@ + ("\"finish_reason\":"@ + reason) + "}"@,
        ),
{
    lemma_keys();
    let a = "\"index\":"@ + text::decimal(choice.index as int);
    let b = "\"delta\":"@ + delta;
    let c = "\"finish_reason\":"@ + reason;
    let none = Seq::<Seq<char>>::empty();
    assert(none.push(a).push(b).push(c) =~= seq![a, b, c]);
    lemma_join_three(a, b, c);
    assert("{"@ + (a + ","@ + b + ","@ + c) + "}"@ =~= "{"@ + a + ","@ + b + ","@ + c + "}"@);
}

/// What a piece adds is written with what there is of it and nothing else: a
/// text alone, a role with tool calls, or nothing.
pub proof fn law_what_a_piece_adds_is_written(
    delta: DeltaModel,
    role_json: Seq<char>,
    content_json: Seq<char>,
    calls: Seq<Seq<char>>,
)
    requires
        delta.role is Some ==> json::json_compact(JsonModel::Text(delta.role->0)) == Some(
            role_json,
        ),
        delta.content is Some ==> json::json_compact(JsonModel::Text(delta.content->0)) == Some(
            content_json,
        ),
        delta.tool_calls is Some ==> calls.len() == delta.tool_calls->0.len() && forall|i: int|
            0 <= i < calls.len() ==> chunk_call_text(#[trigger] delta.tool_calls->0[i]) == Some(
                calls[i],
            ),
    ensures
        delta_text(delta) == Some(
            "{"@ + text::join(
                (if delta.role is Some {
                    seq!["\"role\":"@ + role_json]
                } else {
                    Seq::empty()
                }) + (if delta.content is Some {
                    seq!["\"content\":"@ + content_json]
                } else {
                    Seq::empty()
                }) + (if delta.tool_calls is Some {
                    seq!["\"tool_calls\":"@ + ("["@ + text::join(calls, ","@) + "]"@)]
                } else {
                    Seq::empty()
                }),
                ","@,
            ) + "}"@,
        ),
{
    lemma_keys();
    let none = Seq::<Seq<char>>::empty();
    let role = if delta.role is Some {
        seq!["\"role\":"@ + role_json]
    } else {
        none
    };
    let content = if delta.content is Some {
        seq!["\"content\":"@ + content_json]
    } else {
        none
    };
    let list = "["@ + text::join(calls, ","@) + "]"@;
    let told = if delta.tool_calls is Some {
        seq!["\"tool_calls\":"@ + list]
    } else {
        none
    };
    if delta.tool_calls is Some {
        let models = delta.tool_calls->0;
        law_list_is_written_in_brackets(
            Seq::new(models.len(), |i: int| chunk_call_text(models[i])),
            calls,
        );
    }
    let with_role = with_text_if_any(no_members(), "role"@, delta.role);
    assert(with_role->0 =~= role);
    let with_content = with_text_if_any(with_role, "content"@, delta.content);
    assert(with_content->0 =~= role + content);
    if delta.tool_calls is Some {
        assert((role + content).push("\"tool_calls\":"@ + list) =~= role + content + told);
    } else {
        assert(role + content + told =~= role + content);
    }
}

/// A tool call in a piece is written with its place, its identity, its kind,
/// its name and its arguments.
pub proof fn law_call_in_a_piece_is_written(
    call: ChunkToolCallModel,
    id_json: Seq<char>,
    kind_json: Seq<char>,
    name_json: Seq<char>,
    arguments_json: Seq<char>,
)
    requires
        call.id is Some && json::json_compact(JsonModel::Text(call.id->0)) == Some(id_json),
        call.kind is Some && json::json_compact(JsonModel::Text(call.kind->0)) == Some(kind_json),
        call.name is Some && json::json_compact(JsonModel::Text(call.name->0)) == Some(name_json),
        call.arguments is Some && json::json_compact(JsonModel::Text(call.arguments->0)) == Some(
            arguments_json,
        ),
    ensures
        chunk_call_text(call) == Some(
            "{"@ + ("\"index\":"@ + text::decimal(call.index as int)) + ","@ + ("\"id\":"@
                + id_json) + ","@ + ("\"type\":"@ + kind_json) + ","@ + ("\"function\":"@ + ("{"@
                + ("\"name\":"@ + name_json) + ","@ + ("\"arguments\":"@ + arguments_json)
                + "}"@)) + "}"@,
        ),
{
    lemma_keys();
    let none = Seq::<Seq<char>>::empty();
    let n = "\"name\":"@ + name_json;
    let m = "\"arguments\":"@ + arguments_json;
    assert(none.push(n).push(m) =~= seq![n, m]);
    lemma_join_two(n, m);
    let function = "{"@ + n + ","@ + m + "}"@;
    assert("{"@ + (n + ","@ + m) + "}"@ =~= function);
    let a = "\"index\":"@ + text::decimal(call.index as int);
    let b = "\"id\":"@ + id_json;
    let c = "\"type\":"@ + kind_json;
    let d = "\"function\":"@ + function;
    assert(none.push(a).push(b).push(c).push(d) =~= seq![a, b, c, d]);
    lemma_join_four(a, b, c, d);
    assert("{"@ + (a + ","@ + b + ","@ + c + ","@ + d) + "}"@ =~= "{"@ + a + ","@ + b + ","@ + c
        + ","@ + d + "}"@);
}

/// A piece with one choice that adds a text is written so.
pub proof fn law_text_piece_is_written(
    chunk: ChunkModel,
    id_json: Seq<char>,
    object_json: Seq<char>,
    model_json: Seq<char>,
    content_json: Seq<char>,
)
    requires
        json::json_compact(JsonModel::Text(chunk.id)) == Some(id_json),
        json::json_compact(JsonModel::Text(chunk.object)) == Some(object_json),
        json::json_compact(JsonModel::Text(chunk.model)) == Some(model_json),
        chunk.choices.len() == 1,
        chunk.choices[0].index == 0,
        chunk.choices[0].finish_reason is None,
        chunk.choices[0].delta.role is None,
        chunk.choices[0].delta.tool_calls is None,
        chunk.choices[0].delta.content is Some,
        json::json_compact(JsonModel::Text(chunk.choices[0].delta.content->0)) == Some(
            content_json,
        ),
    ensures
        chunk_text(chunk) == Some(
            "{"@ + ("\"id\":"@ + id_json) + ","@ + ("\"object\":"@ + object_json) + ","@ + (
            "\"created\":"@ + text::decimal(chunk.created as int)) + ","@ + ("\"model\":"@
                + model_json) + ","@ + ("\"choices\":"@ + ("["@ + ("{"@ + ("\"index\":"@
                + text::decimal(0)) + ","@ + ("\"delta\":"@ + ("{"@ + ("\"content\":"@
                + content_json) + "}"@)) + ","@ + ("\"finish_reason\":"@ + "null"@) + "}"@)
                + "]"@)) + "}"@,
        ),
{
    let choice = chunk.choices[0];
    let none = Seq::<Seq<char>>::empty();
    let content = "\"content\":"@ + content_json;
    law_what_a_piece_adds_is_written(choice.delta, content_json, content_json, none);
    assert(none + seq![content] + none =~= seq![content]);
    text::law_join_of_one(content, ","@);
    let delta = "{"@ + content + "}"@;
    law_choice_of_a_piece_is_written(choice, delta, "null"@);
    let written = "{"@ + ("\"index\":"@ + text::decimal(0)) + ","@ + ("\"delta\":"@ + delta)
        + ","@ + ("\"finish_reason\":"@ + "null"@) + "}"@;
    law_piece_is_written_in_full(chunk, id_json, object_json, model_json, seq![written]);
    text::law_join_of_one(written, ","@);
}

/// A response is written with its identity, its object, its time, its model,
/// and all of its choices.
pub proof fn law_response_is_written_in_full(
    response: ResponseModel,
    id_json: Seq<char>,
    object_json: Seq<char>,
    model_json: Seq<char>,
    choices: Seq<Seq<char>>,
)
    requires
        json::json_compact(JsonModel::Text(response.id)) == Some(id_json),
        json::json_compact(JsonModel::Text(response.object)) == Some(object_json),
        json::json_compact(JsonModel::Text(response.model)) == Some(model_json),
        choices.len() == response.choices.len(),
        forall|i: int|
            0 <= i < choices.len() ==> choice_text(#[trigger] response.choices[i]) == Some(
                choices[i],
            ),
    ensures
        response_text(response) == Some(
            "{"@ + ("\"id\":"@ + id_json) + ","@ + ("\"object\":"@ + object_json) + ","@ + (
            "\"created\":"@ + text::decimal(response.created as int)) + ","@ + ("\"model\":"@
                + model_json) + ","@ + ("\"choices\":"@ + ("["@ + text::join(choices, ","@)
                + "]"@)) + "}"@,
        ),
{
    let items = Seq::new(response.choices.len(), |i: int| choice_text(response.choices[i]));
    law_list_is_written_in_brackets(items, choices);
    lemma_head(
        response.id,
        response.object,
        response.created,
        response.model,
        id_json,
        object_json,
        model_json,
        "["@ + text::join(choices, ","@) + "]"@,
    );
}

/// A choice is written with its index, its message, and why it ends.
pub proof fn law_choice_is_written(
    choice: ChoiceModel,
    message: Seq<char>,
    reason_json: Seq<char>,
)
    requires
        message_text(choice.message) == Some(message),
        json::json_compact(JsonModel::Text(choice.finish_reason)) == Some(reason_json),
    ensures
        choice_text(choice) == Some(
            "{"@ + ("\"index\":"@ + text::decimal(choice.index as int)) + ","@ + ("\"message\":"@
                + message) + ","@ + ("\"finish_reason\":"@ + reason_json) + "}"@,
        ),
{
    lemma_keys();
    let a = "\"index\":"@ + text::decimal(choice.index as int);
    let b = "\"message\":"@ + message;
    let c = "\"finish_reason\":"@ + reason_json;
    let none = Seq::<Seq<char>>::empty();
    assert(none.push(a).push(b).push(c) =~= seq![a, b, c]);
    lemma_join_three(a, b, c);
    assert("{"@ + (a + ","@ + b + ","@ + c) + "}"@ =~= "{"@ + a + ","@ + b + ","@ + c + "}"@);
}

/// A message is written with its role, and with what there is of its content,
/// its name, the call that it answers, and its tool calls, in that order.
pub proof fn law_message_is_written(
    message: MessageModel,
    role_json: Seq<char>,
    content_json: Seq<char>,
    name_json: Seq<char>,
    call_json: Seq<char>,
    calls: Seq<Seq<char>>,
)
    requires
        json::json_compact(JsonModel::Text(message.role)) == Some(role_json),
        message.content is Some ==> json::json_compact(message.content->0) == Some(content_json),
        message.name is Some ==> json::json_compact(JsonModel::Text(message.name->0)) == Some(
            name_json,
        ),
        message.tool_call_id is Some ==> json::json_compact(
            JsonModel::Text(message.tool_call_id->0),
        ) == Some(call_json),
        message.tool_calls is Some ==> calls.len() == message.tool_calls->0.len() && forall|i: int|
            0 <= i < calls.len() ==> call_text(#[trigger] message.tool_calls->0[i]) == Some(
                calls[i],
            ),
    ensures
        message_text(message) == Some(
            "{"@ + text::join(
                seq!["\"role\":"@ + role_json] + (if message.content is Some {
                    seq!["\"content\":"@ + content_json]
                } else {
                    Seq::empty()
                }) + (if message.name is Some {
                    seq!["\"name\":"@ + name_json]
                } else {
                    Seq::empty()
                }) + (if message.tool_call_id is Some {
                    seq!["\"tool_call_id\":"@ + call_json]
                } else {
                    Seq::empty()
                }) + (if message.tool_calls is Some {
                    seq!["\"tool_calls\":"@ + ("["@ + text::join(calls, ","@) + "]"@)]
                } else {
                    Seq::empty()
                }),
                ","@,
            ) + "}"@,
        ),
{
    lemma_keys();
    reveal_strlit("\"");
    reveal_strlit("\":");
    reveal_strlit("tool_call_id");
    reveal_strlit("\"tool_call_id\":");
    assert("\""@ + "tool_call_id"@ + "\":"@ =~= "\"tool_call_id\":"@);
    let none = Seq::<Seq<char>>::empty();
    let role = seq!["\"role\":"@ + role_json];
    let content = if message.content is Some {
        seq!["\"content\":"@ + content_json]
    } else {
        none
    };
    let name = if message.name is Some {
        seq!["\"name\":"@ + name_json]
    } else {
        none
    };
    let call = if message.tool_call_id is Some {
        seq!["\"tool_call_id\":"@ + call_json]
    } else {
        none
    };
    let list = "["@ + text::join(calls, ","@) + "]"@;
    if message.tool_calls is Some {
        let models = message.tool_calls->0;
        law_list_is_written_in_brackets(
            Seq::new(models.len(), |i: int| call_text(models[i])),
            calls,
        );
    }
    assert(none.push("\"role\":"@ + role_json) =~= role);
    if message.content is Some {
        assert(role.push("\"content\":"@ + content_json) =~= role + content);
    } else {
        assert(role + content =~= role);
    }
    let said = role + content;
    let named = with_text_if_any(Some(said), "name"@, message.name);
    assert(named->0 =~= said + name);
    let told = with_text_if_any(named, "tool_call_id"@, message.tool_call_id);
    assert(told->0 =~= said + name + call);
    if message.tool_calls is Some {
        assert((said + name + call).push("\"tool_calls\":"@ + list) =~= said + name + call + seq![
            "\"tool_calls\":"@ + list,
        ]);
    } else {
        assert(said + name + call + none =~= said + name + call);
    }
}

/// A tool call is written with its identity, its kind, its name and its
/// arguments.
pub proof fn law_call_is_written(
    call: ToolCallModel,
    id_json: Seq<char>,
    kind_json: Seq<char>,
    name_json: Seq<char>,
    arguments_json: Seq<char>,
)
    requires
        json::json_compact(JsonModel::Text(call.id)) == Some(id_json),
        json::json_compact(JsonModel::Text(call.kind)) == Some(kind_json),
        json::json_compact(JsonModel::Text(call.name)) == Some(name_json),
        json::json_compact(JsonModel::Text(call.arguments)) == Some(arguments_json),
    ensures
        call_text(call) == Some(
            "{"@ + ("\"id\":"@ + id_json) + ","@ + ("\"type\":"@ + kind_json) + ","@ + (
            "\"function\":"@ + ("{"@ + ("\"name\":"@ + name_json) + ","@ + ("\"arguments\":"@
                + arguments_json) + "}"@)) + "}"@,
        ),
{
    lemma_keys();
    let none = Seq::<Seq<char>>::empty();
    let n = "\"name\":"@ + name_json;
    let m = "\"arguments\":"@ + arguments_json;
    assert(none.push(n).push(m) =~= seq![n, m]);
    lemma_join_two(n, m);
    let function = "{"@ + n + ","@ + m + "}"@;
    assert("{"@ + (n + ","@ + m) + "}"@ =~= function);
    let a = "\"id\":"@ + id_json;
    let b = "\"type\":"@ + kind_json;
    let c = "\"function\":"@ + function;
    assert(none.push(a).push(b).push(c) =~= seq![a, b, c]);
    lemma_join_three(a, b, c);
    assert("{"@ + (a + ","@ + b + ","@ + c) + "}"@ =~= "{"@ + a + ","@ + b + ","@ + c + "}"@);
}

} // verus!
