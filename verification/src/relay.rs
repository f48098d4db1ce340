//! Passing on what chat3 says while it says it.

use crate::json::JsonModel;
use crate::sse::{SseEvent, SseParser};
use crate::{chat3, json, reasoning, reply, sse, text, wire};
use vstd::prelude::*;

verus! {

/// What is passed on to the client.
#[derive(Debug)]
pub enum RelayItem {
    /// A piece of the answer.
    Content(String),
    /// That the stream has failed, and why.
    Failure(String),
    /// The end of the stream.
    Done,
}

pub enum RelayItemModel {
    Content(Seq<char>),
    Failure(Seq<char>),
    Done,
}

impl DeepView for RelayItem {
    type V = RelayItemModel;

    open spec fn deep_view(&self) -> RelayItemModel {
        match self {
            RelayItem::Content(content) => RelayItemModel::Content(content@),
            RelayItem::Failure(message) => RelayItemModel::Failure(message@),
            RelayItem::Done => RelayItemModel::Done,
        }
    }
}

/// What is passed on of a text: what is left of it without the reasoning, if
/// anything is.
pub open spec fn relayed_text(content: Option<Seq<char>>) -> Option<RelayItemModel> {
    match content {
        Some(content) => if reasoning::cleaned(content).len() > 0 {
            Some(RelayItemModel::Content(reasoning::cleaned(content)))
        } else {
            None
        },
        None => None,
    }
}

/// What is passed on of the text in an event.
pub open spec fn relayed_content(data: Seq<char>) -> Seq<RelayItemModel> {
    match relayed_text(chat3::content_of_data(data)) {
        Some(item) => seq![item],
        None => Seq::empty(),
    }
}

/// What is passed on of an event.
pub open spec fn relayed_event(data: Seq<char>) -> Seq<RelayItemModel> {
    if sse::is_done_data(data) {
        seq![RelayItemModel::Done]
    } else {
        relayed_content(data)
    }
}

/// What is passed on of events, in their order.
pub open spec fn relayed(events: Seq<Seq<char>>) -> Seq<RelayItemModel>
    decreases events.len(),
{
    if events.len() == 0 {
        Seq::empty()
    } else {
        relayed(events.drop_last()) + relayed_event(events.last())
    }
}

/// What is passed on of what is left when the stream ends: its text, but not
/// an end.
pub open spec fn relayed_last(buffer: Seq<char>) -> Seq<RelayItemModel> {
    if sse::last_events(buffer).len() == 0 {
        Seq::empty()
    } else {
        relayed_content(sse::last_events(buffer)[0])
    }
}

/// What is passed on where the stream breaks off: why, and the end.
pub open spec fn relayed_failure(message: Seq<char>) -> Seq<RelayItemModel> {
    seq![RelayItemModel::Failure(message), RelayItemModel::Done]
}

/// Passes on a stream of chat3 while it arrives.
pub struct StreamRelay {
    parser: SseParser,
}

/// What is passed on of a text.
pub fn relay_text(content: Option<String>) -> (item: Option<RelayItem>)
    ensures
        item.deep_view() == relayed_text(content.deep_view()),
{
    match content {
        Some(content) => {
            let cleaned = reasoning::clean_reasoning(content.as_str());
            if cleaned.as_str().is_empty() {
                None
            } else {
                Some(RelayItem::Content(cleaned))
            }
        },
        None => None,
    }
}

/// What is passed on of the text in an event.
fn relay_content(event: &SseEvent, items: &mut Vec<RelayItem>)
    ensures
        final(items).deep_view() == old(items).deep_view() + relayed_content(event.deep_view()),
{
    let ghost before = items.deep_view();
    if let Some(item) = relay_text(chat3::event_content(event.data.as_str())) {
        items.push(item);
    }
    assert(items.deep_view() =~= before + relayed_content(event.deep_view()));
}

impl StreamRelay {
    /// What has arrived of an event that is not complete.
    pub closed spec fn buffer(&self) -> Seq<char> {
        self.parser@
    }

    /// A relay to which nothing has arrived.
    pub fn new() -> (relay: Self)
        ensures
            relay.buffer() == Seq::<char>::empty(),
    {
        StreamRelay { parser: SseParser::default() }
    }

    /// Takes the next chunk of the stream and returns what is passed on.
    pub fn push(&mut self, chunk: &[u8]) -> (items: Vec<RelayItem>)
        ensures
            items.deep_view() == relayed(
                sse::complete_events(old(self).buffer() + sse::utf8_lossy(chunk@)),
            ),
            final(self).buffer() == sse::unfinished(
                old(self).buffer() + sse::utf8_lossy(chunk@),
            ),
            vstd::utf8::valid_utf8(chunk@) ==> sse::utf8_lossy(chunk@)
                == vstd::utf8::decode_utf8(chunk@),
    {
        let events = self.parser.push(chunk);
        let ghost all = events.deep_view();
        let mut items: Vec<RelayItem> = Vec::new();
        assert(items.deep_view() =~= Seq::<RelayItemModel>::empty());
        let mut i: usize = 0;
        while i < events.len()
            invariant
                i <= events@.len(),
                all == events.deep_view(),
                items.deep_view() == relayed(all.take(i as int)),
            decreases events@.len() - i,
        {
            assert(all.take(i + 1).drop_last() =~= all.take(i as int));
            let ghost before = items.deep_view();
            if events[i].is_done() {
                items.push(RelayItem::Done);
                assert(items.deep_view() =~= before + seq![RelayItemModel::Done]);
            } else {
                relay_content(&events[i], &mut items);
            }
            i = i + 1;
        }
        assert(all.take(i as int) =~= all);
        items
    }

    /// What is passed on where the stream breaks off.
    pub fn fail(message: String) -> (items: Vec<RelayItem>)
        ensures
            items.deep_view() == relayed_failure(message@),
    {
        let mut items: Vec<RelayItem> = Vec::new();
        items.push(RelayItem::Failure(message));
        items.push(RelayItem::Done);
        assert(items.deep_view() =~= seq![
            RelayItemModel::Failure(message@),
            RelayItemModel::Done,
        ]);
        items
    }

    /// Ends the stream and returns what is still passed on.
    pub fn finish(self) -> (items: Vec<RelayItem>)
        ensures
            items.deep_view() == relayed_last(self.buffer()),
    {
        let mut parser = self.parser;
        let events = parser.finish();
        let ghost all = events.deep_view();
        let mut items: Vec<RelayItem> = Vec::new();
        assert(items.deep_view() =~= Seq::<RelayItemModel>::empty());
        assert(all.len() == events@.len());
        if events.len() > 0 {
            relay_content(&events[0], &mut items);
            assert(events@[0].deep_view() == all[0]);
            assert(items.deep_view() =~= relayed_content(all[0]));
        }
        assert(items.deep_view() =~= relayed_last(self.buffer()));
        items
    }
}

/// The data of the event by which an item is passed on.
pub open spec fn relay_item_data(
    model: Seq<char>,
    item: RelayItemModel,
    now_ms: i64,
    now_s: i64,
) -> Option<Seq<char>> {
    match item {
        RelayItemModel::Content(content) => wire::chunk_text(
            reply::content_chunk(reply::fresh_id(now_ms), now_s, model, content, None),
        ),
        RelayItemModel::Failure(message) => wire::failure_text(message),
        RelayItemModel::Done => Some("[DONE]"@),
    }
}

/// The data of the event by which an item is passed on at a given time.
pub fn relay_data_at(model: &str, item: RelayItem, now_ms: i64, now_s: i64) -> (data: Option<String>)
    ensures
        data.deep_view() == relay_item_data(model@, item.deep_view(), now_ms, now_s),
{
    match item {
        RelayItem::Content(content) => {
            let id = reply::make_id(now_ms);
            wire::write_chunk(
                &reply::content_chunk_response(id.as_str(), now_s, model, content),
            )
        },
        RelayItem::Failure(message) => wire::write_failure(&message),
        RelayItem::Done => Some("[DONE]".to_owned()),
    }
}

/// The data of the event by which an item is passed on. A piece of the answer
/// gets an identity and a time of the present.
pub fn relay_data(model: &str, item: RelayItem) -> (data: Option<String>)
    ensures
        exists|now_ms: i64, now_s: i64|
            data.deep_view() == #[trigger] relay_item_data(
                model@,
                item.deep_view(),
                now_ms,
                now_s,
            ),
{
    relay_data_at(model, item, reply::now_millis(), reply::now_seconds())
}

/// Events are passed on one by one: what two runs of them give is what they
/// give together.
pub proof fn law_relays_in_steps(first: Seq<Seq<char>>, second: Seq<Seq<char>>)
    ensures
        relayed(first + second) == relayed(first) + relayed(second),
    decreases second.len(),
{
    if second.len() == 0 {
        assert(first + second =~= first);
        assert(relayed(first) + relayed(second) =~= relayed(first));
    } else {
        law_relays_in_steps(first, second.drop_last());
        assert((first + second).drop_last() =~= first + second.drop_last());
        assert(relayed(first + second) =~= relayed(first) + relayed(second));
    }
}

/// What is passed on does not depend on where the stream is cut into pieces.
pub proof fn law_relays_the_same_however_cut(
    buffer: Seq<char>,
    first: Seq<char>,
    second: Seq<char>,
)
    ensures
        relayed(sse::complete_events(buffer + (first + second))) == relayed(
            sse::complete_events(buffer + first),
        ) + relayed(sse::complete_events(sse::unfinished(buffer + first) + second)),
        sse::unfinished(buffer + (first + second)) == sse::unfinished(
            sse::unfinished(buffer + first) + second,
        ),
{
    assert(buffer + (first + second) =~= (buffer + first) + second);
    sse::law_split_anywhere(buffer + first, second);
    law_relays_in_steps(
        sse::complete_events(buffer + first),
        sse::complete_events(sse::unfinished(buffer + first) + second),
    );
}

/// Every piece of the answer that is passed on has text, and no white space
/// around it; and a stream that does not fail is passed on without a failure.
pub proof fn law_relayed_content_is_clean(events: Seq<Seq<char>>)
    ensures
        forall|i: int|
            0 <= i < relayed(events).len() ==> is_clean(#[trigger] relayed(events)[i]),
    decreases events.len(),
{
    if events.len() > 0 {
        law_relayed_content_is_clean(events.drop_last());
        if let Some(content) = chat3::content_of_data(events.last()) {
            reasoning::law_cleaned_is_trimmed(content);
        }
        let front = relayed(events.drop_last());
        assert forall|i: int| 0 <= i < relayed(events).len() implies is_clean(
            #[trigger] relayed(events)[i],
        ) by {
            if i < front.len() {
                assert(relayed(events)[i] == front[i]);
            } else {
                assert(relayed(events)[i] == relayed_event(events.last())[i - front.len()]);
            }
        }
    }
}

/// The item is an end, or a text without white space around it.
pub open spec fn is_clean(item: RelayItemModel) -> bool {
    match item {
        RelayItemModel::Content(content) => content.len() > 0 && text::trim(content) == content,
        RelayItemModel::Failure(_) => false,
        RelayItemModel::Done => true,
    }
}

/// The text of an event is passed on without the reasoning in it, behind what
/// was passed on before, unless nothing is left of it.
pub proof fn law_text_is_passed_on(
    events: Seq<Seq<char>>,
    data: Seq<char>,
    value: JsonModel,
    content: Seq<char>,
)
    requires
        text::trim(data) != "[DONE]"@,
        json::json_from_text(data) == Ok::<JsonModel, Seq<char>>(value),
        value.pointer(seq!["choices"@, "0"@, "delta"@, "content"@]) == Some(
            JsonModel::Text(content),
        ),
    ensures
        reasoning::cleaned(content).len() > 0 ==> relayed(events.push(data)) == relayed(
            events,
        ).push(RelayItemModel::Content(reasoning::cleaned(content))),
        reasoning::cleaned(content).len() == 0 ==> relayed(events.push(data)) == relayed(events),
{
    assert(events.push(data).drop_last() =~= events);
    assert(relayed(events.push(data)) =~= relayed(events) + relayed_event(data));
    if reasoning::cleaned(content).len() > 0 {
        assert(relayed(events.push(data)) =~= relayed(events).push(
            RelayItemModel::Content(reasoning::cleaned(content)),
        ));
    } else {
        assert(relayed(events.push(data)) =~= relayed(events));
    }
}

/// The end of the stream is passed on as such, in its place; what is no JSON,
/// or has no text, is not passed on.
pub proof fn law_end_is_passed_on_and_noise_is_not(events: Seq<Seq<char>>, data: Seq<char>)
    ensures
        text::trim(data) == "[DONE]"@ ==> relayed(events.push(data)) == relayed(events).push(
            RelayItemModel::Done,
        ),
        text::trim(data) != "[DONE]"@ && (json::json_from_text(data) is Err || !(
        json::json_from_text(data)->Ok_0.pointer(
            seq!["choices"@, "0"@, "delta"@, "content"@],
        ) matches Some(JsonModel::Text(_)))) ==> relayed(events.push(data)) == relayed(events),
        relayed(Seq::empty()).len() == 0,
{
    assert(events.push(data).drop_last() =~= events);
    if text::trim(data) == "[DONE]"@ {
        assert(relayed(events.push(data)) =~= relayed(events).push(RelayItemModel::Done));
    } else {
        chat3::law_text_is_where_the_path_leads(data);
        if chat3::content_of_data(data) is None {
            assert(relayed(events.push(data)) =~= relayed(events));
        }
    }
}

/// What is left when the stream ends is passed on as text, if it is an event
/// with a text that has something left without its reasoning; never as an end.
pub proof fn law_what_is_left_is_passed_on(buffer: Seq<char>, data: Seq<char>)
    requires
        sse::events_of(buffer) == seq![data],
        text::trim(buffer).len() > 0,
    ensures
        chat3::content_of_data(data) matches Some(content) ==> (if reasoning::cleaned(content).len()
            > 0 {
            relayed_last(buffer) == seq![RelayItemModel::Content(reasoning::cleaned(content))]
        } else {
            relayed_last(buffer).len() == 0
        }),
        chat3::content_of_data(data) is None ==> relayed_last(buffer).len() == 0,
{
}

/// Nothing is passed on of what is blank or is no event.
pub proof fn law_nothing_left_is_nothing_passed_on(buffer: Seq<char>)
    requires
        text::trim(buffer).len() == 0 || sse::events_of(buffer).len() == 0,
    ensures
        relayed_last(buffer).len() == 0,
{
}

/// A piece of the answer is passed on as a chunk with a fresh identity, the
/// present time, the model that was asked, and the text; a failure as an error
/// with its message; the end as its word.
pub proof fn law_items_are_written_in_full(
    model: Seq<char>,
    content: Seq<char>,
    now_ms: i64,
    now_s: i64,
    id_json: Seq<char>,
    object_json: Seq<char>,
    model_json: Seq<char>,
    content_json: Seq<char>,
    kind_json: Seq<char>,
)
    requires
        json::json_compact(JsonModel::Text("chatcmpl-"@ + text::decimal(now_ms as int))) == Some(
            id_json,
        ),
        json::json_compact(JsonModel::Text("chat.completion.chunk"@)) == Some(object_json),
        json::json_compact(JsonModel::Text(model)) == Some(model_json),
        json::json_compact(JsonModel::Text(content)) == Some(content_json),
        json::json_compact(JsonModel::Text("upstream_error"@)) == Some(kind_json),
    ensures
        relay_item_data(model, RelayItemModel::Content(content), now_ms, now_s) == Some(
            "{"@ + ("\"id\":"@ + id_json) + ","@ + ("\"object\":"@ + object_json) + ","@ + (
            "\"created\":"@ + text::decimal(now_s as int)) + ","@ + ("\"model\":"@ + model_json)
                + ","@ + ("\"choices\":"@ + ("["@ + ("{"@ + ("\"index\":"@ + text::decimal(0))
                + ","@ + ("\"delta\":"@ + ("{"@ + ("\"content\":"@ + content_json) + "}"@)) + ","@
                + ("\"finish_reason\":"@ + "null"@) + "}"@) + "]"@)) + "}"@,
        ),
        relay_item_data(model, RelayItemModel::Failure(content), now_ms, now_s) == Some(
            "{"@ + ("\"error\":"@ + ("{"@ + ("\"code\":"@ + "null"@) + ","@ + ("\"message\":"@
                + content_json) + ","@ + ("\"type\":"@ + kind_json) + "}"@)) + "}"@,
        ),
        relay_item_data(model, RelayItemModel::Done, now_ms, now_s) == Some("[DONE]"@),
{
    wire::law_text_piece_is_written(
        reply::content_chunk(reply::fresh_id(now_ms), now_s, model, content, None),
        id_json,
        object_json,
        model_json,
        content_json,
    );
    wire::law_failure_is_written(content, content_json, kind_json);
}

/// A stream that breaks off ends with the reason and then the end.
pub proof fn law_failure_is_told_before_the_end(message: Seq<char>)
    ensures
        relayed_failure(message).len() == 2,
        relayed_failure(message)[0] == RelayItemModel::Failure(message),
        relayed_failure(message)[1] == RelayItemModel::Done,
{
}

/// Items are seen in full: two of them that look alike are alike.
pub proof fn law_items_are_seen_in_full(a: RelayItem, b: RelayItem)
    ensures
        a.deep_view() == b.deep_view() ==> match (a, b) {
            (RelayItem::Content(x), RelayItem::Content(y)) => x@ == y@,
            (RelayItem::Failure(x), RelayItem::Failure(y)) => x@ == y@,
            (RelayItem::Done, RelayItem::Done) => true,
            _ => false,
        },
{
}

} // verus!
