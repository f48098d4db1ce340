//! Server-sent events: cutting a stream of bytes into events, whatever the
//! chunks it arrives in.

use crate::text;
use vstd::prelude::*;

verus! {

// ---------------------------------------------------------------------------
// The format
// ---------------------------------------------------------------------------

/// The blank line that ends an event begins at `at`.
pub open spec fn is_boundary(buffer: Seq<char>, at: int) -> bool {
    text::occurs_at(buffer, seq!['\n', '\n'], at) || text::occurs_at(
        buffer,
        seq!['\r', '\n', '\r', '\n'],
        at,
    )
}

/// The first boundary that is not before `from`.
pub open spec fn boundary_from(buffer: Seq<char>, from: int) -> Option<int>
    decreases buffer.len() - from,
{
    if from < 0 || from >= buffer.len() {
        None
    } else if is_boundary(buffer, from) {
        Some(from)
    } else {
        boundary_from(buffer, from + 1)
    }
}

/// How many characters the boundary at `at` takes.
pub open spec fn boundary_len(buffer: Seq<char>, at: int) -> int {
    if text::occurs_at(buffer, seq!['\r', '\n', '\r', '\n'], at) {
        4
    } else {
        2
    }
}

/// The line before a line feed, without the carriage return that may belong
/// to the line ending.
pub open spec fn without_return(line: Seq<char>) -> Seq<char> {
    if line.len() > 0 && line.last() == '\r' {
        line.drop_last()
    } else {
        line
    }
}

/// The lines of a text. Each ends with a line feed, or with a carriage return
/// and a line feed; the last one may do without.
pub open spec fn lines(raw: Seq<char>) -> Seq<Seq<char>>
    decreases raw.len(),
{
    if raw.len() == 0 {
        Seq::empty()
    } else {
        match text::find(raw, seq!['\n']) {
            Some(at) => if 0 <= at < raw.len() {
                seq![without_return(raw.take(at))] + lines(raw.skip(at + 1))
            } else {
                seq![raw]
            },
            None => seq![raw],
        }
    }
}

/// What a line says of the event's data: what follows the field name.
pub open spec fn data_field(line: Seq<char>) -> Option<Seq<char>> {
    if text::occurs_at(line, "data:"@, 0) {
        Some(text::trim_start(line.skip(5)))
    } else {
        None
    }
}

/// The data fields among the lines, in order.
pub open spec fn data_fields(all: Seq<Seq<char>>) -> Seq<Seq<char>>
    decreases all.len(),
{
    if all.len() == 0 {
        Seq::empty()
    } else {
        match data_field(all.last()) {
            Some(field) => data_fields(all.drop_last()).push(field),
            None => data_fields(all.drop_last()),
        }
    }
}

/// The data of an event: its data fields, one per line.
pub open spec fn event_data(raw: Seq<char>) -> Seq<char> {
    text::join(data_fields(lines(raw)), seq!['\n'])
}

/// The event that a raw text holds: one with its data, or none where there is
/// no data.
pub open spec fn events_of(raw: Seq<char>) -> Seq<Seq<char>> {
    if event_data(raw).len() == 0 {
        Seq::empty()
    } else {
        seq![event_data(raw)]
    }
}

/// The event that is left where the stream ends, if what is left is not blank.
pub open spec fn last_events(buffer: Seq<char>) -> Seq<Seq<char>> {
    if text::trim(buffer).len() == 0 {
        Seq::empty()
    } else {
        events_of(buffer)
    }
}

/// The data of the events that a buffer holds in full.
pub open spec fn complete_events(buffer: Seq<char>) -> Seq<Seq<char>>
    decreases buffer.len(),
{
    match boundary_from(buffer, 0) {
        Some(at) => if 0 <= at && at + boundary_len(buffer, at) <= buffer.len() {
            events_of(buffer.take(at)) + complete_events(
                buffer.skip(at + boundary_len(buffer, at)),
            )
        } else {
            Seq::empty()
        },
        None => Seq::empty(),
    }
}

/// What is left of a buffer behind its last complete event.
pub open spec fn unfinished(buffer: Seq<char>) -> Seq<char>
    decreases buffer.len(),
{
    match boundary_from(buffer, 0) {
        Some(at) => if 0 <= at && at + boundary_len(buffer, at) <= buffer.len() {
            unfinished(buffer.skip(at + boundary_len(buffer, at)))
        } else {
            buffer
        },
        None => buffer,
    }
}

// ---------------------------------------------------------------------------
// Laws
// ---------------------------------------------------------------------------

proof fn lemma_boundary_from(buffer: Seq<char>, from: int)
    requires
        0 <= from,
    ensures
        match boundary_from(buffer, from) {
            Some(at) => {
                &&& from <= at
                &&& is_boundary(buffer, at)
                &&& at + boundary_len(buffer, at) <= buffer.len()
                &&& forall|j: int| from <= j < at ==> !is_boundary(buffer, j)
            },
            None => forall|j: int| from <= j ==> !is_boundary(buffer, j),
        },
    decreases buffer.len() - from,
{
    if from < buffer.len() && !is_boundary(buffer, from) {
        lemma_boundary_from(buffer, from + 1);
    }
}

proof fn lemma_boundary_chars(buffer: Seq<char>, at: int)
    ensures
        text::occurs_at(buffer, seq!['\n', '\n'], at) <==> (0 <= at && at + 2 <= buffer.len()
            && buffer[at] == '\n' && buffer[at + 1] == '\n'),
        text::occurs_at(buffer, seq!['\r', '\n', '\r', '\n'], at) <==> (0 <= at && at + 4
            <= buffer.len() && buffer[at] == '\r' && buffer[at + 1] == '\n' && buffer[at + 2]
            == '\r' && buffer[at + 3] == '\n'),
{
    let lf = seq!['\n', '\n'];
    let crlf = seq!['\r', '\n', '\r', '\n'];
    if 0 <= at && at + 2 <= buffer.len() {
        let part = buffer.subrange(at, at + 2);
        assert(part[0] == buffer[at] && part[1] == buffer[at + 1]);
        if buffer[at] == '\n' && buffer[at + 1] == '\n' {
            assert(part =~= lf);
        }
    }
    if 0 <= at && at + 4 <= buffer.len() {
        let part = buffer.subrange(at, at + 4);
        assert(part[0] == buffer[at] && part[1] == buffer[at + 1] && part[2] == buffer[at + 2]
            && part[3] == buffer[at + 3]);
        if buffer[at] == '\r' && buffer[at + 1] == '\n' && buffer[at + 2] == '\r' && buffer[at + 3]
            == '\n' {
            assert(part =~= crlf);
        }
    }
}

proof fn lemma_boundary_is(buffer: Seq<char>, at: int)
    requires
        is_boundary(buffer, at),
        forall|j: int| 0 <= j < at ==> !is_boundary(buffer, j),
    ensures
        boundary_from(buffer, 0) == Some(at),
{
    lemma_boundary_from(buffer, 0);
}

proof fn lemma_boundary_skip(buffer: Seq<char>, from: int)
    requires
        0 <= from <= buffer.len(),
    ensures
        match boundary_from(buffer.skip(from), 0) {
            Some(at) => boundary_from(buffer, from) == Some(from + at) && boundary_len(
                buffer.skip(from),
                at,
            ) == boundary_len(buffer, from + at),
            None => boundary_from(buffer, from) is None,
        },
{
    let rest = buffer.skip(from);
    lemma_boundary_from(buffer, from);
    lemma_boundary_from(rest, 0);
    assert forall|j: int| 0 <= j implies #[trigger] is_boundary(rest, j) == is_boundary(
        buffer,
        from + j,
    ) && (is_boundary(rest, j) ==> boundary_len(rest, j) == boundary_len(buffer, from + j)) by {
        lemma_boundary_chars(rest, j);
        lemma_boundary_chars(buffer, from + j);
    }
    match (boundary_from(rest, 0), boundary_from(buffer, from)) {
        (Some(a), Some(b)) => {
            assert(is_boundary(rest, b - from));
            assert(is_boundary(rest, a));
        },
        (Some(a), None) => {
            assert(is_boundary(rest, a));
        },
        (None, Some(b)) => {
            assert(is_boundary(rest, b - from));
        },
        (None, None) => {},
    }
}

/// Text that arrives later does not change where the first boundary stands.
proof fn lemma_boundary_stays(first: Seq<char>, second: Seq<char>)
    requires
        boundary_from(first, 0) is Some,
    ensures
        boundary_from(first + second, 0) == boundary_from(first, 0),
        boundary_len(first + second, boundary_from(first, 0)->0) == boundary_len(
            first,
            boundary_from(first, 0)->0,
        ),
{
    let whole = first + second;
    let at = boundary_from(first, 0)->0;
    lemma_boundary_from(first, 0);
    lemma_boundary_chars(first, at);
    lemma_boundary_chars(whole, at);
    assert(is_boundary(whole, at));
    assert forall|j: int| 0 <= j < at implies !is_boundary(whole, j) by {
        lemma_boundary_chars(first, j);
        lemma_boundary_chars(whole, j);
        assert(!is_boundary(first, j));
        if j + 4 > first.len() {
            assert(at == j + 1);
            assert(whole[at + 1] == first[at + 1]);
        }
    }
    lemma_boundary_is(whole, at);
}

/// The events of a stream do not depend on where it is cut into pieces: what
/// is complete after the first piece, followed by what the rest of it gives
/// together with the second piece, is what the whole gives.
pub proof fn law_split_anywhere(first: Seq<char>, second: Seq<char>)
    ensures
        complete_events(first + second) == complete_events(first) + complete_events(
            unfinished(first) + second,
        ),
        unfinished(first + second) == unfinished(unfinished(first) + second),
    decreases first.len(),
{
    lemma_boundary_from(first, 0);
    match boundary_from(first, 0) {
        Some(at) => {
            lemma_boundary_stays(first, second);
            let n = at + boundary_len(first, at);
            law_split_anywhere(first.skip(n), second);
            assert((first + second).skip(n) =~= first.skip(n) + second);
            assert((first + second).take(at) =~= first.take(at));
        },
        None => {},
    }
}

/// The same for the bytes of a stream, cut between two characters.
pub proof fn law_split_between_characters(before: Seq<char>, first: Seq<u8>, second: Seq<u8>)
    requires
        vstd::utf8::valid_utf8(first),
        vstd::utf8::valid_utf8(second),
    ensures
        vstd::utf8::valid_utf8(first + second),
        complete_events(before + vstd::utf8::decode_utf8(first + second)) == complete_events(
            before + vstd::utf8::decode_utf8(first),
        ) + complete_events(
            unfinished(before + vstd::utf8::decode_utf8(first)) + vstd::utf8::decode_utf8(second),
        ),
        unfinished(before + vstd::utf8::decode_utf8(first + second)) == unfinished(
            unfinished(before + vstd::utf8::decode_utf8(first)) + vstd::utf8::decode_utf8(second),
        ),
{
    let a = vstd::utf8::decode_utf8(first);
    let b = vstd::utf8::decode_utf8(second);
    lemma_decode_concat(first, second);
    law_split_anywhere(before + a, b);
    assert(before + (a + b) =~= before + a + b);
}

proof fn lemma_decode_concat(first: Seq<u8>, second: Seq<u8>)
    requires
        vstd::utf8::valid_utf8(first),
        vstd::utf8::valid_utf8(second),
    ensures
        vstd::utf8::valid_utf8(first + second),
        vstd::utf8::decode_utf8(first + second) == vstd::utf8::decode_utf8(first)
            + vstd::utf8::decode_utf8(second),
    decreases first.len(),
{
    vstd::utf8::valid_utf8_concat(first, second);
    if first.len() == 0 {
        assert(first + second =~= second);
        assert(vstd::utf8::decode_utf8(first) =~= Seq::<char>::empty());
    } else {
        let rest = vstd::utf8::pop_first_scalar(first);
        lemma_decode_concat(rest, second);
        assert(vstd::utf8::pop_first_scalar(first + second) =~= rest + second);
        assert(vstd::utf8::decode_first_scalar(first + second)
            == vstd::utf8::decode_first_scalar(first));
    }
}

/// No complete event stays behind in the unfinished part.
pub proof fn law_unfinished_has_no_event(buffer: Seq<char>)
    ensures
        forall|at: int| 0 <= at ==> !is_boundary(unfinished(buffer), at),
        complete_events(unfinished(buffer)).len() == 0,
        unfinished(unfinished(buffer)) == unfinished(buffer),
    decreases buffer.len(),
{
    lemma_boundary_from(buffer, 0);
    match boundary_from(buffer, 0) {
        Some(at) => {
            law_unfinished_has_no_event(buffer.skip(at + boundary_len(buffer, at)));
        },
        None => {},
    }
}

/// A data line as a sender writes it, with the blank line that ends the event.
pub open spec fn data_frame(data: Seq<char>) -> Seq<char> {
    "data: "@ + data + seq!['\n', '\n']
}

proof fn lemma_single_line(raw: Seq<char>)
    requires
        raw.len() > 0,
        !raw.contains('\n'),
    ensures
        lines(raw) == seq![raw],
{
    text::lemma_find_from(raw, seq!['\n'], 0);
    match text::find(raw, seq!['\n']) {
        Some(at) => {
            assert(raw.subrange(at, at + 1)[0] == seq!['\n'][0]);
            assert(raw[at] == '\n');
        },
        None => {},
    }
}

/// What a sender frames as one line of data is read back as one event with
/// that data, whatever follows it in the stream. The data is not empty, does
/// not begin with white space, and has no line feed.
pub proof fn law_frame_is_read_back(data: Seq<char>, rest: Seq<char>)
    requires
        data.len() > 0,
        !text::is_blank(data[0]),
        !data.contains('\n'),
    ensures
        complete_events(data_frame(data) + rest) == seq![data] + complete_events(rest),
        unfinished(data_frame(data) + rest) == unfinished(rest),
{
    reveal_strlit("data: ");
    reveal_strlit("data:");
    let frame = data_frame(data);
    let line = "data: "@ + data;
    let at = line.len() as int;
    assert(frame.len() == at + 2);
    assert(forall|i: int| 0 <= i < at ==> #[trigger] frame[i] == line[i]);
    assert forall|i: int| 0 <= i < at implies #[trigger] line[i] != '\n' by {
        if i >= 6 {
            assert(line[i] == data[i - 6]);
            assert(data.contains(data[i - 6]));
        }
    }
    assert(!line.contains('\n'));
    assert forall|j: int| 0 <= j < at implies !is_boundary(frame, j) by {
        lemma_boundary_chars(frame, j);
        assert(frame[j] == line[j]);
        if j + 1 < at {
            assert(frame[j + 1] == line[j + 1]);
        } else {
            assert(frame.len() < j + 4);
        }
    }
    lemma_boundary_chars(frame, at);
    assert(frame[at] == '\n' && frame[at + 1] == '\n');
    lemma_boundary_is(frame, at);
    assert(frame.take(at) =~= line);
    assert(frame.skip(at + 2) =~= Seq::<char>::empty());
    lemma_single_line(line);
    assert(line.subrange(0, 5) =~= "data:"@);
    assert(line.skip(5).skip(1) =~= data);
    assert(line.skip(5)[0] == ' ');
    assert(text::trim_start(data) == data);
    assert(text::trim_start(line.skip(5)) == text::trim_start(line.skip(5).skip(1)));
    assert(data_field(line) == Some(data));
    assert(seq![line].drop_last() =~= Seq::<Seq<char>>::empty());
    assert(data_fields(seq![line].drop_last()) =~= Seq::<Seq<char>>::empty());
    assert(data_fields(seq![line]) =~= seq![data]);
    assert(event_data(line) == data);
    let nothing = Seq::<char>::empty();
    assert(boundary_from(nothing, 0) is None);
    assert(complete_events(nothing) =~= Seq::<Seq<char>>::empty());
    assert(unfinished(nothing) == nothing);
    assert(boundary_len(frame, at) == 2);
    assert(frame.skip(at + boundary_len(frame, at)) =~= nothing);
    assert(complete_events(frame) =~= seq![data]);
    assert(unfinished(frame) == nothing);
    law_split_anywhere(frame, rest);
    assert(nothing + rest =~= rest);
}

// ---------------------------------------------------------------------------
// The parser
// ---------------------------------------------------------------------------

/// One event of the stream.
#[derive(Debug, Clone, PartialEq, Eq)]
pub struct SseEvent {
    pub data: String,
}

impl DeepView for SseEvent {
    type V = Seq<char>;

    open spec fn deep_view(&self) -> Seq<char> {
        self.data@
    }
}

/// The data of the event that ends a chat stream.
pub open spec fn is_done_data(data: Seq<char>) -> bool {
    text::trim(data) == "[DONE]"@
}

impl SseEvent {
    /// Whether this is the event that ends a chat stream.
    pub fn is_done(&self) -> (done: bool)
        ensures
            done == is_done_data(self.data@),
    {
        text::same_text(text::trimmed(self.data.as_str()).as_str(), "[DONE]")
    }
}

/// Cuts a stream into events as its chunks arrive.
pub struct SseParser {
    buffer: String,
}

impl View for SseParser {
    type V = Seq<char>;

    /// The text that has arrived and belongs to no complete event yet.
    closed spec fn view(&self) -> Seq<char> {
        self.buffer@
    }
}

impl Default for SseParser {
    fn default() -> (parser: Self)
        ensures
            parser@ == Seq::<char>::empty(),
    {
        SseParser { buffer: String::new() }
    }
}

/// What `String::from_utf8_lossy` makes of bytes.
pub uninterp spec fn utf8_lossy(bytes: Seq<u8>) -> Seq<char>;

/// `String::from_utf8_lossy`: the text that the bytes spell in UTF-8, with a
/// replacement character for what is no UTF-8.
#[verifier::external_body]
fn decode_lossy(bytes: &[u8]) -> (decoded: String)
    ensures
        decoded@ == utf8_lossy(bytes@),
        vstd::utf8::valid_utf8(bytes@) ==> decoded@ == vstd::utf8::decode_utf8(bytes@),
{
    String::from_utf8_lossy(bytes).into_owned()
}

/// The first boundary at or after `from`.
pub fn find_event_boundary(buffer: &[char], from: usize) -> (at: Option<usize>)
    ensures
        match at {
            Some(i) => boundary_from(buffer@, from as int) == Some(i as int),
            None => boundary_from(buffer@, from as int) is None,
        },
{
    let lf: [char; 2] = ['\n', '\n'];
    let crlf: [char; 4] = ['\r', '\n', '\r', '\n'];
    let mut i: usize = from;
    while i < buffer.len()
        invariant
            from <= i,
            lf@ == seq!['\n', '\n'],
            crlf@ == seq!['\r', '\n', '\r', '\n'],
            boundary_from(buffer@, from as int) == boundary_from(buffer@, i as int),
        decreases buffer@.len() - i,
    {
        if text::matches_at(buffer, lf.as_slice(), i) || text::matches_at(
            buffer,
            crlf.as_slice(),
            i,
        ) {
            return Some(i);
        }
        i = i + 1;
    }
    None
}

/// The lines of a text.
fn lines_of(raw: &str) -> (all: Vec<String>)
    ensures
        all.deep_view() == lines(raw@),
{
    let chars = text::chars_of(raw);
    let newline: [char; 1] = ['\n'];
    let end: usize = chars.len();
    let mut all: Vec<String> = Vec::new();
    let mut from: usize = 0;
    assert(raw@.skip(0) =~= raw@);
    while from < end
        invariant
            end == chars@.len(),
            chars@ == raw@,
            newline@ == seq!['\n'],
            from <= end,
            all.deep_view() + lines(raw@.skip(from as int)) == lines(raw@),
        decreases end - from,
    {
        let ghost rest = raw@.skip(from as int);
        let ghost before = all.deep_view();
        proof {
            text::lemma_find_skip(raw@, seq!['\n'], from as int);
            text::lemma_find_from(raw@, seq!['\n'], from as int);
        }
        match text::position_from(chars.as_slice(), newline.as_slice(), from) {
            Some(at) => {
                assert(text::occurs_at(raw@, seq!['\n'], at as int));
                assert(rest.take(at - from) =~= raw@.subrange(from as int, at as int));
                assert(rest.skip(at - from + 1) =~= raw@.skip(at + 1));
                let stop: usize = if at > from && chars[at - 1] == '\r' {
                    at - 1
                } else {
                    at
                };
                assert(raw@.subrange(from as int, stop as int) =~= without_return(
                    rest.take(at - from),
                ));
                all.push(text::text_of(chars.as_slice(), from, stop));
                from = at + 1;
                assert(all.deep_view() =~= before + seq![all@.last()@]);
            },
            None => {
                assert(rest =~= raw@.subrange(from as int, end as int));
                all.push(text::text_of(chars.as_slice(), from, end));
                from = end;
                assert(all.deep_view() =~= before + seq![all@.last()@]);
                assert(lines(raw@.skip(from as int)) =~= Seq::<Seq<char>>::empty());
            },
        }
    }
    assert(lines(raw@.skip(from as int)) =~= Seq::<Seq<char>>::empty());
    all
}

/// The event that a raw text holds, if it holds data.
pub fn parse_event(raw: &str) -> (event: Option<SseEvent>)
    ensures
        match event {
            Some(e) => e.data@ == event_data(raw@) && e.data@.len() > 0,
            None => event_data(raw@).len() == 0,
        },
{
    let all = lines_of(raw);
    let prefix = text::chars_of("data:");
    let mut fields: Vec<String> = Vec::new();
    let mut i: usize = 0;
    proof {
        reveal_strlit("data:");
    }
    while i < all.len()
        invariant
            i <= all@.len(),
            prefix@ == "data:"@,
            prefix@.len() == 5,
            fields.deep_view() == data_fields(all.deep_view().take(i as int)),
        decreases all@.len() - i,
    {
        let ghost taken = all.deep_view().take(i + 1);
        assert(taken.drop_last() =~= all.deep_view().take(i as int));
        assert(taken.last() == all@[i as int]@);
        let ghost before = fields.deep_view();
        let line = text::chars_of(all[i].as_str());
        if text::matches_at(line.as_slice(), prefix.as_slice(), 0) {
            let at = text::skip_blanks(line.as_slice(), 5, line.len());
            assert(line@.subrange(5, line@.len() as int) =~= line@.skip(5));
            fields.push(text::text_of(line.as_slice(), at, line.len()));
            assert(fields.deep_view() =~= before.push(text::trim_start(line@.skip(5))));
        }
        i = i + 1;
    }
    assert(all.deep_view().take(i as int) =~= all.deep_view());
    proof {
        reveal_strlit("\n");
        assert("\n"@ =~= seq!['\n']);
    }
    let data = text::joined(&fields, "\n");
    if data.as_str().is_empty() {
        None
    } else {
        Some(SseEvent { data })
    }
}

impl SseParser {
    /// Takes the next chunk of the stream and returns the events that it
    /// completes.
    pub fn push(&mut self, chunk: &[u8]) -> (events: Vec<SseEvent>)
        ensures
            events.deep_view() == complete_events(old(self)@ + utf8_lossy(chunk@)),
            final(self)@ == unfinished(old(self)@ + utf8_lossy(chunk@)),
            vstd::utf8::valid_utf8(chunk@) ==> utf8_lossy(chunk@) == vstd::utf8::decode_utf8(
                chunk@,
            ),
    {
        let decoded = decode_lossy(chunk);
        self.push_text(decoded.as_str())
    }

    /// Takes the text of the next chunk of the stream and returns the events
    /// that it completes.
    pub fn push_text(&mut self, decoded: &str) -> (events: Vec<SseEvent>)
        ensures
            events.deep_view() == complete_events(old(self)@ + decoded@),
            final(self)@ == unfinished(old(self)@ + decoded@),
    {
        self.buffer.append(decoded);
        let chars = text::chars_of(self.buffer.as_str());
        let crlf: [char; 4] = ['\r', '\n', '\r', '\n'];
        let end: usize = chars.len();
        let mut events: Vec<SseEvent> = Vec::new();
        let mut from: usize = 0;
        let ghost whole = chars@;
        assert(whole.skip(0) =~= whole);
        loop
            invariant_except_break
                from <= end,
                events.deep_view() + complete_events(whole.skip(from as int)) == complete_events(
                    whole,
                ),
                unfinished(whole.skip(from as int)) == unfinished(whole),
            invariant
                end == chars@.len(),
                whole == chars@,
                crlf@ == seq!['\r', '\n', '\r', '\n'],
            ensures
                from <= end,
                events.deep_view() == complete_events(whole),
                whole.skip(from as int) == unfinished(whole),
            decreases end - from,
        {
            let ghost rest = whole.skip(from as int);
            let ghost before = events.deep_view();
            proof {
                lemma_boundary_skip(whole, from as int);
                lemma_boundary_from(whole, from as int);
            }
            match find_event_boundary(chars.as_slice(), from) {
                Some(at) => {
                    let raw = text::text_of(chars.as_slice(), from, at);
                    assert(rest.take(at - from) =~= raw@);
                    let n: usize = if text::matches_at(chars.as_slice(), crlf.as_slice(), at) {
                        4
                    } else {
                        2
                    };
                    assert(n == boundary_len(whole, at as int));
                    assert(rest.skip(at - from + n) =~= whole.skip(at + n));
                    if let Some(event) = parse_event(raw.as_str()) {
                        events.push(event);
                    }
                    assert(events.deep_view() =~= before + events_of(raw@));
                    from = at + n;
                },
                None => {
                    break;
                },
            }
        }
        assert(whole.skip(from as int) =~= whole.subrange(from as int, end as int));
        self.buffer = text::text_of(chars.as_slice(), from, end);
        events
    }

    /// Ends the stream and returns the event that what is left of it makes.
    pub fn finish(&mut self) -> (events: Vec<SseEvent>)
        ensures
            final(self)@ == Seq::<char>::empty(),
            events.deep_view() == last_events(old(self)@),
    {
        let mut events: Vec<SseEvent> = Vec::new();
        let mut raw = String::new();
        std::mem::swap(&mut raw, &mut self.buffer);
        if !text::trimmed(raw.as_str()).as_str().is_empty() {
            if let Some(event) = parse_event(raw.as_str()) {
                events.push(event);
            }
        }
        assert(events.deep_view() =~= last_events(old(self)@));
        events
    }
}

// ---------------------------------------------------------------------------
// Laws of the format
// ---------------------------------------------------------------------------

/// A line feed ends a line, together with the carriage return before it; the
/// rest is cut into lines on its own.
pub proof fn law_line_feed_ends_a_line(line: Seq<char>, rest: Seq<char>)
    requires
        !line.contains('\n'),
    ensures
        line.len() == 0 || line.last() != '\r' ==> lines(line + seq!['\n'] + rest) == seq![line]
            + lines(rest),
        lines(line + seq!['\r', '\n'] + rest) == seq![line] + lines(rest),
{
    lemma_first_line(line, rest);
    let ended = line.push('\r');
    assert forall|i: int| 0 <= i < ended.len() implies ended[i] != '\n' by {
        if i < line.len() {
            assert(line.contains(line[i]));
        }
    }
    lemma_first_line(ended, rest);
    assert(ended + seq!['\n'] + rest =~= line + seq!['\r', '\n'] + rest);
    assert(ended.drop_last() =~= line);
}

proof fn lemma_first_line(line: Seq<char>, rest: Seq<char>)
    requires
        !line.contains('\n'),
    ensures
        lines(line + seq!['\n'] + rest) == seq![without_return(line)] + lines(rest),
{
    let raw = line + seq!['\n'] + rest;
    let at = line.len() as int;
    assert(raw.subrange(at, at + 1) =~= seq!['\n']);
    assert forall|j: int| 0 <= j < at implies !text::occurs_at(raw, seq!['\n'], j) by {
        assert(line.contains(line[j]));
        assert(raw[j] == line[j]);
        if text::occurs_at(raw, seq!['\n'], j) {
            assert(raw.subrange(j, j + 1)[0] == '\n');
        }
    }
    text::lemma_find_is(raw, seq!['\n'], at);
    assert(raw.take(at) =~= line);
    assert(raw.skip(at + 1) =~= rest);
}

/// A text without a line feed is one line; no text is no line.
pub proof fn law_last_line_needs_no_end(line: Seq<char>)
    requires
        !line.contains('\n'),
    ensures
        line.len() > 0 ==> lines(line) == seq![line],
        line.len() == 0 ==> lines(line).len() == 0,
{
    if line.len() > 0 {
        lemma_single_line(line);
    }
}

proof fn lemma_lines_behind_a_line_feed(raw: Seq<char>, rest: Seq<char>)
    ensures
        lines(raw + seq!['\n'] + rest) == lines(raw + seq!['\n']) + lines(rest),
    decreases raw.len(),
{
    let nothing = Seq::<char>::empty();
    text::lemma_find_from(raw, seq!['\n'], 0);
    match text::find(raw, seq!['\n']) {
        None => {
            if raw.contains('\n') {
                let k = choose|k: int| 0 <= k < raw.len() && raw[k] == '\n';
                assert(raw.subrange(k, k + 1) =~= seq!['\n']);
                assert(text::occurs_at(raw, seq!['\n'], k));
            }
            lemma_first_line(raw, rest);
            lemma_first_line(raw, nothing);
            assert(raw + seq!['\n'] + nothing =~= raw + seq!['\n']);
            assert(lines(nothing) =~= Seq::<Seq<char>>::empty());
            assert(seq![without_return(raw)] + lines(nothing) =~= seq![without_return(raw)]);
        },
        Some(at) => {
            assert(raw.subrange(at, at + 1)[0] == '\n');
            let line = raw.take(at);
            let more = raw.skip(at + 1);
            assert forall|i: int| 0 <= i < line.len() implies line[i] != '\n' by {
                if line[i] == '\n' {
                    assert(raw.subrange(i, i + 1) =~= seq!['\n']);
                    assert(text::occurs_at(raw, seq!['\n'], i));
                }
            }
            assert(raw =~= line + seq!['\n'] + more);
            assert(raw + seq!['\n'] + rest =~= line + seq!['\n'] + (more + seq!['\n'] + rest));
            assert(raw + seq!['\n'] =~= line + seq!['\n'] + (more + seq!['\n']));
            lemma_first_line(line, more + seq!['\n'] + rest);
            lemma_first_line(line, more + seq!['\n']);
            lemma_lines_behind_a_line_feed(more, rest);
            assert(lines(raw + seq!['\n'] + rest) =~= lines(raw + seq!['\n']) + lines(rest));
        },
    }
}

proof fn lemma_data_fields_concat(first: Seq<Seq<char>>, line: Seq<char>)
    ensures
        data_fields(first + seq![line]) == data_fields(first) + (match data_field(line) {
            Some(field) => seq![field],
            None => Seq::empty(),
        }),
{
    assert((first + seq![line]).drop_last() =~= first);
    assert(data_fields(first + seq![line]) =~= data_fields(first) + (match data_field(line) {
        Some(field) => seq![field],
        None => Seq::empty(),
    }));
}

/// A line that begins with `data:` adds what stands behind that, without the
/// white space in front, as one more line of the event's data; no other line
/// adds anything.
pub proof fn law_data_lines_add_up(raw: Seq<char>, line: Seq<char>, value: Seq<char>)
    requires
        !line.contains('\n'),
        line.len() > 0,
        !value.contains('\n'),
    ensures
        !text::occurs_at(line, "data:"@, 0) ==> event_data(raw + seq!['\n'] + line) == event_data(
            raw + seq!['\n'],
        ),
        event_data(raw + seq!['\n']).len() > 0 ==> event_data(
            raw + seq!['\n'] + ("data:"@ + value),
        ) == event_data(raw + seq!['\n']) + seq!['\n'] + text::trim_start(value),
        event_data("data:"@ + value) == text::trim_start(value),
        !text::occurs_at(line, "data:"@, 0) ==> event_data(line).len() == 0,
{
    reveal_strlit("data:");
    let told = "data:"@ + value;
    let newline = seq!['\n'];
    assert forall|i: int| 0 <= i < told.len() implies told[i] != '\n' by {
        if i >= 5 {
            assert(value.contains(value[i - 5]));
        }
    }
    assert(told.subrange(0, 5) =~= "data:"@);
    assert(told.skip(5) =~= value);
    lemma_lines_behind_a_line_feed(raw, line);
    lemma_lines_behind_a_line_feed(raw, told);
    law_last_line_needs_no_end(line);
    law_last_line_needs_no_end(told);
    let before = lines(raw + newline);
    lemma_data_fields_concat(before, line);
    lemma_data_fields_concat(before, told);
    let fields = data_fields(before);
    let field = text::trim_start(value);
    let none = Seq::<Seq<char>>::empty();
    assert(fields + Seq::<Seq<char>>::empty() =~= fields);
    if fields.len() > 0 {
        text::law_join_is_piecewise(fields, seq![field], newline);
    }
    text::law_join_of_one(field, newline);
    assert(none + seq![line] =~= seq![line]);
    assert(none + seq![told] =~= seq![told]);
    lemma_data_fields_concat(none, line);
    lemma_data_fields_concat(none, told);
    assert(data_fields(none) =~= none);
    assert(none + seq![field] =~= seq![field]);
    assert(none + none =~= none);
}

/// A first data line without a value is a line of the data too.
pub proof fn law_empty_data_line_counts(value: Seq<char>)
    requires
        !value.contains('\n'),
    ensures
        event_data("data:"@ + seq!['\n'] + ("data:"@ + value)) == seq!['\n'] + text::trim_start(
            value,
        ),
{
    reveal_strlit("data:");
    let told = "data:"@ + value;
    let newline = seq!['\n'];
    let empty = Seq::<char>::empty();
    assert forall|i: int| 0 <= i < told.len() implies told[i] != '\n' by {
        if i >= 5 {
            assert(value.contains(value[i - 5]));
        }
    }
    assert(!"data:"@.contains('\n'));
    lemma_first_line("data:"@, told);
    law_last_line_needs_no_end(told);
    assert("data:"@.subrange(0, 5) =~= "data:"@);
    assert("data:"@.skip(5) =~= empty);
    assert(told.subrange(0, 5) =~= "data:"@);
    assert(told.skip(5) =~= value);
    let none = Seq::<Seq<char>>::empty();
    assert(data_fields(none) =~= none);
    assert(none + seq!["data:"@] =~= seq!["data:"@]);
    lemma_data_fields_concat(none, "data:"@);
    lemma_data_fields_concat(seq!["data:"@], told);
    assert(none + seq![empty] =~= seq![empty]);
    text::law_join_is_piecewise(seq![empty], seq![text::trim_start(value)], newline);
    text::law_join_of_one(empty, newline);
    text::law_join_of_one(text::trim_start(value), newline);
    assert(empty + newline + text::trim_start(value) =~= newline + text::trim_start(value));
}

/// An event is told with its data, unless it has none.
pub proof fn law_event_with_data_is_told(raw: Seq<char>)
    ensures
        event_data(raw).len() > 0 ==> events_of(raw) == seq![event_data(raw)],
        event_data(raw).len() == 0 ==> events_of(raw).len() == 0,
{
}

/// A blank line, of either line ending, ends an event; the rest of the stream
/// is read on its own. Without a blank line nothing is complete.
pub proof fn law_blank_line_ends_an_event(raw: Seq<char>, rest: Seq<char>)
    requires
        !text::stands_before(raw + seq!['\n', '\n'], seq!['\n', '\n'], raw.len() as int),
        !text::stands_before(raw + seq!['\n', '\n'], seq!['\r', '\n', '\r', '\n'], raw.len() as int),
    ensures
        complete_events(raw + seq!['\n', '\n'] + rest) == events_of(raw) + complete_events(rest),
        unfinished(raw + seq!['\n', '\n'] + rest) == unfinished(rest),
{
    lemma_event_ends(raw, seq!['\n', '\n'], rest);
}

/// The same for a blank line with carriage returns.
pub proof fn law_blank_line_with_returns_ends_an_event(raw: Seq<char>, rest: Seq<char>)
    requires
        !text::stands_before(raw + seq!['\r', '\n', '\r', '\n'], seq!['\n', '\n'], raw.len() as int),
        !text::stands_before(raw + seq!['\r', '\n', '\r', '\n'], seq!['\r', '\n', '\r', '\n'], raw.len() as int),
    ensures
        complete_events(raw + seq!['\r', '\n', '\r', '\n'] + rest) == events_of(raw)
            + complete_events(rest),
        unfinished(raw + seq!['\r', '\n', '\r', '\n'] + rest) == unfinished(rest),
{
    lemma_event_ends(raw, seq!['\r', '\n', '\r', '\n'], rest);
}

proof fn lemma_event_ends(raw: Seq<char>, end: Seq<char>, rest: Seq<char>)
    requires
        end == seq!['\n', '\n'] || end == seq!['\r', '\n', '\r', '\n'],
        !text::stands_before(raw + end, seq!['\n', '\n'], raw.len() as int),
        !text::stands_before(raw + end, seq!['\r', '\n', '\r', '\n'], raw.len() as int),
    ensures
        complete_events(raw + end + rest) == events_of(raw) + complete_events(rest),
        unfinished(raw + end + rest) == unfinished(rest),
{
    let frame = raw + end;
    let at = raw.len() as int;
    let nothing = Seq::<char>::empty();
    assert(frame.subrange(at, at + end.len()) =~= end);
    assert(text::occurs_at(frame, end, at));
    assert(is_boundary(frame, at));
    assert forall|j: int| 0 <= j < at implies !is_boundary(frame, j) by {
        assert(!text::occurs_at(frame, seq!['\n', '\n'], j));
        assert(!text::occurs_at(frame, seq!['\r', '\n', '\r', '\n'], j));
    }
    lemma_boundary_is(frame, at);
    if end == seq!['\n', '\n'] {
        assert(frame[at] == '\n');
        if text::occurs_at(frame, seq!['\r', '\n', '\r', '\n'], at) {
            assert(frame.len() == at + 2);
        }
    }
    assert(boundary_len(frame, at) == end.len());
    assert(frame.take(at) =~= raw);
    assert(frame.skip(at + boundary_len(frame, at)) =~= nothing);
    assert(boundary_from(nothing, 0) is None);
    assert(unfinished(nothing) == nothing);
    assert(complete_events(nothing) =~= Seq::<Seq<char>>::empty());
    assert(complete_events(frame) =~= events_of(raw));
    assert(unfinished(frame) == nothing);
    law_split_anywhere(frame, rest);
    assert(nothing + rest =~= rest);
}

/// Where no blank line has arrived, no event is complete and everything stays.
pub proof fn law_nothing_is_complete_without_a_blank_line(buffer: Seq<char>)
    requires
        !text::contains_text(buffer, seq!['\n', '\n']),
        !text::contains_text(buffer, seq!['\r', '\n', '\r', '\n']),
    ensures
        complete_events(buffer).len() == 0,
        unfinished(buffer) == buffer,
{
    lemma_boundary_from(buffer, 0);
    if let Some(at) = boundary_from(buffer, 0) {
        assert(is_boundary(buffer, at));
    }
}

/// The stream ends with the word `[DONE]`, with or without white space around
/// it, and with nothing else.
pub proof fn law_end_is_the_word_alone(data: Seq<char>)
    ensures
        is_done_data(data) <==> exists|lo: int| #[trigger]
            text::is_trimmed_part(data, lo, lo + 6) && data.subrange(lo, lo + 6) == "[DONE]"@,
{
    reveal_strlit("[DONE]");
    text::law_trim_takes_only_white_space(data);
    let (lo, hi) = choose|lo: int, hi: int| #[trigger]
        text::is_trimmed_part(data, lo, hi) && text::trim(data) == data.subrange(lo, hi);
    if is_done_data(data) {
        assert(data.subrange(lo, hi).len() == 6);
        assert(text::is_trimmed_part(data, lo, lo + 6));
    }
    if exists|k: int| #[trigger]
        text::is_trimmed_part(data, k, k + 6) && data.subrange(k, k + 6) == "[DONE]"@ {
        let k = choose|k: int| #[trigger]
            text::is_trimmed_part(data, k, k + 6) && data.subrange(k, k + 6) == "[DONE]"@;
        let before = data.take(k);
        let kept = data.subrange(k, k + 6);
        let after = data.skip(k + 6);
        assert(data =~= before + kept + after);
        assert forall|i: int| 0 <= i < after.len() implies text::is_blank(#[trigger] after[i]) by {
            assert(text::is_blank(data[k + 6 + i]));
        }
        assert forall|i: int| 0 <= i < before.len() implies text::is_blank(#[trigger] before[i]) by {
            assert(text::is_blank(data[i]));
        }
        assert(kept[0] == data[k] && kept.last() == data[k + 5]);
        text::law_white_space_around_is_trimmed(before, kept, after);
    }
}

/// What is left where the stream ends is an event of its own, unless it is all
/// white space.
pub proof fn law_what_is_left_is_an_event(buffer: Seq<char>)
    ensures
        text::trim(buffer).len() > 0 && event_data(buffer).len() > 0 ==> last_events(buffer)
            == seq![event_data(buffer)],
        text::trim(buffer).len() == 0 || event_data(buffer).len() == 0 ==> last_events(buffer).len()
            == 0,
{
}

proof fn lemma_data_fields_in_parts(first: Seq<Seq<char>>, second: Seq<Seq<char>>)
    ensures
        data_fields(first + second) == data_fields(first) + data_fields(second),
    decreases second.len(),
{
    if second.len() == 0 {
        assert(first + second =~= first);
        assert(data_fields(first) + data_fields(second) =~= data_fields(first));
    } else {
        lemma_data_fields_in_parts(first, second.drop_last());
        assert((first + second).drop_last() =~= first + second.drop_last());
        assert(data_fields(first + second) =~= data_fields(first) + data_fields(second));
    }
}

/// A line of another kind before the data takes nothing away from it.
pub proof fn law_other_lines_are_passed_over(line: Seq<char>, rest: Seq<char>)
    requires
        !line.contains('\n'),
        !text::occurs_at(line, "data:"@, 0),
    ensures
        event_data(line + seq!['\n'] + rest) == event_data(rest),
{
    reveal_strlit("data:");
    lemma_first_line(line, rest);
    let told = without_return(line);
    text::law_occurrence_is_spelled_out(line, "data:"@, 0);
    text::law_occurrence_is_spelled_out(told, "data:"@, 0);
    if text::occurs_at(told, "data:"@, 0) {
        assert forall|i: int| 0 <= i < "data:"@.len() implies line[0 + i] == #[trigger] "data:"@[i] by {
            assert(told[0 + i] == "data:"@[i]);
        }
        assert(false);
    }
    let none = Seq::<Seq<char>>::empty();
    lemma_data_fields_in_parts(seq![told], lines(rest));
    assert(seq![told].drop_last() =~= none);
    assert(data_fields(none) =~= none);
    assert(data_fields(seq![told]) =~= none);
    assert(none + data_fields(lines(rest)) =~= data_fields(lines(rest)));
}

/// Events are seen in full: two of them that look alike are alike.
pub proof fn law_events_are_seen_in_full(a: SseEvent, b: SseEvent)
    ensures
        a.deep_view() == b.deep_view() ==> a.data@ == b.data@,
{
}

/// An event ends at the first blank line, of either line ending, from where it
/// is searched on; where none is found there is none. With carriage returns it
/// takes four characters, and without them two.
pub proof fn law_first_blank_line_is_found(buffer: Seq<char>, from: int)
    requires
        0 <= from,
    ensures
        match boundary_from(buffer, from) {
            Some(at) => {
                &&& from <= at
                &&& text::occurs_at(buffer, seq!['\n', '\n'], at) || text::occurs_at(
                    buffer,
                    seq!['\r', '\n', '\r', '\n'],
                    at,
                )
                &&& !text::stands_before(
                    buffer.skip(from),
                    seq!['\n', '\n'],
                    at - from,
                )
                &&& !text::stands_before(
                    buffer.skip(from),
                    seq!['\r', '\n', '\r', '\n'],
                    at - from,
                )
                &&& text::occurs_at(buffer, seq!['\n', '\n'], at) ==> boundary_len(buffer, at) == 2
                &&& !text::occurs_at(buffer, seq!['\n', '\n'], at) ==> boundary_len(buffer, at)
                    == 4
            },
            None => from <= buffer.len() ==> !text::contains_text(
                buffer.skip(from),
                seq!['\n', '\n'],
            ) && !text::contains_text(buffer.skip(from), seq!['\r', '\n', '\r', '\n']),
        },
{
    lemma_boundary_from(buffer, from);
    let lf = seq!['\n', '\n'];
    let crlf = seq!['\r', '\n', '\r', '\n'];
    if from <= buffer.len() {
        let rest = buffer.skip(from);
        assert forall|j: int| 0 <= j && (text::occurs_at(rest, lf, j) || text::occurs_at(
            rest,
            crlf,
            j,
        )) implies is_boundary(buffer, from + j) by {
            if text::occurs_at(rest, lf, j) {
                assert(buffer.subrange(from + j, from + j + 2) =~= rest.subrange(j, j + 2));
                assert(text::occurs_at(buffer, lf, from + j));
            } else {
                assert(buffer.subrange(from + j, from + j + 4) =~= rest.subrange(j, j + 4));
                assert(text::occurs_at(buffer, crlf, from + j));
            }
        }
    }
    if let Some(at) = boundary_from(buffer, from) {
        assert(is_boundary(buffer, at));
        if text::occurs_at(buffer, lf, at) && text::occurs_at(buffer, crlf, at) {
            assert(buffer.subrange(at, at + 2)[0] == buffer[at]);
            assert(buffer.subrange(at, at + 4)[0] == buffer[at]);
        }
    }
}

} // verus!
