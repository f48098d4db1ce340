//! What the gateway decides about a request: who may make it, how it is
//! answered, and how a failure is reported.

use crate::chat3::{Chat3Error, Chat3ErrorModel};
use crate::json::JsonModel;
use crate::openai::{ChatCompletionRequest, ErrorModel, ErrorReply, MessageModel, RequestModel};
use crate::planner::{DecisionModel, PlannerDecision};
use crate::{chat3, json, openai, planner, text, views};
use vstd::prelude::*;

verus! {

// ---------------------------------------------------------------------------
// Authorization
// ---------------------------------------------------------------------------

/// Every byte is a tab or a visible ASCII character or a blank.
pub open spec fn is_visible_ascii(value: Seq<u8>) -> bool {
    forall|i: int| 0 <= i < value.len() ==> is_visible_byte(#[trigger] value[i])
}

/// The byte is a tab or a visible ASCII character or a blank.
pub open spec fn is_visible_byte(byte: u8) -> bool {
    32 <= byte < 127 || byte == 9
}

/// The text whose characters are these bytes.
pub open spec fn ascii_text(value: Seq<u8>) -> Seq<char> {
    Seq::new(value.len(), |i: int| value[i] as char)
}

/// The answer to a request that is not authorized.
pub open spec fn unauthorized(message: Seq<char>, code: Seq<char>) -> ErrorModel {
    ErrorModel { status: 401, message, kind: "invalid_request_error"@, code: Some(code) }
}

/// The authorization that a request carries, or the answer to a request that
/// carries none that can be passed on.
pub open spec fn authorized(value: Option<Seq<u8>>) -> Result<Seq<char>, ErrorModel> {
    match value {
        None => Err(unauthorized("missing Authorization header"@, "missing_authorization"@)),
        Some(bytes) => if !is_visible_ascii(bytes) {
            Err(unauthorized("invalid Authorization header"@, "invalid_authorization"@))
        } else if !text::occurs_at(ascii_text(bytes), "Bearer "@, 0) {
            Err(
                unauthorized(
                    "Authorization must use Bearer scheme"@,
                    "invalid_authorization_scheme"@,
                ),
            )
        } else {
            Ok(ascii_text(bytes))
        },
    }
}

/// The answer to a request that is not authorized.
fn refuse(message: &str, code: &str) -> (reply: ErrorReply)
    ensures
        reply.deep_view() == unauthorized(message@, code@),
{
    openai::error_response(
        401,
        "invalid_request_error".to_owned(),
        message.to_owned(),
        Some(code.to_owned()),
    )
}

/// The text of a header value, where it is one.
fn header_text(value: &[u8]) -> (chars: Option<String>)
    ensures
        chars.deep_view() == (if is_visible_ascii(value@) {
            Some(ascii_text(value@))
        } else {
            None
        }),
{
    let mut chars = String::new();
    let mut i: usize = 0;
    while i < value.len()
        invariant
            i <= value@.len(),
            forall|k: int| 0 <= k < i ==> is_visible_byte(#[trigger] value@[k]),
            chars@ == ascii_text(value@.take(i as int)),
        decreases value@.len() - i,
    {
        let byte: u8 = value[i];
        if (byte < 32 || byte >= 127) && byte != 9 {
            assert(!is_visible_byte(value@[i as int]));
            return None;
        }
        chars.push(byte as char);
        i = i + 1;
        assert(chars@ =~= ascii_text(value@.take(i as int)));
    }
    assert(value@.take(i as int) =~= value@);
    Some(chars)
}

/// The authorization that a request carries. `value` is the value of its
/// `Authorization` header.
pub fn authorization(value: Option<&[u8]>) -> (auth: Result<String, ErrorReply>)
    ensures
        views::result_view(auth) == authorized(
            match value {
                Some(bytes) => Some(bytes@),
                None => None,
            },
        ),
{
    let bytes = match value {
        Some(bytes) => bytes,
        None => {
            return Err(refuse("missing Authorization header", "missing_authorization"));
        },
    };
    let auth = match header_text(bytes) {
        Some(auth) => auth,
        None => {
            return Err(refuse("invalid Authorization header", "invalid_authorization"));
        },
    };
    let chars = text::chars_of(auth.as_str());
    let scheme = text::chars_of("Bearer ");
    if !text::matches_at(chars.as_slice(), scheme.as_slice(), 0) {
        return Err(refuse("Authorization must use Bearer scheme", "invalid_authorization_scheme"));
    }
    Ok(auth)
}

/// An authorization that is let through is passed on as it came, and chat3
/// can be asked with it.
pub proof fn law_authorization_can_be_passed_on(value: Option<Seq<u8>>)
    requires
        authorized(value) is Ok,
    ensures
        value is Some,
        authorized(value) == Ok::<Seq<char>, ErrorModel>(ascii_text(value->0)),
        vstd::utf8::encode_utf8(authorized(value)->Ok_0) == value->0,
        chat3::is_header_text(authorized(value)->Ok_0),
{
    let bytes = value->0;
    lemma_ascii_text_encodes(bytes);
    assert forall|i: int| 0 <= i < bytes.len() implies chat3::is_header_byte(
        #[trigger] bytes[i],
    ) by {
        assert(is_visible_byte(bytes[i]));
    }
}

/// A text of ASCII characters has its characters as its bytes in UTF-8.
proof fn lemma_ascii_text_encodes(bytes: Seq<u8>)
    requires
        is_visible_ascii(bytes),
    ensures
        vstd::utf8::encode_utf8(ascii_text(bytes)) == bytes,
{
    let chars = ascii_text(bytes);
    assert forall|i: int| 0 <= i < chars.len() implies '\0' <= #[trigger] chars[i] <= '\u{7f}' by {
        assert(is_visible_byte(bytes[i]));
    }
    vstd::utf8::is_ascii_chars_encode_utf8(chars);
    assert(vstd::utf8::encode_utf8(chars) =~= bytes);
}

// ---------------------------------------------------------------------------
// Failures of chat3
// ---------------------------------------------------------------------------

/// The status that a failure of chat3 is reported with: the one that chat3
/// answered, where it is a server error or speaks of the caller's token, and
/// 502 for any other.
pub open spec fn public_status(status: u16) -> u16 {
    if 500 <= status < 600 || status == 401 || status == 403 {
        status
    } else {
        502
    }
}

/// The answer to a request that chat3 failed.
pub open spec fn upstream_failure(error: Chat3ErrorModel) -> ErrorModel {
    ErrorModel {
        status: public_status(error.report().0),
        message: error.report().1,
        kind: "upstream_error"@,
        code: Some("chat3_error"@),
    }
}

/// The answer to a request that chat3 failed.
pub fn upstream_error(error: Chat3Error) -> (reply: ErrorReply)
    ensures
        reply.deep_view() == upstream_failure(error.deep_view()),
{
    let (status, message) = error.into_report();
    let public: u16 = if (500 <= status && status < 600) || status == 401 || status == 403 {
        status
    } else {
        502
    };
    openai::error_response(
        public,
        "upstream_error".to_owned(),
        message,
        Some("chat3_error".to_owned()),
    )
}

/// A failure of chat3 is never reported as a success or a redirection, nor as
/// an error of the caller's but for a token that was refused.
pub proof fn law_failures_are_reported_as_failures(error: Chat3ErrorModel)
    ensures
        500 <= upstream_failure(error).status < 600 || upstream_failure(error).status == 401
            || upstream_failure(error).status == 403,
{
}

// ---------------------------------------------------------------------------
// How a request is answered
// ---------------------------------------------------------------------------

/// How a chat request is answered.
#[derive(Clone, Copy, Debug, PartialEq, Eq, Structural)]
pub enum ChatRoute {
    /// By planning tool calls.
    Plan,
    /// By passing on what chat3 says as it says it.
    Stream,
    /// By passing on what chat3 says in one piece.
    Collect,
}

/// How a chat request is answered where at most `max_tool_rounds` results of
/// tools are followed by another plan.
pub open spec fn route_of(request: RequestModel, max_tool_rounds: int) -> ChatRoute {
    if planner::wants_plan(request) && planner::count_tool_results(request.messages)
        < max_tool_rounds {
        ChatRoute::Plan
    } else if request.stream {
        ChatRoute::Stream
    } else {
        ChatRoute::Collect
    }
}

/// How a chat request is answered.
pub fn chat_route(request: &ChatCompletionRequest, max_tool_rounds: usize) -> (route: ChatRoute)
    ensures
        route == route_of(request.deep_view(), max_tool_rounds as int),
{
    if planner::should_plan(request) && planner::tool_result_count(request) < max_tool_rounds {
        ChatRoute::Plan
    } else if request.stream {
        ChatRoute::Stream
    } else {
        ChatRoute::Collect
    }
}

/// The name of a way of planning, as it is told to the client.
pub open spec fn mode_name(base: Seq<char>, stream: bool) -> Seq<char> {
    if stream && base == "tool_planner"@ {
        "tool_planner_stream"@
    } else if stream && base == "tool_planner_required"@ {
        "tool_planner_required_stream"@
    } else if stream && base == "tool_planner_fallback"@ {
        "tool_planner_fallback_stream"@
    } else {
        base
    }
}

/// The name of a way of planning, as it is told to the client.
pub fn planner_mode(base: &'static str, stream_response: bool) -> (mode: &'static str)
    ensures
        mode@ == mode_name(base@, stream_response),
{
    if !stream_response {
        base
    } else if text::same_text(base, "tool_planner") {
        "tool_planner_stream"
    } else if text::same_text(base, "tool_planner_required") {
        "tool_planner_required_stream"
    } else if text::same_text(base, "tool_planner_fallback") {
        "tool_planner_fallback_stream"
    } else {
        base
    }
}

/// The headers that tell the client how its request was answered, and how long
/// chat3 took.
pub open spec fn told_headers(mode: Seq<char>, elapsed_ms: int) -> Seq<(Seq<char>, Seq<char>)> {
    seq![
        ("x-scut-proxy-mode"@, mode),
        ("x-scut-proxy-upstream-ms"@, text::decimal(elapsed_ms)),
    ]
}

/// The headers that tell the client how its request was answered, and how long
/// chat3 took.
pub fn proxy_headers(mode: &str, elapsed_ms: u128) -> (headers: Vec<(String, String)>)
    ensures
        headers.deep_view() == told_headers(mode@, elapsed_ms as int),
{
    let mut headers: Vec<(String, String)> = Vec::new();
    headers.push(("x-scut-proxy-mode".to_owned(), mode.to_owned()));
    headers.push(("x-scut-proxy-upstream-ms".to_owned(), text::unsigned_text(elapsed_ms)));
    assert(headers.deep_view() =~= seq![
        ("x-scut-proxy-mode"@, mode@),
        ("x-scut-proxy-upstream-ms"@, text::decimal(elapsed_ms as int)),
    ]);
    headers
}

/// The time that chat3 took is always told in a form that can stand in a
/// header.
pub proof fn law_elapsed_time_is_a_header_value(elapsed_ms: u128)
    ensures
        chat3::is_header_text(text::decimal(elapsed_ms as int)),
{
    let chars = text::decimal(elapsed_ms as int);
    text::lemma_digits_read_back(elapsed_ms as nat);
    assert forall|i: int| 0 <= i < chars.len() implies '0' <= #[trigger] chars[i] <= '9' by {
        assert(text::is_digit(chars[i]));
    }
    vstd::utf8::is_ascii_chars_encode_utf8(chars);
    let bytes = vstd::utf8::encode_utf8(chars);
    assert forall|i: int| 0 <= i < bytes.len() implies chat3::is_header_byte(
        #[trigger] bytes[i],
    ) by {
        assert(chars[i] as u8 == bytes[i]);
    }
}

// ---------------------------------------------------------------------------
// Questions about resource usage
// ---------------------------------------------------------------------------

/// The text of the last message of the user's that has any content.
pub open spec fn last_user_text(messages: Seq<MessageModel>) -> Option<Seq<char>>
    decreases messages.len(),
{
    if messages.len() == 0 {
        None
    } else if messages.last().role == "user"@ && messages.last().content is Some {
        Some(chat3::value_text(messages.last().content->0))
    } else {
        last_user_text(messages.drop_last())
    }
}

/// The words by which a question about resource usage is known.
pub open spec fn usage_words() -> Seq<Seq<char>> {
    seq![
        "cpu"@,
        "memory"@,
        "top"@,
        "内存"@,
        "资源"@,
        "占用"@,
        "负载"@,
        "用量"@,
        "使用率"@,
    ]
}

/// The last text of the user's, in lower case, holds one of the words by which
/// a question about resource usage is known.
pub open spec fn asks_for_usage(messages: Seq<MessageModel>) -> bool {
    match last_user_text(messages) {
        Some(asked) => planner::contains_any(text::lowercase(asked), usage_words()),
        None => false,
    }
}

/// The decision calls for the metrics of pods, and nobody asked for them.
pub open spec fn is_idle_metrics_call(messages: Seq<MessageModel>, decision: DecisionModel) -> bool {
    !asks_for_usage(messages) && (decision matches DecisionModel::ToolCalls(calls)
        && planner::calls_tool(calls, "pods_top"@))
}

/// The text of the last message of the user's that has any content.
fn find_user_text(request: &ChatCompletionRequest) -> (asked: Option<String>)
    ensures
        asked.deep_view() == last_user_text(request.deep_view().messages),
{
    let ghost all = request.messages.deep_view();
    let mut i: usize = request.messages.len();
    assert(all.take(i as int) =~= all);
    while i > 0
        invariant
            i <= request.messages@.len(),
            all == request.messages.deep_view(),
            last_user_text(all) == last_user_text(all.take(i as int)),
        decreases i,
    {
        i = i - 1;
        assert(all.take(i + 1).drop_last() =~= all.take(i as int));
        let message = &request.messages[i];
        assert(all.take(i + 1).last() == message.deep_view());
        if text::same_text(message.role.as_str(), "user") {
            if let Some(content) = &message.content {
                return Some(chat3::stringify_message_content(content));
            }
        }
    }
    None
}

/// Whether a text that is already in lower case asks for resource usage.
pub fn names_resource_usage(normalized: &str) -> (found: bool)
    ensures
        found == planner::contains_any(normalized@, usage_words()),
{
    let words: Vec<&'static str> = vec![
        "cpu",
        "memory",
        "top",
        "内存",
        "资源",
        "占用",
        "负载",
        "用量",
        "使用率",
    ];
    assert(words.deep_view() =~= usage_words());
    planner::holds_any(normalized, &words)
}

/// Whether the user asked for resource usage.
pub fn user_asked_for_resource_usage(request: &ChatCompletionRequest) -> (asked: bool)
    ensures
        asked == asks_for_usage(request.deep_view().messages),
{
    match find_user_text(request) {
        Some(asked) => names_resource_usage(text::to_lowercase(asked.as_str()).as_str()),
        None => false,
    }
}

/// Whether the decision calls for the metrics of pods though nobody asked for
/// them.
pub fn is_unrequested_pod_metrics_call(
    request: &ChatCompletionRequest,
    decision: &PlannerDecision,
) -> (unrequested: bool)
    ensures
        unrequested == is_idle_metrics_call(request.deep_view().messages, decision.deep_view()),
{
    if user_asked_for_resource_usage(request) {
        return false;
    }
    match decision {
        PlannerDecision::ToolCalls { calls } => planner::has_call_of(calls, "pods_top"),
        PlannerDecision::Final { .. } => false,
    }
}

// ---------------------------------------------------------------------------
// Laws
// ---------------------------------------------------------------------------

/// A request is let through exactly where its header is there, has only tabs,
/// blanks and visible ASCII characters, and begins with the word `Bearer` and a
/// blank; what is passed on has the header's bytes as its characters.
pub proof fn law_bearer_tokens_are_let_through(bytes: Seq<u8>)
    ensures
        authorized(Some(bytes)) is Ok <==> {
            &&& forall|i: int|
                0 <= i < bytes.len() ==> 32 <= (#[trigger] bytes[i]) <= 126 || bytes[i] == 9
            &&& bytes.len() >= 7
            &&& bytes[0] == 66 && bytes[1] == 101 && bytes[2] == 97 && bytes[3] == 114
            &&& bytes[4] == 101 && bytes[5] == 114 && bytes[6] == 32
        },
        authorized(Some(bytes)) matches Ok(auth) ==> auth.len() == bytes.len() && forall|i: int|
            0 <= i < bytes.len() ==> (#[trigger] auth[i]) as int == bytes[i] as int,
{
    lemma_bearer(bytes);
    if forall|i: int| 0 <= i < bytes.len() ==> 32 <= (#[trigger] bytes[i]) <= 126 || bytes[i] == 9 {
        assert(is_visible_ascii(bytes));
    }
    if is_visible_ascii(bytes) {
        assert forall|i: int| 0 <= i < bytes.len() implies 32 <= (#[trigger] bytes[i]) <= 126
            || bytes[i] == 9 by {
            assert(is_visible_byte(bytes[i]));
        }
    }
}

proof fn lemma_bearer(bytes: Seq<u8>)
    ensures
        text::occurs_at(ascii_text(bytes), "Bearer "@, 0) <==> {
            &&& bytes.len() >= 7
            &&& bytes[0] == 66 && bytes[1] == 101 && bytes[2] == 97 && bytes[3] == 114
            &&& bytes[4] == 101 && bytes[5] == 114 && bytes[6] == 32
        },
{
    reveal_strlit("Bearer ");
    let scheme = "Bearer "@;
    let chars = ascii_text(bytes);
    text::law_occurrence_is_spelled_out(chars, scheme, 0);
    assert(scheme.len() == 7);
    assert(scheme[0] == 'B' && scheme[1] == 'e' && scheme[2] == 'a' && scheme[3] == 'r'
        && scheme[4] == 'e' && scheme[5] == 'r' && scheme[6] == ' ');
    if bytes.len() >= 7 {
        assert(chars[0] as int == bytes[0] as int && chars[1] as int == bytes[1] as int && chars[2]
            as int == bytes[2] as int && chars[3] as int == bytes[3] as int);
        assert(chars[4] as int == bytes[4] as int && chars[5] as int == bytes[5] as int && chars[6]
            as int == bytes[6] as int);
        if text::occurs_at(chars, scheme, 0) {
            assert(chars[0] == scheme[0] && chars[1] == scheme[1] && chars[2] == scheme[2]
                && chars[3] == scheme[3] && chars[4] == scheme[4] && chars[5] == scheme[5]
                && chars[6] == scheme[6]);
        }
        if bytes[0] == 66 && bytes[1] == 101 && bytes[2] == 97 && bytes[3] == 114 && bytes[4]
            == 101 && bytes[5] == 114 && bytes[6] == 32 {
            assert forall|i: int| 0 <= i < scheme.len() implies chars[0 + i] == #[trigger] scheme[i] by {
                if i == 0 {
                } else if i == 1 {
                } else if i == 2 {
                } else if i == 3 {
                } else if i == 4 {
                } else if i == 5 {
                } else {
                    assert(i == 6);
                }
            }
        }
    }
}

/// Every other request is refused with status 401, and told why: the header is
/// missing, it is no text, or it is of another scheme.
pub proof fn law_refusal_says_why(bytes: Seq<u8>, at: int)
    ensures
        authorized(None) == Err::<Seq<char>, ErrorModel>(
            ErrorModel {
                status: 401,
                message: "missing Authorization header"@,
                kind: "invalid_request_error"@,
                code: Some("missing_authorization"@),
            },
        ),
        0 <= at < bytes.len() && (bytes[at] > 126 || (bytes[at] < 32 && bytes[at] != 9))
            ==> authorized(Some(bytes)) == Err::<Seq<char>, ErrorModel>(
            ErrorModel {
                status: 401,
                message: "invalid Authorization header"@,
                kind: "invalid_request_error"@,
                code: Some("invalid_authorization"@),
            },
        ),
        is_visible_ascii(bytes) && authorized(Some(bytes)) is Err ==> authorized(Some(bytes))
            == Err::<Seq<char>, ErrorModel>(
            ErrorModel {
                status: 401,
                message: "Authorization must use Bearer scheme"@,
                kind: "invalid_request_error"@,
                code: Some("invalid_authorization_scheme"@),
            },
        ),
{
    if 0 <= at < bytes.len() && (bytes[at] > 126 || (bytes[at] < 32 && bytes[at] != 9)) {
        assert(!is_visible_byte(bytes[at]));
    }
}

/// A failure with a status of the server's, or with 401 or 403, keeps its
/// status; any other becomes a bad gateway. The message stays as it is.
pub proof fn law_failures_keep_their_message(error: Chat3ErrorModel)
    ensures
        upstream_failure(error).message == error.report().1,
        upstream_failure(error).kind == "upstream_error"@,
        upstream_failure(error).code == Some("chat3_error"@),
        error.report().0 / 100 == 5 || error.report().0 == 401 || error.report().0 == 403
            ==> upstream_failure(error).status == error.report().0,
        error.report().0 / 100 != 5 && error.report().0 != 401 && error.report().0 != 403
            ==> upstream_failure(error).status == 502,
{
}

/// Where tools are offered and not declined, tool calls are planned as long as
/// fewer results of tools have come back than the limit allows, however many
/// that are; from the limit on, and for every other request, the answer is a
/// chat, in the form that the client asked for.
pub proof fn law_tools_are_planned_up_to_the_limit(request: RequestModel, max_tool_rounds: int)
    ensures
        planner::wants_plan(request) && planner::count_tool_results(request.messages)
            < max_tool_rounds ==> route_of(request, max_tool_rounds) == ChatRoute::Plan,
        planner::count_tool_results(request.messages) >= max_tool_rounds ==> route_of(
            request,
            max_tool_rounds,
        ) != ChatRoute::Plan,
        !planner::wants_plan(request) ==> route_of(request, max_tool_rounds) != ChatRoute::Plan,
        route_of(request, max_tool_rounds) == ChatRoute::Stream ==> request.stream,
        route_of(request, max_tool_rounds) == ChatRoute::Collect ==> !request.stream,
{
}

/// One more result of a tool leads to another plan exactly where the limit is
/// not reached by it.
pub proof fn law_next_result_is_planned_below_the_limit(
    request: RequestModel,
    result: MessageModel,
    max_tool_rounds: int,
)
    requires
        route_of(request, max_tool_rounds) == ChatRoute::Plan,
        result.role == "tool"@,
    ensures
        route_of(
            RequestModel { messages: request.messages.push(result), ..request },
            max_tool_rounds,
        ) == ChatRoute::Plan <==> planner::count_tool_results(request.messages) + 1
            < max_tool_rounds,
{
    assert(request.messages.push(result).drop_last() =~= request.messages);
}

/// A plan that is streamed has a name of its own: its name in one piece, with
/// `_stream` behind it. All else keeps its name.
pub proof fn law_streamed_plans_are_marked(base: Seq<char>, stream: bool)
    ensures
        stream && (base == "tool_planner"@ || base == "tool_planner_required"@ || base
            == "tool_planner_fallback"@) ==> mode_name(base, stream) == base + "_stream"@,
        !stream ==> mode_name(base, stream) == base,
        base != "tool_planner"@ && base != "tool_planner_required"@ && base
            != "tool_planner_fallback"@ ==> mode_name(base, stream) == base,
{
    reveal_strlit("_stream");
    reveal_strlit("tool_planner");
    reveal_strlit("tool_planner_stream");
    reveal_strlit("tool_planner_required");
    reveal_strlit("tool_planner_required_stream");
    reveal_strlit("tool_planner_fallback");
    reveal_strlit("tool_planner_fallback_stream");
    assert("tool_planner"@ + "_stream"@ =~= "tool_planner_stream"@);
    assert("tool_planner_required"@ + "_stream"@ =~= "tool_planner_required_stream"@);
    assert("tool_planner_fallback"@ + "_stream"@ =~= "tool_planner_fallback_stream"@);
    assert("tool_planner"@.len() == 12 && "tool_planner_required"@.len() == 21
        && "tool_planner_fallback"@.len() == 21);
    assert("tool_planner_required"@[13] == 'r' && "tool_planner_fallback"@[13] == 'f');
}

/// What the user asked is the text of the last of the user's messages that has
/// content; content that is no text is read as the JSON that its `Display`
/// gives.
pub proof fn law_last_user_message_counts(messages: Seq<MessageModel>)
    ensures
        match last_user_text(messages) {
            Some(asked) => exists|at: int|
                #![trigger messages[at]]
                0 <= at < messages.len() && messages[at].role == "user"@ && (
                messages[at].content matches Some(content) && asked == (match content {
                    JsonModel::Text(chars) => chars,
                    other => json::json_display(other),
                })) && forall|j: int|
                    at < j < messages.len() ==> (#[trigger] messages[j]).role != "user"@
                        || messages[j].content is None,
            None => forall|j: int|
                0 <= j < messages.len() ==> (#[trigger] messages[j]).role != "user"@
                    || messages[j].content is None,
        },
    decreases messages.len(),
{
    if messages.len() > 0 {
        let front = messages.drop_last();
        let last = messages.len() - 1;
        if messages[last].role == "user"@ && messages[last].content is Some {
            assert(messages[last] == messages.last());
        } else {
            law_last_user_message_counts(front);
            assert(forall|j: int| 0 <= j < front.len() ==> front[j] == #[trigger] messages[j]);
            if last_user_text(front) is Some {
                let asked = last_user_text(front)->0;
                let at = choose|at: int|
                    #![trigger front[at]]
                    0 <= at < front.len() && front[at].role == "user"@ && (
                    front[at].content matches Some(content) && asked == (match content {
                        JsonModel::Text(chars) => chars,
                        other => json::json_display(other),
                    })) && forall|j: int|
                        at < j < front.len() ==> (#[trigger] front[j]).role != "user"@
                            || front[j].content is None;
                assert(messages[at] == front[at]);
            }
        }
    }
}

/// Resource usage is asked for exactly where what the user asked, in lower
/// case, holds one of these words.
pub proof fn law_usage_is_asked_by_these_words(messages: Seq<MessageModel>, asked: Seq<char>)
    requires
        last_user_text(messages) == Some(asked),
    ensures
        asks_for_usage(messages) <==> {
            let said = text::lowercase(asked);
            ||| text::contains_text(said, "cpu"@)
            ||| text::contains_text(said, "memory"@)
            ||| text::contains_text(said, "top"@)
            ||| text::contains_text(said, "内存"@)
            ||| text::contains_text(said, "资源"@)
            ||| text::contains_text(said, "占用"@)
            ||| text::contains_text(said, "负载"@)
            ||| text::contains_text(said, "用量"@)
            ||| text::contains_text(said, "使用率"@)
        },
{
    let words = usage_words();
    assert(words[0] == "cpu"@ && words[1] == "memory"@ && words[2] == "top"@);
    assert(words[3] == "内存"@ && words[4] == "资源"@ && words[5] == "占用"@);
    assert(words[6] == "负载"@ && words[7] == "用量"@ && words[8] == "使用率"@);
}

/// A call for the metrics of pods, among others or alone, is idle exactly where
/// nobody asked for resource usage; where nobody asked anything, too. Nothing
/// but such a call is.
pub proof fn law_metrics_are_idle_unless_asked_for(
    messages: Seq<MessageModel>,
    decision: DecisionModel,
)
    ensures
        is_idle_metrics_call(messages, decision) <==> {
            &&& !asks_for_usage(messages)
            &&& decision is ToolCalls
            &&& exists|i: int|
                0 <= i < decision->ToolCalls_0.len() && (#[trigger] decision->ToolCalls_0[i]).name
                    == "pods_top"@
        },
        last_user_text(messages) is None ==> !asks_for_usage(messages),
{
}

/// The client is told the mode and the time as they are, under these names.
pub proof fn law_mode_and_time_are_told(mode: Seq<char>, elapsed_ms: int)
    ensures
        told_headers(mode, elapsed_ms).len() == 2,
        told_headers(mode, elapsed_ms)[0].0 == "x-scut-proxy-mode"@,
        told_headers(mode, elapsed_ms)[0].1 == mode,
        told_headers(mode, elapsed_ms)[1].0 == "x-scut-proxy-upstream-ms"@,
        told_headers(mode, elapsed_ms)[1].1 == text::decimal(elapsed_ms),
{
}

} // verus!
