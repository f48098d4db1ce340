//! The course of a plan: asking for it, asking again where it was refused, and
//! what the client is answered in the end.

use crate::gateway;
use crate::json::JsonModel;
use crate::openai::{
    ChatCompletionRequest, ErrorModel, ErrorReply, RequestModel, Tool, ToolChoiceModel, ToolModel,
};
use crate::planner::{
    DecisionModel, PlannerCallModel, PlannerDecision, PlannerError, PlannerErrorModel,
};
use crate::{openai, planner, reasoning, views};
use vstd::prelude::*;

verus! {

// ---------------------------------------------------------------------------
// The model
// ---------------------------------------------------------------------------

/// A plan that is being asked for.
pub struct PlanModel {
    /// The request that is to be answered.
    pub request: RequestModel,
    /// How often the plan may still be asked for again.
    pub retries_left: nat,
    /// Why the last plan was refused.
    pub last_error: Option<Seq<char>>,
    /// What is decided where the planner would call no tool.
    pub required: Option<DecisionModel>,
    /// What is decided where no plan was accepted.
    pub fallback: Option<DecisionModel>,
}

/// How planning ends.
pub enum PlanEndModel {
    /// With a decision that is answered, and the name of how it came about.
    Reply { decision: DecisionModel, mode: Seq<char> },
    /// With the request being answered by a chat after all.
    FinalChat,
    /// With an error.
    Fail(ErrorModel),
}

/// What follows an answer of the planner's.
pub enum ProgressModel {
    /// The plan is asked for again.
    Ask(PlanModel),
    /// Planning ends. The request is handed back.
    End(RequestModel, PlanEndModel),
}

/// The request holds results of tools.
pub open spec fn has_tool_results(request: RequestModel) -> bool {
    planner::count_tool_results(request.messages) > 0
}

/// The answer with a decision, under the name of how it came about.
pub open spec fn replied(request: RequestModel, decision: DecisionModel, base: Seq<char>) -> PlanEndModel {
    PlanEndModel::Reply { decision, mode: gateway::mode_name(base, request.stream) }
}

/// How planning ends with a plan that was accepted. After results of tools, a
/// plan without calls, or for metrics that nobody asked for, leads to a chat.
pub open spec fn settled(plan: PlanModel, decision: DecisionModel) -> PlanEndModel {
    if has_tool_results(plan.request) && (gateway::is_idle_metrics_call(
        plan.request.messages,
        decision,
    ) || decision is Final) {
        PlanEndModel::FinalChat
    } else {
        match (decision, plan.required) {
            (DecisionModel::Final(_), Some(required)) => replied(
                plan.request,
                required,
                "tool_planner_required"@,
            ),
            _ => replied(plan.request, decision, "tool_planner"@),
        }
    }
}

/// The error answer to a request for which no plan was accepted.
pub open spec fn no_plan(message: Seq<char>) -> ErrorModel {
    ErrorModel {
        status: 502,
        message: "tool planner failed: "@ + message,
        kind: "upstream_error"@,
        code: Some("tool_planner_failed"@),
    }
}

/// How planning ends where no plan was accepted; `message` says why the last
/// one was refused.
pub open spec fn given_up(plan: PlanModel, message: Seq<char>) -> PlanEndModel {
    match plan.fallback {
        Some(fallback) => replied(plan.request, fallback, "tool_planner_fallback"@),
        None => if has_tool_results(plan.request) {
            PlanEndModel::FinalChat
        } else {
            PlanEndModel::Fail(no_plan(message))
        },
    }
}

/// What follows a plan that was accepted or refused.
pub open spec fn progress(
    plan: PlanModel,
    result: Result<DecisionModel, PlannerErrorModel>,
) -> ProgressModel {
    match result {
        Ok(decision) => ProgressModel::End(plan.request, settled(plan, decision)),
        Err(error) => if plan.retries_left > 0 {
            ProgressModel::Ask(
                PlanModel {
                    retries_left: (plan.retries_left - 1) as nat,
                    last_error: Some(error.message()),
                    ..plan
                },
            )
        } else {
            ProgressModel::End(plan.request, given_up(plan, error.message()))
        },
    }
}

/// The error answer to a request for a plan that offers no tools.
pub open spec fn missing_tools() -> ErrorModel {
    ErrorModel {
        status: 400,
        message: "tools are required for tool planning"@,
        kind: "invalid_request_error"@,
        code: Some("missing_tools"@),
    }
}

/// The plan that is asked for first, or the answer to a request without tools.
pub open spec fn first_plan(
    request: RequestModel,
    repair_attempts: nat,
    required: Option<DecisionModel>,
    fallback: Option<DecisionModel>,
) -> Result<PlanModel, ErrorModel> {
    if request.tools is None {
        Err(missing_tools())
    } else {
        Ok(
            PlanModel {
                request,
                retries_left: repair_attempts,
                last_error: None,
                required,
                fallback,
            },
        )
    }
}

/// What follows where the planner's answers are judged in turn.
pub open spec fn course(
    plan: PlanModel,
    results: Seq<Result<DecisionModel, PlannerErrorModel>>,
) -> ProgressModel
    decreases results.len(),
{
    if results.len() == 0 {
        ProgressModel::Ask(plan)
    } else {
        match progress(plan, results[0]) {
            ProgressModel::Ask(next) => course(next, results.skip(1)),
            end => end,
        }
    }
}

// ---------------------------------------------------------------------------
// Laws
// ---------------------------------------------------------------------------

/// A plan is asked for at most once more than it may be asked for again.
pub proof fn law_planning_ends(
    plan: PlanModel,
    results: Seq<Result<DecisionModel, PlannerErrorModel>>,
)
    requires
        results.len() > plan.retries_left,
    ensures
        course(plan, results) is End,
    decreases results.len(),
{
    match progress(plan, results[0]) {
        ProgressModel::Ask(next) => {
            law_planning_ends(next, results.skip(1));
        },
        _ => {},
    }
}

/// A plan is asked for again only where it was refused, and the reason is told
/// to the planner; the request stays as it is.
pub proof fn law_asked_again_with_the_reason(
    plan: PlanModel,
    result: Result<DecisionModel, PlannerErrorModel>,
)
    ensures
        progress(plan, result) matches ProgressModel::Ask(next) ==> {
            &&& result is Err
            &&& next.last_error == Some((result->Err_0).message())
            &&& next.request == plan.request
        },
        progress(plan, result) matches ProgressModel::End(request, _) ==> request == plan.request,
{
}

/// What the client is answered as a decision is one that was found valid, or
/// one of the two that were given beforehand.
pub proof fn law_answers_are_valid(
    plan: PlanModel,
    parsed: Result<DecisionModel, Seq<char>>,
    tools: Seq<ToolModel>,
    choice: Option<ToolChoiceModel>,
)
    ensures
        progress(plan, planner::outcome(parsed, tools, choice)) matches ProgressModel::End(
            _,
            PlanEndModel::Reply { decision, .. },
        ) ==> {
            ||| Some(decision) == plan.required
            ||| Some(decision) == plan.fallback
            ||| parsed == Ok::<DecisionModel, Seq<char>>(decision) && planner::decision_error(
                decision,
                tools,
                choice,
            ) is None
        },
{
}

/// Where no decision was given beforehand, every tool call that the client is
/// answered is of a tool that it offered, with arguments that the tool's schema
/// accepts; and it obeys the client's tool choice.
pub proof fn law_answered_calls_are_offered(
    plan: PlanModel,
    parsed: Result<DecisionModel, Seq<char>>,
    tools: Seq<ToolModel>,
    choice: Option<ToolChoiceModel>,
    calls: Seq<PlannerCallModel>,
    mode: Seq<char>,
)
    requires
        plan.required is None,
        plan.fallback is None,
        progress(plan, planner::outcome(parsed, tools, choice)) == ProgressModel::End(
            plan.request,
            PlanEndModel::Reply { decision: DecisionModel::ToolCalls(calls), mode },
        ),
    ensures
        forall|i: int|
            0 <= i < calls.len() ==> is_offered(
                #[trigger] planner::answered_calls(calls)[i].name,
                calls[i].arguments,
                tools,
            ),
        choice matches Some(ToolChoiceModel::Object { name, .. }) ==> planner::calls_tool(
            calls,
            name,
        ),
{
    planner::law_accepted_calls_are_valid(calls, tools, choice);
    planner::law_tool_choice_is_obeyed(DecisionModel::ToolCalls(calls), tools, choice);
    assert forall|i: int| 0 <= i < calls.len() implies is_offered(
        #[trigger] planner::answered_calls(calls)[i].name,
        calls[i].arguments,
        tools,
    ) by {
        planner::law_tool_named_is_offered(tools, calls[i].name);
        let tool = planner::tool_named(tools, calls[i].name)->0;
        let at = tools.index_of(tool);
        assert(tools[at] == tool);
    }
}

/// One of the tools has this name and accepts these arguments.
pub open spec fn is_offered(name: Seq<char>, arguments: JsonModel, tools: Seq<ToolModel>) -> bool {
    exists|i: int|
        0 <= i < tools.len() && (#[trigger] tools[i]).function.name == name
            && planner::arguments_error(tools[i], arguments) is None
}

/// Once tools have given results, planning never ends with an error, nor with
/// a text of the planner's own.
pub proof fn law_tool_results_are_answered(
    plan: PlanModel,
    result: Result<DecisionModel, PlannerErrorModel>,
)
    requires
        has_tool_results(plan.request),
    ensures
        match progress(plan, result) {
            ProgressModel::End(_, PlanEndModel::Fail(_)) => false,
            ProgressModel::End(_, PlanEndModel::Reply { decision, .. }) => decision is ToolCalls
                || Some(decision) == plan.fallback,
            _ => true,
        },
{
}

// ---------------------------------------------------------------------------
// The session
// ---------------------------------------------------------------------------

/// A plan that is being asked for.
pub struct PlanSession {
    request: ChatCompletionRequest,
    retries_left: usize,
    last_error: Option<String>,
    required: Option<PlannerDecision>,
    fallback: Option<PlannerDecision>,
}

/// How planning ends.
pub enum PlanEnd {
    Reply { decision: PlannerDecision, mode: &'static str },
    FinalChat,
    Fail(ErrorReply),
}

/// What follows an answer of the planner's.
pub enum PlanProgress {
    Ask(PlanSession),
    End(ChatCompletionRequest, PlanEnd),
}

impl DeepView for PlanSession {
    type V = PlanModel;

    closed spec fn deep_view(&self) -> PlanModel {
        PlanModel {
            request: self.request.deep_view(),
            retries_left: self.retries_left as nat,
            last_error: self.last_error.deep_view(),
            required: self.required.deep_view(),
            fallback: self.fallback.deep_view(),
        }
    }
}

impl DeepView for PlanEnd {
    type V = PlanEndModel;

    open spec fn deep_view(&self) -> PlanEndModel {
        match self {
            PlanEnd::Reply { decision, mode } => PlanEndModel::Reply {
                decision: decision.deep_view(),
                mode: mode@,
            },
            PlanEnd::FinalChat => PlanEndModel::FinalChat,
            PlanEnd::Fail(error) => PlanEndModel::Fail(error.deep_view()),
        }
    }
}

impl DeepView for PlanProgress {
    type V = ProgressModel;

    open spec fn deep_view(&self) -> ProgressModel {
        match self {
            PlanProgress::Ask(session) => ProgressModel::Ask(session.deep_view()),
            PlanProgress::End(request, end) => ProgressModel::End(
                request.deep_view(),
                end.deep_view(),
            ),
        }
    }
}

impl PlanSession {
    /// Begins to plan the answer to a request. `repair_attempts` says how often
    /// a plan that was refused is asked for again. `required` and `fallback`
    /// are what is decided where the planner would call no tool, and where no
    /// plan is accepted.
    pub fn start(
        request: ChatCompletionRequest,
        repair_attempts: usize,
        required: Option<PlannerDecision>,
        fallback: Option<PlannerDecision>,
    ) -> (session: Result<PlanSession, ErrorReply>)
        ensures
            views::result_view(session) == first_plan(
                request.deep_view(),
                repair_attempts as nat,
                required.deep_view(),
                fallback.deep_view(),
            ),
    {
        if request.tools.is_none() {
            return Err(
                openai::error_response(
                    400,
                    "invalid_request_error".to_owned(),
                    "tools are required for tool planning".to_owned(),
                    Some("missing_tools".to_owned()),
                ),
            );
        }
        Ok(
            PlanSession {
                request,
                retries_left: repair_attempts,
                last_error: None,
                required,
                fallback,
            },
        )
    }

    /// The request by which the plan is asked for.
    pub fn next_request(&self) -> (request: ChatCompletionRequest)
        ensures
            request.deep_view() == planner::plan_request(
                self.deep_view().request,
                self.deep_view().last_error,
            ),
    {
        let repair: Option<&str> = match &self.last_error {
            Some(error) => Some(error.as_str()),
            None => None,
        };
        planner::planner_request(&self.request, repair)
    }

    /// What follows a plan that was accepted or refused.
    pub fn after(self, result: Result<PlannerDecision, PlannerError>) -> (next: PlanProgress)
        ensures
            next.deep_view() == progress(self.deep_view(), views::result_view(result)),
    {
        match result {
            Ok(decision) => self.settle(decision),
            Err(error) => {
                let message = error.message();
                if self.retries_left == 0 {
                    return self.give_up(message);
                }
                PlanProgress::Ask(
                    PlanSession {
                        request: self.request,
                        retries_left: self.retries_left - 1,
                        last_error: Some(message),
                        required: self.required,
                        fallback: self.fallback,
                    },
                )
            },
        }
    }

    /// Ends with a plan that was accepted.
    fn settle(self, decision: PlannerDecision) -> (next: PlanProgress)
        ensures
            next.deep_view() == ProgressModel::End(
                self.deep_view().request,
                settled(self.deep_view(), decision.deep_view()),
            ),
    {
        let stream = self.request.stream;
        let is_final = matches!(decision, PlannerDecision::Final { .. });
        if planner::tool_result_count(&self.request) > 0 {
            if gateway::is_unrequested_pod_metrics_call(&self.request, &decision) || is_final {
                return PlanProgress::End(self.request, PlanEnd::FinalChat);
            }
        }
        if is_final {
            if let Some(required) = self.required {
                let mode = gateway::planner_mode("tool_planner_required", stream);
                return PlanProgress::End(
                    self.request,
                    PlanEnd::Reply { decision: required, mode },
                );
            }
        }
        let mode = gateway::planner_mode("tool_planner", stream);
        PlanProgress::End(self.request, PlanEnd::Reply { decision, mode })
    }

    /// Ends without a plan.
    fn give_up(self, message: String) -> (next: PlanProgress)
        ensures
            next.deep_view() == ProgressModel::End(
                self.deep_view().request,
                given_up(self.deep_view(), message@),
            ),
    {
        let stream = self.request.stream;
        if let Some(decision) = self.fallback {
            let mode = gateway::planner_mode("tool_planner_fallback", stream);
            return PlanProgress::End(self.request, PlanEnd::Reply { decision, mode });
        }
        if planner::tool_result_count(&self.request) > 0 {
            return PlanProgress::End(self.request, PlanEnd::FinalChat);
        }
        let error = openai::error_response(
            502,
            "upstream_error".to_owned(),
            "tool planner failed: ".to_owned().concat(message.as_str()),
            Some("tool_planner_failed".to_owned()),
        );
        PlanProgress::End(self.request, PlanEnd::Fail(error))
    }

    /// What follows an answer of the planner's, with its reasoning still in
    /// it. `parse` reads the JSON of a decision.
    pub fn on_reply<F: Fn(String) -> Result<PlannerDecision, String>>(
        self,
        raw_content: &str,
        parse: F,
    ) -> (next: PlanProgress)
        requires
            planner::braces_in_order(reasoning::cleaned(raw_content@)),
            forall|span: String|
                span@ == planner::json_span(reasoning::cleaned(raw_content@)) ==> call_requires(
                    parse,
                    (span,),
                ),
        ensures
            exists|span: String, parsed: Result<PlannerDecision, String>|
                {
                    &&& span@ == planner::json_span(reasoning::cleaned(raw_content@))
                    &&& #[trigger] call_ensures(parse, (span,), parsed)
                    &&& next.deep_view() == progress(
                        self.deep_view(),
                        planner::outcome(
                            views::result_view(parsed),
                            planner::offered_tools(self.deep_view().request),
                            self.deep_view().request.tool_choice,
                        ),
                    )
                },
    {
        let raw = reasoning::clean_reasoning(raw_content);
        let no_tools: Vec<Tool> = Vec::new();
        let tools: &Vec<Tool> = match &self.request.tools {
            Some(tools) => tools,
            None => &no_tools,
        };
        assert(views::slice_view(tools@) =~= planner::offered_tools(self.deep_view().request));
        let result = planner::parse_and_validate(
            raw.as_str(),
            tools.as_slice(),
            &self.request.tool_choice,
            parse,
        );
        self.after(result)
    }
}

// ---------------------------------------------------------------------------
// Laws of the course
// ---------------------------------------------------------------------------

/// Tool calls that were accepted are answered as they are, unless they come
/// after results of tools and ask for metrics that nobody asked for.
pub proof fn law_accepted_calls_are_answered(plan: PlanModel, calls: Seq<PlannerCallModel>)
    ensures
        ({
            let decision = DecisionModel::ToolCalls(calls);
            let idle = gateway::is_idle_metrics_call(plan.request.messages, decision)
                && planner::count_tool_results(plan.request.messages) > 0;
            &&& !idle ==> progress(plan, Ok(decision)) == ProgressModel::End(
                plan.request,
                PlanEndModel::Reply {
                    decision,
                    mode: if plan.request.stream {
                        "tool_planner_stream"@
                    } else {
                        "tool_planner"@
                    },
                },
            )
            &&& idle ==> progress(plan, Ok(decision)) == ProgressModel::End(
                plan.request,
                PlanEndModel::FinalChat,
            )
        }),
{
}

/// A text that was accepted is answered as it is, unless a decision with a call
/// is required in its place; after results of tools the answer is a chat.
pub proof fn law_accepted_text_is_answered(plan: PlanModel, content: Seq<char>)
    ensures
        ({
            let decision = DecisionModel::Final(content);
            let answered = planner::count_tool_results(plan.request.messages) > 0;
            &&& answered ==> progress(plan, Ok(decision)) == ProgressModel::End(
                plan.request,
                PlanEndModel::FinalChat,
            )
            &&& !answered && plan.required is None ==> progress(plan, Ok(decision))
                == ProgressModel::End(
                plan.request,
                PlanEndModel::Reply {
                    decision,
                    mode: if plan.request.stream {
                        "tool_planner_stream"@
                    } else {
                        "tool_planner"@
                    },
                },
            )
            &&& !answered && plan.required is Some ==> progress(plan, Ok(decision))
                == ProgressModel::End(
                plan.request,
                PlanEndModel::Reply {
                    decision: plan.required->0,
                    mode: if plan.request.stream {
                        "tool_planner_required_stream"@
                    } else {
                        "tool_planner_required"@
                    },
                },
            )
        }),
{
    gateway::law_streamed_plans_are_marked("tool_planner_required"@, plan.request.stream);
    reveal_strlit("tool_planner");
    reveal_strlit("tool_planner_required");
    assert("tool_planner"@.len() == 12 && "tool_planner_required"@.len() == 21);
}

/// A plan that was refused is asked for again as long as it may be, once fewer
/// each time, with the reason, and with all else as it was.
pub proof fn law_refused_plan_is_asked_for_again(plan: PlanModel, error: PlannerErrorModel)
    requires
        plan.retries_left > 0,
    ensures
        ({
            let next = progress(plan, Err(error));
            &&& next is Ask
            &&& next->Ask_0.retries_left == plan.retries_left - 1
            &&& next->Ask_0.last_error == Some(error.message())
            &&& next->Ask_0.request == plan.request
            &&& next->Ask_0.required == plan.required
            &&& next->Ask_0.fallback == plan.fallback
        }),
{
}

/// A plan that was refused for the last time is replaced by what was kept in
/// reserve; without that, by a chat where tools have given results; and else
/// answered with an error that holds the reason.
pub proof fn law_last_refusal_is_answered(plan: PlanModel, error: PlannerErrorModel)
    requires
        plan.retries_left == 0,
    ensures
        progress(plan, Err(error)) is End,
        progress(plan, Err(error))->End_0 == plan.request,
        ({
            let end = progress(plan, Err(error))->End_1;
            let answered = planner::count_tool_results(plan.request.messages) > 0;
            &&& plan.fallback is Some ==> end is Reply && end->decision == plan.fallback->0
                && end->mode == (if plan.request.stream {
                "tool_planner_fallback_stream"@
            } else {
                "tool_planner_fallback"@
            })
            &&& plan.fallback is None && answered ==> end is FinalChat
            &&& plan.fallback is None && !answered ==> end is Fail && end->Fail_0.status == 502
                && end->Fail_0.message == "tool planner failed: "@ + error.message()
                && end->Fail_0.kind == "upstream_error"@ && end->Fail_0.code == Some(
                "tool_planner_failed"@,
            )
        }),
{
    reveal_strlit("tool_planner");
    reveal_strlit("tool_planner_required");
    reveal_strlit("tool_planner_fallback");
    assert("tool_planner"@.len() == 12 && "tool_planner_required"@.len() == 21
        && "tool_planner_fallback"@.len() == 21);
    assert("tool_planner_required"@[13] == 'r' && "tool_planner_fallback"@[13] == 'f');
}

/// A request for a plan without tools is refused as a bad request.
pub proof fn law_missing_tools_are_a_bad_request()
    ensures
        missing_tools().status == 400,
        missing_tools().message == "tools are required for tool planning"@,
        missing_tools().kind == "invalid_request_error"@,
        missing_tools().code == Some("missing_tools"@),
{
}

/// The planner is asked once more than it is repaired, where every plan is
/// refused; it is not given up before.
pub proof fn law_planning_goes_on_while_it_may(
    plan: PlanModel,
    errors: Seq<PlannerErrorModel>,
)
    requires
        errors.len() <= plan.retries_left,
    ensures
        ({
            let results = Seq::new(
                errors.len(),
                |i: int| Err::<DecisionModel, PlannerErrorModel>(errors[i]),
            );
            &&& course(plan, results) is Ask
            &&& course(plan, results)->Ask_0.retries_left == plan.retries_left - errors.len()
            &&& errors.len() > 0 ==> course(plan, results)->Ask_0.last_error == Some(
                errors.last().message(),
            )
        }),
    decreases errors.len(),
{
    let results = Seq::new(
        errors.len(),
        |i: int| Err::<DecisionModel, PlannerErrorModel>(errors[i]),
    );
    if errors.len() > 0 {
        let rest = errors.skip(1);
        let next = progress(plan, results[0])->Ask_0;
        law_planning_goes_on_while_it_may(next, rest);
        assert(results.skip(1) =~= Seq::new(
            rest.len(),
            |i: int| Err::<DecisionModel, PlannerErrorModel>(rest[i]),
        ));
        if rest.len() == 0 {
            assert(errors.last() == errors[0]);
            assert(course(next, results.skip(1)) == ProgressModel::Ask(next));
        } else {
            assert(rest.last() == errors.last());
        }
    }
}

/// Planning begins with the request as it is, with as many repairs as are
/// allowed and nothing to repair yet; it begins wherever tools are given.
pub proof fn law_planning_begins_with_the_request(
    request: RequestModel,
    repair_attempts: nat,
    required: Option<DecisionModel>,
    fallback: Option<DecisionModel>,
)
    ensures
        request.tools is Some <==> first_plan(request, repair_attempts, required, fallback) is Ok,
        first_plan(request, repair_attempts, required, fallback) matches Ok(plan) ==> {
            &&& plan.request == request
            &&& plan.retries_left == repair_attempts
            &&& plan.last_error is None
            &&& plan.required == required
            &&& plan.fallback == fallback
        },
        first_plan(request, repair_attempts, required, fallback) matches Err(error) ==> error
            == missing_tools(),
{
}

/// The end of planning is seen in full: two ends that look alike are alike.
pub proof fn law_ends_are_seen_in_full(a: PlanEnd, b: PlanEnd, c: PlanProgress, d: PlanProgress)
    ensures
        a.deep_view() == b.deep_view() ==> match (a, b) {
            (
                PlanEnd::Reply { decision: x, mode: m },
                PlanEnd::Reply { decision: y, mode: n },
            ) => x.deep_view() == y.deep_view() && m@ == n@,
            (PlanEnd::FinalChat, PlanEnd::FinalChat) => true,
            (PlanEnd::Fail(x), PlanEnd::Fail(y)) => x.deep_view() == y.deep_view(),
            _ => false,
        },
        c.deep_view() == d.deep_view() ==> match (c, d) {
            (PlanProgress::Ask(x), PlanProgress::Ask(y)) => x.deep_view() == y.deep_view(),
            (PlanProgress::End(r, x), PlanProgress::End(q, y)) => r.deep_view() == q.deep_view()
                && x.deep_view() == y.deep_view(),
            _ => false,
        },
{
}

} // verus!
