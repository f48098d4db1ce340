//! What holds of planning as a whole: which plans are asked for, which are
//! accepted, and what the client is told.

use crate::json::JsonModel;
use crate::openai::{MessageModel, RequestModel, ToolChoiceModel, ToolModel};
use crate::planner;
use crate::planner::{
    DecisionModel, PlannerCall, PlannerCallModel, PlannerDecision, PlannerError,
    PlannerErrorModel,
};
use crate::{json, text};
use vstd::prelude::*;

verus! {

// ---------------------------------------------------------------------------
// When to plan
// ---------------------------------------------------------------------------

/// A plan is made exactly where at least one tool is offered and the tool
/// choice is not the word `none`.
pub proof fn law_tools_are_planned_unless_declined(request: RequestModel)
    ensures
        planner::wants_plan(request) <==> {
            &&& request.tools is Some
            &&& request.tools->0.len() >= 1
            &&& !(request.tool_choice is Some && request.tool_choice->0 is String
                && request.tool_choice->0->String_0 == "none"@)
        },
{
}

/// The results of tools in two parts of a conversation are counted together;
/// a message counts as one where its role is `tool`, and not otherwise.
pub proof fn law_tool_results_add_up(
    first: Seq<MessageModel>,
    second: Seq<MessageModel>,
    message: MessageModel,
)
    ensures
        planner::count_tool_results(first + second) == planner::count_tool_results(first)
            + planner::count_tool_results(second),
        planner::count_tool_results(Seq::empty()) == 0,
        message.role == "tool"@ ==> planner::count_tool_results(seq![message]) == 1,
        message.role != "tool"@ ==> planner::count_tool_results(seq![message]) == 0,
    decreases second.len(),
{
    assert(seq![message].drop_last() =~= Seq::<MessageModel>::empty());
    assert(planner::count_tool_results(seq![message].drop_last()) == 0);
    if second.len() == 0 {
        assert(first + second =~= first);
    } else {
        law_tool_results_add_up(first, second.drop_last(), message);
        assert((first + second).drop_last() =~= first + second.drop_last());
    }
}

/// There are as many results of tools as there are messages with that role:
/// none where no message has it, and all of them where all have it.
pub proof fn law_tool_results_are_the_tool_messages(messages: Seq<MessageModel>)
    ensures
        planner::count_tool_results(messages) <= messages.len(),
        planner::count_tool_results(messages) == 0 <==> forall|i: int|
            0 <= i < messages.len() ==> (#[trigger] messages[i]).role != "tool"@,
        (forall|i: int| 0 <= i < messages.len() ==> (#[trigger] messages[i]).role == "tool"@)
            ==> planner::count_tool_results(messages) == messages.len(),
    decreases messages.len(),
{
    if messages.len() > 0 {
        let front = messages.drop_last();
        law_tool_results_are_the_tool_messages(front);
        assert(forall|i: int| 0 <= i < front.len() ==> front[i] == #[trigger] messages[i]);
        if planner::count_tool_results(messages) == 0 {
            assert forall|i: int| 0 <= i < messages.len() implies (#[trigger] messages[i]).role
                != "tool"@ by {
                if i < front.len() {
                    assert(front[i].role != "tool"@);
                }
            }
        }
    }
}

// ---------------------------------------------------------------------------
// Asking for a plan
// ---------------------------------------------------------------------------

/// The plan is asked for with the whole conversation: the prompt comes first,
/// and behind it stands every message, in its place and unchanged.
pub proof fn law_plan_is_asked_with_the_whole_conversation(
    original: RequestModel,
    repair: Option<Seq<char>>,
)
    ensures
        planner::plan_request(original, repair).messages.len() == 1 + original.messages.len(),
        forall|i: int|
            0 <= i < original.messages.len() ==> planner::plan_request(
                original,
                repair,
            ).messages[i + 1] == #[trigger] original.messages[i],
{
}

/// The prompt is a message of the system's with a text and nothing else, made
/// of the tools that the request offers, of its tool choice, and of what was
/// wrong before. The same model is asked; it is to answer in one piece, at
/// temperature 0 and `top_p` 1, in no more than 512 tokens, and is offered no
/// tools.
pub proof fn law_plan_is_asked_for_plainly(
    original: RequestModel,
    tools: Seq<ToolModel>,
    repair: Option<Seq<char>>,
)
    requires
        original.tools == Some(tools) || (original.tools is None && tools.len() == 0),
    ensures
        ({
            let request = planner::plan_request(original, repair);
            let first = request.messages[0];
            &&& first.role == "system"@
            &&& first.content == Some(
                JsonModel::Text(planner::prompt(tools, original.tool_choice, repair)),
            )
            &&& first.name is None
            &&& first.tool_call_id is None
            &&& first.tool_calls is None
            &&& request.model == original.model
            &&& !request.stream
            &&& request.temperature == Some(0u64)
            &&& request.top_p == Some(0x3FF0_0000_0000_0000u64)
            &&& request.max_tokens == Some(512u64)
            &&& request.tools is None
            &&& request.tool_choice is None
        }),
{
    assert(planner::offered_tools(original) =~= tools);
}

/// What was wrong with the last plan is told in full at the end of the prompt,
/// and changes nothing before it.
pub proof fn law_fault_is_told_behind_the_prompt(
    tools: Seq<ToolModel>,
    choice: Option<ToolChoiceModel>,
    error: Seq<char>,
)
    ensures
        planner::prompt(tools, choice, Some(error)) == planner::prompt(tools, choice, None)
            + "\nYour previous output was invalid: "@ + error + "\nReturn only corrected JSON."@,
{
    let whole = planner::prompt(tools, choice, None);
    assert(planner::prompt(tools, choice, Some(error)) =~= whole
        + "\nYour previous output was invalid: "@ + error + "\nReturn only corrected JSON."@);
}

/// The prompt tells the tool choice: the word that it is, as JSON; the tool
/// that it names; or that there is none.
pub proof fn law_tool_choice_is_told(
    tools: Seq<ToolModel>,
    kind: Seq<char>,
    name: Seq<char>,
    kind_json: Seq<char>,
    name_json: Seq<char>,
)
    requires
        json::json_compact(JsonModel::Text(kind)) == Some(kind_json),
        json::json_compact(JsonModel::Text(name)) == Some(name_json),
    ensures
        planner::prompt(tools, None, None) == planner::PROMPT_HEAD@ + planner::tool_specs(tools)
            + "\n\ntool_choice:\n"@ + "null"@ + planner::PROMPT_RULES@,
        planner::prompt(tools, Some(ToolChoiceModel::String(name)), None) == planner::PROMPT_HEAD@
            + planner::tool_specs(tools) + "\n\ntool_choice:\n"@ + name_json
            + planner::PROMPT_RULES@,
        planner::prompt(tools, Some((ToolChoiceModel::Object { kind, name })), None)
            == planner::PROMPT_HEAD@ + planner::tool_specs(tools) + "\n\ntool_choice:\n"@ + (
        "{\"type\":"@ + kind_json + ",\"function\":{\"name\":"@ + name_json + "}}"@)
            + planner::PROMPT_RULES@,
{
    let none = planner::prompt(tools, None, None);
    assert(none =~= planner::PROMPT_HEAD@ + planner::tool_specs(tools) + "\n\ntool_choice:\n"@
        + "null"@ + planner::PROMPT_RULES@);
    let word = planner::prompt(tools, Some(ToolChoiceModel::String(name)), None);
    assert(word =~= planner::PROMPT_HEAD@ + planner::tool_specs(tools) + "\n\ntool_choice:\n"@
        + name_json + planner::PROMPT_RULES@);
    let named = planner::prompt(tools, Some(ToolChoiceModel::Object { kind, name }), None);
    assert(named =~= planner::PROMPT_HEAD@ + planner::tool_specs(tools) + "\n\ntool_choice:\n"@ + (
    "{\"type\":"@ + kind_json + ",\"function\":{\"name\":"@ + name_json + "}}"@)
        + planner::PROMPT_RULES@);
}

/// Every tool that is offered is told, in its place; without tools, that there
/// are none.
pub proof fn law_every_tool_is_told(tools: Seq<ToolModel>, specs: Seq<Seq<char>>)
    requires
        specs.len() == tools.len(),
        forall|i: int|
            0 <= i < tools.len() ==> planner::tool_spec(#[trigger] tools[i]) == Some(specs[i]),
    ensures
        tools.len() > 0 ==> planner::tool_specs(tools) == "[\n"@ + text::join(specs, ",\n"@)
            + "\n]"@,
        tools.len() == 0 ==> planner::tool_specs(tools) == "[]"@,
{
    lemma_each_spec(tools, specs);
}

proof fn lemma_each_spec(tools: Seq<ToolModel>, specs: Seq<Seq<char>>)
    requires
        specs.len() == tools.len(),
        forall|i: int|
            0 <= i < tools.len() ==> planner::tool_spec(#[trigger] tools[i]) == Some(specs[i]),
    ensures
        planner::each_tool_spec(tools) == Some(specs),
    decreases tools.len(),
{
    if tools.len() == 0 {
        assert(specs =~= Seq::<Seq<char>>::empty());
    } else {
        let front = tools.drop_last();
        assert forall|i: int| 0 <= i < front.len() implies planner::tool_spec(#[trigger] front[i])
            == Some(specs.drop_last()[i]) by {
            assert(front[i] == tools[i]);
        }
        lemma_each_spec(front, specs.drop_last());
        assert(planner::tool_spec(tools[tools.len() - 1]) == Some(specs[tools.len() - 1]));
        assert(specs.drop_last().push(specs.last()) =~= specs);
    }
}

/// Of a tool its kind, its name, what it is for, and the schema of its
/// arguments are told, each as JSON, and the schema indented to its place.
pub proof fn law_tool_is_told_in_full(
    tool: ToolModel,
    kind: Seq<char>,
    name: Seq<char>,
    description: Seq<char>,
    parameters: Seq<char>,
)
    requires
        json::json_pretty(JsonModel::Text(tool.kind)) == Some(kind),
        json::json_pretty(JsonModel::Text(tool.function.name)) == Some(name),
        json::json_pretty(
            if tool.function.description is Some {
                JsonModel::Text(tool.function.description->0)
            } else {
                JsonModel::Null
            },
        ) == Some(description),
        json::json_pretty(tool.function.parameters) == Some(parameters),
    ensures
        planner::tool_spec(tool) == Some(
            "  {\n    \"type\": "@ + kind + ",\n    \"function\": {\n      \"name\": "@ + name
                + ",\n      \"description\": "@ + description + ",\n      \"parameters\": "@
                + planner::indented(parameters, "      "@) + "\n    }\n  }"@,
        ),
{
}

/// Indenting puts the padding behind each line feed, and changes nothing else.
pub proof fn law_indenting_pads_each_line(first: Seq<char>, second: Seq<char>, pad: Seq<char>)
    ensures
        planner::indented(first + second, pad) == planner::indented(first, pad)
            + planner::indented(second, pad),
        planner::indented(seq!['\n'], pad) == seq!['\n'] + pad,
        !first.contains('\n') ==> planner::indented(first, pad) == first,
    decreases first.len() + second.len(),
{
    let nothing = Seq::<char>::empty();
    assert(seq!['\n'].drop_last() =~= nothing);
    assert(planner::indented(nothing, pad) =~= nothing);
    assert(planner::indented(seq!['\n'], pad) =~= seq!['\n'] + pad);
    if second.len() == 0 {
        assert(first + second =~= first);
        assert(planner::indented(first, pad) + planner::indented(second, pad)
            =~= planner::indented(first, pad));
    } else {
        law_indenting_pads_each_line(first, second.drop_last(), pad);
        assert((first + second).drop_last() =~= first + second.drop_last());
        assert(planner::indented(first + second, pad) =~= planner::indented(first, pad)
            + planner::indented(second, pad));
    }
    if !first.contains('\n') && first.len() > 0 {
        let front = first.drop_last();
        assert forall|i: int| 0 <= i < front.len() implies front[i] != '\n' by {
            assert(first.contains(first[i]));
        }
        if second.len() > 0 {
            law_indenting_pads_each_line(front, nothing, pad);
        } else {
            law_indenting_pads_each_line(front, second, pad);
        }
        assert(first.contains(first[first.len() - 1]));
        assert(planner::indented(first, pad) =~= first);
    }
}

// ---------------------------------------------------------------------------
// Which plans are accepted
// ---------------------------------------------------------------------------

/// A value is of the type that a schema names exactly where it is JSON of that
/// kind: both booleans are booleans, every text is a string, every list an
/// array, every object an object, every number a number, and an integer is a
/// number that is one. A schema with another word for the type takes any value.
pub proof fn law_types_are_kinds_of_json(value: JsonModel, other: Seq<char>)
    ensures
        planner::has_type(value, "boolean"@) <==> value == JsonModel::Bool(true) || value
            == JsonModel::Bool(false),
        planner::has_type(value, "string"@) <==> value is Text,
        planner::has_type(value, "array"@) <==> value is List,
        planner::has_type(value, "object"@) <==> value is Object,
        planner::has_type(value, "number"@) <==> value is Number,
        planner::has_type(value, "integer"@) <==> (value matches JsonModel::Number {
            signed,
            unsigned,
            ..
        } && (signed is Some || unsigned is Some)),
        other != "boolean"@ && other != "string"@ && other != "array"@ && other != "object"@
            && other != "number"@ && other != "integer"@ ==> planner::has_type(value, other),
{
    reveal_strlit("boolean");
    reveal_strlit("string");
    reveal_strlit("array");
    reveal_strlit("object");
    reveal_strlit("number");
    reveal_strlit("integer");
    assert("boolean"@.len() == 7 && "string"@.len() == 6 && "array"@.len() == 5 && "object"@.len()
        == 6 && "number"@.len() == 6 && "integer"@.len() == 7);
    assert("boolean"@[0] == 'b' && "integer"@[0] == 'i');
    assert("string"@[0] == 's' && "object"@[0] == 'o' && "number"@[0] == 'n');
    if let JsonModel::Bool(b) = value {
        assert(b == true || b == false);
    }
}

/// The names that a schema requires, from a position on, of which the first
/// that is not given is told.
proof fn lemma_missing_is_first(
    required: Seq<JsonModel>,
    given: Seq<(Seq<char>, JsonModel)>,
    from: int,
)
    requires
        0 <= from <= required.len(),
    ensures
        match planner::missing_argument(required, given, from) {
            Some(name) => exists|at: int|
                #![trigger required[at]]
                from <= at < required.len() && required[at] == JsonModel::Text(name)
                    && !is_given(given, name) && forall|j: int|
                    from <= j < at && (#[trigger] required[j]) is Text ==> is_given(
                        given,
                        required[j]->Text_0,
                    ),
            None => forall|j: int|
                from <= j < required.len() && (#[trigger] required[j]) is Text ==> is_given(
                    given,
                    required[j]->Text_0,
                ),
        },
    decreases required.len() - from,
{
    if from < required.len() {
        if let JsonModel::Text(name) = required[from] {
            json::law_member_is_the_first_with_its_key(given, name);
            if json::lookup_from(given, name, 0) is None {
                assert(JsonModel::Object(given).get(name) is None);
                assert(required[from] == JsonModel::Text(name));
                assert(!is_given(given, name));
            } else {
                assert(is_given(given, name));
                lemma_missing_is_first(required, given, from + 1);
            }
        } else {
            lemma_missing_is_first(required, given, from + 1);
        }
    }
}

/// Some member of the object has this name.
pub open spec fn is_given(given: Seq<(Seq<char>, JsonModel)>, name: Seq<char>) -> bool {
    exists|i: int| 0 <= i < given.len() && (#[trigger] given[i]).0 == name
}

/// A property of the schema is at odds with the arguments: it is given, its
/// schema names a type, and the value is not of that type.
pub open spec fn is_mistyped(
    property: (Seq<char>, JsonModel),
    arguments: JsonModel,
) -> bool {
    match (arguments.get(property.0), property.1.get("type"@)) {
        (Some(value), Some(JsonModel::Text(expected))) => !planner::has_type(value, expected),
        _ => false,
    }
}

proof fn lemma_mistyped_is_first(
    properties: Seq<(Seq<char>, JsonModel)>,
    given: Seq<(Seq<char>, JsonModel)>,
    from: int,
)
    requires
        0 <= from <= properties.len(),
    ensures
        match planner::mistyped_argument(properties, given, from) {
            Some((name, expected)) => exists|at: int|
                #![trigger properties[at]]
                from <= at < properties.len() && properties[at].0 == name
                    && properties[at].1.get("type"@) == Some(JsonModel::Text(expected))
                    && is_mistyped(properties[at], JsonModel::Object(given)) && forall|j: int|
                    from <= j < at ==> !is_mistyped(
                        #[trigger] properties[j],
                        JsonModel::Object(given),
                    ),
            None => forall|j: int|
                from <= j < properties.len() ==> !is_mistyped(
                    #[trigger] properties[j],
                    JsonModel::Object(given),
                ),
        },
    decreases properties.len() - from,
{
    if from < properties.len() {
        let mistyped = is_mistyped(properties[from], JsonModel::Object(given));
        if !mistyped {
            lemma_mistyped_is_first(properties, given, from + 1);
        } else {
            assert(properties[from].1.get("type"@) is Some);
        }
    }
}

/// Arguments are accepted where, and only where, they are an object, each name
/// that the schema requires is one of its keys, and each property that is
/// given and has a type is of that type.
pub proof fn law_arguments_are_accepted_when_they_fit(tool: ToolModel, arguments: JsonModel)
    ensures
        planner::arguments_error(tool, arguments) is None <==> {
            &&& arguments is Object
            &&& tool.function.parameters.get("required"@) matches Some(JsonModel::List(required))
                ==> forall|i: int|
                0 <= i < required.len() && (#[trigger] required[i]) is Text ==> is_given(
                    arguments->Object_0,
                    required[i]->Text_0,
                )
            &&& tool.function.parameters.get("properties"@) matches Some(
                JsonModel::Object(properties),
            ) ==> forall|i: int|
                0 <= i < properties.len() ==> !is_mistyped(#[trigger] properties[i], arguments)
        },
{
    if let JsonModel::Object(given) = arguments {
        if let Some(JsonModel::List(required)) = tool.function.parameters.get("required"@) {
            lemma_missing_is_first(required, given, 0);
        }
        if let Some(JsonModel::Object(properties)) = tool.function.parameters.get("properties"@) {
            lemma_mistyped_is_first(properties, given, 0);
        }
    }
}

/// What is wrong with arguments is told by its kind, with the tool's name:
/// that they are no object; the first required name that is not given; or,
/// where all are, the first property that is given with a wrong type.
pub proof fn law_fault_of_arguments_is_the_first(tool: ToolModel, arguments: JsonModel)
    ensures
        arguments !is Object ==> planner::arguments_error(tool, arguments) == Some(
            PlannerErrorModel::ArgumentsNotObject(tool.function.name),
        ),
        planner::arguments_error(tool, arguments) matches Some(
            PlannerErrorModel::MissingRequired { tool: of, argument },
        ) ==> {
            &&& of == tool.function.name
            &&& arguments is Object
            &&& !is_given(arguments->Object_0, argument)
            &&& tool.function.parameters.get("required"@) matches Some(JsonModel::List(required))
            &&& exists|at: int|
                #![trigger required[at]]
                0 <= at < required.len() && required[at] == JsonModel::Text(argument) && forall|
                    j: int,
                |
                    0 <= j < at && (#[trigger] required[j]) is Text ==> is_given(
                        arguments->Object_0,
                        required[j]->Text_0,
                    )
        },
        planner::arguments_error(tool, arguments) matches Some(
            PlannerErrorModel::TypeMismatch { tool: of, argument, expected },
        ) ==> {
            &&& of == tool.function.name
            &&& tool.function.parameters.get("properties"@) matches Some(
                JsonModel::Object(properties),
            )
            &&& exists|at: int|
                #![trigger properties[at]]
                0 <= at < properties.len() && properties[at].0 == argument
                    && properties[at].1.get("type"@) == Some(JsonModel::Text(expected))
                    && is_mistyped(properties[at], arguments) && forall|j: int|
                    0 <= j < at ==> !is_mistyped(#[trigger] properties[j], arguments)
            &&& tool.function.parameters.get("required"@) matches Some(JsonModel::List(required))
                ==> forall|i: int|
                0 <= i < required.len() && (#[trigger] required[i]) is Text ==> is_given(
                    arguments->Object_0,
                    required[i]->Text_0,
                )
        },
        planner::arguments_error(tool, arguments) matches Some(error) ==> error
            is ArgumentsNotObject || error is MissingRequired || error is TypeMismatch,
{
    if let JsonModel::Object(given) = arguments {
        if let Some(JsonModel::List(required)) = tool.function.parameters.get("required"@) {
            lemma_missing_is_first(required, given, 0);
        }
        if let Some(JsonModel::Object(properties)) = tool.function.parameters.get("properties"@) {
            lemma_mistyped_is_first(properties, given, 0);
        }
    }
}

/// A call is accepted where, and only where, its tool is offered and its
/// arguments are accepted; a tool that is not offered is told by its name.
/// Of tools with the same name the last one counts.
pub proof fn law_call_is_accepted_when_its_tool_is_offered(
    call: PlannerCallModel,
    tools: Seq<ToolModel>,
    at: int,
)
    ensures
        0 <= at < tools.len() && tools[at].function.name == call.name && (forall|j: int|
            at < j < tools.len() ==> (#[trigger] tools[j]).function.name != call.name)
            ==> planner::call_error(call, tools) == planner::arguments_error(
            tools[at],
            call.arguments,
        ),
        (forall|j: int| 0 <= j < tools.len() ==> (#[trigger] tools[j]).function.name != call.name)
            ==> planner::call_error(call, tools) == Some(PlannerErrorModel::UnknownTool(call.name)),
{
    lemma_last_tool_counts(tools, call.name, at);
}

proof fn lemma_last_tool_counts(tools: Seq<ToolModel>, name: Seq<char>, at: int)
    ensures
        0 <= at < tools.len() && tools[at].function.name == name && (forall|j: int|
            at < j < tools.len() ==> (#[trigger] tools[j]).function.name != name)
            ==> planner::tool_named(tools, name) == Some(tools[at]),
        (forall|j: int| 0 <= j < tools.len() ==> (#[trigger] tools[j]).function.name != name)
            ==> planner::tool_named(tools, name) is None,
    decreases tools.len(),
{
    if tools.len() > 0 {
        let front = tools.drop_last();
        lemma_last_tool_counts(front, name, at);
        assert(forall|j: int| 0 <= j < front.len() ==> front[j] == #[trigger] tools[j]);
        assert(tools[tools.len() - 1] == tools.last());
    }
}

/// A plan of calls is accepted where, and only where, the client's tool choice
/// has nothing against it and every call is accepted; otherwise what is told
/// is what is wrong with the choice, or with the first call that is wrong.
pub proof fn law_calls_are_accepted_when_each_is(
    calls: Seq<PlannerCallModel>,
    tools: Seq<ToolModel>,
    choice: Option<ToolChoiceModel>,
)
    requires
        planner::choice_error(DecisionModel::ToolCalls(calls), choice) is None,
    ensures
        (forall|i: int|
            0 <= i < calls.len() ==> planner::call_error(#[trigger] calls[i], tools) is None)
            <==> planner::decision_error(DecisionModel::ToolCalls(calls), tools, choice) is None,
        planner::decision_error(DecisionModel::ToolCalls(calls), tools, choice) matches Some(error)
            ==> exists|at: int|
            #![trigger calls[at]]
            0 <= at < calls.len() && planner::call_error(calls[at], tools) == Some(error)
                && forall|j: int|
                0 <= j < at ==> planner::call_error(#[trigger] calls[j], tools) is None,
{
    lemma_calls_error(calls, tools, 0);
}

proof fn lemma_calls_error(calls: Seq<PlannerCallModel>, tools: Seq<ToolModel>, from: int)
    requires
        0 <= from <= calls.len(),
    ensures
        match planner::calls_error(calls, tools, from) {
            Some(error) => exists|at: int|
                #![trigger calls[at]]
                from <= at < calls.len() && planner::call_error(calls[at], tools) == Some(error)
                    && forall|j: int|
                    from <= j < at ==> planner::call_error(#[trigger] calls[j], tools) is None,
            None => forall|j: int|
                from <= j < calls.len() ==> planner::call_error(#[trigger] calls[j], tools) is None,
        },
    decreases calls.len() - from,
{
    if from < calls.len() {
        if planner::call_error(calls[from], tools) is None {
            lemma_calls_error(calls, tools, from + 1);
        }
    }
}

/// The client's tool choice has something against a decision exactly where it
/// is the word `required` and the decision calls no tool, or where it names a
/// tool and the decision does not call that one; and says so.
pub proof fn law_tool_choice_objects_when_it_is_not_met(
    decision: DecisionModel,
    choice: Option<ToolChoiceModel>,
)
    ensures
        choice is None ==> planner::choice_error(decision, choice) is None,
        choice matches Some(ToolChoiceModel::String(word)) ==> planner::choice_error(
            decision,
            choice,
        ) == (if word == "required"@ && (decision is Final || decision->ToolCalls_0.len() == 0) {
            Some(PlannerErrorModel::RequiredToolCall)
        } else {
            None
        }),
        choice matches Some(ToolChoiceModel::Object { name, .. }) ==> planner::choice_error(
            decision,
            choice,
        ) == (if decision is ToolCalls && exists|i: int|
            0 <= i < decision->ToolCalls_0.len() && (#[trigger] decision->ToolCalls_0[i]).name
                == name {
            None
        } else {
            Some(PlannerErrorModel::SpecificToolRequired(name))
        }),
{
}

/// Whatever else is wrong with a decision, what the tool choice has against it
/// is told first.
pub proof fn law_tool_choice_speaks_first(
    decision: DecisionModel,
    tools: Seq<ToolModel>,
    choice: Option<ToolChoiceModel>,
)
    ensures
        planner::choice_error(decision, choice) is Some ==> planner::decision_error(
            decision,
            tools,
            choice,
        ) == planner::choice_error(decision, choice),
{
}

/// A text is accepted, as far as the tool choice allows it, unless it promises
/// to use a tool later.
pub proof fn law_text_is_accepted_unless_it_defers(
    content: Seq<char>,
    tools: Seq<ToolModel>,
    choice: Option<ToolChoiceModel>,
)
    requires
        planner::choice_error(DecisionModel::Final(content), choice) is None,
    ensures
        planner::decision_error(DecisionModel::Final(content), tools, choice) == (
        if planner::defers_tools(content, tools) {
            Some(PlannerErrorModel::PrematureFinal)
        } else {
            None
        }),
{
}

/// A text promises to use a tool later where, in lower case, it holds one of
/// the phrases of a promise and speaks of a tool: by a name that is offered
/// and not empty, or by the word.
pub proof fn law_promise_speaks_of_a_tool(
    content: Seq<char>,
    tools: Seq<ToolModel>,
)
    ensures
        planner::defers_tools(content, tools) <==> {
            let said = text::lowercase(content);
            &&& planner::contains_any(said, planner::deferred_markers())
            &&& {
                ||| exists|i: int|
                    0 <= i < tools.len() && text::lowercase(
                        (#[trigger] tools[i]).function.name,
                    ).len() > 0 && text::contains_text(
                        said,
                        text::lowercase(tools[i].function.name),
                    )
                ||| text::contains_text(said, "tool"@)
                ||| text::contains_text(said, "工具"@)
            }
        },
{
    let said = text::lowercase(content);
    let names = planner::lowercase_names(tools);
    if planner::holds_name(said, names) {
        let i = choose|i: int|
            0 <= i < names.len() && (#[trigger] names[i]).len() > 0 && text::contains_text(
                said,
                names[i],
            );
        assert(text::lowercase(tools[i].function.name) == names[i]);
    }
    if exists|i: int|
        0 <= i < tools.len() && text::lowercase((#[trigger] tools[i]).function.name).len() > 0
            && text::contains_text(said, text::lowercase(tools[i].function.name)) {
        let i = choose|i: int|
            0 <= i < tools.len() && text::lowercase((#[trigger] tools[i]).function.name).len() > 0
                && text::contains_text(said, text::lowercase(tools[i].function.name));
        assert(names[i] == text::lowercase(tools[i].function.name));
    }
}

/// A text that holds any one of a list of phrases holds one of them, and a
/// text that holds none of them does not.
pub proof fn law_any_phrase_counts(content: Seq<char>, phrases: Seq<Seq<char>>, at: int)
    ensures
        0 <= at < phrases.len() && text::contains_text(content, phrases[at])
            ==> planner::contains_any(content, phrases),
        (forall|i: int|
            0 <= i < phrases.len() ==> !text::contains_text(content, #[trigger] phrases[i]))
            ==> !planner::contains_any(content, phrases),
{
}

/// The phrases of a promise.
pub proof fn law_promises_in_english(said: Seq<char>)
    ensures
        ({
            ||| text::contains_text(said, "i will call"@)
            ||| text::contains_text(said, "i'll call"@)
            ||| text::contains_text(said, "i will use"@)
            ||| text::contains_text(said, "i'll use"@)
            ||| text::contains_text(said, "i will query"@)
            ||| text::contains_text(said, "i'll query"@)
            ||| text::contains_text(said, "i will check"@)
            ||| text::contains_text(said, "i'll check"@)
            ||| text::contains_text(said, "need to call"@)
            ||| text::contains_text(said, "need to use"@)
            ||| text::contains_text(said, "need to query"@)
            ||| text::contains_text(said, "calling tool"@)
            ||| text::contains_text(said, "call tool"@)
            ||| text::contains_text(said, "use tool"@)
            ||| text::contains_text(said, "query tool"@)
            ||| text::contains_text(said, "tool:"@)
        }) ==> planner::contains_any(said, planner::deferred_markers()),
{
    let markers = planner::deferred_markers();
    assert(markers[0] == "i will call"@ && markers[1] == "i'll call"@);
    assert(markers[2] == "i will use"@ && markers[3] == "i'll use"@);
    assert(markers[4] == "i will query"@ && markers[5] == "i'll query"@);
    assert(markers[6] == "i will check"@ && markers[7] == "i'll check"@);
    assert(markers[8] == "need to call"@ && markers[9] == "need to use"@);
    assert(markers[10] == "need to query"@ && markers[11] == "calling tool"@);
    assert(markers[12] == "call tool"@ && markers[13] == "use tool"@);
    assert(markers[14] == "query tool"@ && markers[15] == "tool:"@);
}

/// The phrases of a promise, in Chinese.
pub proof fn law_promises_in_chinese(said: Seq<char>)
    ensures
        ({
            ||| text::contains_text(said, "tool："@)
            ||| text::contains_text(said, "调用工具"@)
            ||| text::contains_text(said, "调用 "@)
            ||| text::contains_text(said, "使用工具"@)
            ||| text::contains_text(said, "查询工具"@)
            ||| text::contains_text(said, "我将"@)
            ||| text::contains_text(said, "我会"@)
            ||| text::contains_text(said, "需要先"@)
            ||| text::contains_text(said, "请稍等"@)
            ||| text::contains_text(said, "正在查询"@)
            ||| text::contains_text(said, "将查询"@)
            ||| text::contains_text(said, "先查询"@)
        }) ==> planner::contains_any(said, planner::deferred_markers()),
{
    let markers = planner::deferred_markers();
    assert(markers[16] == "tool："@ && markers[17] == "调用工具"@);
    assert(markers[18] == "调用 "@ && markers[19] == "使用工具"@);
    assert(markers[20] == "查询工具"@ && markers[21] == "我将"@);
    assert(markers[22] == "我会"@ && markers[23] == "需要先"@);
    assert(markers[24] == "请稍等"@ && markers[25] == "正在查询"@);
    assert(markers[26] == "将查询"@ && markers[27] == "先查询"@);
}

/// Nothing but those phrases is a promise: there are no more of them.
pub proof fn law_promises_are_these(said: Seq<char>)
    requires
        planner::contains_any(said, planner::deferred_markers()),
    ensures
        ({
            ||| text::contains_text(said, "i will call"@)
            ||| text::contains_text(said, "i'll call"@)
            ||| text::contains_text(said, "i will use"@)
            ||| text::contains_text(said, "i'll use"@)
            ||| text::contains_text(said, "i will query"@)
            ||| text::contains_text(said, "i'll query"@)
            ||| text::contains_text(said, "i will check"@)
            ||| text::contains_text(said, "i'll check"@)
            ||| text::contains_text(said, "need to call"@)
            ||| text::contains_text(said, "need to use"@)
            ||| text::contains_text(said, "need to query"@)
            ||| text::contains_text(said, "calling tool"@)
            ||| text::contains_text(said, "call tool"@)
            ||| text::contains_text(said, "use tool"@)
            ||| text::contains_text(said, "query tool"@)
            ||| text::contains_text(said, "tool:"@)
            ||| text::contains_text(said, "tool："@)
            ||| text::contains_text(said, "调用工具"@)
            ||| text::contains_text(said, "调用 "@)
            ||| text::contains_text(said, "使用工具"@)
            ||| text::contains_text(said, "查询工具"@)
            ||| text::contains_text(said, "我将"@)
            ||| text::contains_text(said, "我会"@)
            ||| text::contains_text(said, "需要先"@)
            ||| text::contains_text(said, "请稍等"@)
            ||| text::contains_text(said, "正在查询"@)
            ||| text::contains_text(said, "将查询"@)
            ||| text::contains_text(said, "先查询"@)
        }),
{
}

// ---------------------------------------------------------------------------
// Reading a plan
// ---------------------------------------------------------------------------

/// An answer without an opening brace, or without a closing one, is read as it
/// is, trimmed.
pub proof fn law_answer_without_braces_is_read_whole(raw: Seq<char>)
    requires
        !raw.contains('{') || !raw.contains('}'),
    ensures
        planner::json_span(raw) == text::trim(raw),
        planner::braces_in_order(raw),
{
    text::law_trim_takes_only_white_space(raw);
    let (lo, hi) = choose|lo: int, hi: int| #[trigger]
        text::is_trimmed_part(raw, lo, hi) && text::trim(raw) == raw.subrange(lo, hi);
    let trimmed = text::trim(raw);
    text::lemma_find_from(trimmed, seq!['{'], 0);
    if let Some(at) = text::find(trimmed, seq!['{']) {
        assert(trimmed.subrange(at, at + 1)[0] == '{');
        assert(raw[lo + at] == '{');
        assert(raw.contains('{'));
    }
    lemma_last_position_holds(trimmed, '}');
    if let Some(at) = planner::last_position(trimmed, '}') {
        assert(raw[lo + at] == '}');
        assert(raw.contains('}'));
    }
}

proof fn lemma_last_position_holds(chars: Seq<char>, c: char)
    ensures
        planner::last_position(chars, c) matches Some(at) ==> 0 <= at < chars.len() && chars[at]
            == c && forall|i: int| at < i < chars.len() ==> #[trigger] chars[i] != c,
        planner::last_position(chars, c) is None ==> forall|i: int|
            0 <= i < chars.len() ==> #[trigger] chars[i] != c,
    decreases chars.len(),
{
    if chars.len() > 0 && chars.last() != c {
        let front = chars.drop_last();
        lemma_last_position_holds(front, c);
        assert(forall|i: int| 0 <= i < front.len() ==> front[i] == #[trigger] chars[i]);
    }
}

/// The last place of a character is a place of it, and none comes behind.
pub proof fn law_last_position_is_the_last(chars: Seq<char>, c: char)
    ensures
        planner::last_position(chars, c) matches Some(at) ==> 0 <= at < chars.len() && chars[at]
            == c && forall|i: int| at < i < chars.len() ==> #[trigger] chars[i] != c,
        planner::last_position(chars, c) is None ==> !chars.contains(c),
{
    lemma_last_position_holds(chars, c);
}

/// What cannot be read is refused with the reason; what can be read is the
/// plan itself where nothing is wrong with it, and else refused with that.
pub proof fn law_plan_is_taken_as_it_was_read(
    decision: DecisionModel,
    source: Seq<char>,
    tools: Seq<ToolModel>,
    choice: Option<ToolChoiceModel>,
)
    ensures
        planner::outcome(Err(source), tools, choice) == Err::<DecisionModel, PlannerErrorModel>(
            PlannerErrorModel::InvalidJson(source),
        ),
        planner::decision_error(decision, tools, choice) is None ==> planner::outcome(
            Ok(decision),
            tools,
            choice,
        ) == Ok::<DecisionModel, PlannerErrorModel>(decision),
        planner::decision_error(decision, tools, choice) matches Some(error) ==> planner::outcome(
            Ok(decision),
            tools,
            choice,
        ) == Err::<DecisionModel, PlannerErrorModel>(error),
{
}

// ---------------------------------------------------------------------------
// Telling the client
// ---------------------------------------------------------------------------

/// Every planned call is answered, in its place: with its name, its arguments
/// as compact JSON, the kind `function`, and a number of at least six digits.
pub proof fn law_every_call_is_answered(calls: Seq<PlannerCallModel>, at: int)
    requires
        0 <= at < calls.len(),
    ensures
        planner::answered_calls(calls).len() == calls.len(),
        ({
            let answered = planner::answered_calls(calls)[at];
            &&& answered.name == calls[at].name
            &&& answered.kind == "function"@
            &&& json::json_compact(calls[at].arguments) matches Some(arguments)
                ==> answered.arguments == arguments
            &&& json::json_compact(calls[at].arguments) is None ==> answered.arguments == "{}"@
            &&& answered.id.len() >= 11
            &&& answered.id.take(5) == "call_"@
            &&& text::digits_value(answered.id.skip(5)) == at
            &&& text::all_digits(answered.id.skip(5))
            &&& at < 1_000_000 ==> answered.id.len() == 11
        }),
{
    reveal_strlit("call_");
    let id = planner::call_id(at);
    let number = text::zero_padded(text::decimal(at), 6);
    text::lemma_digits_read_back(at as nat);
    text::lemma_zero_padded_value(text::decimal(at), 6);
    assert(id.take(5) =~= "call_"@);
    assert(id.skip(5) =~= number);
    if at < 1_000_000 {
        lemma_short_number(at as nat);
    }
}

proof fn lemma_short_number(n: nat)
    requires
        n < 1_000_000,
    ensures
        text::digits(n).len() <= 6,
{
    reveal_with_fuel(text::digits, 7);
}

/// What is wrong with a plan is said in words that hold every name it is about.
pub proof fn law_fault_is_said_in_words(tool: Seq<char>, argument: Seq<char>, expected: Seq<char>)
    ensures
        PlannerErrorModel::InvalidJson(tool).message() == "planner output is not valid json: "@
            + tool,
        PlannerErrorModel::UnknownTool(tool).message() == "requested tool is not available: "@
            + tool,
        PlannerErrorModel::ArgumentsNotObject(tool).message() == "tool arguments for "@ + tool
            + " must be a json object"@,
        (PlannerErrorModel::MissingRequired { tool, argument }).message() == "tool "@ + tool
            + " missing required argument "@ + argument,
        (PlannerErrorModel::TypeMismatch { tool, argument, expected }).message() == "tool "@ + tool
            + " argument "@ + argument + " must be "@ + expected,
        PlannerErrorModel::RequiredToolCall.message() == "tool_choice requires a tool call"@,
        PlannerErrorModel::SpecificToolRequired(tool).message() == "tool_choice requires tool "@
            + tool,
{
}

/// Decisions and calls are seen in full: two of them that look alike are alike.
pub proof fn law_decisions_are_seen_in_full(
    a: PlannerCall,
    b: PlannerCall,
    d: PlannerDecision,
    e: PlannerDecision,
)
    ensures
        a.deep_view() == b.deep_view() ==> a.name@ == b.name@ && a.arguments.deep_view()
            == b.arguments.deep_view(),
        d.deep_view() == e.deep_view() ==> match (d, e) {
            (PlannerDecision::ToolCalls { calls: x }, PlannerDecision::ToolCalls { calls: y }) =>
                x.deep_view() == y.deep_view(),
            (PlannerDecision::Final { content: x }, PlannerDecision::Final { content: y }) => x@
                == y@,
            _ => false,
        },
{
}

/// Whether a text promises anything is no matter where tools are called.
pub proof fn law_promises_concern_texts_only(
    calls: Seq<PlannerCallModel>,
    content: Seq<char>,
    tools: Seq<ToolModel>,
    choice: Option<ToolChoiceModel>,
)
    ensures
        planner::fault_of(DecisionModel::ToolCalls(calls), tools, choice, true)
            == planner::decision_error(DecisionModel::ToolCalls(calls), tools, choice),
        planner::choice_error(DecisionModel::Final(content), choice) is None ==> planner::fault_of(
            DecisionModel::Final(content),
            tools,
            choice,
            true,
        ) == Some(PlannerErrorModel::PrematureFinal),
        planner::choice_error(DecisionModel::Final(content), choice) is None ==> planner::fault_of(
            DecisionModel::Final(content),
            tools,
            choice,
            false,
        ) is None,
{
}

/// Faults are seen in full: two of them that look alike are alike.
pub proof fn law_faults_are_seen_in_full(a: PlannerError, b: PlannerError)
    ensures
        a.deep_view() == b.deep_view() ==> match (a, b) {
            (PlannerError::InvalidJson(x), PlannerError::InvalidJson(y)) => x@ == y@,
            (PlannerError::UnknownTool(x), PlannerError::UnknownTool(y)) => x@ == y@,
            (PlannerError::ArgumentsNotObject(x), PlannerError::ArgumentsNotObject(y)) => x@ == y@,
            (
                PlannerError::MissingRequired { tool: s, argument: x },
                PlannerError::MissingRequired { tool: t, argument: y },
            ) => s@ == t@ && x@ == y@,
            (
                PlannerError::TypeMismatch { tool: s, argument: x, expected: d },
                PlannerError::TypeMismatch { tool: t, argument: y, expected: e },
            ) => s@ == t@ && x@ == y@ && d@ == e@,
            (PlannerError::RequiredToolCall, PlannerError::RequiredToolCall) => true,
            (PlannerError::SpecificToolRequired(x), PlannerError::SpecificToolRequired(y)) => x@
                == y@,
            (PlannerError::PrematureFinal, PlannerError::PrematureFinal) => true,
            _ => false,
        },
{
}

} // verus!
