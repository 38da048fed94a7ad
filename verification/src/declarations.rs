//! What a policy declares and decides, told by what was declared and returned.

use crate::error::ToolErrorModel;
use crate::hooks::BeforeModel;
use crate::json::{serde_from_str, serde_to_string, Json};
use crate::luau::{call_fields, confinement, declares, Declaration};
use crate::policy::{
    decided, declared_models, declares as declares_name, read_tool, read_tools, DeclaredModel, PolicyDecision,
    PolicyErrorModel, PolicyLimits, PolicyToolModel,
};
use crate::schema_validation::{judged, jsonschema_accepts, jsonschema_compiles};
use crate::state::CallModel;
use crate::text::is_blank;
use crate::tool::ToolExecutionMode;
use vstd::prelude::*;

verus! {

proof fn lemma_words()
    ensures
        "sequential"@ != "parallel"@,
        "block"@ != "terminate"@,
{
    reveal_strlit("sequential");
    reveal_strlit("parallel");
    reveal_strlit("block");
    reveal_strlit("terminate");
    assert("sequential"@.len() == 10);
    assert("parallel"@.len() == 8);
    assert("block"@.len() == 5);
    assert("terminate"@.len() == 9);
}

/// A tool that is read keeps every text that was declared: its name, description and capability,
/// its handler where there is one, and the schema that its text reads as. It runs sequentially
/// exactly where `sequential` was declared, and in parallel exactly where `parallel` was.
pub proof fn law_a_tool_is_what_was_declared(declared: DeclaredModel)
    ensures
        read_tool(declared) matches Ok(tool) ==> {
            &&& declared.name == Ok::<Seq<char>, Seq<char>>(tool.name)
            &&& declared.description == Ok::<Seq<char>, Seq<char>>(tool.description)
            &&& declared.capability == Ok::<Seq<char>, Seq<char>>(tool.capability)
            &&& declared.handler_source == Ok::<Option<Seq<char>>, Seq<char>>(tool.handler_source)
            &&& declared.schema_json matches Ok(text)
            &&& serde_from_str(text) matches Ok(schema)
            &&& tool.schema == schema
            &&& tool.execution_mode == ToolExecutionMode::Sequential
                <==> declared.execution_mode == Ok::<Seq<char>, Seq<char>>("sequential"@)
            &&& tool.execution_mode == ToolExecutionMode::Parallel
                <==> declared.execution_mode == Ok::<Seq<char>, Seq<char>>("parallel"@)
        },
{
    lemma_words();
}

/// A declaration is read exactly where every text is there and visible, the mode is one of the
/// two, the schema can be read, and a handler, where there is one, is visible.
pub proof fn law_sound_declarations_are_read(declared: DeclaredModel)
    ensures
        read_tool(declared) is Ok <==> {
            &&& declared.name matches Ok(name) && !is_blank(name)
            &&& declared.description matches Ok(description) && !is_blank(description)
            &&& declared.capability matches Ok(capability) && !is_blank(capability)
            &&& declared.schema_json matches Ok(text) && !is_blank(text) && serde_from_str(text)
                is Ok
            &&& declared.handler_source matches Ok(source) && !(source matches Some(code)
                && is_blank(code))
            &&& declared.execution_mode == Ok::<Seq<char>, Seq<char>>("sequential"@)
                || declared.execution_mode == Ok::<Seq<char>, Seq<char>>("parallel"@)
        },
{
}

/// The tools of a declaration are read one for one and in order, and no name occurs twice.
pub proof fn law_tools_keep_their_order(items: Seq<Result<DeclaredModel, Seq<char>>>)
    ensures
        read_tools(items) matches Ok(tools) ==> {
            &&& tools.len() == items.len()
            &&& forall|i: int|
                0 <= i < items.len() ==> {
                    &&& (#[trigger] items[i]) matches Ok(declared)
                    &&& read_tool(declared) == Ok::<PolicyToolModel, PolicyErrorModel>(tools[i])
                }
            &&& forall|i: int, j: int|
                0 <= i < j < tools.len() ==> (#[trigger] tools[i]).name != (
                #[trigger] tools[j]).name
        },
    decreases items.len(),
{
    if items.len() > 0 && read_tools(items) is Ok {
        law_tools_keep_their_order(items.drop_last());
        let tools = read_tools(items)->Ok_0;
        let before = read_tools(items.drop_last())->Ok_0;
        assert forall|i: int| 0 <= i < items.len() implies ({
            &&& (#[trigger] items[i]) matches Ok(declared)
            &&& read_tool(declared) == Ok::<PolicyToolModel, PolicyErrorModel>(tools[i])
        }) by {
            if i < items.len() - 1 {
                assert(items.drop_last()[i] == items[i]);
                assert(tools[i] == before[i]);
            }
        }
        assert forall|i: int, j: int| 0 <= i < j < tools.len() implies (#[trigger] tools[i]).name
            != (#[trigger] tools[j]).name by {
            assert(tools[i] == before[i]);
            if j < before.len() {
                assert(tools[j] == before[j]);
            }
        }
    }
}

/// A call is allowed exactly by the word `allow`, blocked exactly by a table that says `block`
/// and stopped exactly by one that says `terminate`, each of these with the reason it was given,
/// which is visible. Any other answer is refused.
pub proof fn law_a_decision_is_what_was_returned(value: PolicyDecision)
    ensures
        (decided(value) matches Ok(BeforeModel::Allow)) <==> (value matches PolicyDecision::Text(
            Ok(text),
        ) && text@ == "allow"@),
        decided(value) matches Ok(BeforeModel::Block { reason: given }) ==> (value matches
            PolicyDecision::Table { action: Ok(action), reason: Ok(reason) } && action@ == "block"@
            && reason@ == given && !is_blank(given)),
        (value matches PolicyDecision::Table { action: Ok(action), reason: Ok(reason) } && action@
            == "block"@ && !is_blank(reason@)) ==> (decided(value) matches Ok(
            BeforeModel::Block { reason: given },
        ) && given == value->reason->Ok_0@),
        decided(value) matches Ok(BeforeModel::Terminate { reason: given }) ==> (value matches
            PolicyDecision::Table { action: Ok(action), reason: Ok(reason) } && action@ == "terminate"@
            && reason@ == given && !is_blank(given)),
        (value matches PolicyDecision::Table { action: Ok(action), reason: Ok(reason) } && action@
            == "terminate"@ && !is_blank(reason@)) ==> (decided(value) matches Ok(
            BeforeModel::Terminate { reason: given },
        ) && given == value->reason->Ok_0@),
{
    lemma_words();
}

/// A source enters the engine exactly where no limit is zero and the source is within its limit.
pub proof fn law_only_bounded_sources_enter(limits: PolicyLimits, source_bytes: int)
    ensures
        limits.refusal(source_bytes) is None <==> {
            &&& limits.max_source_bytes > 0
            &&& limits.max_memory_bytes > 0
            &&& limits.max_interrupt_checks > 0
            &&& source_bytes <= limits.max_source_bytes
        },
{
}

/// Arguments pass exactly where they are JSON text that the schema of their tool accepts, as far
/// as that schema can be read and used. Arguments that do not pass are refused under the name of
/// their tool.
pub proof fn law_only_accepted_arguments_pass(
    tool: Seq<char>,
    schema: Json,
    arguments: Seq<char>,
    error: ToolErrorModel,
)
    ensures
        judged(tool, schema, arguments, Ok(())) <==> {
            &&& serde_from_str(serde_to_string(schema)) matches Ok(decoded)
            &&& serde_from_str(arguments) matches Ok(instance)
            &&& jsonschema_compiles(decoded)
            &&& jsonschema_accepts(decoded, instance)
        },
        judged(tool, schema, arguments, Err(error)) ==> (error
            matches ToolErrorModel::InvalidArguments { tool: named, .. } && named == tool),
{
}

/// A declaration gives the prompt addition that it holds and the tools that it lists; one that
/// lists none gives none, and one with a part that could not be read is refused.
pub proof fn law_declarations_give_what_they_hold(declaration: Declaration)
    ensures
        declares(declaration) matches Ok((prompt, tools)) ==> {
            &&& declaration.system_prompt_append matches Ok(text)
            &&& text@ == prompt
            &&& declaration.before_tool_call is Ok
            &&& declaration.tools matches Ok(listed)
            &&& listed is None ==> tools.len() == 0
            &&& listed matches Some(items) ==> read_tools(declared_models(items@)) == Ok::<
                Seq<PolicyToolModel>,
                PolicyErrorModel,
            >(tools)
        },
        declaration.system_prompt_append is Ok && declaration.before_tool_call is Ok
            && (declaration.tools matches Ok(None)) ==> declares(declaration) is Ok,
{
}

/// A policy runs in a sandbox under its memory limit, spends its budget, and reaches neither the
/// operating system nor the internals of its engine. It is told of the whole call.
pub proof fn law_policies_are_confined(
    limits: PolicyLimits,
    budget: std::sync::Arc<std::sync::atomic::AtomicUsize>,
    call: CallModel,
)
    ensures
        ({
            let machine = confinement(limits, budget);
            &&& machine.sandboxed
            &&& machine.memory_limit == limits.max_memory_bytes
            &&& machine.budget == Some(budget)
            &&& !machine.libraries.os
            &&& !machine.libraries.debug
        }),
        call_fields(call).contains(("id"@, call.id)),
        call_fields(call).contains(("name"@, call.name)),
        call_fields(call).contains(("arguments_json"@, call.arguments)),
        call_fields(call).len() == 3,
{
    let fields = call_fields(call);
    assert(fields[0] == ("id"@, call.id));
    assert(fields[1] == ("name"@, call.name));
    assert(fields[2] == ("arguments_json"@, call.arguments));
}

/// A declaration of tools is read exactly where each of them is and no two have the same name.
pub proof fn law_sound_tools_are_read(items: Seq<Result<DeclaredModel, Seq<char>>>)
    ensures
        read_tools(items) is Ok <==> {
            &&& forall|i: int|
                0 <= i < items.len() ==> (#[trigger] items[i] matches Ok(declared) && read_tool(
                    declared,
                ) is Ok)
            &&& forall|i: int, j: int|
                0 <= i < j < items.len() ==> (#[trigger] items[i])->Ok_0.name != (
                #[trigger] items[j])->Ok_0.name
        },
    decreases items.len(),
{
    if items.len() > 0 {
        let front = items.drop_last();
        law_sound_tools_are_read(front);
        law_tools_keep_their_order(front);
        law_tools_keep_their_order(items);
        if read_tools(items) is Ok {
            let tools = read_tools(items)->Ok_0;
            assert forall|i: int, j: int| 0 <= i < j < items.len() implies (
            #[trigger] items[i])->Ok_0.name != (#[trigger] items[j])->Ok_0.name by {
                law_a_tool_is_what_was_declared(items[i]->Ok_0);
                law_a_tool_is_what_was_declared(items[j]->Ok_0);
                assert(tools[i].name != tools[j].name);
            }
        } else if (forall|i: int|
            0 <= i < items.len() ==> (#[trigger] items[i] matches Ok(declared) && read_tool(
                declared,
            ) is Ok)) && (forall|i: int, j: int|
            0 <= i < j < items.len() ==> (#[trigger] items[i])->Ok_0.name != (
            #[trigger] items[j])->Ok_0.name) {
            assert forall|i: int| 0 <= i < front.len() implies (
            #[trigger] front[i] matches Ok(declared) && read_tool(declared) is Ok) by {
                assert(front[i] == items[i]);
            }
            assert forall|i: int, j: int| 0 <= i < j < front.len() implies (
            #[trigger] front[i])->Ok_0.name != (#[trigger] front[j])->Ok_0.name by {
                assert(front[i] == items[i] && front[j] == items[j]);
            }
            let before = read_tools(front)->Ok_0;
            let last = items.last()->Ok_0;
            assert(items[items.len() - 1] == items.last());
            let tool = read_tool(last)->Ok_0;
            law_a_tool_is_what_was_declared(last);
            if declares_name(before, tool.name) {
                let k = choose|k: int|
                    0 <= k < before.len() && (#[trigger] before[k]).name == tool.name;
                law_a_tool_is_what_was_declared(front[k]->Ok_0);
                assert(front[k] == items[k]);
                assert(items[k]->Ok_0.name != items[items.len() - 1]->Ok_0.name);
            }
        }
    }
}

} // verus!
