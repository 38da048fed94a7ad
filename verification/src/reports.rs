//! What an evaluation reads and reports, told by its arguments and by what happened.

use crate::error::CoreErrorModel;
use crate::evaluation::{
    accepted_prompt, how_many, kind_name, last_text, parsed_args, report_json, streamed, trace_of,
    wire_tools, ArgsModel, CompletionModel,
};
use crate::event::{EventKindModel, EventModel};
use crate::json::{serde_from_str, serde_to_string, Json, NumberModel};
use crate::provider::exchanges::reports_usage;
use crate::provider::requests::tells_tool;
use crate::scheduler::StreamEventModel;
use crate::state::{MessageModel, UsageModel};
use crate::text::stands_at;
use crate::tool::DefinitionModel;
use vstd::prelude::*;

verus! {

proof fn lemma_flags(args: Seq<Seq<char>>, k: int, values: Map<Seq<char>, Seq<char>>)
    requires
        0 <= k,
        k % 2 == 0,
    ensures
        crate::evaluation::flags_from(args, k, values) matches Ok(all) ==> {
            &&& forall|flag: Seq<char>| #[trigger]
                all.contains_key(flag) ==> (values.contains_key(flag) && all[flag] == values[flag])
                    || given_behind(args, k, flag, all[flag])
            &&& forall|flag: Seq<char>| #[trigger]
                values.contains_key(flag) ==> all.contains_key(flag) && all[flag] == values[flag]
        },
    decreases args.len() - k,
{
    if k < args.len() && crate::evaluation::flags_from(args, k, values) is Ok {
        let next = values.insert(args[k], args[k + 1]);
        lemma_flags(args, k + 2, next);
        let all = crate::evaluation::flags_from(args, k, values)->Ok_0;
        assert forall|flag: Seq<char>| #[trigger] all.contains_key(flag) implies (
        values.contains_key(flag) && all[flag] == values[flag]) || given_behind(
            args,
            k,
            flag,
            all[flag],
        ) by {
            if given_behind(args, k + 2, flag, all[flag]) {
                let i = choose|i: int| #[trigger] flag_at(args, i, flag, all[flag]) && k + 2 <= i;
                assert(flag_at(args, i, flag, all[flag]));
            } else if flag == args[k] {
                assert(flag_at(args, k, flag, all[flag]));
            }
        }
        assert forall|flag: Seq<char>| #[trigger] values.contains_key(flag) implies
            all.contains_key(flag) && all[flag] == values[flag] by {
            assert(next.contains_key(flag));
        }
    }
}

/// Whether a value stands behind its flag at a place.
pub open spec fn flag_at(args: Seq<Seq<char>>, i: int, flag: Seq<char>, value: Seq<char>) -> bool {
    0 <= i && i + 1 < args.len() && args[i] == flag && args[i + 1] == value
}

/// Whether a value stands behind its flag, from a place on.
pub open spec fn given_behind(
    args: Seq<Seq<char>>,
    k: int,
    flag: Seq<char>,
    value: Seq<char>,
) -> bool {
    exists|i: int| #[trigger] flag_at(args, i, flag, value) && k <= i
}

/// Arguments that are read stand behind their own flags, and none of them is empty.
pub proof fn law_arguments_stand_behind_their_flags(args: Seq<Seq<char>>)
    ensures
        parsed_args(args) matches Ok(read) ==> {
            &&& given_behind(args, 0, "--model"@, read.model) && read.model.len() > 0
            &&& given_behind(args, 0, "--task-json"@, read.task_json) && read.task_json.len() > 0
            &&& given_behind(args, 0, "--workspace"@, read.workspace) && read.workspace.len() > 0
            &&& given_behind(args, 0, "--capabilities-json"@, read.capabilities_json)
                && read.capabilities_json.len() > 0
            &&& given_behind(args, 0, "--result-json"@, read.result_json)
                && read.result_json.len() > 0
            &&& given_behind(args, 0, "--attempt-id"@, read.attempt_id)
                && read.attempt_id.len() > 0
            &&& given_behind(args, 0, "--baseline-id"@, read.baseline_id)
                && read.baseline_id.len() > 0
        },
        args.len() % 2 == 1 ==> parsed_args(args) is Err,
{
    lemma_flags(args, 0, Map::empty());
    if args.len() % 2 == 1 {
        lemma_odd(args, 0, Map::empty());
    }
}

proof fn lemma_odd(args: Seq<Seq<char>>, k: int, values: Map<Seq<char>, Seq<char>>)
    requires
        0 <= k <= args.len(),
        (args.len() - k) % 2 == 1,
    ensures
        crate::evaluation::flags_from(args, k, values) is Err,
    decreases args.len() - k,
{
    if k + 1 < args.len() {
        lemma_odd(args, k + 2, values.insert(args[k], args[k + 1]));
    }
}

/// A task is taken exactly where it declares the capabilities that were given, and then its
/// prompt is what it says, which is not empty.
pub proof fn law_tasks_declare_their_capabilities(task: Json, capabilities: Json)
    ensures
        match accepted_prompt(task, capabilities) {
            Ok(prompt) => {
                &&& task.get("prompt"@) == Some(Json::String(prompt))
                &&& prompt.len() > 0
                &&& task.get("capabilities"@) is Some && task.get("capabilities"@)->0.alike(
                    capabilities,
                )
            },
            Err(_) => task.get("capabilities"@) is None || !task.get("capabilities"@)->0.alike(
                capabilities,
            ) || !(task.get("prompt"@) matches Some(Json::String(_))) || task.get("prompt"@)
                == Some(Json::String(Seq::empty())),
        },
{
    if let Some(Json::String(prompt)) = task.get("prompt"@) {
        if prompt.len() == 0 {
            assert(prompt =~= Seq::<char>::empty());
        }
    }
}

proof fn lemma_tool_keys()
    ensures
        "type"@ != "function"@,
        "name"@ != "description"@,
        "name"@ != "parameters"@,
        "description"@ != "parameters"@,
{
    reveal_strlit("type");
    reveal_strlit("function");
    reveal_strlit("name");
    reveal_strlit("description");
    reveal_strlit("parameters");
    assert("type"@.len() == 4);
    assert("function"@.len() == 8);
    assert("name"@.len() == 4);
    assert("description"@.len() == 11);
    assert("parameters"@.len() == 10);
}

/// The tools of an evaluation are offered one for one and in order, each with its schema as it
/// reads back from its own text.
pub proof fn law_evaluations_offer_their_tools(tools: Seq<DefinitionModel>)
    ensures
        wire_tools(tools) matches Ok(items) ==> {
            &&& items.len() == tools.len()
            &&& forall|i: int|
                0 <= i < tools.len() ==> {
                    &&& serde_from_str(serde_to_string((#[trigger] tools[i]).schema)) is Ok
                    &&& tells_tool(
                        items[i],
                        tools[i],
                        serde_from_str(serde_to_string(tools[i].schema))->Ok_0,
                    )
                }
        },
    decreases tools.len(),
{
    lemma_tool_keys();
    if tools.len() > 0 && wire_tools(tools) is Ok {
        law_evaluations_offer_their_tools(tools.drop_last());
        let items = wire_tools(tools)->Ok_0;
        let before = wire_tools(tools.drop_last())->Ok_0;
        assert forall|i: int| 0 <= i < tools.len() implies ({
            &&& serde_from_str(serde_to_string((#[trigger] tools[i]).schema)) is Ok
            &&& tells_tool(
                items[i],
                tools[i],
                serde_from_str(serde_to_string(tools[i].schema))->Ok_0,
            )
        }) by {
            if i < tools.len() - 1 {
                assert(tools.drop_last()[i] == tools[i]);
                assert(items[i] == before[i]);
            }
        }
    }
}

/// A completion is streamed whole, with its usage before the last event where it reports any; a
/// failure is streamed as one.
pub proof fn law_completions_are_streamed_whole(completion: CompletionModel, message: Seq<char>)
    requires
        completion.events.len() > 0,
    ensures
        completion.usage.input_tokens is Some || completion.usage.output_tokens is Some
            ==> reports_usage(streamed(Ok(completion)), completion.events, completion.usage),
        completion.usage.input_tokens is None && completion.usage.output_tokens is None
            ==> streamed(Ok(completion)) == completion.events,
        streamed(Err(message)) == seq![StreamEventModel::Error { message }],
{
}

proof fn lemma_report_keys()
    ensures
        "schema_version"@ != "attempt_id"@,
        "schema_version"@ != "baseline_id"@,
        "schema_version"@ != "terminal"@,
        "schema_version"@ != "final_text"@,
        "schema_version"@ != "turns"@,
        "schema_version"@ != "tool_calls"@,
        "schema_version"@ != "usage"@,
        "schema_version"@ != "trace"@,
        "attempt_id"@ != "baseline_id"@,
        "attempt_id"@ != "terminal"@,
        "attempt_id"@ != "final_text"@,
        "attempt_id"@ != "turns"@,
        "attempt_id"@ != "tool_calls"@,
        "attempt_id"@ != "usage"@,
        "attempt_id"@ != "trace"@,
        "baseline_id"@ != "terminal"@,
        "baseline_id"@ != "final_text"@,
        "baseline_id"@ != "turns"@,
        "baseline_id"@ != "tool_calls"@,
        "baseline_id"@ != "usage"@,
        "baseline_id"@ != "trace"@,
        "terminal"@ != "final_text"@,
        "terminal"@ != "turns"@,
        "terminal"@ != "tool_calls"@,
        "terminal"@ != "usage"@,
        "terminal"@ != "trace"@,
        "final_text"@ != "turns"@,
        "final_text"@ != "tool_calls"@,
        "final_text"@ != "usage"@,
        "final_text"@ != "trace"@,
        "turns"@ != "tool_calls"@,
        "turns"@ != "usage"@,
        "turns"@ != "trace"@,
        "tool_calls"@ != "usage"@,
        "tool_calls"@ != "trace"@,
        "usage"@ != "trace"@,
        "status"@ != "code"@,
        "input"@ != "output"@,
        "input"@ != "cache_read"@,
        "input"@ != "cache_write"@,
        "output"@ != "cache_read"@,
        "output"@ != "cache_write"@,
        "cache_read"@ != "cache_write"@,
        "seq"@ != "type"@,
        "completed"@ != "cancelled"@,
        "completed"@ != "aborted"@,
        "completed"@ != "failed"@,
        "cancelled"@ != "aborted"@,
        "cancelled"@ != "failed"@,
        "aborted"@ != "failed"@,
{
    reveal_strlit("schema_version");
    reveal_strlit("attempt_id");
    reveal_strlit("baseline_id");
    reveal_strlit("terminal");
    reveal_strlit("final_text");
    reveal_strlit("turns");
    reveal_strlit("tool_calls");
    reveal_strlit("usage");
    reveal_strlit("trace");
    reveal_strlit("status");
    reveal_strlit("code");
    reveal_strlit("input");
    reveal_strlit("output");
    reveal_strlit("cache_read");
    reveal_strlit("cache_write");
    reveal_strlit("seq");
    reveal_strlit("type");
    reveal_strlit("completed");
    reveal_strlit("cancelled");
    reveal_strlit("aborted");
    reveal_strlit("failed");
    assert("schema_version"@.len() == 14);
    assert("attempt_id"@.len() == 10);
    assert("baseline_id"@.len() == 11);
    assert("terminal"@.len() == 8);
    assert("final_text"@.len() == 10);
    assert("turns"@.len() == 5);
    assert("tool_calls"@.len() == 10);
    assert("usage"@.len() == 5);
    assert("trace"@.len() == 5);
    assert("status"@.len() == 6);
    assert("code"@.len() == 4);
    assert("input"@.len() == 5);
    assert("output"@.len() == 6);
    assert("cache_read"@.len() == 10);
    assert("cache_write"@.len() == 11);
    assert("seq"@.len() == 3);
    assert("type"@.len() == 4);
    assert("completed"@.len() == 9);
    assert("cancelled"@.len() == 9);
    assert("aborted"@.len() == 7);
    assert("failed"@.len() == 6);
    assert("attempt_id"@[0] != "final_text"@[0]);
    assert("attempt_id"@[0] != "tool_calls"@[0]);
    assert("final_text"@[0] != "tool_calls"@[0]);
    assert("turns"@[0] != "usage"@[0]);
    assert("turns"@[1] != "trace"@[1]);
    assert("usage"@[0] != "trace"@[0]);
    assert("completed"@[1] != "cancelled"@[1]);
}

/// A report names its attempt, tells how the run ended, and holds the last text of the
/// assistant, the turns and calls that were counted, the tokens, and one item for each event.
pub proof fn law_reports_tell_what_happened(
    args: ArgsModel,
    result: Result<(), CoreErrorModel>,
    messages: Seq<MessageModel>,
    events: Seq<EventModel>,
    usage: UsageModel,
)
    ensures
        ({
            let report = report_json(args, result, messages, events, usage);
            &&& report.get("attempt_id"@) == Some(Json::String(args.attempt_id))
            &&& report.get("baseline_id"@) == Some(Json::String(args.baseline_id))
            &&& report.get("final_text"@) == Some(Json::String(last_text(messages)))
            &&& report.get("turns"@) matches Some(Json::Number(NumberModel::Int(turns)))
            &&& turns == how_many(events, |k: EventKindModel| k is TurnStart)
            &&& report.get("tool_calls"@) matches Some(Json::Number(NumberModel::Int(calls)))
            &&& calls == how_many(events, |k: EventKindModel| k is ToolExecutionStart)
            &&& report.get("terminal"@) matches Some(terminal)
            &&& (terminal.get("status"@) == Some(Json::String("completed"@))) == (result is Ok)
            &&& (terminal.get("status"@) == Some(Json::String("cancelled"@))) == (result
                matches Err(CoreErrorModel::Cancelled))
            &&& (terminal.get("status"@) == Some(Json::String("aborted"@))) == (result
                matches Err(CoreErrorModel::ModelAborted { .. }))
            &&& (terminal.get("code"@) == Some(Json::Null)) == (result is Ok)
            &&& report.get("usage"@) matches Some(tokens)
            &&& usage.input_tokens matches Some(n) ==> tokens.get("input"@) == Some(
                Json::Number(NumberModel::Int(n as int)),
            )
            &&& usage.output_tokens matches Some(n) ==> tokens.get("output"@) == Some(
                Json::Number(NumberModel::Int(n as int)),
            )
            &&& usage.input_tokens is None ==> tokens.get("input"@) == Some(
                Json::Number(NumberModel::Int(0)),
            )
            &&& usage.output_tokens is None ==> tokens.get("output"@) == Some(
                Json::Number(NumberModel::Int(0)),
            )
            &&& report.get("trace"@) matches Some(Json::Array(items))
            &&& items.len() == events.len()
            &&& forall|i: int|
                0 <= i < events.len() ==> items[i].get("seq"@) == Some(
                    Json::Number(NumberModel::Int((#[trigger] events[i]).sequence.0 as int)),
                ) && items[i].get("type"@) == Some(Json::String(kind_name(events[i].kind)))
        }),
{
    lemma_report_keys();
    let report = report_json(args, result, messages, events, usage);
    assert(report.get("trace"@) == Some(Json::Array(trace_of(events))));
}

/// The last text is that of the last assistant message: no later message is the assistant's.
pub proof fn law_the_last_text_is_the_assistants(messages: Seq<MessageModel>, i: int)
    requires
        0 <= i < messages.len(),
        messages[i] is Assistant,
        forall|j: int| i < j < messages.len() ==> !((#[trigger] messages[j]) is Assistant),
    ensures
        messages[i] matches MessageModel::Assistant { content, .. } && last_text(messages)
            == content,
    decreases messages.len(),
{
    if i < messages.len() - 1 {
        assert(!(messages[messages.len() - 1] is Assistant));
        law_the_last_text_is_the_assistants(messages.drop_last(), i);
    }
}

/// Counting is counting one by one: each event of the kind adds one, and no other does.
pub proof fn law_events_are_counted_one_by_one(
    events: Seq<EventModel>,
    event: EventModel,
    which: spec_fn(EventKindModel) -> bool,
)
    ensures
        how_many(Seq::empty(), which) == 0,
        which(event.kind) ==> how_many(events.push(event), which) == how_many(events, which) + 1,
        !which(event.kind) ==> how_many(events.push(event), which) == how_many(events, which),
{
    assert(events.push(event).drop_last() =~= events);
}

/// Arguments are complete exactly where each of the flags has a value that is not empty.
pub proof fn law_complete_arguments_are_read(values: Map<Seq<char>, Seq<char>>)
    ensures
        crate::evaluation::read_args(values) is Ok <==> {
            &&& filled(values, "--model"@)
            &&& filled(values, "--task-json"@)
            &&& filled(values, "--workspace"@)
            &&& filled(values, "--capabilities-json"@)
            &&& filled(values, "--result-json"@)
            &&& filled(values, "--attempt-id"@)
            &&& filled(values, "--baseline-id"@)
        },
{
}

/// Whether a flag has a value that is not empty.
pub open spec fn filled(values: Map<Seq<char>, Seq<char>>, flag: Seq<char>) -> bool {
    values.contains_key(flag) && values[flag].len() > 0
}

proof fn lemma_flags_read(args: Seq<Seq<char>>, k: int, values: Map<Seq<char>, Seq<char>>)
    requires
        0 <= k <= args.len(),
        (args.len() - k) % 2 == 0,
        forall|i: int|
            k <= i < args.len() && (i - k) % 2 == 0 ==> stands_at(#[trigger] args[i], "--"@, 0)
                && !values.contains_key(args[i]),
        forall|i: int, j: int|
            k <= i < j < args.len() && (i - k) % 2 == 0 && (j - k) % 2 == 0 ==> (
            #[trigger] args[i]) != (#[trigger] args[j]),
    ensures
        crate::evaluation::flags_from(args, k, values) is Ok,
    decreases args.len() - k,
{
    if k < args.len() {
        assert((k - k) % 2 == 0);
        assert(stands_at(args[k], "--"@, 0));
        let next = values.insert(args[k], args[k + 1]);
        assert forall|i: int|
            k + 2 <= i < args.len() && (i - (k + 2)) % 2 == 0 implies stands_at(
            #[trigger] args[i],
            "--"@,
            0,
        ) && !next.contains_key(args[i]) by {
            assert((i - k) % 2 == 0);
            assert(args[k] != args[i]);
        }
        assert forall|i: int, j: int|
            k + 2 <= i < j < args.len() && (i - (k + 2)) % 2 == 0 && (j - (k + 2)) % 2
                == 0 implies (#[trigger] args[i]) != (#[trigger] args[j]) by {
            assert((i - k) % 2 == 0 && (j - k) % 2 == 0);
        }
        lemma_flags_read(args, k + 2, next);
    }
}

/// Pairs of a flag and a value are taken wherever no flag is repeated.
pub proof fn law_pairs_of_flags_are_taken(args: Seq<Seq<char>>)
    requires
        args.len() % 2 == 0,
        forall|i: int|
            0 <= i < args.len() && i % 2 == 0 ==> stands_at(#[trigger] args[i], "--"@, 0),
        forall|i: int, j: int|
            0 <= i < j < args.len() && i % 2 == 0 && j % 2 == 0 ==> (#[trigger] args[i]) != (
            #[trigger] args[j]),
    ensures
        crate::evaluation::flags_from(args, 0, Map::empty()) is Ok,
{
    lemma_flags_read(args, 0, Map::empty());
}

} // verus!
