//! Hermetic Luau policies.
//!
//! A policy declares prompt additions, prompt-facing tool definitions, and a narrow pre-tool
//! decision. It cannot acquire ambient process, network, file, or MCP authority; a host binds
//! each declared capability explicitly. The engine is `mlua`; what a policy's code returns is
//! known only by running it. How a machine is set up is followed step by step. The other names
//! record what a call of the engine was given and gave: tables and budgets change, so they say
//! nothing of any other call.

use crate::hooks::{BeforeModel, BeforeToolCall};
use crate::policy::{
    accept_source, breach, decided, declared_models, parse_decision, parse_tools, read_tools, DeclaredTool,
    PolicyDecision, PolicyError, PolicyErrorModel, PolicyLimits, PolicyTool, PolicyToolModel, Read,
    POLICY_CHUNK_NAME,
};
use crate::state::CallModel;
use crate::tool::ToolCall;
use mlua::StdLib;
use std::sync::atomic::AtomicUsize;
use std::sync::Arc;
use vstd::prelude::*;
use vstd::string::StringSliceAdditionalSpecFns;

verus! {

broadcast use crate::model::group_views;

/// Diagnostic of a policy whose lock was held by a thread that panicked.
pub const POISONED: &'static str = "policy VM lock was poisoned";

/// `mlua::Lua`, one virtual machine.
#[verifier::external_type_specification]
#[verifier::external_body]
pub struct ExLua(mlua::Lua);

/// `mlua::Table`, a table of a virtual machine.
#[verifier::external_type_specification]
#[verifier::external_body]
pub struct ExTable(mlua::Table);

/// `mlua::Function`, a function of a virtual machine.
#[verifier::external_type_specification]
#[verifier::external_body]
pub struct ExFunction(mlua::Function);

/// `mlua::LuaString`, a string of a virtual machine.
#[verifier::external_type_specification]
#[verifier::external_body]
pub struct ExLuaString(mlua::LuaString);

/// `mlua::Error`, a failure of a virtual machine.
#[verifier::external_type_specification]
#[verifier::external_body]
pub struct ExError(mlua::Error);

/// `mlua::VmState`, what an interrupt tells a virtual machine to do.
#[verifier::external_type_specification]
#[verifier::external_body]
pub struct ExVmState(mlua::VmState);

/// `std::sync::Mutex`, a lock.
#[verifier::external_type_specification]
#[verifier::external_body]
#[verifier::reject_recursive_types(T)]
pub struct ExMutex<T: ?Sized>(std::sync::Mutex<T>);

/// `std::sync::MutexGuard`, a lock that is held.
#[verifier::external_type_specification]
#[verifier::external_body]
#[verifier::reject_recursive_types(T)]
pub struct ExMutexGuard<'a, T: ?Sized + 'a>(std::sync::MutexGuard<'a, T>);

/// What the pre-tool function returned, by its shape.
pub enum Returned {
    /// A string.
    Text(mlua::LuaString),
    /// A table.
    Table(mlua::Table),
    /// Any other value.
    Other,
}

/// Standard libraries of the engine, each loaded or not. The engine has no library for files,
/// processes or native modules.
#[derive(Clone, Copy, Debug, Eq, PartialEq, Structural)]
pub struct Libraries {
    pub coroutine: bool,
    pub table: bool,
    pub os: bool,
    pub string: bool,
    pub utf8: bool,
    pub bit: bool,
    pub math: bool,
    pub buffer: bool,
    pub vector: bool,
    pub integer: bool,
    pub debug: bool,
}

/// How a virtual machine is set up.
#[verifier::ext_equal]
pub struct MachineModel {
    /// Standard libraries that were loaded.
    pub libraries: Libraries,
    /// Bytes that the machine may allocate.
    pub memory_limit: usize,
    /// Whether new code is compiled natively.
    pub jit: bool,
    /// Whether global tables are read-only and script globals isolated.
    pub sandboxed: bool,
    /// The budget that the machine spends at loop and function-call boundaries.
    pub budget: Option<Arc<AtomicUsize>>,
}

/// How a machine is set up. Only the host can change it, so a run leaves it alone.
pub uninterp spec fn setup_of(lua: mlua::Lua) -> MachineModel;

/// Whether a budget was filled with this many checks.
pub uninterp spec fn budget_filled(budget: AtomicUsize, checks: usize) -> bool;

/// Whether one check was taken from a budget.
pub uninterp spec fn check_spent(budget: AtomicUsize) -> bool;

/// Whether a budget was found empty.
pub uninterp spec fn budget_exhausted(budget: AtomicUsize) -> bool;

/// Whether a run of this source in a machine, under this chunk name and with this many checks,
/// gave this table.
pub uninterp spec fn chunk_returned(
    lua: mlua::Lua,
    source: Seq<char>,
    name: Seq<char>,
    checks: usize,
    table: mlua::Table,
) -> bool;

/// Whether a run of this source in a machine, under this chunk name and with this many checks,
/// failed so.
pub uninterp spec fn chunk_failed(
    lua: mlua::Lua,
    source: Seq<char>,
    name: Seq<char>,
    checks: usize,
    error: mlua::Error,
) -> bool;

/// Whether a machine with these libraries was refused so.
pub uninterp spec fn machine_refused(libraries: Libraries, error: mlua::Error) -> bool;

/// Whether a bound on what a machine may allocate was refused so.
pub uninterp spec fn limit_refused(lua: mlua::Lua, bytes: usize, error: mlua::Error) -> bool;

/// Whether switching the sandbox of a machine was refused so.
pub uninterp spec fn sandbox_refused(lua: mlua::Lua, enabled: bool, error: mlua::Error) -> bool;

/// Whether a table with these fields was refused so.
pub uninterp spec fn table_refused(
    lua: mlua::Lua,
    fields: Seq<(Seq<char>, Seq<char>)>,
    error: mlua::Error,
) -> bool;

/// Whether a table was made in a machine with exactly these fields.
pub uninterp spec fn table_made(
    lua: mlua::Lua,
    fields: Seq<(Seq<char>, Seq<char>)>,
    table: mlua::Table,
) -> bool;

/// Whether a read of a field gave this text.
pub uninterp spec fn text_read(table: mlua::Table, key: Seq<char>, text: Seq<char>) -> bool;

/// Whether a read of a field as text failed so.
pub uninterp spec fn text_unread(table: mlua::Table, key: Seq<char>, error: mlua::Error) -> bool;

/// Whether a read of a field as text, if it is there, failed so.
pub uninterp spec fn optional_text_unread(
    table: mlua::Table,
    key: Seq<char>,
    error: mlua::Error,
) -> bool;

/// Whether a read of a field as a table, if it is there, failed so.
pub uninterp spec fn table_unread(table: mlua::Table, key: Seq<char>, error: mlua::Error) -> bool;

/// Whether a read of a field as a function, if it is there, failed so.
pub uninterp spec fn function_unread(
    table: mlua::Table,
    key: Seq<char>,
    error: mlua::Error,
) -> bool;

/// Whether a read of a field gave this text, or nothing.
pub uninterp spec fn optional_text_read(
    table: mlua::Table,
    key: Seq<char>,
    text: Option<Seq<char>>,
) -> bool;

/// Whether a read of a field gave this table, or nothing.
pub uninterp spec fn table_read(
    table: mlua::Table,
    key: Seq<char>,
    found: Option<mlua::Table>,
) -> bool;

/// Whether a read of a field gave this function, or nothing.
pub uninterp spec fn function_read(
    table: mlua::Table,
    key: Seq<char>,
    found: Option<mlua::Function>,
) -> bool;

/// Whether a walk along a table gave these rows.
pub uninterp spec fn rows_read(
    table: mlua::Table,
    rows: Seq<Result<mlua::Table, mlua::Error>>,
) -> bool;

/// Whether a call of a function with one table and this many checks gave this value.
pub uninterp spec fn function_returned(
    function: mlua::Function,
    argument: mlua::Table,
    checks: usize,
    returned: Returned,
) -> bool;

/// Whether a call of a function with one table and this many checks failed so.
pub uninterp spec fn function_failed(
    function: mlua::Function,
    argument: mlua::Table,
    checks: usize,
    error: mlua::Error,
) -> bool;

/// Whether a read of a string failed so.
pub uninterp spec fn string_unread(string: mlua::LuaString, error: mlua::Error) -> bool;

/// Whether a read of a string gave this text.
pub uninterp spec fn string_read(string: mlua::LuaString, text: Seq<char>) -> bool;

/// Whether a failure was shown with this diagnostic.
pub uninterp spec fn failure_shown(error: mlua::Error, text: Seq<char>) -> bool;

/// Whether a failure was raised with this diagnostic.
pub uninterp spec fn failure_raised(error: mlua::Error, text: Seq<char>) -> bool;

/// Whether a lock was found held by a thread that panicked.
pub uninterp spec fn lock_poisoned(lock: std::sync::Mutex<()>) -> bool;

/// Whether an answer to an interrupt lets the machine go on.
pub uninterp spec fn goes_on(state: mlua::VmState) -> bool;

/// `mlua::Lua::new_with`: a virtual machine with these standard libraries. Claimed is only which
/// libraries were loaded, or of which call it is the failure.
#[verifier::external_body]
fn new_machine(libraries: Libraries) -> (r: Result<mlua::Lua, mlua::Error>)
    ensures
        match r {
            Ok(lua) => setup_of(lua).libraries == libraries,
            Err(error) => machine_refused(libraries, error),
        },
{
    let pick = |loaded: bool, flag: StdLib| if loaded { flag } else { StdLib::NONE };
    let flags = pick(libraries.coroutine, StdLib::COROUTINE) | pick(libraries.table, StdLib::TABLE)
        | pick(libraries.os, StdLib::OS) | pick(libraries.string, StdLib::STRING)
        | pick(libraries.utf8, StdLib::UTF8) | pick(libraries.bit, StdLib::BIT)
        | pick(libraries.math, StdLib::MATH) | pick(libraries.buffer, StdLib::BUFFER)
        | pick(libraries.vector, StdLib::VECTOR) | pick(libraries.integer, StdLib::INTEGER)
        | pick(libraries.debug, StdLib::DEBUG);
    mlua::Lua::new_with(flags, mlua::LuaOptions::new())
}

/// `mlua::Lua::set_memory_limit`: bound what a machine may allocate, in bytes. Where it fails,
/// nothing is claimed of the machine.
#[verifier::external_body]
fn limit_memory(lua: &mut mlua::Lua, bytes: usize) -> (r: Result<usize, mlua::Error>)
    ensures
        match r {
            Ok(_) => setup_of(*final(lua)) == (MachineModel {
                memory_limit: bytes,
                ..setup_of(*old(lua))
            }),
            Err(error) => limit_refused(*old(lua), bytes, error),
        },
{
    lua.set_memory_limit(bytes)
}

/// `mlua::Lua::enable_jit`: whether new code is compiled natively.
#[verifier::external_body]
fn enable_jit(lua: &mut mlua::Lua, enabled: bool)
    ensures
        setup_of(*final(lua)) == (MachineModel { jit: enabled, ..setup_of(*old(lua)) }),
{
    lua.enable_jit(enabled)
}

/// `mlua::Lua::sandbox`: whether global tables are read-only and script globals isolated. Where it
/// fails, nothing is claimed of the machine.
#[verifier::external_body]
fn sandbox(lua: &mut mlua::Lua, enabled: bool) -> (r: Result<(), mlua::Error>)
    ensures
        match r {
            Ok(_) => setup_of(*final(lua)) == (MachineModel {
                sandboxed: enabled,
                ..setup_of(*old(lua))
            }),
            Err(error) => sandbox_refused(*old(lua), enabled, error),
        },
{
    lua.sandbox(enabled)
}

/// `mlua::Lua::set_interrupt`: call [`interrupt`] on this budget at loop and function-call
/// boundaries.
#[verifier::external_body]
fn set_interrupt(lua: &mut mlua::Lua, budget: Arc<AtomicUsize>)
    ensures
        setup_of(*final(lua)) == (MachineModel { budget: Some(budget), ..setup_of(*old(lua)) }),
{
    lua.set_interrupt(move |_| interrupt(&budget))
}

/// `AtomicUsize::new`: a budget of this many checks.
#[verifier::external_body]
fn new_budget(checks: usize) -> (r: AtomicUsize)
    ensures
        budget_filled(r, checks),
{
    AtomicUsize::new(checks)
}

/// `AtomicUsize::store`: fill a budget again. The budget is handed back; claimed is only with how
/// many checks it was filled.
#[verifier::external_body]
fn refilled(budget: Arc<AtomicUsize>, checks: usize) -> (r: Arc<AtomicUsize>)
    ensures
        r == budget,
        budget_filled(*r, checks),
{
    budget.store(checks, std::sync::atomic::Ordering::Relaxed);
    budget
}

/// `mlua::Chunk::eval` on a named `mlua::Lua::load`: run a source that returns a table. The source
/// is loaded as text: bytecode, whose consistency the engine does not check, is refused. Only a
/// machine that is confined to these limits, with a full budget, may run one. The result may
/// depend on chance, so claimed is only of which run it is the result or the failure.
#[verifier::external_body]
fn evaluate(
    lua: &mlua::Lua,
    source: &str,
    name: &str,
    budget: &Arc<AtomicUsize>,
    limits: PolicyLimits,
) -> (r: Result<mlua::Table, mlua::Error>)
    requires
        setup_of(*lua) == confinement(limits, *budget),
        budget_filled(**budget, limits.max_interrupt_checks),
    ensures
        match r {
            Ok(table) => chunk_returned(*lua, source@, name@, limits.max_interrupt_checks, table),
            Err(error) => chunk_failed(*lua, source@, name@, limits.max_interrupt_checks, error),
        },
{
    lua.load(source).set_name(name).set_mode(mlua::chunk::ChunkMode::Text).eval()
}

/// Fields by name.
pub open spec fn field_views(fields: Seq<(&str, &str)>) -> Seq<(Seq<char>, Seq<char>)> {
    fields.map_values(|field: (&str, &str)| (field.0@, field.1@))
}

/// `mlua::Lua::create_table_from`: a table with these fields. Claimed is only from which machine
/// and with which fields it was made.
#[verifier::external_body]
fn make_table(lua: &mlua::Lua, fields: Vec<(&str, &str)>) -> (r: Result<mlua::Table, mlua::Error>)
    ensures
        match r {
            Ok(table) => table_made(*lua, field_views(fields@), table),
            Err(error) => table_refused(*lua, field_views(fields@), error),
        },
{
    lua.create_table_from(fields)
}

/// `mlua::Table::get`: a field as a string. Only the machine knows it, so claimed is only which
/// field was read.
#[verifier::external_body]
fn text_at(table: &mlua::Table, key: &str) -> (r: Result<String, mlua::Error>)
    ensures
        match r {
            Ok(text) => text_read(*table, key@, text@),
            Err(error) => text_unread(*table, key@, error),
        },
{
    table.get(key)
}

/// `mlua::Table::get`: a field as a string, if it is there. Claimed is only which field was
/// read.
#[verifier::external_body]
fn optional_text_at(table: &mlua::Table, key: &str) -> (r: Result<Option<String>, mlua::Error>)
    ensures
        match r {
            Ok(text) => optional_text_read(*table, key@, crate::model::opt_view(text)),
            Err(error) => optional_text_unread(*table, key@, error),
        },
{
    table.get(key)
}

/// `mlua::Table::get`: a field as a table, if it is there. Claimed is only which field was read.
#[verifier::external_body]
fn optional_table_at(table: &mlua::Table, key: &str) -> (r: Result<
    Option<mlua::Table>,
    mlua::Error,
>)
    ensures
        match r {
            Ok(found) => table_read(*table, key@, found),
            Err(error) => table_unread(*table, key@, error),
        },
{
    table.get(key)
}

/// `mlua::Table::get`: a field as a function, if it is there. Claimed is only which field was
/// read.
#[verifier::external_body]
fn optional_function_at(table: &mlua::Table, key: &str) -> (r: Result<
    Option<mlua::Function>,
    mlua::Error,
>)
    ensures
        match r {
            Ok(found) => function_read(*table, key@, found),
            Err(error) => function_unread(*table, key@, error),
        },
{
    table.get(key)
}

/// `mlua::Table::sequence_values`: the values at 1, 2 and so on, each as a table. Claimed is
/// only which table was walked.
#[verifier::external_body]
fn tables_of(table: &mlua::Table) -> (r: Vec<Result<mlua::Table, mlua::Error>>)
    ensures
        rows_read(*table, r@),
{
    table.sequence_values().collect()
}

/// `mlua::Function::call`: call a function of a machine with one table, and tell the shape of what
/// it returns. Only a machine that is confined to these limits, with a full budget, may run one.
/// What it returns shows only by running it, so claimed is only of which call it is the result.
#[verifier::external_body]
fn call(
    lua: &mlua::Lua,
    function: &mlua::Function,
    argument: mlua::Table,
    budget: &Arc<AtomicUsize>,
    limits: PolicyLimits,
) -> (r: Result<Returned, mlua::Error>)
    requires
        setup_of(*lua) == confinement(limits, *budget),
        budget_filled(**budget, limits.max_interrupt_checks),
    ensures
        match r {
            Ok(returned) => function_returned(
                *function,
                argument,
                limits.max_interrupt_checks,
                returned,
            ),
            Err(error) => function_failed(
                *function,
                argument,
                limits.max_interrupt_checks,
                error,
            ),
        },
{
    function.call(argument).map(|value| match value {
        mlua::Value::String(text) => Returned::Text(text),
        mlua::Value::Table(table) => Returned::Table(table),
        _ => Returned::Other,
    })
}

/// `mlua::LuaString::to_str`: the text of a string, if it is text. Claimed is only which string
/// was read.
#[verifier::external_body]
fn string_text(string: &mlua::LuaString) -> (r: Result<String, mlua::Error>)
    ensures
        match r {
            Ok(text) => string_read(*string, text@),
            Err(error) => string_unread(*string, error),
        },
{
    string.to_str().map(|text| text.to_owned())
}

/// `mlua::Error`'s `to_string`: the diagnostic of a failure. Its words are the engine's; claimed
/// is only which failure they show.
#[verifier::external_body]
fn error_text(error: &mlua::Error) -> (r: String)
    ensures
        failure_shown(*error, r@),
{
    error.to_string()
}

/// `mlua::Error::RuntimeError`: a failure with a diagnostic.
#[verifier::external_body]
fn failure(message: String) -> (r: mlua::Error)
    ensures
        failure_raised(r, message@),
{
    mlua::Error::RuntimeError(message)
}

/// `mlua::VmState::Continue`: let the machine go on.
#[verifier::external_body]
fn go_on() -> (r: mlua::VmState)
    ensures
        goes_on(r),
{
    mlua::VmState::Continue
}

/// `AtomicUsize::fetch_update`: replace a counter by [`after_check`] of it, and say whether
/// there was a replacement: if there was, one check was taken, and else none was left. Other
/// threads may change the counter, so no value is claimed.
#[verifier::external_body]
fn spend(budget: &AtomicUsize) -> (r: bool)
    ensures
        r ==> check_spent(*budget),
        !r ==> budget_exhausted(*budget),
{
    let order = std::sync::atomic::Ordering::Relaxed;
    budget.fetch_update(order, order, after_check).is_ok()
}

/// `std::sync::Mutex::lock`: wait for a lock and hold it. It fails where a thread panicked with
/// it.
#[verifier::external_body]
fn acquire(lock: &std::sync::Mutex<()>) -> (r: Option<std::sync::MutexGuard<'_, ()>>)
    ensures
        r is None ==> lock_poisoned(*lock),
{
    lock.lock().ok()
}

/// `std::sync::Mutex::new`: a lock that nobody holds.
#[verifier::external_body]
fn new_lock() -> (r: std::sync::Mutex<()>) {
    std::sync::Mutex::new(())
}

/// What a budget of interrupt checks is after one check, if it allows one.
pub fn after_check(remaining: usize) -> (r: Option<usize>)
    ensures
        match r {
            Some(left) => remaining > 0 && left == remaining - 1,
            None => remaining == 0,
        },
        r == after_checks(remaining, 1),
{
    assert(after_checks(remaining, 0) == Some(remaining));
    remaining.checked_sub(1)
}

/// What a budget is after this many checks, if it allows them.
pub open spec fn after_checks(budget: usize, count: nat) -> Option<usize>
    decreases count,
{
    if count == 0 {
        Some(budget)
    } else {
        match after_checks(budget, (count - 1) as nat) {
            Some(left) => if left > 0 {
                Some((left - 1) as usize)
            } else {
                None
            },
            None => None,
        }
    }
}

/// A budget allows exactly as many checks as it was filled with, one after another.
pub proof fn law_budgets_are_finite(budget: usize, count: nat)
    ensures
        after_checks(budget, count) == (if count <= budget {
            Some((budget - count) as usize)
        } else {
            None
        }),
    decreases count,
{
    if count > 0 {
        law_budgets_are_finite(budget, (count - 1) as nat);
    }
}

/// Spend one interrupt check: go on, or fail once the budget is exhausted.
fn interrupt(budget: &AtomicUsize) -> (r: Result<mlua::VmState, mlua::Error>)
    ensures
        match r {
            Ok(state) => check_spent(*budget) && goes_on(state),
            Err(error) => budget_exhausted(*budget) && failure_raised(
                error,
                "Luau policy interrupt budget exhausted"@,
            ),
        },
{
    if spend(budget) {
        Ok(go_on())
    } else {
        Err(failure("Luau policy interrupt budget exhausted".to_owned()))
    }
}

fn runtime_error(error: &mlua::Error) -> (r: PolicyError)
    ensures
        r matches PolicyError::Runtime { message } && failure_shown(*error, message@),
{
    PolicyError::Runtime { message: error_text(error) }
}

fn told<T>(field: Result<T, mlua::Error>) -> (r: Result<T, String>)
    ensures
        match field {
            Ok(value) => r == Ok::<T, String>(value),
            Err(error) => r matches Err(text) && failure_shown(error, text@),
        },
{
    match field {
        Ok(value) => Ok(value),
        Err(error) => Err(error_text(&error)),
    }
}

/// Whether a field was read as text, or the failure to read it told.
pub open spec fn field_of(table: mlua::Table, key: Seq<char>, field: Result<String, String>) -> bool {
    match field {
        Ok(text) => text_read(table, key, text@),
        Err(text) => exists|error: mlua::Error| #[trigger]
            text_unread(table, key, error) && failure_shown(error, text@),
    }
}

/// Whether a declared tool was read from this table.
pub open spec fn tool_of(table: mlua::Table, tool: DeclaredTool) -> bool {
    &&& field_of(table, "name"@, tool.name)
    &&& field_of(table, "description"@, tool.description)
    &&& field_of(table, "capability"@, tool.capability)
    &&& field_of(table, "schema_json"@, tool.schema_json)
    &&& field_of(table, "execution_mode"@, tool.execution_mode)
    &&& match tool.handler_source {
        Ok(source) => optional_text_read(
            table,
            "handler_source"@,
            crate::model::opt_view(source),
        ),
        Err(text) => exists|error: mlua::Error| #[trigger]
            optional_text_unread(table, "handler_source"@, error) && failure_shown(error, text@),
    }
}

/// Whether the declared tools were read from these rows, one each.
pub open spec fn tools_of(
    rows: Seq<Result<mlua::Table, mlua::Error>>,
    items: Seq<Result<DeclaredTool, String>>,
) -> bool {
    &&& rows.len() == items.len()
    &&& forall|i: int|
        0 <= i < rows.len() ==> match (#[trigger] rows[i], items[i]) {
            (Ok(table), Ok(tool)) => tool_of(table, tool),
            (Err(error), Err(text)) => failure_shown(error, text@),
            _ => false,
        }
}

/// Whether a declaration was read from the table that a policy returned.
pub open spec fn declaration_of(table: mlua::Table, declaration: Declaration) -> bool {
    &&& field_of(table, "system_prompt_append"@, declaration.system_prompt_append)
    &&& declaration.before_tool_call matches Err(text) ==> exists|error: mlua::Error| #[trigger]
        function_unread(table, "before_tool_call"@, error) && failure_shown(error, text@)
    &&& match declaration.tools {
        Err(text) => exists|error: mlua::Error| #[trigger]
            table_unread(table, "tools"@, error) && failure_shown(error, text@),
        Ok(None) => table_read(table, "tools"@, None),
        Ok(Some(items)) => exists|list: mlua::Table, rows: Seq<Result<mlua::Table, mlua::Error>>|
            table_read(table, "tools"@, Some(list)) && #[trigger] rows_read(list, rows) && tools_of(
                rows,
                items@,
            ),
    }
}

fn declared(table: &mlua::Table) -> (r: DeclaredTool)
    ensures
        tool_of(*table, r),
{
    DeclaredTool {
        name: told(text_at(table, "name")),
        description: told(text_at(table, "description")),
        capability: told(text_at(table, "capability")),
        schema_json: told(text_at(table, "schema_json")),
        handler_source: told(optional_text_at(table, "handler_source")),
        execution_mode: told(text_at(table, "execution_mode")),
    }
}

/// What a declaration holds, as the engine handed it over. An error is its diagnostic.
#[derive(Debug)]
pub struct Declaration {
    /// Field `system_prompt_append`.
    pub system_prompt_append: Result<String, String>,
    /// Whether field `before_tool_call`, which may be absent, is well formed.
    pub before_tool_call: Result<(), String>,
    /// Field `tools`, which may be absent.
    pub tools: Result<Option<Vec<Result<DeclaredTool, String>>>, String>,
}

/// What a declaration gives: the prompt addition and the tools.
pub open spec fn declares(declaration: Declaration) -> Read<(Seq<char>, Seq<PolicyToolModel>)> {
    match declaration.system_prompt_append {
        Err(error) => Err(breach(error@)),
        Ok(prompt) => match declaration.before_tool_call {
            Err(error) => Err(breach(error@)),
            Ok(()) => match declaration.tools {
                Err(error) => Err(breach(error@)),
                Ok(None) => Ok((prompt@, Seq::empty())),
                Ok(Some(items)) => match read_tools(declared_models(items@)) {
                    Err(error) => Err(error),
                    Ok(tools) => Ok((prompt@, tools)),
                },
            },
        },
    }
}

fn contract(message: String) -> (r: PolicyError)
    ensures
        r@ == breach(message@),
{
    PolicyError::Contract { message }
}

/// Read a declaration.
pub fn parse_declaration(declaration: Declaration) -> (r: Result<
    (String, Vec<PolicyTool>),
    PolicyError,
>)
    ensures
        match r {
            Ok((prompt, tools)) => declares(declaration) == Ok::<_, PolicyErrorModel>(
                (prompt@, crate::model::views(tools@)),
            ),
            Err(error) => declares(declaration) == Err::<
                (Seq<char>, Seq<PolicyToolModel>),
                PolicyErrorModel,
            >(error@),
        },
{
    let prompt = match declaration.system_prompt_append {
        Err(error) => return Err(contract(error)),
        Ok(prompt) => prompt,
    };
    if let Err(error) = declaration.before_tool_call {
        return Err(contract(error));
    }
    let items = match declaration.tools {
        Err(error) => return Err(contract(error)),
        Ok(None) => {
            let none: Vec<PolicyTool> = Vec::new();
            assert(crate::model::views(none@) =~= Seq::<PolicyToolModel>::empty());
            return Ok((prompt, none));
        },
        Ok(Some(items)) => items,
    };
    match parse_tools(items) {
        Err(error) => Err(error),
        Ok(tools) => Ok((prompt, tools)),
    }
}

/// A loaded, sandboxed Luau policy.
pub struct LuaPolicy {
    lock: std::sync::Mutex<()>,
    lua: mlua::Lua,
    before_tool_call: Option<mlua::Function>,
    interrupt_budget: Arc<AtomicUsize>,
    limits: PolicyLimits,
    system_prompt_append: String,
    tools: Vec<PolicyTool>,
}

/// Model of a [`LuaPolicy`]: what it declared. The virtual machine is not modelled.
#[verifier::ext_equal]
pub struct PolicyModel {
    pub system_prompt_append: Seq<char>,
    pub tools: Seq<PolicyToolModel>,
    pub decides: bool,
}

impl View for LuaPolicy {
    type V = PolicyModel;

    closed spec fn view(&self) -> PolicyModel {
        PolicyModel {
            system_prompt_append: self.system_prompt_append@,
            tools: crate::model::views(self.tools@),
            decides: self.before_tool_call is Some,
        }
    }
}

/// Whether no two tools share a name.
pub open spec fn distinct_tools(tools: Seq<PolicyToolModel>) -> bool {
    forall|i: int, j: int|
        0 <= i < j < tools.len() ==> (#[trigger] tools[i]).name != (#[trigger] tools[j]).name
}

fn read_declaration(
    table: &mlua::Table,
    prompt: Result<String, String>,
    hook: &Result<Option<mlua::Function>, mlua::Error>,
) -> (r: Declaration)
    requires
        field_of(*table, "system_prompt_append"@, prompt),
        *hook matches Err(error) ==> function_unread(*table, "before_tool_call"@, error),
    ensures
        r.before_tool_call is Ok <==> hook is Ok,
        declaration_of(*table, r),
{
    let before_tool_call = match hook {
        Ok(_) => Ok(()),
        Err(error) => Err(error_text(error)),
    };
    let tools = match optional_table_at(table, "tools") {
        Err(error) => Err(error_text(&error)),
        Ok(None) => Ok(None),
        Ok(Some(list)) => {
            let tables = tables_of(&list);
            let mut items: Vec<Result<DeclaredTool, String>> = Vec::new();
            let mut i: usize = 0;
            while i < tables.len()
                invariant
                    i <= tables@.len(),
                    tools_of(tables@.take(i as int), items@),
                decreases tables.len() - i,
            {
                let item = match &tables[i] {
                    Ok(table) => Ok(declared(table)),
                    Err(error) => Err(error_text(error)),
                };
                items.push(item);
                i = i + 1;
                assert(tools_of(tables@.take(i as int), items@)) by {
                    assert(tables@.take(i as int).drop_last() =~= tables@.take(i - 1));
                    assert forall|k: int| 0 <= k < i implies match (
                        #[trigger] tables@.take(i as int)[k],
                        items@[k],
                    ) {
                        (Ok(table), Ok(tool)) => tool_of(table, tool),
                        (Err(error), Err(text)) => failure_shown(error, text@),
                        _ => false,
                    } by {
                        if k < i - 1 {
                            assert(tables@.take(i - 1)[k] == tables@[k]);
                        }
                    }
                }
            }
            assert(tables@.take(tables@.len() as int) =~= tables@);
            Ok(Some(items))
        },
    };
    Declaration { system_prompt_append: prompt, before_tool_call, tools }
}

/// Whether a decision was read from a returned value.
pub open spec fn decision_of(returned: Returned, decision: PolicyDecision) -> bool {
    match (returned, decision) {
        (Returned::Text(string), PolicyDecision::Text(Ok(text))) => string_read(string, text@),
        (Returned::Text(string), PolicyDecision::Text(Err(text))) => exists|error: mlua::Error|
            #[trigger] string_unread(string, error) && failure_shown(error, text@),
        (Returned::Table(table), PolicyDecision::Table { action, reason }) => field_of(
            table,
            "action"@,
            action,
        ) && field_of(table, "reason"@, reason),
        (Returned::Other, PolicyDecision::Other) => true,
        _ => false,
    }
}

/// The fields that tell the pre-tool function of a call.
pub open spec fn call_fields(call: CallModel) -> Seq<(Seq<char>, Seq<char>)> {
    seq![("id"@, call.id), ("name"@, call.name), ("arguments_json"@, call.arguments)]
}

/// Whether a table was made in the machine to tell of a call.
pub open spec fn asked(lua: mlua::Lua, call: CallModel, argument: mlua::Table) -> bool {
    table_made(lua, call_fields(call), argument)
}

/// Whether this is the diagnostic of a failure to run the pre-tool function on a call: the table
/// that tells of the call could not be made, or the function failed on it.
pub open spec fn consultation_failed(
    lua: mlua::Lua,
    function: mlua::Function,
    call: CallModel,
    checks: usize,
    message: Seq<char>,
) -> bool {
    exists|error: mlua::Error| #[trigger]
        failure_shown(error, message) && (table_refused(lua, call_fields(call), error) || exists|
            argument: mlua::Table,
        |
            asked(lua, call, argument) && #[trigger] function_failed(
                function,
                argument,
                checks,
                error,
            ))
}

/// Whether this outcome is what the pre-tool function decided of a call, with this many checks.
pub open spec fn consulted(
    lua: mlua::Lua,
    function: mlua::Function,
    call: CallModel,
    checks: usize,
    outcome: Read<BeforeModel>,
) -> bool {
    exists|argument: mlua::Table, returned: Returned, decision: PolicyDecision|
        asked(lua, call, argument) && #[trigger] function_returned(
            function,
            argument,
            checks,
            returned,
        ) && #[trigger] decision_of(returned, decision) && decided(decision) == outcome
}

/// A decision or its failure, by views.
pub open spec fn decision_view(outcome: Result<BeforeToolCall, PolicyError>) -> Read<BeforeModel> {
    match outcome {
        Ok(decision) => Ok(decision@),
        Err(error) => Err(error@),
    }
}

fn read_decision(returned: &Returned) -> (r: PolicyDecision)
    ensures
        decision_of(*returned, r),
{
    match returned {
        Returned::Text(text) => PolicyDecision::Text(told(string_text(text))),
        Returned::Table(table) => PolicyDecision::Table {
            action: told(text_at(table, "action")),
            reason: told(text_at(table, "reason")),
        },
        Returned::Other => PolicyDecision::Other,
    }
}

/// The standard libraries of a policy: pure ones only, so that a policy reaches neither the
/// operating system nor the engine's internals.
pub open spec fn policy_libraries() -> Libraries {
    Libraries {
        coroutine: true,
        table: true,
        os: false,
        string: true,
        utf8: true,
        bit: false,
        math: true,
        buffer: false,
        vector: false,
        integer: false,
        debug: false,
    }
}

/// How the machine of a policy is set up under these limits, spending this budget.
pub open spec fn confinement(limits: PolicyLimits, budget: Arc<AtomicUsize>) -> MachineModel {
    MachineModel {
        libraries: policy_libraries(),
        memory_limit: limits.max_memory_bytes,
        jit: true,
        sandboxed: true,
        budget: Some(budget),
    }
}

/// Whether a confined run of the source with a full budget gave this table.
pub open spec fn run_confined(
    lua: mlua::Lua,
    budget: Arc<AtomicUsize>,
    limits: PolicyLimits,
    source: Seq<char>,
    table: mlua::Table,
) -> bool {
    &&& confined_by(lua, limits, budget)
    &&& chunk_returned(lua, source, POLICY_CHUNK_NAME@, limits.max_interrupt_checks, table)
}

/// Whether this failure of the engine comes from setting up the machine of a policy, or from the
/// confined run of its source.
pub open spec fn run_failed(source: Seq<char>, limits: PolicyLimits, error: mlua::Error) -> bool {
    ||| machine_refused(policy_libraries(), error)
    ||| exists|lua: mlua::Lua| #[trigger]
        limit_refused(lua, limits.max_memory_bytes, error) && setup_of(lua).libraries
            == policy_libraries()
    ||| exists|lua: mlua::Lua| #[trigger]
        sandbox_refused(lua, true, error) && setup_of(lua).libraries == policy_libraries()
            && setup_of(lua).memory_limit == limits.max_memory_bytes && setup_of(lua).jit
    ||| exists|lua: mlua::Lua, budget: Arc<AtomicUsize>|
        chunk_failed(
            lua,
            source,
            POLICY_CHUNK_NAME@,
            limits.max_interrupt_checks,
            error,
        ) && #[trigger] confined_by(lua, limits, budget)
}

/// Whether this is the diagnostic of such a failure.
pub open spec fn run_failure_shown(
    source: Seq<char>,
    limits: PolicyLimits,
    message: Seq<char>,
) -> bool {
    exists|error: mlua::Error| #[trigger]
        failure_shown(error, message) && run_failed(source, limits, error)
}

/// Whether a machine is confined to these limits with a full budget.
pub open spec fn confined_by(
    lua: mlua::Lua,
    limits: PolicyLimits,
    budget: Arc<AtomicUsize>,
) -> bool {
    &&& setup_of(lua) == confinement(limits, budget)
    &&& budget_filled(*budget, limits.max_interrupt_checks)
}

/// Whether this failure to load a policy comes from its run: the engine failed, or what the
/// confined run declared breaks the contract.
pub open spec fn load_failed(
    source: Seq<char>,
    limits: PolicyLimits,
    error: PolicyErrorModel,
) -> bool {
    match error {
        PolicyErrorModel::Runtime { message } => run_failure_shown(source, limits, message),
        _ => exists|
            lua: mlua::Lua,
            budget: Arc<AtomicUsize>,
            table: mlua::Table,
            declaration: Declaration,
        | #[trigger]
            run_confined(lua, budget, limits, source, table) && #[trigger] declaration_of(
                table,
                declaration,
            ) && declares(declaration) == Err::<(Seq<char>, Seq<PolicyToolModel>), _>(error),
    }
}

impl LuaPolicy {
    /// The virtual machine.
    pub closed spec fn machine(&self) -> mlua::Lua {
        self.lua
    }

    /// The pre-tool function, if the policy has one.
    pub closed spec fn decider(&self) -> Option<mlua::Function> {
        self.before_tool_call
    }

    /// The lock that lets one call be decided at a time.
    pub closed spec fn lock(&self) -> std::sync::Mutex<()> {
        self.lock
    }

    /// The budget that the machine spends.
    pub closed spec fn budget(&self) -> Arc<AtomicUsize> {
        self.interrupt_budget
    }

    /// The limits that the policy was loaded with.
    pub closed spec fn limits(&self) -> PolicyLimits {
        self.limits
    }

    /// Whether the machine is confined to these limits: it has only the pure libraries, is
    /// sandboxed, may allocate and spend what the limits say, and nothing more.
    pub open spec fn confined(&self, limits: PolicyLimits) -> bool {
        &&& self.limits() == limits
        &&& setup_of(self.machine()) == confinement(limits, self.budget())
    }

    /// A policy is confined to its limits.
    #[verifier::type_invariant]
    closed spec fn stays_confined(self) -> bool {
        setup_of(self.lua) == confinement(self.limits, self.interrupt_budget)
    }

    /// Whether this policy is what a confined run of the source declared.
    pub open spec fn loaded_from(&self, source: Seq<char>) -> bool {
        exists|table: mlua::Table, declaration: Declaration| #[trigger]
            run_confined(self.machine(), self.budget(), self.limits(), source, table)
                && #[trigger] declaration_of(table, declaration) && function_read(
                table,
                "before_tool_call"@,
                self.decider(),
            ) && declares(declaration) == Ok::<_, PolicyErrorModel>(
                (self@.system_prompt_append, self@.tools),
            )
    }

    /// Load a policy with the conservative default limits.
    pub fn load(source: &str) -> (r: Result<LuaPolicy, PolicyError>)
        ensures
            match PolicyLimits::conservative().refusal(source.spec_bytes().len() as int) {
                Some(error) => r matches Err(e) && e@ == error,
                None => match r {
                    Ok(policy) => policy.loaded_from(source@) && policy.confined(PolicyLimits::conservative())
                        && distinct_tools(policy@.tools),
                    Err(error) => (error is Runtime || error is Contract) && load_failed(
                        source@,
                        PolicyLimits::conservative(),
                        error@,
                    ),
                },
            },
    {
        LuaPolicy::load_with_limits(source, PolicyLimits::default())
    }

    /// Load a policy with host-selected, finite resource limits.
    ///
    /// Whether an accepted source is a policy, and what it declares, is decided by running it;
    /// [`parse_declaration`] says what each declaration gives.
    pub fn load_with_limits(source: &str, limits: PolicyLimits) -> (r: Result<
        LuaPolicy,
        PolicyError,
    >)
        ensures
            match limits.refusal(source.spec_bytes().len() as int) {
                Some(error) => r matches Err(e) && e@ == error,
                None => match r {
                    Ok(policy) => policy.loaded_from(source@) && policy.confined(limits)
                        && distinct_tools(policy@.tools),
                    Err(error) => (error is Runtime || error is Contract) && load_failed(
                        source@,
                        limits,
                        error@,
                    ),
                },
            },
    {
        if let Err(error) = accept_source(source.as_bytes().len(), limits) {
            return Err(error);
        }
        let mut lua = match new_machine(
            Libraries {
                coroutine: true,
                table: true,
                os: false,
                string: true,
                utf8: true,
                bit: false,
                math: true,
                buffer: false,
                vector: false,
                integer: false,
                debug: false,
            },
        ) {
            Err(error) => {
                assert(run_failed(source@, limits, error));
                return Err(runtime_error(&error));
            },
            Ok(lua) => lua,
        };
        if let Err(error) = limit_memory(&mut lua, limits.max_memory_bytes) {
            assert(run_failed(source@, limits, error));
            return Err(runtime_error(&error));
        }
        enable_jit(&mut lua, true);
        if let Err(error) = sandbox(&mut lua, true) {
            assert(run_failed(source@, limits, error));
            return Err(runtime_error(&error));
        }
        let interrupt_budget = Arc::new(new_budget(limits.max_interrupt_checks));
        set_interrupt(&mut lua, interrupt_budget.clone());
        assert(confined_by(lua, limits, interrupt_budget));
        let table = match evaluate(
            &lua,
            source,
            POLICY_CHUNK_NAME,
            &interrupt_budget,
            limits,
        ) {
            Err(error) => {
                assert(run_failed(source@, limits, error));
                return Err(runtime_error(&error));
            },
            Ok(table) => table,
        };
        let prompt = told(text_at(&table, "system_prompt_append"));
        let hook = optional_function_at(&table, "before_tool_call");
        let declaration = read_declaration(&table, prompt, &hook);
        assert(run_confined(lua, interrupt_budget, limits, source@, table));
        match parse_declaration(declaration) {
            Err(error) => {
                proof {
                    lemma_declares_faults(declaration);
                    assert(declaration_of(table, declaration));
                }
                Err(error)
            },
            Ok((system_prompt_append, tools)) => {
                proof {
                    lemma_declared_tools_are_distinct(declaration);
                    assert(declaration_of(table, declaration));
                }
                match hook {
                    Err(error) => Err(runtime_error(&error)),
                    Ok(before_tool_call) => {
                        let policy = LuaPolicy {
                            lock: new_lock(),
                            lua,
                            before_tool_call,
                            interrupt_budget,
                            limits,
                            system_prompt_append,
                            tools,
                        };
                        assert(run_confined(
                            policy.machine(),
                            policy.budget(),
                            policy.limits(),
                            source@,
                            table,
                        ));
                        Ok(policy)
                    },
                }
            },
        }
    }

    /// Text the host may append after its pinned system prompt.
    pub fn system_prompt_append(&self) -> (r: &str)
        ensures
            r@ == self@.system_prompt_append,
    {
        self.system_prompt_append.as_str()
    }

    /// The ordered, authority-free tool declarations.
    pub fn tools(&self) -> (r: &Vec<PolicyTool>)
        ensures
            crate::model::views(r@) == self@.tools,
    {
        &self.tools
    }

    /// Evaluate the optional pre-tool decision without granting the policy an effect.
    ///
    /// A policy without such a decision allows every call. Otherwise its function is run on a
    /// table with the fields `id`, `name` and `arguments_json`, and [`parse_decision`] says what
    /// each returned value decides. One call is decided at a time, and each run may spend the
    /// budget of the limits afresh.
    pub fn before_tool_call(&self, call: &ToolCall) -> (r: Result<BeforeToolCall, PolicyError>)
        ensures
            match r {
                Err(PolicyError::Runtime { message }) => (message@ == POISONED@ && lock_poisoned(
                    self.lock(),
                )) || (self.decider() matches Some(function) && {
                    let checks = self.limits().max_interrupt_checks;
                    &&& self.confined(self.limits())
                    &&& budget_filled(*self.budget(), checks)
                    &&& consultation_failed(self.machine(), function, call@, checks, message@)
                        || consulted(self.machine(), function, call@, checks, decision_view(r))
                }),
                _ => match self.decider() {
                    None => r matches Ok(decision) && decision is Allow,
                    Some(function) => {
                        &&& self.confined(self.limits())
                        &&& budget_filled(*self.budget(), self.limits().max_interrupt_checks)
                        &&& consulted(
                            self.machine(),
                            function,
                            call@,
                            self.limits().max_interrupt_checks,
                            decision_view(r),
                        )
                    },
                },
            },
    {
        let held = acquire(&self.lock);
        if held.is_none() {
            return Err(PolicyError::Runtime { message: POISONED.to_string() });
        }
        let function = match &self.before_tool_call {
            None => return Ok(BeforeToolCall::Allow),
            Some(function) => function,
        };
        proof {
            use_type_invariant(self);
        }
        let checks: usize = self.limits.max_interrupt_checks;
        let budget = refilled(self.interrupt_budget.clone(), checks);
        let mut fields: Vec<(&str, &str)> = Vec::new();
        fields.push(("id", call.id.as_str()));
        fields.push(("name", call.name.as_str()));
        fields.push(("arguments_json", call.arguments.as_str()));
        assert(field_views(fields@) =~= call_fields(call@));
        let table = match make_table(&self.lua, fields) {
            Err(error) => return Err(runtime_error(&error)),
            Ok(table) => table,
        };
        let returned = match self::call(&self.lua, function, table, &budget, self.limits) {
            Err(error) => return Err(runtime_error(&error)),
            Ok(returned) => returned,
        };
        let decision = read_decision(&returned);
        assert(asked(self.lua, call@, table) && function_returned(
            *function,
            table,
            checks,
            returned,
        ) && decision_of(returned, decision));
        parse_decision(decision)
    }
}

proof fn lemma_declares_faults(declaration: Declaration)
    ensures
        declares(declaration) matches Err(error) ==> error is Contract,
{
    if let Ok(Some(items)) = declaration.tools {
        crate::policy::lemma_tool_faults(declared_models(items@));
    }
}

proof fn lemma_declared_tools_are_distinct(declaration: Declaration)
    ensures
        declares(declaration) matches Ok(pair) ==> distinct_tools(pair.1),
{
    if let Ok(Some(items)) = declaration.tools {
        crate::policy::law_tool_names_are_distinct(declared_models(items@));
    }
}

} // verus!
