//! What a manifest lets through: told by the members of its text and by the grants it was made of.

use crate::capability::{
    assembled, denial, granted, grants_before, law_grant_is_ordered, named_at, read_grant,
    read_manifest, read_modules, read_operation, read_operations, AgentOperation, CapabilityErrorModel, CapabilityModule,
    GrantModel, JsonOperation, ManifestModel, McpOperation, OperationModel,
    TaskOperation, TimeOperation, TraceOperation, CAPABILITY_ABI_VERSION,
};
use crate::json::{member, Json, NumberModel};
use vstd::prelude::*;

verus! {

/// An operation covers itself. A permission for a server covers more only where it names no
/// target: then any target of the same method of the same server.
pub proof fn law_operations_cover_only_themselves(given: OperationModel, wanted: OperationModel)
    ensures
        given.covers(wanted) <==> given == wanted || (given is Mcp && wanted is Mcp
            && given->Mcp_0.target is None && given->Mcp_0.server == wanted->Mcp_0.server
            && given->Mcp_0.operation == wanted->Mcp_0.operation),
{
    if let OperationModel::Mcp(a) = given {
        if let OperationModel::Mcp(b) = wanted {
            if a.allows(b) && a.target is Some {
                assert(a =~= b);
            }
        }
    }
}

/// A list of operations is granted exactly where all of them belong to the module and none is
/// listed twice; what is granted is what is listed.
pub proof fn law_grants_are_what_is_listed(module: CapabilityModule, ops: Seq<OperationModel>)
    ensures
        granted(module, ops) is Ok <==> (forall|i: int|
            0 <= i < ops.len() ==> (#[trigger] ops[i]).module() == module) && ops.no_duplicates(),
        granted(module, ops) matches Ok(s) ==> forall|x: OperationModel| #[trigger]
            s.contains(x) <==> ops.contains(x),
    decreases ops.len(),
{
    law_grant_is_ordered(module, ops);
    if ops.len() > 0 {
        let front = ops.drop_last();
        law_grants_are_what_is_listed(module, front);
        let last = ops.last();
        assert(ops =~= front.push(last));
        if granted(module, ops) is Ok {
            let s = granted(module, front)->Ok_0;
            assert(!s.contains(last));
            assert(!front.contains(last));
            assert forall|i: int| 0 <= i < ops.len() implies (#[trigger] ops[i]).module()
                == module by {
                if i < front.len() {
                    assert(front[i] == ops[i]);
                }
            }
            assert forall|i: int, j: int| 0 <= i < ops.len() && 0 <= j < ops.len() && i
                != j implies ops[i] != ops[j] by {
                if i < front.len() && j < front.len() {
                    assert(front[i] == ops[i] && front[j] == ops[j]);
                } else if i < front.len() {
                    assert(front.contains(front[i]));
                } else {
                    assert(front.contains(front[j]));
                }
            }
        }
        if (forall|i: int| 0 <= i < ops.len() ==> (#[trigger] ops[i]).module() == module)
            && ops.no_duplicates() {
            assert forall|i: int| 0 <= i < front.len() implies (#[trigger] front[i]).module()
                == module by {
                assert(front[i] == ops[i]);
            }
            assert forall|i: int, j: int| 0 <= i < front.len() && 0 <= j < front.len() && i
                != j implies front[i] != front[j] by {
                assert(front[i] == ops[i] && front[j] == ops[j]);
            }
            let s = granted(module, front)->Ok_0;
            assert(!front.contains(last)) by {
                if front.contains(last) {
                    let k = choose|k: int| 0 <= k < front.len() && front[k] == last;
                    assert(ops[k] == ops[ops.len() - 1]);
                }
            }
            assert(!s.contains(last));
            assert(ops[ops.len() - 1].module() == module);
        }
    }
}

/// The manifest of some grants has, for each module, the one grant that names it.
pub proof fn law_manifests_hold_their_grants(grants: Seq<GrantModel>)
    ensures
        assembled(grants) matches Ok(manifest) ==> {
            &&& manifest.abi_version == CAPABILITY_ABI_VERSION
            &&& forall|i: int|
                0 <= i < grants.len() ==> manifest.get((#[trigger] grants[i]).module) == Some(
                    grants[i],
                )
            &&& forall|module: CapabilityModule|
                (#[trigger] manifest.get(module)) matches Some(grant) ==> grant.module == module
                    && grants.contains(grant)
            &&& forall|i: int, j: int|
                0 <= i < j < grants.len() ==> (#[trigger] grants[i]).module != (
                #[trigger] grants[j]).module
        },
    decreases grants.len(),
{
    if grants.len() > 0 && assembled(grants) is Ok {
        let front = grants.drop_last();
        law_manifests_hold_their_grants(front);
        let before = assembled(front)->Ok_0;
        let manifest = assembled(grants)->Ok_0;
        let last = grants.last();
        assert forall|i: int| 0 <= i < grants.len() implies manifest.get(
            (#[trigger] grants[i]).module,
        ) == Some(grants[i]) by {
            if i < front.len() {
                assert(front[i] == grants[i]);
                assert(before.get(front[i].module) is Some);
            }
        }
        assert forall|module: CapabilityModule|
            (#[trigger] manifest.get(module)) matches Some(grant) implies manifest.get(
            module,
        )->0.module == module && grants.contains(manifest.get(module)->0) by {
            if module == last.module {
                assert(manifest.get(module) == Some(last));
                assert(grants[grants.len() - 1] == last);
            } else {
                assert(manifest.get(module) == before.get(module));
                let k = choose|k: int| 0 <= k < front.len() && front[k] == before.get(module)->0;
                assert(grants[k] == front[k]);
            }
        }
        assert forall|i: int, j: int| 0 <= i < j < grants.len() implies (
        #[trigger] grants[i]).module != (#[trigger] grants[j]).module by {
            assert(front[i] == grants[i]);
            if j < front.len() {
                assert(front[j] == grants[j]);
            }
        }
    }
}

/// An operation is let through exactly where some operation that is granted for its own module
/// covers it. A manifest without grants lets nothing through.
pub proof fn law_only_what_is_granted_is_authorized(
    manifest: ManifestModel,
    wanted: OperationModel,
)
    ensures
        manifest.authorizes(wanted) <==> (manifest.get(wanted.module()) matches Some(grant)
            && exists|i: int|
            0 <= i < grant.operations.len() && (#[trigger] grant.operations[i]).covers(wanted)),
        !ManifestModel::none().authorizes(wanted),
{
}

proof fn lemma_words()
    ensures
        "events"@ != "tools"@,
        "events"@ != "stop"@,
        "tools"@ != "stop"@,
        "fs.read"@ != "fs.write"@,
        "fs.read"@ != "exec"@,
        "fs.write"@ != "exec"@,
        "spawn"@ != "join"@,
        "spawn"@ != "cancel"@,
        "spawn"@ != "status"@,
        "join"@ != "cancel"@,
        "join"@ != "status"@,
        "cancel"@ != "status"@,
        "parse"@ != "stringify"@,
        "now"@ != "sleep"@,
        "call"@ != "list_resources"@,
        "call"@ != "read_resource"@,
        "list_resources"@ != "read_resource"@,
        "agent"@ != "world"@,
        "agent"@ != "trace"@,
        "agent"@ != "task"@,
        "agent"@ != "json"@,
        "agent"@ != "time"@,
        "agent"@ != "abi_version"@,
        "world"@ != "trace"@,
        "world"@ != "task"@,
        "world"@ != "json"@,
        "world"@ != "time"@,
        "world"@ != "abi_version"@,
        "trace"@ != "task"@,
        "trace"@ != "json"@,
        "trace"@ != "time"@,
        "trace"@ != "abi_version"@,
        "task"@ != "json"@,
        "task"@ != "time"@,
        "task"@ != "abi_version"@,
        "json"@ != "time"@,
        "json"@ != "abi_version"@,
        "time"@ != "abi_version"@,
{
    reveal_strlit("events");
    reveal_strlit("tools");
    reveal_strlit("stop");
    reveal_strlit("fs.read");
    reveal_strlit("fs.write");
    reveal_strlit("exec");
    reveal_strlit("spawn");
    reveal_strlit("join");
    reveal_strlit("cancel");
    reveal_strlit("status");
    reveal_strlit("parse");
    reveal_strlit("stringify");
    reveal_strlit("now");
    reveal_strlit("sleep");
    reveal_strlit("call");
    reveal_strlit("list_resources");
    reveal_strlit("read_resource");
    reveal_strlit("agent");
    reveal_strlit("world");
    reveal_strlit("trace");
    reveal_strlit("task");
    reveal_strlit("json");
    reveal_strlit("time");
    reveal_strlit("abi_version");
    assert("events"@.len() == 6);
    assert("tools"@.len() == 5);
    assert("stop"@.len() == 4);
    assert("fs.read"@.len() == 7);
    assert("fs.write"@.len() == 8);
    assert("exec"@.len() == 4);
    assert("spawn"@.len() == 5);
    assert("join"@.len() == 4);
    assert("cancel"@.len() == 6);
    assert("status"@.len() == 6);
    assert("parse"@.len() == 5);
    assert("stringify"@.len() == 9);
    assert("now"@.len() == 3);
    assert("sleep"@.len() == 5);
    assert("call"@.len() == 4);
    assert("list_resources"@.len() == 14);
    assert("read_resource"@.len() == 13);
    assert("agent"@.len() == 5);
    assert("world"@.len() == 5);
    assert("trace"@.len() == 5);
    assert("task"@.len() == 4);
    assert("json"@.len() == 4);
    assert("time"@.len() == 4);
    assert("abi_version"@.len() == 11);
    assert("cancel"@[0] != "status"@[0]);
    assert("agent"@[0] != "world"@[0]);
    assert("agent"@[0] != "trace"@[0]);
    assert("world"@[0] != "trace"@[0]);
    assert("task"@[0] != "json"@[0]);
    assert("task"@[1] != "time"@[1]);
    assert("json"@[0] != "time"@[0]);
}

/// The module of an operation that a word names, and the word.
pub open spec fn word(operation: OperationModel) -> Option<(CapabilityModule, Seq<char>)> {
    if operation == OperationModel::Agent(AgentOperation::Events) {
        Some((CapabilityModule::Agent, "events"@))
    } else if operation == OperationModel::Agent(AgentOperation::Tools) {
        Some((CapabilityModule::Agent, "tools"@))
    } else if operation == OperationModel::Agent(AgentOperation::Stop) {
        Some((CapabilityModule::Agent, "stop"@))
    } else if operation == OperationModel::FsRead {
        Some((CapabilityModule::World, "fs.read"@))
    } else if operation == OperationModel::FsWrite {
        Some((CapabilityModule::World, "fs.write"@))
    } else if operation == OperationModel::Exec {
        Some((CapabilityModule::World, "exec"@))
    } else if operation == OperationModel::Trace(TraceOperation::Emit) {
        Some((CapabilityModule::Trace, "emit"@))
    } else if operation == OperationModel::Task(TaskOperation::Spawn) {
        Some((CapabilityModule::Task, "spawn"@))
    } else if operation == OperationModel::Task(TaskOperation::Join) {
        Some((CapabilityModule::Task, "join"@))
    } else if operation == OperationModel::Task(TaskOperation::Cancel) {
        Some((CapabilityModule::Task, "cancel"@))
    } else if operation == OperationModel::Task(TaskOperation::Status) {
        Some((CapabilityModule::Task, "status"@))
    } else if operation == OperationModel::Json(JsonOperation::Parse) {
        Some((CapabilityModule::Json, "parse"@))
    } else if operation == OperationModel::Json(JsonOperation::Stringify) {
        Some((CapabilityModule::Json, "stringify"@))
    } else if operation == OperationModel::Time(TimeOperation::Now) {
        Some((CapabilityModule::Time, "now"@))
    } else if operation == OperationModel::Time(TimeOperation::Sleep) {
        Some((CapabilityModule::Time, "sleep"@))
    } else {
        None
    }
}

/// A word in a manifest grants the operation of its module that it names, and no other; a word
/// that names none is refused.
pub proof fn law_words_grant_what_they_name(
    module: CapabilityModule,
    name: Seq<char>,
    path: Seq<char>,
    operation: OperationModel,
)
    ensures
        read_operation(module, Json::String(name), path) == Ok::<
            OperationModel,
            CapabilityErrorModel,
        >(operation) <==> word(operation) == Some((module, name)),
        word(operation) matches Some((home, text)) ==> operation.module() == home
            && operation.name() == text,
        word(operation) is None ==> operation is Mcp && operation.module()
            == CapabilityModule::World,
{
    lemma_words();
}

/// A scope in a manifest grants what it names: its server, its method, and its target, where it
/// has one.
pub proof fn law_scopes_grant_what_they_name(value: Json, path: Seq<char>)
    ensures
        value is Object ==> (read_operation(CapabilityModule::World, value, path) matches Ok(
            operation,
        ) ==> {
            &&& operation matches OperationModel::Mcp(permission)
            &&& value.get("mcp"@) matches Some(scope)
            &&& scope.get("server"@) == Some(Json::String(permission.server))
            &&& scope.get("operation"@) == Some(
                Json::String(
                    if permission.operation == McpOperation::Call {
                        "call"@
                    } else if permission.operation == McpOperation::ListResources {
                        "list_resources"@
                    } else {
                        "read_resource"@
                    },
                ),
            )
            &&& match permission.target {
                None => scope.get("target"@) is None,
                Some(target) => scope.get("target"@) == Some(Json::String(target)),
            }
        }),
        forall|module: CapabilityModule|
            value is Object && module != CapabilityModule::World ==> (#[trigger] read_operation(
                module,
                value,
                path,
            )) is Err,
{
    lemma_words();
}

/// The member of a manifest that grants for a module.
pub open spec fn place(module: CapabilityModule) -> Seq<char> {
    if module == CapabilityModule::Agent {
        "agent"@
    } else if module == CapabilityModule::World {
        "world"@
    } else if module == CapabilityModule::Trace {
        "trace"@
    } else if module == CapabilityModule::Task {
        "task"@
    } else if module == CapabilityModule::Json {
        "json"@
    } else {
        "time"@
    }
}

/// Whether an item of a manifest reads as an operation, wherever it stands.
pub open spec fn reads_as(
    module: CapabilityModule,
    value: Json,
    path: Seq<char>,
    operation: OperationModel,
) -> bool {
    read_operation(module, value, path) == Ok::<OperationModel, CapabilityErrorModel>(operation)
}

/// Whether an item of a manifest reads as an operation.
pub open spec fn reads(module: CapabilityModule, value: Json, operation: OperationModel) -> bool {
    exists|path: Seq<char>| #[trigger] reads_as(module, value, path, operation)
}

/// The items of a grant are read one for one and in order.
pub proof fn law_grants_are_read_item_by_item(module: CapabilityModule, values: Seq<Json>)
    ensures
        read_operations(module, values) matches Ok(listed) ==> {
            &&& listed.len() == values.len()
            &&& forall|i: int|
                0 <= i < values.len() ==> reads(module, #[trigger] values[i], listed[i])
        },
    decreases values.len(),
{
    if values.len() > 0 && read_operations(module, values) is Ok {
        let front = values.drop_last();
        law_grants_are_read_item_by_item(module, front);
        let before = read_operations(module, front)->Ok_0;
        let listed = read_operations(module, values)->Ok_0;
        assert forall|i: int| 0 <= i < values.len() implies reads(
            module,
            #[trigger] values[i],
            listed[i],
        ) by {
            if i < front.len() {
                assert(front[i] == values[i]);
                assert(listed[i] == before[i]);
            } else {
                let path = module.key() + "["@ + crate::text::digits((values.len() - 1) as nat)
                    + "]"@;
                assert(reads_as(module, values[i], path, listed[i]));
            }
        }
    }
}

proof fn lemma_modules_read(object: Map<Seq<char>, Json>, k: nat)
    requires
        k <= 6,
    ensures
        read_modules(object, k) matches Ok(manifest) ==> {
            &&& manifest.abi_version == CAPABILITY_ABI_VERSION
            &&& forall|j: int|
                k <= j < 6 ==> manifest.get(#[trigger] crate::capability::module_at(j)) is None
            &&& forall|j: int|
                0 <= j < k ==> {
                    let module = #[trigger] crate::capability::module_at(j);
                    match member(object, module.key()) {
                        None => manifest.get(module) is None,
                        Some(value) => read_grant(module, value) is Ok && manifest.get(module)
                            == Some(read_grant(module, value)->Ok_0),
                    }
                }
        },
    decreases k,
{
    if k > 0 && read_modules(object, k) is Ok {
        lemma_modules_read(object, (k - 1) as nat);
    }
}

/// A manifest is read by its members: a module has a grant exactly where the member of its name
/// is there, and that grant is what the member lists. A manifest of another version is refused.
pub proof fn law_manifests_grant_what_they_list(value: Json, module: CapabilityModule)
    ensures
        read_manifest(value) matches Ok(manifest) ==> {
            &&& value.get("abi_version"@) == Some(
                Json::Number(NumberModel::Int(CAPABILITY_ABI_VERSION as int)),
            )
            &&& match value.get(place(module)) {
                None => manifest.get(module) is None,
                Some(listing) => {
                    &&& listing matches Json::Array(values)
                    &&& read_operations(module, values) matches Ok(listed)
                    &&& manifest.get(module) matches Some(grant)
                    &&& grant.module == module
                    &&& forall|x: OperationModel| #[trigger]
                        grant.operations.contains(x) <==> listed.contains(x)
                },
            }
        },
{
    if read_manifest(value) is Ok {
        let object = value->Object_0;
        lemma_modules_read(object, 6);
        let j: int = if module == CapabilityModule::Agent {
            0
        } else if module == CapabilityModule::World {
            1
        } else if module == CapabilityModule::Trace {
            2
        } else if module == CapabilityModule::Task {
            3
        } else if module == CapabilityModule::Json {
            4
        } else {
            5
        };
        assert(crate::capability::module_at(j) == module);
        assert(module.key() == place(module));
        if let Some(Json::Array(values)) = value.get(place(module)) {
            if let Ok(listed) = read_operations(module, values) {
                law_grant_is_ordered(module, listed);
            }
        }
    }
}

/// A manifest can be made of grants exactly where no two of them are for the same module.
pub proof fn law_grants_for_distinct_modules_are_assembled(grants: Seq<GrantModel>)
    ensures
        assembled(grants) is Ok <==> forall|i: int, j: int|
            0 <= i < j < grants.len() ==> (#[trigger] grants[i]).module != (
            #[trigger] grants[j]).module,
    decreases grants.len(),
{
    law_manifests_hold_their_grants(grants);
    if grants.len() > 0 {
        let front = grants.drop_last();
        law_grants_for_distinct_modules_are_assembled(front);
        law_manifests_hold_their_grants(front);
        if forall|i: int, j: int|
            0 <= i < j < grants.len() ==> (#[trigger] grants[i]).module != (
            #[trigger] grants[j]).module {
            assert forall|i: int, j: int| 0 <= i < j < front.len() implies (
            #[trigger] front[i]).module != (#[trigger] front[j]).module by {
                assert(front[i] == grants[i] && front[j] == grants[j]);
            }
            let before = assembled(front)->Ok_0;
            let module = grants.last().module;
            if before.get(module) is Some {
                let grant = before.get(module)->0;
                let k = choose|k: int| 0 <= k < front.len() && front[k] == grant;
                assert(front[k] == grants[k]);
                assert(grants[k].module != grants[grants.len() - 1].module);
            }
        }
    }
}

proof fn lemma_listed(manifest: ManifestModel, k: nat)
    requires
        k <= 6,
    ensures
        forall|j: int|
            0 <= j < k && manifest.get(#[trigger] named_at(j)) is Some ==> grants_before(
                manifest,
                k,
            ).contains(manifest.get(named_at(j))->0),
        forall|i: int|
            0 <= i < grants_before(manifest, k).len() ==> held(
                manifest,
                #[trigger] grants_before(manifest, k)[i],
            ),
    decreases k,
{
    if k > 0 {
        lemma_listed(manifest, (k - 1) as nat);
        let front = grants_before(manifest, (k - 1) as nat);
        let all = grants_before(manifest, k);
        let last = manifest.get(named_at(k - 1));
        assert forall|j: int|
            0 <= j < k && manifest.get(#[trigger] named_at(j)) is Some implies all.contains(
            manifest.get(named_at(j))->0,
        ) by {
            if j < k - 1 {
                let i = choose|i: int|
                    0 <= i < front.len() && front[i] == manifest.get(named_at(j))->0;
                assert(all[i] == front[i]);
            } else {
                assert(all[all.len() - 1] == last->0);
            }
        }
        assert forall|i: int| 0 <= i < all.len() implies held(manifest, #[trigger] all[i]) by {
            if i < front.len() {
                assert(all[i] == front[i]);
            } else {
                assert(manifest.get(named_at(k - 1)) == Some(all[i]));
            }
        }
    }
}

/// Whether a manifest holds a grant for some module.
pub open spec fn held(manifest: ManifestModel, grant: GrantModel) -> bool {
    exists|module: CapabilityModule| #[trigger] manifest.get(module) == Some(grant)
}

/// The grants that a manifest lists are exactly those that it holds.
pub proof fn law_all_grants_are_listed(manifest: ManifestModel, module: CapabilityModule)
    ensures
        manifest.get(module) matches Some(grant) ==> grants_before(manifest, 6).contains(grant),
        forall|i: int|
            0 <= i < grants_before(manifest, 6).len() ==> held(
                manifest,
                #[trigger] grants_before(manifest, 6)[i],
            ),
{
    lemma_listed(manifest, 6);
    let j: int = if module == CapabilityModule::Agent {
        0
    } else if module == CapabilityModule::Json {
        1
    } else if module == CapabilityModule::Task {
        2
    } else if module == CapabilityModule::Time {
        3
    } else if module == CapabilityModule::Trace {
        4
    } else {
        5
    };
    assert(named_at(j) == module);
}

/// A refusal names the module and the operation that was asked for.
pub proof fn law_refusals_name_what_was_asked(operation: OperationModel)
    ensures
        denial(operation) matches CapabilityErrorModel::Denied { module, operation: name }
            && module == operation.module() && name == operation.name(),
        operation matches OperationModel::Mcp(permission) ==> crate::text::occurs(
            operation.name(),
            permission.server,
        ),
{
    if let OperationModel::Mcp(permission) = operation {
        let name = operation.name();
        let i = "mcp."@.len() as int;
        assert(name.subrange(i, i + permission.server.len()) =~= permission.server);
        assert(crate::text::stands_at(name, permission.server, i));
    }
}

} // verus!
