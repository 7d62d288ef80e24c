//! Properties of the lifecycle that span several operations.
use vstd::prelude::*;
use crate::config::{ConfigModel, RuntimeTag, Status};
use crate::container::{create_outcome, remove_outcome, start_outcome, stop_outcome};
use crate::error::DockError;
use crate::storage::{has_name, index_of, lemma_index_of, names_unique};

verus! {

/// Replacing a config by one of the same name keeps names unique and the
/// replaced config findable at the same place.
proof fn lemma_update_same_name(s: Seq<ConfigModel>, i: int, c: ConfigModel)
    requires
        names_unique(s),
        0 <= i < s.len(),
        c.name == s[i].name,
    ensures
        names_unique(s.update(i, c)),
        index_of(s.update(i, c), c.name) == i,
        s.update(i, c)[i] == c,
{
    let t = s.update(i, c);
    assert forall|a: int, b: int| 0 <= a < t.len() && 0 <= b < t.len() && a != b implies #[trigger] t[a].name
        != #[trigger] t[b].name by {
        assert(t[a].name == s[a].name);
        assert(t[b].name == s[b].name);
    }
    lemma_index_of(t, i);
}

/// After a successful `create` the name exists, and a second `create` of
/// the same name is refused with `AlreadyExists`, whatever its other inputs.
pub proof fn lemma_create_then_exists(
    s: Seq<ConfigModel>,
    name: Seq<char>,
    script: Seq<char>,
    script_exists: bool,
    runtime: Option<RuntimeTag>,
    id: Seq<char>,
    script2: Seq<char>,
    script_exists2: bool,
    runtime2: Option<RuntimeTag>,
    id2: Seq<char>,
)
    requires
        names_unique(s),
    ensures
        create_outcome(s, name, script, script_exists, runtime, id) matches Ok(t) ==> {
            &&& has_name(t, name)
            &&& names_unique(t)
            &&& create_outcome(t, name, script2, script_exists2, runtime2, id2) == Err::<
                Seq<ConfigModel>,
                DockError,
            >(DockError::AlreadyExists)
        },
{
    if let Ok(t) = create_outcome(s, name, script, script_exists, runtime, id) {
        assert(t[s.len() as int].name == name);
        assert forall|a: int, b: int| 0 <= a < t.len() && 0 <= b < t.len() && a != b implies #[trigger] t[a].name
            != #[trigger] t[b].name by {
            if a == s.len() {
                assert(s[b].name == t[b].name);
            } else if b == s.len() {
                assert(s[a].name == t[a].name);
            }
        }
    }
}

/// `create` with a missing script, under a free name, is refused with
/// `ScriptNotFound`.
pub proof fn lemma_create_missing_script(
    s: Seq<ConfigModel>,
    name: Seq<char>,
    script: Seq<char>,
    runtime: Option<RuntimeTag>,
    id: Seq<char>,
)
    requires
        !has_name(s, name),
    ensures
        create_outcome(s, name, script, false, runtime, id) == Err::<Seq<ConfigModel>, DockError>(
            DockError::ScriptNotFound,
        ),
{
}

/// After a successful `start`, a second `start` is refused with
/// `AlreadyRunning`, and so is `remove`, with `CannotRemoveRunning`.
pub proof fn lemma_start_twice(
    s: Seq<ConfigModel>,
    name: Seq<char>,
    port: Option<Seq<char>>,
    script_present: bool,
    port2: Option<Seq<char>>,
    script_present2: bool,
)
    requires
        names_unique(s),
    ensures
        start_outcome(s, name, port, script_present) matches Ok(t) ==> {
            &&& names_unique(t)
            &&& start_outcome(t, name, port2, script_present2) == Err::<Seq<ConfigModel>, DockError>(
                DockError::AlreadyRunning,
            )
            &&& remove_outcome(t, name) == Err::<Seq<ConfigModel>, DockError>(
                DockError::CannotRemoveRunning,
            )
        },
{
    if let Ok(t) = start_outcome(s, name, port, script_present) {
        let i = index_of(s, name);
        lemma_update_same_name(s, i, ConfigModel { status: Status::Running, port_mapping: port, ..s[i] });
        assert(has_name(t, name));
    }
}

/// After a successful `stop`, a second `stop` is refused with
/// `AlreadyStopped`.
pub proof fn lemma_stop_twice(s: Seq<ConfigModel>, name: Seq<char>)
    requires
        names_unique(s),
    ensures
        stop_outcome(s, name) matches Ok(t) ==> {
            &&& names_unique(t)
            &&& stop_outcome(t, name) == Err::<Seq<ConfigModel>, DockError>(DockError::AlreadyStopped)
        },
{
    if let Ok(t) = stop_outcome(s, name) {
        let i = index_of(s, name);
        lemma_update_same_name(s, i, ConfigModel { status: Status::Stopped, ..s[i] });
        assert(has_name(t, name));
    }
}

/// A freshly created container is stopped: `stop` on it is refused with
/// `AlreadyStopped`.
pub proof fn lemma_create_then_stop(
    s: Seq<ConfigModel>,
    name: Seq<char>,
    script: Seq<char>,
    script_exists: bool,
    runtime: Option<RuntimeTag>,
    id: Seq<char>,
)
    requires
        names_unique(s),
    ensures
        create_outcome(s, name, script, script_exists, runtime, id) matches Ok(t) ==> stop_outcome(t, name)
            == Err::<Seq<ConfigModel>, DockError>(DockError::AlreadyStopped),
{
    lemma_create_then_exists(s, name, script, script_exists, runtime, id, script, script_exists, runtime, id);
    if let Ok(t) = create_outcome(s, name, script, script_exists, runtime, id) {
        lemma_index_of(t, s.len() as int);
    }
}

/// After `stop`, `remove` succeeds and the name no longer exists.
pub proof fn lemma_stop_then_remove(s: Seq<ConfigModel>, name: Seq<char>)
    requires
        names_unique(s),
    ensures
        stop_outcome(s, name) matches Ok(t) ==> {
            &&& remove_outcome(t, name) is Ok
            &&& remove_outcome(t, name) matches Ok(u) && !has_name(u, name) && names_unique(u)
        },
{
    if let Ok(t) = stop_outcome(s, name) {
        let i = index_of(s, name);
        lemma_update_same_name(s, i, ConfigModel { status: Status::Stopped, ..s[i] });
        assert(has_name(t, name));
        let u = t.remove(i);
        assert forall|a: int, b: int| 0 <= a < u.len() && 0 <= b < u.len() && a != b implies #[trigger] u[a].name
            != #[trigger] u[b].name by {
            let a2 = if a < i { a } else { a + 1 };
            let b2 = if b < i { b } else { b + 1 };
            assert(u[a] == t[a2]);
            assert(u[b] == t[b2]);
        }
        if has_name(u, name) {
            let j = choose|j: int| 0 <= j < u.len() && #[trigger] u[j].name == name;
            let j2 = if j < i { j } else { j + 1 };
            assert(u[j] == t[j2]);
        }
    }
}

} // verus!
