use vstd::prelude::*;
use crate::coremap::Handle;
use crate::error::DdlError;
use crate::keyspace::{create_table_step, drop_table_step, get_table_step, release_table_step, Keyspace};
use crate::memstore::{create_keyspace_step, drop_keyspace_step, is_protected_keyspace, Memstore};
use crate::objectid::default_name;
use crate::table::Table;

verus! {

/// Creating a keyspace twice in a row: the second call returns false and
/// changes nothing, so at most one of the two returns true.
pub proof fn lemma_create_keyspace_once(
    s0: Memstore,
    s1: Memstore,
    s2: Memstore,
    id: Seq<u8>,
    r1: bool,
    r2: bool,
)
    requires
        s0.wf(),
        create_keyspace_step(s0, id, s1, r1),
        create_keyspace_step(s1, id, s2, r2),
    ensures
        !r2,
        !(r1 && r2),
        s2.keyspaces@ == s1.keyspaces@,
        s1.keyspaces@.contains_key(id),
{
}

/// Once a keyspace has been dropped, creating it again succeeds.
pub proof fn lemma_create_keyspace_after_drop(
    s0: Memstore,
    s1: Memstore,
    s2: Memstore,
    id: Seq<u8>,
    r: bool,
)
    requires
        s0.wf(),
        drop_keyspace_step(s0, id, s1, Ok(())),
        create_keyspace_step(s1, id, s2, r),
    ensures
        r,
{
}

/// Dropping `default` or `system` fails as a protected object, whatever the
/// store holds, and leaves the store as it was.
pub proof fn lemma_reserved_keyspaces_protected(
    s0: Memstore,
    s1: Memstore,
    id: Seq<u8>,
    r: Result<(), DdlError>,
)
    requires
        s0.wf(),
        is_protected_keyspace(id),
        drop_keyspace_step(s0, id, s1, r),
    ensures
        r == Err::<(), DdlError>(DdlError::ProtectedObject),
        s1.keyspaces@ == s0.keyspaces@,
        s1.keyspaces.holders() == s0.keyspaces.holders(),
{
}

/// While a handle on a table is held, dropping the table fails as still in
/// use; once that handle, the only one, is given back, the drop succeeds.
/// (The table `default` is never dropped at all.)
pub proof fn lemma_held_table_not_dropped(
    k0: Keyspace,
    k1: Keyspace,
    k2: Keyspace,
    k3: Keyspace,
    k4: Keyspace,
    id: Seq<u8>,
    h: Handle<Table>,
    r2: Result<(), DdlError>,
    r3: bool,
    r4: Result<(), DdlError>,
)
    requires
        k0.wf(),
        id != default_name(),
        get_table_step(k0, id, k1, Some(h)),
        drop_table_step(k1, id, k2, r2),
        release_table_step(k2, h@, k3, r3),
        drop_table_step(k3, id, k4, r4),
        k0.tables.holders()[id] == 0,
    ensures
        r2 == Err::<(), DdlError>(DdlError::StillInUse),
        r3,
        r4 == Ok::<(), DdlError>(()),
        !k4.tables@.contains_key(id),
{
    k0.tables.lemma_holders();
}

/// A handle held on a table keeps it from being dropped, however many other
/// handles are out.
pub proof fn lemma_handle_blocks_drop(
    k0: Keyspace,
    k1: Keyspace,
    k2: Keyspace,
    id: Seq<u8>,
    h: Handle<Table>,
    r: Result<(), DdlError>,
)
    requires
        k0.wf(),
        id != default_name(),
        get_table_step(k0, id, k1, Some(h)),
        drop_table_step(k1, id, k2, r),
    ensures
        r == Err::<(), DdlError>(DdlError::StillInUse),
        k2.tables@ == k0.tables@,
{
    k0.tables.lemma_holders();
}

/// Dropping a table that does not exist, or a second time, fails as not
/// found.
pub proof fn lemma_drop_table_not_found(
    k0: Keyspace,
    k1: Keyspace,
    k2: Keyspace,
    id: Seq<u8>,
    r1: Result<(), DdlError>,
    r2: Result<(), DdlError>,
)
    requires
        k0.wf(),
        id != default_name(),
        !k0.tables@.contains_key(id) || r1 is Ok,
        drop_table_step(k0, id, k1, r1),
        drop_table_step(k1, id, k2, r2),
    ensures
        r2 == Err::<(), DdlError>(DdlError::ObjectNotFound),
{
}

/// Dropping a keyspace that does not exist, or a second time, fails as not
/// found.
pub proof fn lemma_drop_keyspace_not_found(
    s0: Memstore,
    s1: Memstore,
    s2: Memstore,
    id: Seq<u8>,
    r1: Result<(), DdlError>,
    r2: Result<(), DdlError>,
)
    requires
        s0.wf(),
        !is_protected_keyspace(id),
        !s0.keyspaces@.contains_key(id) || r1 is Ok,
        drop_keyspace_step(s0, id, s1, r1),
        drop_keyspace_step(s1, id, s2, r2),
    ensures
        r2 == Err::<(), DdlError>(DdlError::ObjectNotFound),
{
}

/// Creating a table and then dropping it, with no handle taken between,
/// succeeds and leaves the keyspace's tables as they were.
pub proof fn lemma_create_then_drop_table(
    k0: Keyspace,
    k1: Keyspace,
    k2: Keyspace,
    id: Seq<u8>,
    table: Table,
    r2: Result<(), DdlError>,
)
    requires
        k0.wf(),
        id != default_name(),
        create_table_step(k0, id, table, k1, true),
        drop_table_step(k1, id, k2, r2),
    ensures
        r2 == Ok::<(), DdlError>(()),
        k2.tables@ == k0.tables@,
{
    assert(k2.tables@ =~= k0.tables@);
}

/// `states[i + 1]` is `states[i]` after the i-th call of
/// `create_keyspace(id)`, which returned `rs[i]`.
pub open spec fn create_keyspace_run(states: Seq<Memstore>, id: Seq<u8>, rs: Seq<bool>) -> bool {
    &&& states.len() == rs.len() + 1
    &&& forall|i: int| 0 <= i < rs.len() ==> create_keyspace_step(
        #[trigger] states[i],
        id,
        states[i + 1],
        rs[i],
    )
}

proof fn lemma_run_keeps_keyspace(states: Seq<Memstore>, id: Seq<u8>, rs: Seq<bool>, i: int)
    requires
        create_keyspace_run(states, id, rs),
        0 <= i < rs.len(),
    ensures
        states[i + 1].keyspaces@.contains_key(id),
    decreases i,
{
    assert(create_keyspace_step(states[i], id, states[i + 1], rs[i]));
    if i > 0 {
        lemma_run_keeps_keyspace(states, id, rs, i - 1);
    }
}

/// However many calls of `create_keyspace(id)` follow one another, only the
/// first can return true, and it does exactly when no keyspace `id`
/// existed; afterwards keyspace `id` exists, once, as keys of a map are.
pub proof fn lemma_create_keyspace_run(states: Seq<Memstore>, id: Seq<u8>, rs: Seq<bool>)
    requires
        states.len() > 0,
        states[0].wf(),
        create_keyspace_run(states, id, rs),
    ensures
        forall|i: int| 0 <= i < rs.len() ==> (#[trigger] rs[i] <==> (i == 0 && !states[0].keyspaces@.contains_key(id))),
        states.last().keyspaces@.contains_key(id) || rs.len() == 0,
{
    assert forall|i: int| 0 <= i < rs.len() implies (#[trigger] rs[i] <==> (i == 0
        && !states[0].keyspaces@.contains_key(id))) by {
        assert(create_keyspace_step(states[i], id, states[i + 1], rs[i]));
        if i > 0 {
            lemma_run_keeps_keyspace(states, id, rs, i - 1);
        }
    }
    if rs.len() > 0 {
        lemma_run_keeps_keyspace(states, id, rs, rs.len() - 1);
    }
}

/// Creating or dropping keyspace `other` leaves keyspace `id`, when it is
/// another identifier, as it was: a keyspace once created stays visible to
/// lookups until it is itself dropped.
pub proof fn lemma_other_keyspaces_untouched(
    s0: Memstore,
    s1: Memstore,
    s2: Memstore,
    id: Seq<u8>,
    other: Seq<u8>,
    created: bool,
    dropped: Result<(), DdlError>,
)
    requires
        s0.wf(),
        id != other,
        create_keyspace_step(s0, other, s1, created),
        drop_keyspace_step(s1, other, s2, dropped),
    ensures
        s2.keyspaces@.contains_key(id) == s0.keyspaces@.contains_key(id),
        s0.keyspaces@.contains_key(id) ==> s2.keyspaces@[id] == s0.keyspaces@[id],
        s0.keyspaces@.contains_key(id) ==> s2.keyspaces.holders()[id] == s0.keyspaces.holders()[id],
{
}

/// One call on keyspace `id` of a store, with what it returned.
pub enum KeyspaceCall {
    Create(bool),
    Drop(Result<(), DdlError>),
}

/// `states[i + 1]` is `states[i]` after `calls[i]`, a call of
/// `create_keyspace(id)` or `drop_keyspace(id)`, in any order.
pub open spec fn keyspace_calls(states: Seq<Memstore>, id: Seq<u8>, calls: Seq<KeyspaceCall>) -> bool {
    &&& states.len() == calls.len() + 1
    &&& forall|i: int|
        0 <= i < calls.len() ==> match #[trigger] calls[i] {
            KeyspaceCall::Create(r) => create_keyspace_step(states[i], id, states[i + 1], r),
            KeyspaceCall::Drop(r) => drop_keyspace_step(states[i], id, states[i + 1], r),
        }
}

/// Whether `call` is a drop that succeeded.
pub open spec fn is_dropped(call: KeyspaceCall) -> bool {
    call == KeyspaceCall::Drop(Ok(()))
}

/// Once keyspace `id` exists, it stays until a drop of it succeeds: every
/// lookup in between finds it.
pub proof fn lemma_keyspace_stays_until_dropped(
    states: Seq<Memstore>,
    id: Seq<u8>,
    calls: Seq<KeyspaceCall>,
    a: int,
    b: int,
)
    requires
        keyspace_calls(states, id, calls),
        0 <= a <= b <= calls.len(),
        states[a].keyspaces@.contains_key(id),
        forall|k: int| a <= k < b ==> !is_dropped(#[trigger] calls[k]),
    ensures
        states[b].keyspaces@.contains_key(id),
    decreases b - a,
{
    if a < b {
        let c = calls[a];
        assert(!is_dropped(calls[a]));
        match c {
            KeyspaceCall::Create(r) => {
                assert(create_keyspace_step(states[a], id, states[a + 1], r));
            },
            KeyspaceCall::Drop(r) => {
                assert(drop_keyspace_step(states[a], id, states[a + 1], r));
            },
        }
        lemma_keyspace_stays_until_dropped(states, id, calls, a + 1, b);
    }
}

/// In any series of creates and drops of keyspace `id`, two creates that
/// return true always have a successful drop between them: between two
/// successful drops, before the first and after the last, at most one
/// create returns true.
pub proof fn lemma_one_create_between_drops(
    states: Seq<Memstore>,
    id: Seq<u8>,
    calls: Seq<KeyspaceCall>,
    i: int,
    j: int,
)
    requires
        keyspace_calls(states, id, calls),
        0 <= i < j < calls.len(),
        calls[i] == KeyspaceCall::Create(true),
        calls[j] == KeyspaceCall::Create(true),
    ensures
        exists|k: int| i < k < j && is_dropped(#[trigger] calls[k]),
{
    assert(create_keyspace_step(states[i], id, states[i + 1], true));
    assert(create_keyspace_step(states[j], id, states[j + 1], true));
    if !exists|k: int| i < k < j && is_dropped(#[trigger] calls[k]) {
        lemma_keyspace_stays_until_dropped(states, id, calls, i + 1, j);
    }
}

} // verus!
