use vstd::prelude::*;
use crate::coremap::{Coremap, Handle};
use crate::error::DdlError;
use crate::lock::QuickLock;
use crate::keyspace::Keyspace;
use crate::objectid::{default_name, system_name, ObjectId};
use crate::table::TableType;

verus! {

/// How often snapshots are taken and how many are kept.
#[derive(Debug, Clone, Copy, PartialEq, Eq, Structural)]
pub struct SnapshotPref {
    /// Seconds between two snapshots.
    pub every: u64,
    /// The largest number of snapshots kept.
    pub atmost: usize,
}

/// Whether periodic snapshots are taken.
#[derive(Debug, Clone, Copy, PartialEq, Eq, Structural)]
pub enum SnapshotConfig {
    Enabled(SnapshotPref),
    Disabled,
}

/// What the store tracks of its snapshots while they are enabled.
#[derive(Debug, Clone, Copy, PartialEq, Eq, Structural)]
pub struct SnapshotStatus {
    /// The largest number of snapshots kept.
    pub max: usize,
}

impl SnapshotStatus {
    /// Tracking state for at most `max` snapshots.
    pub fn new(max: usize) -> (r: SnapshotStatus)
        ensures
            r.max == max,
    {
        SnapshotStatus { max }
    }
}

/// The tracking state that a snapshot configuration calls for: none when
/// snapshots are disabled.
pub open spec fn snapshot_status_of(config: SnapshotConfig) -> Option<SnapshotStatus> {
    match config {
        SnapshotConfig::Enabled(pref) => Some(SnapshotStatus { max: pref.atmost }),
        SnapshotConfig::Disabled => None,
    }
}

/// The root store: every keyspace of the node, by identifier.
pub struct Memstore {
    /// The keyspaces, with the count of handles out on each.
    pub keyspaces: Coremap<Keyspace>,
    /// The snapshot tracking state, if snapshots are enabled.
    pub snap_config: Option<SnapshotStatus>,
    /// An advisory lock that serialises preloading and restoring.
    pub preload_lock: QuickLock,
}

/// Whether `id` names one of the two keyspaces that can never be dropped.
pub open spec fn is_protected_keyspace(id: Seq<u8>) -> bool {
    id == default_name() || id == system_name()
}

/// The outcome of dropping keyspace `id` from `store`: `default` and
/// `system` are protected, an absent keyspace is not found, a keyspace with
/// handles out is still in use, and any other keyspace goes.
pub open spec fn drop_keyspace_result(store: Memstore, id: Seq<u8>) -> Result<(), DdlError> {
    if is_protected_keyspace(id) {
        Err(DdlError::ProtectedObject)
    } else if !store.keyspaces@.contains_key(id) {
        Err(DdlError::ObjectNotFound)
    } else if store.keyspaces.holders()[id] > 0 {
        Err(DdlError::StillInUse)
    } else {
        Ok(())
    }
}

/// `post` is `pre` after `drop_keyspace(id)` returned `r`.
pub open spec fn drop_keyspace_step(pre: Memstore, id: Seq<u8>, post: Memstore, r: Result<(), DdlError>) -> bool {
    &&& post.wf()
    &&& post.snap_config == pre.snap_config
    &&& r == drop_keyspace_result(pre, id)
    &&& r is Ok ==> post.keyspaces@ == pre.keyspaces@.remove(id)
    &&& r is Ok ==> post.keyspaces.holders() == pre.keyspaces.holders().remove(id)
    &&& r is Err ==> post.keyspaces@ == pre.keyspaces@
    &&& r is Err ==> post.keyspaces.holders() == pre.keyspaces.holders()
}

/// `post` is `pre` after `create_keyspace(id)` returned `r`: a new empty
/// keyspace exactly when none of that name existed.
pub open spec fn create_keyspace_step(pre: Memstore, id: Seq<u8>, post: Memstore, r: bool) -> bool {
    &&& post.wf()
    &&& post.snap_config == pre.snap_config
    &&& r == !pre.keyspaces@.contains_key(id)
    &&& r ==> post.keyspaces@ == pre.keyspaces@.insert(id, post.keyspaces@[id])
    &&& r ==> post.keyspaces@[id].tables@ == Map::<Seq<u8>, crate::table::Table>::empty()
    &&& r ==> !post.keyspaces@[id].is_default
    &&& r ==> post.keyspaces.holders() == pre.keyspaces.holders().insert(id, 0)
    &&& !r ==> post.keyspaces@ == pre.keyspaces@
    &&& !r ==> post.keyspaces.holders() == pre.keyspaces.holders()
}

/// `post` is `pre` after `get_keyspace_atomic_ref(id)` returned `r`: a
/// handle exactly when the keyspace exists, which then counts one more.
pub open spec fn get_keyspace_step(pre: Memstore, id: Seq<u8>, post: Memstore, r: Option<Handle<Keyspace>>) -> bool {
    &&& post.wf()
    &&& post.snap_config == pre.snap_config
    &&& post.keyspaces@ == pre.keyspaces@
    &&& r.is_some() == pre.keyspaces@.contains_key(id)
    &&& r matches Some(h) ==> h@ == id
    &&& r.is_some() ==> post.keyspaces.holders() == pre.keyspaces.holders().insert(
        id,
        pre.keyspaces.holders()[id] + 1,
    )
    &&& r.is_none() ==> post.keyspaces.holders() == pre.keyspaces.holders()
}

/// `post` is `pre` after `release_keyspace(h)` returned `r`: the keyspace
/// of `h` counts one handle less, if it has any out.
pub open spec fn release_keyspace_step(pre: Memstore, h: Seq<u8>, post: Memstore, r: bool) -> bool {
    &&& post.wf()
    &&& post.snap_config == pre.snap_config
    &&& post.keyspaces@ == pre.keyspaces@
    &&& r == (pre.keyspaces.holders().contains_key(h) && pre.keyspaces.holders()[h] > 0)
    &&& r ==> post.keyspaces.holders() == pre.keyspaces.holders().insert(
        h,
        (pre.keyspaces.holders()[h] - 1) as nat,
    )
    &&& !r ==> post.keyspaces.holders() == pre.keyspaces.holders()
}

/// Whether a keyspace has no handles out besides the store's own.
fn keyspace_unheld(_keyspace: &Keyspace, holders: usize) -> (r: bool)
    ensures
        r == (holders == 0),
{
    holders == 0
}

impl Memstore {
    /// Keyspace identifiers are unique, and so are table identifiers within
    /// each keyspace.
    pub open spec fn wf(&self) -> bool {
        &&& self.keyspaces.wf()
        &&& forall|k: Seq<u8>| #[trigger] self.keyspaces@.contains_key(k) ==> self.keyspaces@[k].wf()
    }

    /// A store with no keyspaces at all.
    pub fn new_empty() -> (r: Memstore)
        ensures
            r.wf(),
            r.keyspaces@ == Map::<Seq<u8>, Keyspace>::empty(),
            r.keyspaces.holders() == Map::<Seq<u8>, nat>::empty(),
            r.snap_config.is_none(),
    {
        Memstore { keyspaces: Coremap::new(), snap_config: None, preload_lock: QuickLock::new() }
    }

    /// A store over keyspaces restored from elsewhere, tracking snapshots
    /// as `snap_config` asks.
    pub fn init_with_all(keyspaces: Coremap<Keyspace>, snap_config: SnapshotConfig) -> (r: Memstore)
        requires
            keyspaces.wf(),
            forall|k: Seq<u8>| #[trigger] keyspaces@.contains_key(k) ==> keyspaces@[k].wf(),
        ensures
            r.wf(),
            r.keyspaces == keyspaces,
            r.snap_config == snapshot_status_of(snap_config),
    {
        let snap = match snap_config {
            SnapshotConfig::Enabled(pref) => Some(SnapshotStatus::new(pref.atmost)),
            SnapshotConfig::Disabled => None,
        };
        Memstore { keyspaces, snap_config: snap, preload_lock: QuickLock::new() }
    }

    /// A store with the keyspace `default`, holding the one table
    /// `default`, and the empty keyspace `system`; no handles are out.
    pub fn new_default() -> (r: Memstore)
        ensures
            r.wf(),
            r.snap_config.is_none(),
            r.keyspaces@.dom() == set![default_name(), system_name()],
            r.keyspaces@[default_name()].tables@.dom() == set![default_name()],
            r.keyspaces@[default_name()].tables@[default_name()].model == TableType::KeyValue,
            r.keyspaces@[default_name()].tables.holders() == map![default_name() => 0nat],
            r.keyspaces@[default_name()].is_default,
            !r.keyspaces@[system_name()].is_default,
            r.keyspaces@[system_name()].tables@ == Map::<Seq<u8>, crate::table::Table>::empty(),
            r.keyspaces.holders() == map![default_name() => 0nat, system_name() => 0nat],
    {
        let mut keyspaces = Coremap::new();
        let default_ks = Keyspace::empty_default();
        let system_ks = Keyspace::empty();
        let ghost d = default_ks;
        let ghost s = system_ks;
        let _d = keyspaces.true_if_insert(ObjectId::default_id(), default_ks);
        proof {
            assert(default_name() != system_name()) by {
                assert(default_name().len() != system_name().len());
            }
        }
        let _s = keyspaces.true_if_insert(ObjectId::system_id(), system_ks);
        proof {
            assert(keyspaces@ == map![default_name() => d, system_name() => s]);
            assert(keyspaces@.dom() =~= set![default_name(), system_name()]);
            assert(keyspaces.holders() =~= map![default_name() => 0nat, system_name() => 0nat]);
        }
        Memstore { keyspaces, snap_config: None, preload_lock: QuickLock::new() }
    }

    /// Takes a handle on keyspace `keyspace_identifier`, if it exists. The
    /// keyspace cannot be dropped until the handle is given back to
    /// `release_keyspace`.
    pub fn get_keyspace_atomic_ref(&mut self, keyspace_identifier: ObjectId) -> (r: Option<Handle<Keyspace>>)
        requires
            old(self).wf(),
            old(self).keyspaces.holders().contains_key(keyspace_identifier@) ==> old(
                self,
            ).keyspaces.holders()[keyspace_identifier@] < usize::MAX,
        ensures
            get_keyspace_step(*old(self), keyspace_identifier@, *final(self), r),
    {
        self.keyspaces.checkout(&keyspace_identifier)
    }

    /// Gives back a handle taken by `get_keyspace_atomic_ref`.
    pub fn release_keyspace(&mut self, handle: Handle<Keyspace>) -> (r: bool)
        requires
            old(self).wf(),
        ensures
            release_keyspace_step(*old(self), handle@, *final(self), r),
    {
        self.keyspaces.release(handle)
    }

    /// Access to keyspace `keyspace_identifier`, which must exist, to work
    /// on its tables.
    pub fn keyspace_mut(&mut self, keyspace_identifier: &ObjectId) -> (r: &mut Keyspace)
        requires
            old(self).wf(),
            old(self).keyspaces@.contains_key(keyspace_identifier@),
        ensures
            *r == old(self).keyspaces@[keyspace_identifier@],
            r.wf(),
            final(self).snap_config == old(self).snap_config,
            final(self).keyspaces@ == old(self).keyspaces@.insert(keyspace_identifier@, *final(r)),
            final(self).keyspaces.holders() == old(self).keyspaces.holders(),
            final(r).wf() ==> final(self).wf(),
    {
        self.keyspaces.get_mut(keyspace_identifier)
    }

    /// A read-only look at keyspace `keyspace_identifier`, taking no handle.
    pub fn get_keyspace(&self, keyspace_identifier: &ObjectId) -> (r: Option<&Keyspace>)
        requires
            self.wf(),
        ensures
            match r {
                Some(k) => self.keyspaces@.contains_key(keyspace_identifier@) && *k
                    == self.keyspaces@[keyspace_identifier@],
                None => !self.keyspaces@.contains_key(keyspace_identifier@),
            },
    {
        self.keyspaces.get(keyspace_identifier)
    }

    /// Creates an empty keyspace `keyspace_identifier` unless one of that
    /// name exists; never overwrites. Returns whether it was created.
    pub fn create_keyspace(&mut self, keyspace_identifier: ObjectId) -> (r: bool)
        requires
            old(self).wf(),
        ensures
            create_keyspace_step(*old(self), keyspace_identifier@, *final(self), r),
    {
        let ks = Keyspace::empty();
        let ghost fresh = ks;
        let r = self.keyspaces.true_if_insert(keyspace_identifier, ks);
        proof {
            if r {
                assert(self.keyspaces@[keyspace_identifier@] == fresh);
            }
        }
        r
    }

    /// Drops keyspace `keyspace_identifier`, unless it is `default` or
    /// `system`, absent, or has handles out; the check for handles and the
    /// removal are one step.
    pub fn drop_keyspace(&mut self, keyspace_identifier: ObjectId) -> (r: Result<(), DdlError>)
        requires
            old(self).wf(),
        ensures
            drop_keyspace_step(*old(self), keyspace_identifier@, *final(self), r),
    {
        let system_id = ObjectId::system_id();
        let default_id = ObjectId::default_id();
        if keyspace_identifier.same_as(&system_id) || keyspace_identifier.same_as(&default_id) {
            Err(DdlError::ProtectedObject)
        } else if !self.keyspaces.contains_key(&keyspace_identifier) {
            Err(DdlError::ObjectNotFound)
        } else {
            proof {
                self.keyspaces.lemma_holders();
            }
            if self.keyspaces.true_remove_if(&keyspace_identifier, keyspace_unheld) {
                Ok(())
            } else {
                Err(DdlError::StillInUse)
            }
        }
    }

    /// Takes the advisory lock on preloading, waiting until it is free; it
    /// is released when the guard is dropped. Whoever also needs a
    /// keyspace's partition-map lock takes this one first.
    pub fn lock_preload(&self) -> std::sync::MutexGuard<'_, ()> {
        self.preload_lock.lock()
    }
}

} // verus!
