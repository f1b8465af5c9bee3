use vstd::prelude::*;
use crate::cluster::ReplicationStrategy;
use crate::coremap::{Coremap, Handle};
use crate::error::DdlError;
use crate::lock::QuickLock;
use crate::objectid::{default_name, ObjectId};
use crate::table::{Table, TableType};

verus! {

/// A keyspace houses tables, each reached by its identifier.
pub struct Keyspace {
    /// The tables, with the count of handles out on each.
    pub tables: Coremap<Table>,
    /// The replication strategy for this keyspace.
    pub replication_strategy: ReplicationStrategy,
    /// An advisory lock on the partition map of this keyspace.
    pub partmap_lock: QuickLock,
    /// Whether this is the default keyspace, the only one that may hold a
    /// table named `default`.
    pub is_default: bool,
}

/// The outcome of dropping table `id` from `ks`: the table `default` is
/// protected, an absent table is not found, a table with handles out is
/// still in use, and any other table goes.
pub open spec fn drop_table_result(ks: Keyspace, id: Seq<u8>) -> Result<(), DdlError> {
    if id == default_name() {
        Err(DdlError::ProtectedObject)
    } else if !ks.tables@.contains_key(id) {
        Err(DdlError::ObjectNotFound)
    } else if ks.tables.holders()[id] > 0 {
        Err(DdlError::StillInUse)
    } else {
        Ok(())
    }
}

/// `post` is `pre` after `drop_table(id)` returned `r`.
pub open spec fn drop_table_step(pre: Keyspace, id: Seq<u8>, post: Keyspace, r: Result<(), DdlError>) -> bool {
    &&& post.wf()
    &&& post.is_default == pre.is_default
    &&& r == drop_table_result(pre, id)
    &&& r is Ok ==> post.tables@ == pre.tables@.remove(id)
    &&& r is Ok ==> post.tables.holders() == pre.tables.holders().remove(id)
    &&& r is Err ==> post.tables@ == pre.tables@
    &&& r is Err ==> post.tables.holders() == pre.tables.holders()
}

/// Whether `ks` may hold a table named `id`: any name but `default`, which
/// only the default keyspace may hold.
pub open spec fn may_hold_table(ks: Keyspace, id: Seq<u8>) -> bool {
    id != default_name() || ks.is_default
}

/// `post` is `pre` after `create_table(id, table)` returned `r`: the table
/// is added exactly when no table of that name exists and the keyspace may
/// hold that name.
pub open spec fn create_table_step(pre: Keyspace, id: Seq<u8>, table: Table, post: Keyspace, r: bool) -> bool {
    &&& post.wf()
    &&& post.is_default == pre.is_default
    &&& r == (!pre.tables@.contains_key(id) && may_hold_table(pre, id))
    &&& r ==> post.tables@ == pre.tables@.insert(id, table)
    &&& r ==> post.tables.holders() == pre.tables.holders().insert(id, 0)
    &&& !r ==> post.tables@ == pre.tables@
    &&& !r ==> post.tables.holders() == pre.tables.holders()
}

/// `post` is `pre` after `get_table_atomic_ref(id)` returned `r`: a handle
/// exactly when the table exists, which then counts one more handle.
pub open spec fn get_table_step(pre: Keyspace, id: Seq<u8>, post: Keyspace, r: Option<Handle<Table>>) -> bool {
    &&& post.wf()
    &&& post.is_default == pre.is_default
    &&& post.tables@ == pre.tables@
    &&& r.is_some() == pre.tables@.contains_key(id)
    &&& r matches Some(h) ==> h@ == id
    &&& r.is_some() ==> post.tables.holders() == pre.tables.holders().insert(
        id,
        pre.tables.holders()[id] + 1,
    )
    &&& r.is_none() ==> post.tables.holders() == pre.tables.holders()
}

/// `post` is `pre` after `release_table(h)` returned `r`: the table of `h`
/// counts one handle less, if it has any out.
pub open spec fn release_table_step(pre: Keyspace, h: Seq<u8>, post: Keyspace, r: bool) -> bool {
    &&& post.wf()
    &&& post.is_default == pre.is_default
    &&& post.tables@ == pre.tables@
    &&& r == (pre.tables.holders().contains_key(h) && pre.tables.holders()[h] > 0)
    &&& r ==> post.tables.holders() == pre.tables.holders().insert(h, (pre.tables.holders()[h] - 1) as nat)
    &&& !r ==> post.tables.holders() == pre.tables.holders()
}

/// Whether a table has no handles out besides the keyspace's own.
fn table_unheld(_table: &Table, holders: usize) -> (r: bool)
    ensures
        r == (holders == 0),
{
    holders == 0
}

impl Keyspace {
    /// Table identifiers are unique, and a table `default` stands only in
    /// the default keyspace.
    pub open spec fn wf(&self) -> bool {
        &&& self.tables.wf()
        &&& self.tables@.contains_key(default_name()) ==> self.is_default
    }

    /// The default keyspace: one key-value table, `default`, and no handles
    /// out.
    pub fn empty_default() -> (r: Keyspace)
        ensures
            r.wf(),
            r.is_default,
            r.tables@.dom() == set![default_name()],
            r.tables@[default_name()].model == TableType::KeyValue,
            r.tables.holders() == map![default_name() => 0nat],
    {
        let mut tables = Coremap::new();
        let _inserted = tables.true_if_insert(ObjectId::default_id(), Table::new_default_kve());
        proof {
            assert(tables@.dom() =~= set![default_name()]);
            assert(tables.holders() =~= map![default_name() => 0nat]);
        }
        Keyspace {
            tables,
            replication_strategy: ReplicationStrategy::default(),
            partmap_lock: QuickLock::new(),
            is_default: true,
        }
    }

    /// A keyspace over tables restored from elsewhere, with the default
    /// replication strategy. It is the default keyspace exactly when the
    /// restored tables include `default`.
    pub fn init_with_all_def_strategy(tables: Coremap<Table>) -> (r: Keyspace)
        requires
            tables.wf(),
        ensures
            r.wf(),
            r.tables == tables,
            r.is_default == tables@.contains_key(default_name()),
    {
        let is_default = tables.contains_key(&ObjectId::default_id());
        Keyspace {
            tables,
            replication_strategy: ReplicationStrategy::default(),
            partmap_lock: QuickLock::new(),
            is_default,
        }
    }

    /// A keyspace with no tables, other than the default keyspace.
    pub fn empty() -> (r: Keyspace)
        ensures
            r.wf(),
            !r.is_default,
            r.tables@ == Map::<Seq<u8>, Table>::empty(),
            r.tables.holders() == Map::<Seq<u8>, nat>::empty(),
    {
        Keyspace {
            tables: Coremap::new(),
            replication_strategy: ReplicationStrategy::default(),
            partmap_lock: QuickLock::new(),
            is_default: false,
        }
    }

    /// Takes a handle on table `table_identifier`, if it exists. The table
    /// cannot be dropped until the handle is given back to `release_table`.
    pub fn get_table_atomic_ref(&mut self, table_identifier: ObjectId) -> (r: Option<Handle<Table>>)
        requires
            old(self).wf(),
            old(self).tables.holders().contains_key(table_identifier@) ==> old(self).tables.holders()[table_identifier@]
                < usize::MAX,
        ensures
            get_table_step(*old(self), table_identifier@, *final(self), r),
    {
        self.tables.checkout(&table_identifier)
    }

    /// Gives back a handle taken by `get_table_atomic_ref`.
    pub fn release_table(&mut self, handle: Handle<Table>) -> (r: bool)
        requires
            old(self).wf(),
        ensures
            release_table_step(*old(self), handle@, *final(self), r),
    {
        self.tables.release(handle)
    }

    /// A read-only look at table `table_identifier`, taking no handle.
    pub fn get_table(&self, table_identifier: &ObjectId) -> (r: Option<&Table>)
        requires
            self.wf(),
        ensures
            match r {
                Some(t) => self.tables@.contains_key(table_identifier@) && *t == self.tables@[table_identifier@],
                None => !self.tables@.contains_key(table_identifier@),
            },
    {
        self.tables.get(table_identifier)
    }

    /// Creates table `tableid` unless a table of that name exists, or the
    /// name is `default` and this is not the default keyspace; never
    /// overwrites. Returns whether it was created.
    pub fn create_table(&mut self, tableid: ObjectId, table: Table) -> (r: bool)
        requires
            old(self).wf(),
        ensures
            create_table_step(*old(self), tableid@, table, *final(self), r),
    {
        if !self.is_default && tableid.same_as(&ObjectId::default_id()) {
            return false;
        }
        self.tables.true_if_insert(tableid, table)
    }

    /// Drops table `table_identifier`, unless it is `default`, absent, or
    /// has handles out; the check for handles and the removal are one step.
    pub fn drop_table(&mut self, table_identifier: ObjectId) -> (r: Result<(), DdlError>)
        requires
            old(self).wf(),
        ensures
            drop_table_step(*old(self), table_identifier@, *final(self), r),
    {
        let default_id = ObjectId::default_id();
        if table_identifier.same_as(&default_id) {
            Err(DdlError::ProtectedObject)
        } else if !self.tables.contains_key(&table_identifier) {
            Err(DdlError::ObjectNotFound)
        } else {
            proof {
                self.tables.lemma_holders();
            }
            let did_remove = self.tables.true_remove_if(&table_identifier, table_unheld);
            if did_remove {
                Ok(())
            } else {
                Err(DdlError::StillInUse)
            }
        }
    }

    /// Removes table `tblid` without looking at its handles. Only for callers
    /// that know no handle on it is out: any that is stays dangling.
    pub fn force_remove_table(&mut self, tblid: &ObjectId)
        requires
            old(self).wf(),
        ensures
            final(self).wf(),
            final(self).is_default == old(self).is_default,
            final(self).tables@ == old(self).tables@.remove(tblid@),
            final(self).tables.holders() == old(self).tables.holders().remove(tblid@),
    {
        let _removed = self.tables.remove(tblid);
    }

    /// Takes the advisory lock on this keyspace's partition map, waiting
    /// until it is free; it is released when the guard is dropped.
    pub fn lock_partmap(&self) -> std::sync::MutexGuard<'_, ()> {
        self.partmap_lock.lock()
    }
}

} // verus!
