use vstd::prelude::*;

verus! {

/// The data model of a table.
#[derive(Debug, Clone, Copy, PartialEq, Eq, Structural)]
pub enum TableType {
    KeyValue,
}

/// A table. Its storage engine lives elsewhere; here a table is a unit that
/// can be built, shared through handles, and dropped.
#[derive(Debug)]
pub struct Table {
    /// The data model the table was created with.
    pub model: TableType,
}

impl Table {
    /// A new key-value table.
    pub fn new_default_kve() -> (r: Table)
        ensures
            r.model == TableType::KeyValue,
    {
        Table { model: TableType::KeyValue }
    }
}

} // verus!
