use vstd::prelude::*;

verus! {

/// Errors arising from trying to modify or access keyspaces and tables.
#[derive(Debug, Clone, Copy, PartialEq, Eq, Structural)]
pub enum DdlError {
    /// The object is still in use
    StillInUse,
    /// The object couldn't be found
    ObjectNotFound,
    /// The object is not user-accessible
    ProtectedObject,
    /// The default object wasn't found
    DefaultNotFound,
    /// Incorrect data model semantics were used on a data model
    WrongModel,
    /// The object already exists
    AlreadyExists,
    /// The target object is not ready
    NotReady,
    /// The DDL transaction failed
    DdlTransactionFailure,
}

} // verus!
