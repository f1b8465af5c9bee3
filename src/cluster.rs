use vstd::prelude::*;

verus! {

/// The range of shards a node is responsible for; every node currently
/// holds everything.
#[derive(Debug, Clone, Copy, PartialEq, Eq, Structural)]
pub enum ClusterShardRange {
    SingleNode,
}

impl Default for ClusterShardRange {
    fn default() -> (r: Self)
        ensures
            r == ClusterShardRange::SingleNode,
    {
        ClusterShardRange::SingleNode
    }
}

/// How a keyspace is replicated; currently only a single node without
/// replica sets.
#[derive(Debug, Clone, Copy, PartialEq, Eq, Structural)]
pub enum ReplicationStrategy {
    /// Single node, no replica sets
    Default,
}

impl Default for ReplicationStrategy {
    fn default() -> (r: Self)
        ensures
            r == ReplicationStrategy::Default,
    {
        ReplicationStrategy::Default
    }
}

} // verus!
