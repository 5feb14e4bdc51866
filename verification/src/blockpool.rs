use vstd::prelude::*;

verus! {

/// The direct-memory block pool device: a placeholder file backend the
/// kernel registers; its operations live with the filesystem
/// collaborator.
#[derive(Debug)]
pub struct BlockPool {}

impl BlockPool {
    pub fn new() -> (r: BlockPool)
        ensures
            true,
    {
        BlockPool {}
    }
}

/// Arguments of the pool-expansion control operation.
#[derive(Debug, Clone, Copy, PartialEq, Eq, Structural)]
pub struct BlockpoolExpandArgs {
    pub len: usize,
    pub search_start: usize,
    pub search_end: usize,
    pub alignment: usize,
}

/// Counters the pool-statistics control operation reports.
#[derive(Debug, Clone, Copy, PartialEq, Eq, Structural)]
pub struct BlockpoolStats {
    pub avail_flushed: i32,
    pub avail_cached: i32,
    pub allocated_flushed: i32,
    pub allocated_cached: i32,
}

} // verus!
