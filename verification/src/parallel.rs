//! How large a pool of workers is made when the caller does not say.

use vstd::prelude::*;

verus! {

/// The size of a pool: how many workers it has, and how many tasks may wait
/// in its queue before submitting blocks.
#[derive(Debug, Clone, Copy, PartialEq, Eq)]
pub struct PoolSize {
    pub threads: usize,
    pub queue: usize,
}

/// The default size on a machine that can run `available` threads at once:
/// that many workers, and a queue of twice that length, or as long as can be
/// if twice that is beyond counting.
pub open spec fn default_size(available: usize) -> PoolSize {
    PoolSize {
        threads: available,
        queue: if 2 * available <= usize::MAX {
            (2 * available) as usize
        } else {
            usize::MAX
        },
    }
}

/// The default size of a pool.
pub fn default_pool_size(available: usize) -> (size: PoolSize)
    ensures
        size == default_size(available),
{
    let queue = if available <= usize::MAX / 2 {
        2 * available
    } else {
        usize::MAX
    };
    PoolSize { threads: available, queue }
}

} // verus!
