//! Typed, validated indices into cluster space.

use vstd::prelude::*;

verus! {

/// Smallest index that addresses the data region; indices 0 and 1 are reserved.
pub const MIN_CLUSTER: u32 = 2;

/// First value of the reserved end-of-chain band (`0x0FFFFFF8..=0x0FFFFFFF`);
/// valid cluster indices lie strictly below it.
pub const END_OF_CHAIN_MIN: u32 = 0x0FFF_FFF8;

/// Last value of the reserved end-of-chain band.
pub const END_OF_CHAIN_MAX: u32 = 0x0FFF_FFFF;

/// The bad-cluster sentinel value of a table entry.
pub const BAD_CLUSTER: u32 = 0x0FFF_FFF7;

/// A 32-bit index into cluster space, the allocation unit of the data region.
#[derive(Debug, Copy, Clone, PartialEq, Eq, Structural)]
pub struct Cluster(pub u32);

/// A cluster index addresses the data region only in `[MIN_CLUSTER, END_OF_CHAIN_MIN)`.
pub open spec fn cluster_index_valid(index: u32) -> bool {
    MIN_CLUSTER <= index < END_OF_CHAIN_MIN
}

impl Cluster {
    /// Byte offset of this cluster's slot, relative to the region base, for
    /// slots of `cluster_size` bytes each: `(index - 2) * cluster_size`.
    pub fn to_offset(&self, cluster_size: u32) -> (r: u64)
        requires
            MIN_CLUSTER <= self.0,
        ensures
            r == (self.0 - MIN_CLUSTER) * cluster_size,
    {
        proof {
            assert((self.0 - MIN_CLUSTER) * cluster_size <= 0xFFFF_FFFFu64 * 0xFFFF_FFFFu64)
                by (nonlinear_arith)
                requires
                    MIN_CLUSTER <= self.0,
            ;
        }
        (self.0 as u64 - MIN_CLUSTER as u64) * cluster_size as u64
    }

    /// Whether this index may address the data region: at least `MIN_CLUSTER`
    /// and below the reserved end-of-chain band.
    pub fn is_valid(&self) -> (r: bool)
        ensures
            r == cluster_index_valid(self.0),
    {
        self.0 >= MIN_CLUSTER && self.0 < END_OF_CHAIN_MIN
    }
}

} // verus!
