//! A finite iterator over numerically consecutive cluster indices. It walks
//! the index range, not the table's chain links, so it is meant only for
//! clusters known to be contiguous; fragmented chains are walked by the
//! chain-following iterator instead.

use vstd::prelude::*;
use crate::cluster::Cluster;

verus! {

/// The cluster indices from `start` to `end` inclusive; empty when
/// `start > end`.
pub open spec fn spec_cluster_range(start: u32, end: u32) -> Seq<u32> {
    if start > end {
        Seq::empty()
    } else {
        Seq::new((end - start + 1) as nat, |i: int| (start + i) as u32)
    }
}

/// Iterator over the cluster indices of a contiguous range, inclusive of
/// both bounds. Finite, forward-only and not restartable.
pub struct ClusterOffsetIter {
    current: u32,
    end: u32,
    done: bool,
}

impl ClusterOffsetIter {
    /// The cluster indices this iterator will still yield, in order.
    pub closed spec fn remaining(&self) -> Seq<u32> {
        if self.done || self.current > self.end {
            Seq::empty()
        } else {
            Seq::new((self.end - self.current + 1) as nat, |i: int| (self.current + i) as u32)
        }
    }

    /// An iterator that will yield `start.0, start.0 + 1, ..., end`.
    pub fn new(start: Cluster, end: u32) -> (r: Self)
        ensures
            r.remaining() == spec_cluster_range(start.0, end),
    {
        let r = ClusterOffsetIter { current: start.0, end, done: false };
        proof {
            assert(r.remaining() =~= spec_cluster_range(start.0, end));
        }
        r
    }

    /// Yield the next cluster of the range, or `None` once the range is
    /// exhausted.
    pub fn next(&mut self) -> (r: Option<Cluster>)
        ensures
            old(self).remaining().len() == 0 ==> r is None && final(self).remaining() == old(
                self,
            ).remaining(),
            old(self).remaining().len() > 0 ==> r == Some(Cluster(old(self).remaining()[0]))
                && final(self).remaining() == old(self).remaining().drop_first(),
    {
        if !self.done && self.current <= self.end {
            let c = Cluster(self.current);
            if self.current == self.end {
                self.done = true;
            } else {
                self.current = self.current + 1;
            }
            proof {
                assert(self.remaining() =~= old(self).remaining().drop_first());
            }
            Some(c)
        } else {
            None
        }
    }
}

} // verus!
