//! The filesystem aggregate: owns the storage device and the partition
//! geometry, and exposes cluster read/write, allocation and free operations.

use vstd::prelude::*;
use crate::cluster::{cluster_index_valid, Cluster, END_OF_CHAIN_MIN, MIN_CLUSTER};
use crate::storage::{write_bytes, StorageDevice};
use crate::table::{
    spec_encode, spec_fat_entry, table_entry_offset, table_entry_readable, FatValue,
    END_OF_CHAIN_RAW, FREE_RAW,
};
use vstd::bytes::spec_u32_to_le_bytes;

verus! {

/// Byte offset of cluster `c`'s data inside the device: the data region
/// starts at `partition_start` and holds `cluster_size` bytes per cluster.
pub open spec fn data_offset(partition_start: u64, cluster_size: u32, c: u32) -> int
    recommends
        MIN_CLUSTER <= c,
{
    partition_start + (c - MIN_CLUSTER) * cluster_size
}

/// Index `e` is where an ascending scan of the table stops: either the end
/// of the valid cluster band, or the first entry the device cannot hold.
/// Every entry below the stop is readable and not `Free`.
pub open spec fn scan_stop(s: Seq<u8>, partition_start: u64, e: u32) -> bool {
    &&& MIN_CLUSTER <= e <= END_OF_CHAIN_MIN
    &&& e == END_OF_CHAIN_MIN || !table_entry_readable(s, partition_start, e)
    &&& forall|k: u32|
        MIN_CLUSTER <= k < e ==> table_entry_readable(s, partition_start, k)
            && #[trigger] spec_fat_entry(s, partition_start, k) != FatValue::Free
}

/// No free cluster is reachable by the ascending table scan.
pub open spec fn scan_finds_no_free(s: Seq<u8>, partition_start: u64) -> bool {
    exists|e: u32| scan_stop(s, partition_start, e)
}

/// Relation between the device contents before (`s0`) and after (`s1`) a
/// successful allocation that returned cluster `c`: `c` is the first-fit
/// winner, its entry turned from `Free` to `EndOfChain`, and every other
/// cluster's entry is untouched.
pub open spec fn allocate_success(s0: Seq<u8>, s1: Seq<u8>, partition_start: u64, c: u32) -> bool {
    &&& cluster_index_valid(c)
    &&& table_entry_readable(s0, partition_start, c)
    &&& spec_fat_entry(s0, partition_start, c) == FatValue::Free
    &&& forall|k: u32|
        MIN_CLUSTER <= k < c ==> table_entry_readable(s0, partition_start, k)
            && #[trigger] spec_fat_entry(s0, partition_start, k) != FatValue::Free
    &&& s1 == crate::storage::write_bytes(
        s0,
        table_entry_offset(partition_start, c),
        spec_u32_to_le_bytes(spec_encode(FatValue::EndOfChain)),
    )
    &&& s1.len() == s0.len()
    &&& spec_fat_entry(s1, partition_start, c) == FatValue::EndOfChain
    &&& forall|k: u32|
        MIN_CLUSTER <= k && k != c && table_entry_readable(s0, partition_start, k)
            ==> #[trigger] spec_fat_entry(s1, partition_start, k) == spec_fat_entry(
            s0,
            partition_start,
            k,
        )
}

/// The aggregate root: the storage device, held exclusively, and the fixed
/// partition geometry. Exclusive ownership makes every multi-step operation
/// (notably the allocation scan and its committing write) one critical
/// section: no other caller can observe or race its intermediate states.
pub struct FatFileSystem<S: StorageDevice> {
    pub storage_device: S,
    pub partition_start: u64,
    pub cluster_size: u32,
}

impl<S: StorageDevice> FatFileSystem<S> {
    /// Geometry sanity: a cluster holds at least one byte.
    pub open spec fn wf(&self) -> bool {
        self.cluster_size > 0
    }

    /// Mount a filesystem over `storage_device` with the given geometry.
    pub fn new(storage_device: S, partition_start: u64, cluster_size: u32) -> (r: Self)
        requires
            cluster_size > 0,
        ensures
            r.storage_device == storage_device,
            r.partition_start == partition_start,
            r.cluster_size == cluster_size,
            r.wf(),
    {
        FatFileSystem { storage_device, partition_start, cluster_size }
    }

    /// Read the full contents of `cluster` from the data region. Fails
    /// exactly when the cluster's slot runs past the end of the device.
    pub fn read_cluster(&self, cluster: Cluster) -> (r: Option<Vec<u8>>)
        requires
            MIN_CLUSTER <= cluster.0,
        ensures
            r is Some <==> data_offset(self.partition_start, self.cluster_size, cluster.0)
                + self.cluster_size <= self.storage_device.contents().len(),
            r matches Some(b) ==> b@ == self.storage_device.contents().subrange(
                data_offset(self.partition_start, self.cluster_size, cluster.0),
                data_offset(self.partition_start, self.cluster_size, cluster.0)
                    + self.cluster_size,
            ),
    {
        let off = cluster.to_offset(self.cluster_size);
        if u64::MAX - self.partition_start < off {
            proof {
                self.storage_device.lemma_contents_bounded();
            }
            return None;
        }
        self.storage_device.read(self.partition_start + off, self.cluster_size as usize)
    }

    /// Write one cluster's worth of bytes into `cluster`'s slot of the data
    /// region. Succeeds exactly when the slot lies inside the device; a
    /// failed write changes nothing.
    pub fn write_cluster(&mut self, cluster: Cluster, data: &[u8]) -> (r: bool)
        requires
            MIN_CLUSTER <= cluster.0,
            data@.len() == old(self).cluster_size,
        ensures
            final(self).partition_start == old(self).partition_start,
            final(self).cluster_size == old(self).cluster_size,
            r <==> data_offset(old(self).partition_start, old(self).cluster_size, cluster.0)
                + old(self).cluster_size <= old(self).storage_device.contents().len(),
            r ==> final(self).storage_device.contents() == write_bytes(
                old(self).storage_device.contents(),
                data_offset(old(self).partition_start, old(self).cluster_size, cluster.0),
                data@,
            ),
            !r ==> final(self).storage_device.contents() == old(self).storage_device.contents(),
    {
        let off = cluster.to_offset(self.cluster_size);
        if u64::MAX - self.partition_start < off {
            proof {
                self.storage_device.lemma_contents_bounded();
            }
            return false;
        }
        self.storage_device.write(self.partition_start + off, data).is_ok()
    }

    /// Allocate a cluster: scan the table ascending from the first valid
    /// index and atomically claim the first `Free` entry by marking it
    /// `EndOfChain`. Returns `None`, with nothing changed, exactly when the
    /// scan runs out of table without meeting a free entry.
    pub fn allocate_cluster(&mut self) -> (r: Option<Cluster>)
        ensures
            final(self).partition_start == old(self).partition_start,
            final(self).cluster_size == old(self).cluster_size,
            r matches Some(c) ==> allocate_success(
                old(self).storage_device.contents(),
                final(self).storage_device.contents(),
                old(self).partition_start,
                c.0,
            ),
            r is None ==> *final(self) == *old(self) && scan_finds_no_free(
                old(self).storage_device.contents(),
                old(self).partition_start,
            ),
    {
        let ghost s0 = self.storage_device.contents();
        let ghost ps = self.partition_start;
        let mut c: u32 = MIN_CLUSTER;
        while c < END_OF_CHAIN_MIN
            invariant
                MIN_CLUSTER <= c <= END_OF_CHAIN_MIN,
                *self == *old(self),
                s0 == self.storage_device.contents(),
                ps == self.partition_start,
                forall|k: u32|
                    MIN_CLUSTER <= k < c ==> table_entry_readable(s0, ps, k)
                        && #[trigger] spec_fat_entry(s0, ps, k) != FatValue::Free,
            decreases END_OF_CHAIN_MIN - c,
        {
            match FatValue::get(self, Cluster(c)) {
                None => {
                    proof {
                        assert(scan_stop(s0, ps, c));
                    }
                    return None;
                },
                Some(FatValue::Free) => {
                    let claimed = FatValue::put(self, Cluster(c), FatValue::EndOfChain);
                    proof {
                        assert(claimed);
                        crate::table::lemma_table_write_effect(s0, ps, c, END_OF_CHAIN_RAW);
                    }
                    return Some(Cluster(c));
                },
                Some(_) => {
                    c = c + 1;
                },
            }
        }
        proof {
            assert(scan_stop(s0, ps, END_OF_CHAIN_MIN));
        }
        None
    }

    /// Mark `cluster` free in the table, reporting whether the write reached
    /// the device. The entry is not checked first: freeing a cluster that is
    /// still linked from a chain is the caller's responsibility.
    pub fn free_cluster(&mut self, cluster: Cluster) -> (r: bool)
        requires
            MIN_CLUSTER <= cluster.0,
        ensures
            final(self).partition_start == old(self).partition_start,
            final(self).cluster_size == old(self).cluster_size,
            r <==> table_entry_readable(
                old(self).storage_device.contents(),
                old(self).partition_start,
                cluster.0,
            ),
            r ==> final(self).storage_device.contents() == write_bytes(
                old(self).storage_device.contents(),
                table_entry_offset(old(self).partition_start, cluster.0),
                spec_u32_to_le_bytes(spec_encode(FatValue::Free)),
            ),
            r ==> final(self).storage_device.contents().len() == old(
                self,
            ).storage_device.contents().len(),
            r ==> spec_fat_entry(
                final(self).storage_device.contents(),
                old(self).partition_start,
                cluster.0,
            ) == FatValue::Free,
            r ==> forall|k: u32|
                MIN_CLUSTER <= k && k != cluster.0 && table_entry_readable(
                    old(self).storage_device.contents(),
                    old(self).partition_start,
                    k,
                ) ==> #[trigger] spec_fat_entry(
                    final(self).storage_device.contents(),
                    old(self).partition_start,
                    k,
                ) == spec_fat_entry(
                    old(self).storage_device.contents(),
                    old(self).partition_start,
                    k,
                ),
            !r ==> final(self).storage_device.contents() == old(self).storage_device.contents(),
    {
        let ghost s0 = self.storage_device.contents();
        let freed = FatValue::put(self, cluster, FatValue::Free);
        proof {
            if freed {
                crate::table::lemma_table_write_effect(
                    s0,
                    old(self).partition_start,
                    cluster.0,
                    FREE_RAW,
                );
            }
        }
        freed
    }
}

/// Law: a successful allocation is immediately visible — the winner's table
/// entry reads `EndOfChain`, not `Free`, in the state the call leaves.
pub proof fn lemma_allocate_marks_winner(s0: Seq<u8>, s1: Seq<u8>, partition_start: u64, c: u32)
    requires
        allocate_success(s0, s1, partition_start, c),
    ensures
        spec_fat_entry(s1, partition_start, c) == FatValue::EndOfChain,
        spec_fat_entry(s1, partition_start, c) != FatValue::Free,
{
}

/// Law: successive successful allocations return distinct clusters. The
/// first call leaves its winner marked `EndOfChain`, and a later allocation
/// from the resulting state can only claim an entry that still reads `Free`.
pub proof fn lemma_allocate_distinct(
    s0: Seq<u8>,
    s1: Seq<u8>,
    s2: Seq<u8>,
    partition_start: u64,
    c1: u32,
    c2: u32,
)
    requires
        allocate_success(s0, s1, partition_start, c1),
        allocate_success(s1, s2, partition_start, c2),
    ensures
        c1 != c2,
{
}

/// Law: an allocation step keeps every already-claimed cluster claimed: an
/// entry that read `EndOfChain` before a successful allocation of some other
/// cluster still reads `EndOfChain` after it. Together with the distinctness
/// of successive winners this gives any number of allocations pairwise
/// distinct results.
pub proof fn lemma_allocate_preserves_claims(
    s0: Seq<u8>,
    s1: Seq<u8>,
    partition_start: u64,
    c: u32,
    claimed: u32,
)
    requires
        allocate_success(s0, s1, partition_start, c),
        MIN_CLUSTER <= claimed,
        table_entry_readable(s0, partition_start, claimed),
        spec_fat_entry(s0, partition_start, claimed) == FatValue::EndOfChain,
    ensures
        c != claimed,
        spec_fat_entry(s1, partition_start, claimed) == FatValue::EndOfChain,
{
}

/// A winner of step `i` of an allocation run still reads `EndOfChain` in
/// every later state of the run.
proof fn lemma_claim_survives_run(
    states: Seq<Seq<u8>>,
    winners: Seq<u32>,
    partition_start: u64,
    i: int,
    j: int,
)
    requires
        states.len() == winners.len() + 1,
        forall|k: int|
            0 <= k < winners.len() ==> #[trigger] allocate_success(
                states[k],
                states[k + 1],
                partition_start,
                winners[k],
            ),
        0 <= i < j <= winners.len(),
    ensures
        MIN_CLUSTER <= winners[i],
        table_entry_readable(states[j], partition_start, winners[i]),
        spec_fat_entry(states[j], partition_start, winners[i]) == FatValue::EndOfChain,
    decreases j,
{
    assert(allocate_success(states[i], states[i + 1], partition_start, winners[i]));
    if j == i + 1 {
    } else {
        lemma_claim_survives_run(states, winners, partition_start, i, j - 1);
        let k = j - 1;
        assert(allocate_success(states[k], states[k + 1], partition_start, winners[k]));
        lemma_allocate_preserves_claims(
            states[k],
            states[k + 1],
            partition_start,
            winners[k],
            winners[i],
        );
    }
}

/// Law: a run of successful allocations returns pairwise distinct clusters.
/// `states` are the device contents before and after each call and
/// `winners` the returned clusters, each call's outcome as `allocate_cluster`
/// ensures it; every winner stays observably claimed for the rest of the
/// run, so no later call can return it again.
pub proof fn lemma_allocate_run_distinct(
    states: Seq<Seq<u8>>,
    winners: Seq<u32>,
    partition_start: u64,
)
    requires
        states.len() == winners.len() + 1,
        forall|k: int|
            0 <= k < winners.len() ==> #[trigger] allocate_success(
                states[k],
                states[k + 1],
                partition_start,
                winners[k],
            ),
    ensures
        forall|i: int, j: int|
            0 <= i < j < winners.len() ==> #[trigger] winners[i] != #[trigger] winners[j],
{
    assert forall|i: int, j: int|
        0 <= i < j < winners.len() implies #[trigger] winners[i] != #[trigger] winners[j] by {
        lemma_claim_survives_run(states, winners, partition_start, i, j);
        assert(allocate_success(states[j], states[j + 1], partition_start, winners[j]));
        assert(spec_fat_entry(states[j], partition_start, winners[j]) == FatValue::Free);
    }
}

} // verus!
