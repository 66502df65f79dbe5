//! Chain-following iteration: a walker over the table's chain links, and a
//! directory iterator that decodes 32-byte records from the clusters of a
//! directory's chain. Neither assumes cluster numbers are contiguous.

use vstd::prelude::*;
use vstd::bytes::{spec_u16_from_le_bytes, spec_u32_from_le_bytes};
use crate::cluster::{cluster_index_valid, Cluster};
use crate::dir_entry::{DirectoryEntry, DIR_ENTRY_SIZE};
use crate::filesystem::{data_offset, FatFileSystem};
use crate::storage::StorageDevice;
use crate::table::{spec_fat_entry, table_entry_readable, FatValue};

verus! {

/// A step budget that no acyclic chain can exhaust: the number of valid
/// cluster indices. It bounds every walk, so a corrupted, cyclic chain
/// still terminates.
pub const CHAIN_STEP_BUDGET: u32 = 0x0FFF_FFF6;

/// The fields of `e` are the decoded form of the 32-byte record `rec`.
pub open spec fn spec_record_matches(rec: Seq<u8>, e: DirectoryEntry) -> bool
    recommends
        rec.len() == DIR_ENTRY_SIZE,
{
    &&& e.file_name@ == rec.subrange(0, 11)
    &&& e.attributes == rec[11]
    &&& e.start_cluster.0 == spec_u16_from_le_bytes(rec.subrange(20, 22)) * 0x10000
        + spec_u16_from_le_bytes(rec.subrange(26, 28))
    &&& e.file_size == spec_u32_from_le_bytes(rec.subrange(28, 32))
}

/// An iterator over one cluster chain: it yields the chain's clusters in
/// order, following each `Data` link in the table and ending on
/// `EndOfChain`, `Bad`, `Free` or an unreadable entry. Finite, forward-only
/// and not restartable.
pub struct ClusterChainIter {
    current: Option<Cluster>,
    budget: u32,
}

impl ClusterChainIter {
    /// The cluster the next call will yield, if the chain has not ended.
    pub closed spec fn spec_current(&self) -> Option<Cluster> {
        self.current
    }

    /// Steps this walk may still take before it is cut off.
    pub closed spec fn spec_budget(&self) -> u32 {
        self.budget
    }

    /// Any cluster still to be yielded is a valid index.
    pub closed spec fn wf(&self) -> bool {
        self.current matches Some(c) ==> cluster_index_valid(c.0)
    }

    /// A walk of the chain that starts at `start`.
    pub fn new(start: Cluster) -> (r: Self)
        requires
            cluster_index_valid(start.0),
        ensures
            r.wf(),
            r.spec_current() == Some(start),
            r.spec_budget() == CHAIN_STEP_BUDGET,
    {
        ClusterChainIter { current: Some(start), budget: CHAIN_STEP_BUDGET }
    }

    /// Yield the current cluster and follow its table link: a `Data` link
    /// continues the walk at its target, anything else — an end-of-chain or
    /// bad mark, a free entry, an unreadable entry, or an exhausted step
    /// budget — ends it.
    pub fn next<S: StorageDevice>(&mut self, fs: &FatFileSystem<S>) -> (r: Option<Cluster>)
        requires
            old(self).wf(),
        ensures
            final(self).wf(),
            old(self).spec_current() is None ==> r is None && final(self).spec_current() is None,
            old(self).spec_current() matches Some(c) ==> r == Some(c) && {
                let s = fs.storage_device.contents();
                let ps = fs.partition_start;
                if old(self).spec_budget() == 0 {
                    final(self).spec_current() is None
                } else {
                    &&& final(self).spec_budget() == old(self).spec_budget() - 1
                    &&& (if table_entry_readable(s, ps, c.0) {
                        match spec_fat_entry(s, ps, c.0) {
                            FatValue::Data(nxt) => final(self).spec_current() == Some(
                                Cluster(nxt),
                            ),
                            _ => final(self).spec_current() is None,
                        }
                    } else {
                        final(self).spec_current() is None
                    })
                }
            },
    {
        match self.current {
            None => None,
            Some(c) => {
                if self.budget == 0 {
                    self.current = None;
                    return Some(c);
                }
                self.budget = self.budget - 1;
                self.current = match FatValue::get(fs, c) {
                    Some(FatValue::Data(nxt)) => Some(Cluster(nxt)),
                    _ => None,
                };
                Some(c)
            },
        }
    }
}

/// An iterator over the records of a directory: it reads the directory's
/// clusters along the chain, decodes fixed-size records in order, and stops
/// at the first unused (zero-led) record, at the end of the chain, or where
/// a cluster cannot be read. Finite, forward-only and not restartable.
pub struct DirectoryIterator {
    current: Option<Cluster>,
    entry_index: u32,
    budget: u32,
}

impl DirectoryIterator {
    /// The cluster the next record will be read from, if any.
    pub closed spec fn spec_current(&self) -> Option<Cluster> {
        self.current
    }

    /// The record slot within the current cluster.
    pub closed spec fn spec_entry_index(&self) -> u32 {
        self.entry_index
    }

    /// Chain steps this iteration may still take.
    pub closed spec fn spec_budget(&self) -> u32 {
        self.budget
    }

    /// Any cluster still to be read is a valid index.
    pub closed spec fn wf(&self) -> bool {
        self.current matches Some(c) ==> cluster_index_valid(c.0)
    }

    /// An iteration over the directory whose chain starts at `start`.
    pub fn new(start: Cluster) -> (r: Self)
        requires
            cluster_index_valid(start.0),
        ensures
            r.wf(),
            r.spec_current() == Some(start),
            r.spec_entry_index() == 0,
    {
        DirectoryIterator { current: Some(start), entry_index: 0, budget: CHAIN_STEP_BUDGET }
    }

    /// Decode the record at the current position and advance: to the next
    /// slot of the same cluster while one fits, else along the chain link.
    /// `None` ends the iteration for good: the chain is exhausted, a
    /// cluster was unreadable, no record fits the cluster size, or the
    /// record there is unused.
    pub fn next<S: StorageDevice>(&mut self, fs: &FatFileSystem<S>) -> (r: Option<DirectoryEntry>)
        requires
            old(self).wf(),
        ensures
            final(self).wf(),
            old(self).spec_current() is None ==> r is None && final(self).spec_current() is None,
            old(self).spec_current() matches Some(c) ==> {
                let s = fs.storage_device.contents();
                let doff = data_offset(fs.partition_start, fs.cluster_size, c.0);
                let roff = doff + old(self).spec_entry_index() * DIR_ENTRY_SIZE;
                if doff + fs.cluster_size > s.len() {
                    // the cluster cannot be read
                    r is None && final(self).spec_current() is None
                } else if old(self).spec_entry_index() * DIR_ENTRY_SIZE + DIR_ENTRY_SIZE
                    > fs.cluster_size {
                    // no further record fits this cluster
                    r is None && final(self).spec_current() is None
                } else if s[roff] == 0 {
                    // an unused record ends the directory
                    r is None && final(self).spec_current() is None
                } else {
                    &&& r matches Some(e) && spec_record_matches(
                        s.subrange(roff, roff + DIR_ENTRY_SIZE),
                        e,
                    )
                    &&& ((old(self).spec_entry_index() + 1) * DIR_ENTRY_SIZE + DIR_ENTRY_SIZE
                        <= fs.cluster_size ==> final(self).spec_current() == Some(c)
                        && final(self).spec_entry_index() == old(self).spec_entry_index() + 1)
                    &&& ((old(self).spec_entry_index() + 1) * DIR_ENTRY_SIZE + DIR_ENTRY_SIZE
                        > fs.cluster_size && old(self).spec_budget() > 0 ==> {
                        let ps = fs.partition_start;
                        &&& final(self).spec_entry_index() == 0
                        &&& (if table_entry_readable(s, ps, c.0) {
                            match spec_fat_entry(s, ps, c.0) {
                                FatValue::Data(nxt) => final(self).spec_current() == Some(
                                    Cluster(nxt),
                                ),
                                _ => final(self).spec_current() is None,
                            }
                        } else {
                            final(self).spec_current() is None
                        })
                    })
                    &&& ((old(self).spec_entry_index() + 1) * DIR_ENTRY_SIZE + DIR_ENTRY_SIZE
                        > fs.cluster_size && old(self).spec_budget() == 0
                        ==> final(self).spec_current() is None)
                }
            },
    {
        let c = match self.current {
            None => {
                return None;
            },
            Some(c) => c,
        };
        let buf = match fs.read_cluster(c) {
            None => {
                self.current = None;
                return None;
            },
            Some(buf) => buf,
        };
        let off64 = (self.entry_index as u64) * (DIR_ENTRY_SIZE as u64);
        if off64 + (DIR_ENTRY_SIZE as u64) > (fs.cluster_size as u64) {
            self.current = None;
            return None;
        }
        let off: usize = off64 as usize;
        if buf[off] == 0 {
            self.current = None;
            return None;
        }
        let entry = DirectoryEntry::from_bytes(buf.as_slice(), off);
        proof {
            let s = fs.storage_device.contents();
            let doff = data_offset(fs.partition_start, fs.cluster_size, c.0);
            assert(buf@.subrange(off as int, off + DIR_ENTRY_SIZE) =~= s.subrange(
                doff + off,
                doff + off + DIR_ENTRY_SIZE,
            ));
        }
        // advance: next slot of this cluster, or along the chain link
        if off64 + 2 * (DIR_ENTRY_SIZE as u64) <= (fs.cluster_size as u64) {
            self.entry_index = self.entry_index + 1;
        } else if self.budget == 0 {
            self.current = None;
        } else {
            self.budget = self.budget - 1;
            self.entry_index = 0;
            self.current = match FatValue::get(fs, c) {
                Some(FatValue::Data(nxt)) => Some(Cluster(nxt)),
                _ => None,
            };
        }
        Some(entry)
    }
}

} // verus!
