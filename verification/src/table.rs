//! The file-allocation table: each cluster's table entry is a 4-byte
//! little-endian slot whose decoded meaning links clusters into chains.

use vstd::prelude::*;
use vstd::bytes::{
    lemma_auto_spec_u32_to_from_le_bytes, spec_u32_from_le_bytes, spec_u32_to_le_bytes,
    u32_from_le_bytes, u32_to_le_bytes,
};
use crate::cluster::{
    cluster_index_valid, Cluster, BAD_CLUSTER, END_OF_CHAIN_MAX, END_OF_CHAIN_MIN, MIN_CLUSTER,
};
use crate::filesystem::FatFileSystem;
use crate::storage::{write_bytes, StorageDevice};

verus! {

/// Bytes per table entry.
pub const FAT_ENTRY_SIZE: u32 = 4;

/// Raw slot value of a free cluster.
pub const FREE_RAW: u32 = 0;

/// Raw slot value written for an end-of-chain mark.
pub const END_OF_CHAIN_RAW: u32 = 0x0FFF_FFFF;

/// The decoded meaning of one table slot.
#[derive(Debug, Copy, Clone, PartialEq, Eq, Structural)]
pub enum FatValue {
    /// The cluster is unused.
    Free,
    /// The cluster is in use; the payload is the next cluster of its chain.
    Data(u32),
    /// The cluster is in use and ends its chain.
    EndOfChain,
    /// The cluster is unusable.
    Bad,
}

/// Meaning of a raw 32-bit slot value. A `Data` payload must itself be a
/// valid cluster index, so a raw value that is neither a sentinel nor a
/// valid index decodes to `Bad`.
pub open spec fn spec_decode(raw: u32) -> FatValue {
    if raw == FREE_RAW {
        FatValue::Free
    } else if raw == BAD_CLUSTER {
        FatValue::Bad
    } else if END_OF_CHAIN_MIN <= raw <= END_OF_CHAIN_MAX {
        FatValue::EndOfChain
    } else if cluster_index_valid(raw) {
        FatValue::Data(raw)
    } else {
        FatValue::Bad
    }
}

/// The raw 32-bit slot value a tag is persisted as.
pub open spec fn spec_encode(value: FatValue) -> u32 {
    match value {
        FatValue::Free => FREE_RAW,
        FatValue::EndOfChain => END_OF_CHAIN_RAW,
        FatValue::Bad => BAD_CLUSTER,
        FatValue::Data(v) => v,
    }
}

/// Byte offset of cluster `c`'s table entry inside the device: the table
/// region starts at `partition_start` and holds one 4-byte slot per cluster.
pub open spec fn table_entry_offset(partition_start: u64, c: u32) -> int
    recommends
        MIN_CLUSTER <= c,
{
    partition_start + (c - MIN_CLUSTER) * (FAT_ENTRY_SIZE as int)
}

/// Whether cluster `c`'s table entry lies inside device contents `s`.
pub open spec fn table_entry_readable(s: Seq<u8>, partition_start: u64, c: u32) -> bool
    recommends
        MIN_CLUSTER <= c,
{
    table_entry_offset(partition_start, c) + FAT_ENTRY_SIZE <= s.len()
}

/// The decoded table entry of cluster `c` as persisted in device contents `s`.
pub open spec fn spec_fat_entry(s: Seq<u8>, partition_start: u64, c: u32) -> FatValue
    recommends
        MIN_CLUSTER <= c,
        table_entry_readable(s, partition_start, c),
{
    spec_decode(
        spec_u32_from_le_bytes(
            s.subrange(
                table_entry_offset(partition_start, c),
                table_entry_offset(partition_start, c) + FAT_ENTRY_SIZE,
            ),
        ),
    )
}

impl FatValue {
    /// The decoded meaning of a raw 32-bit slot value.
    pub fn decode(raw: u32) -> (r: Self)
        ensures
            r == spec_decode(raw),
    {
        if raw == FREE_RAW {
            FatValue::Free
        } else if raw == BAD_CLUSTER {
            FatValue::Bad
        } else if END_OF_CHAIN_MIN <= raw && raw <= END_OF_CHAIN_MAX {
            FatValue::EndOfChain
        } else if raw >= MIN_CLUSTER && raw < END_OF_CHAIN_MIN {
            FatValue::Data(raw)
        } else {
            FatValue::Bad
        }
    }

    /// The raw 32-bit slot value this tag is persisted as.
    pub fn encode(self) -> (r: u32)
        ensures
            r == spec_encode(self),
    {
        match self {
            FatValue::Free => FREE_RAW,
            FatValue::EndOfChain => END_OF_CHAIN_RAW,
            FatValue::Bad => BAD_CLUSTER,
            FatValue::Data(v) => v,
        }
    }

    /// Read and decode the table entry of `cluster`. `None` means the entry
    /// could not be read because it lies outside the device, a condition
    /// reported separately from the on-disk `Bad` tag.
    pub fn get<S: StorageDevice>(fs: &FatFileSystem<S>, cluster: Cluster) -> (r: Option<FatValue>)
        requires
            MIN_CLUSTER <= cluster.0,
        ensures
            r is Some <==> table_entry_readable(
                fs.storage_device.contents(),
                fs.partition_start,
                cluster.0,
            ),
            r matches Some(v) ==> v == spec_fat_entry(
                fs.storage_device.contents(),
                fs.partition_start,
                cluster.0,
            ),
    {
        let off = cluster.to_offset(FAT_ENTRY_SIZE);
        if u64::MAX - fs.partition_start < off {
            proof {
                fs.storage_device.lemma_contents_bounded();
            }
            return None;
        }
        match fs.storage_device.read(fs.partition_start + off, FAT_ENTRY_SIZE as usize) {
            Some(buf) => Some(FatValue::decode(u32_from_le_bytes(buf.as_slice()))),
            None => None,
        }
    }

    /// Encode `value` and write it into the table entry of `cluster`,
    /// reporting whether the write reached the device.
    pub fn put<S: StorageDevice>(
        fs: &mut FatFileSystem<S>,
        cluster: Cluster,
        value: FatValue,
    ) -> (r: bool)
        requires
            MIN_CLUSTER <= cluster.0,
        ensures
            final(fs).partition_start == old(fs).partition_start,
            final(fs).cluster_size == old(fs).cluster_size,
            r <==> table_entry_readable(
                old(fs).storage_device.contents(),
                old(fs).partition_start,
                cluster.0,
            ),
            r ==> final(fs).storage_device.contents() == write_bytes(
                old(fs).storage_device.contents(),
                table_entry_offset(old(fs).partition_start, cluster.0),
                spec_u32_to_le_bytes(spec_encode(value)),
            ),
            !r ==> final(fs).storage_device.contents() == old(fs).storage_device.contents(),
    {
        let off = cluster.to_offset(FAT_ENTRY_SIZE);
        let raw = value.encode();
        let bytes = u32_to_le_bytes(raw);
        if u64::MAX - fs.partition_start < off {
            proof {
                fs.storage_device.lemma_contents_bounded();
            }
            return false;
        }
        fs.storage_device.write(fs.partition_start + off, bytes.as_slice()).is_ok()
    }
}

/// Law: decoding is stable under one re-encoding — for every raw 32-bit slot
/// value, encoding the decoded tag and decoding again gives the same tag,
/// even where whole sentinel bands collapse onto one representative.
pub proof fn lemma_decode_encode_roundtrip(raw: u32)
    ensures
        spec_decode(spec_encode(spec_decode(raw))) == spec_decode(raw),
{
}

/// Writing the encoded value `raw` into cluster `c`'s table slot changes that
/// entry to `decode(raw)` and leaves every other cluster's entry as it was.
pub proof fn lemma_table_write_effect(s: Seq<u8>, partition_start: u64, c: u32, raw: u32)
    requires
        MIN_CLUSTER <= c,
        table_entry_readable(s, partition_start, c),
    ensures
        write_bytes(s, table_entry_offset(partition_start, c), spec_u32_to_le_bytes(raw)).len()
            == s.len(),
        spec_fat_entry(
            write_bytes(s, table_entry_offset(partition_start, c), spec_u32_to_le_bytes(raw)),
            partition_start,
            c,
        ) == spec_decode(raw),
        forall|k: u32|
            MIN_CLUSTER <= k && k != c && table_entry_readable(s, partition_start, k)
                ==> #[trigger] spec_fat_entry(
                write_bytes(s, table_entry_offset(partition_start, c), spec_u32_to_le_bytes(raw)),
                partition_start,
                k,
            ) == spec_fat_entry(s, partition_start, k),
{
    lemma_auto_spec_u32_to_from_le_bytes();
    let d = spec_u32_to_le_bytes(raw);
    let off = table_entry_offset(partition_start, c);
    let s2 = write_bytes(s, off, d);
    assert(s2.subrange(off, off + FAT_ENTRY_SIZE) =~= d);
    assert forall|k: u32|
        MIN_CLUSTER <= k && k != c && table_entry_readable(s, partition_start, k)
            implies #[trigger] spec_fat_entry(s2, partition_start, k)
            == spec_fat_entry(s, partition_start, k) by {
        let offk = table_entry_offset(partition_start, k);
        assert(s2.subrange(offk, offk + FAT_ENTRY_SIZE) =~= s.subrange(
            offk,
            offk + FAT_ENTRY_SIZE,
        ));
    }
}

} // verus!
