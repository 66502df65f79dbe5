//! Directory entries: the in-memory form of one file or subdirectory
//! record, its 8.3 name handling, and its canonical 32-byte on-disk image.

use vstd::prelude::*;
use vstd::bytes::{
    lemma_auto_spec_u16_to_from_le_bytes, lemma_auto_spec_u32_to_from_le_bytes,
    spec_u16_from_le_bytes, spec_u16_to_le_bytes, spec_u32_from_le_bytes, spec_u32_to_le_bytes,
    u16_from_le_bytes, u16_to_le_bytes, u32_from_le_bytes, u32_to_le_bytes,
};
use vstd::string::StringSliceAdditionalSpecFns;
use crate::ascii::{
    push_bytes_as_chars, push_char, spec_chars_of_bytes, spec_pad_field, spec_trim_end,
    trim_end_in, PAD,
};
use crate::attribute::Attributes;
use crate::cluster::Cluster;

verus! {

/// Bytes per on-disk directory record.
pub const DIR_ENTRY_SIZE: usize = 32;

/// Position of the first `.` in `s`, or `None` when `s` holds no dot.
pub open spec fn spec_dot_index(s: Seq<u8>) -> Option<int>
    decreases s.len(),
{
    if s.len() == 0 {
        None
    } else if s[0] == 46u8 {
        Some(0int)
    } else {
        match spec_dot_index(s.drop_first()) {
            Some(i) => Some(i + 1),
            None => None,
        }
    }
}

/// The 11-byte name field built from a display name: the part before the
/// first dot goes verbatim into the 8-byte window, the part after it into
/// the 3-byte window, both truncated and space-padded. Unlike the short
/// filename constructor, no case folding happens here.
pub open spec fn spec_entry_name_field(s: Seq<u8>) -> Seq<u8> {
    match spec_dot_index(s) {
        Some(i) => spec_pad_field(s.take(i), 8) + spec_pad_field(s.skip(i + 1), 3),
        None => spec_pad_field(s, 8) + spec_pad_field(Seq::empty(), 3),
    }
}

/// The display form of a stored 11-byte field: trailing spaces trimmed from
/// each window, and the dot omitted when the extension window is all
/// spaces. (The short filename type renders the dot unconditionally.)
pub open spec fn spec_entry_display(f: Seq<u8>) -> Seq<char> {
    if spec_trim_end(f.skip(8)).len() == 0 {
        spec_chars_of_bytes(spec_trim_end(f.take(8)))
    } else {
        spec_chars_of_bytes(spec_trim_end(f.take(8))) + seq!['.'] + spec_chars_of_bytes(
            spec_trim_end(f.skip(8)),
        )
    }
}

/// The canonical 32-byte record: name bytes, the attribute byte, the start
/// cluster split into a high and a low little-endian word, and the file
/// size, with the unmodeled middle bytes zero.
pub open spec fn spec_entry_record(name: Seq<u8>, attributes: u8, cluster: u32, size: u32) -> Seq<
    u8,
>
    recommends
        name.len() == 11,
{
    name + seq![attributes] + Seq::new(8, |i: int| 0u8) + spec_u16_to_le_bytes(
        (cluster >> 16) as u16,
    ) + Seq::new(4, |i: int| 0u8) + spec_u16_to_le_bytes(cluster as u16) + spec_u32_to_le_bytes(
        size,
    )
}

/// Metadata of one file or subdirectory: the 8.3 name field, the attribute
/// bitfield, the first cluster of its chain, and its size in bytes.
#[derive(Debug, Clone, Copy)]
pub struct DirectoryEntry {
    pub file_name: [u8; 11],
    pub attributes: u8,
    pub start_cluster: Cluster,
    pub file_size: u32,
}

impl DirectoryEntry {
    /// Build an entry from a display name with an optional dot: the name is
    /// split at its first dot and both parts are copied verbatim, truncated
    /// to their 8- and 3-byte windows.
    pub fn new(file_name: &str, start_cluster: Cluster, file_size: u32, attributes: u8) -> (r:
        Self)
        ensures
            r.file_name@ == spec_entry_name_field(file_name.spec_bytes()),
            r.start_cluster == start_cluster,
            r.file_size == file_size,
            r.attributes == attributes,
    {
        let bytes = file_name.as_bytes();
        let dot = find_dot(bytes);
        let base_len: usize = match dot {
            Some(d) => d,
            None => bytes.len(),
        };
        let mut field: [u8; 11] = [PAD; 11];
        let mut i: usize = 0;
        while i < 8 && i < base_len
            invariant
                i <= 8,
                i <= base_len <= bytes@.len(),
                field@.len() == 11,
                forall|j: int| 0 <= j < i ==> field@[j] == bytes@[j],
                forall|j: int| i <= j < 11 ==> field@[j] == PAD,
            decreases 8 - i,
        {
            field[i] = bytes[i];
            i = i + 1;
        }
        let mut j: usize = 0;
        if let Some(d) = dot {
            let ext_len: usize = bytes.len() - d - 1;
            proof {
                broadcast use vstd::slice::axiom_spec_len;

                assert(bytes@.len() == vstd::slice::spec_slice_len(bytes));
            }
            while j < 3 && j < ext_len
                invariant
                    j <= 3,
                    j <= ext_len,
                    d + 1 + ext_len == bytes@.len(),
                    bytes@.len() <= usize::MAX,
                    i <= 8,
                    i <= base_len,
                    i == 8 || i >= base_len,
                    field@.len() == 11,
                    forall|k: int| 0 <= k < i ==> field@[k] == bytes@[k],
                    forall|k: int| i <= k < 8 ==> field@[k] == PAD,
                    forall|k: int|
                        0 <= k < j ==> #[trigger] field@[8 + k] == bytes@[d + 1 + k],
                    forall|k: int| j <= k < 3 ==> #[trigger] field@[8 + k] == PAD,
                decreases 3 - j,
            {
                field[8 + j] = bytes[d + 1 + j];
                j = j + 1;
            }
        }
        let r = DirectoryEntry { file_name: field, attributes, start_cluster, file_size };
        proof {
            let s = file_name.spec_bytes();
            let expect = spec_entry_name_field(s);
            assert(bytes@ == s);
            match spec_dot_index(s) {
                Some(d0) => {
                    assert(expect == spec_pad_field(s.take(d0), 8) + spec_pad_field(
                        s.skip(d0 + 1),
                        3,
                    ));
                },
                None => {},
            }
            assert forall|k: int| 0 <= k < 11 implies field@[k] == expect[k] by {
                if k < 8 {
                    let base = match spec_dot_index(s) {
                        Some(d0) => s.take(d0),
                        None => s,
                    };
                    assert(expect[k] == spec_pad_field(base, 8)[k]);
                    if k < base_len {
                        assert(field@[k] == bytes@[k]);
                        assert(base[k] == s[k]);
                    } else {
                        assert(field@[k] == PAD);
                    }
                } else {
                    let k2 = k - 8;
                    assert(field@[8 + k2] == field@[k]);
                    match spec_dot_index(s) {
                        Some(d0) => {
                            let ext = s.skip(d0 + 1);
                            assert(expect[k] == spec_pad_field(ext, 3)[k2]);
                            if k2 < ext.len() {
                                assert(field@[8 + k2] == bytes@[d0 + 1 + k2]);
                                assert(ext[k2] == s[d0 + 1 + k2]);
                            } else {
                                assert(field@[8 + k2] == PAD);
                            }
                        },
                        None => {
                            assert(expect[k] == spec_pad_field(Seq::<u8>::empty(), 3)[k2]);
                            assert(field@[8 + k2] == PAD);
                        },
                    }
                }
            }
            assert(r.file_name@ =~= expect);
        }
        r
    }

    /// Whether the directory flag of the attribute byte is set.
    pub fn is_directory(&self) -> (r: bool)
        ensures
            r == (self.attributes & Attributes::DIRECTORY != 0),
    {
        self.attributes & Attributes::DIRECTORY != 0
    }

    /// Whether the entry is a plain file: exactly the complement of
    /// `is_directory`.
    pub fn is_file(&self) -> (r: bool)
        ensures
            r == (self.attributes & Attributes::DIRECTORY == 0),
    {
        self.attributes & Attributes::DIRECTORY == 0
    }

    /// Render the stored name: `"NAME.EXT"`, or just `"NAME"` when the
    /// extension window is blank.
    pub fn file_name(&self) -> (r: String)
        ensures
            r@ == spec_entry_display(self.file_name@),
    {
        let s = self.file_name.as_slice();
        let name_end = trim_end_in(s, 0, 8);
        let ext_end = trim_end_in(s, 8, 11);
        let mut out = String::new();
        push_bytes_as_chars(&mut out, s, 0, name_end);
        if ext_end > 8 {
            push_char(&mut out, '.');
            push_bytes_as_chars(&mut out, s, 8, ext_end);
        }
        proof {
            let f = self.file_name@;
            assert(f.take(8) =~= s@.subrange(0, 8));
            assert(f.skip(8) =~= s@.subrange(8, 11));
            assert(spec_trim_end(f.take(8)) =~= s@.subrange(0, name_end as int));
            assert(spec_trim_end(f.skip(8)) =~= s@.subrange(8, ext_end as int));
            assert(out@ =~= spec_entry_display(f));
        }
        out
    }

    /// Serialize this entry into its canonical 32-byte record.
    pub fn to_bytes(&self) -> (r: Vec<u8>)
        ensures
            r@ == spec_entry_record(
                self.file_name@,
                self.attributes,
                self.start_cluster.0,
                self.file_size,
            ),
            r@.len() == DIR_ENTRY_SIZE,
    {
        let mut out: Vec<u8> = Vec::new();
        let mut i: usize = 0;
        while i < 11
            invariant
                i <= 11,
                out@ =~= self.file_name@.subrange(0, i as int),
            decreases 11 - i,
        {
            out.push(self.file_name[i]);
            proof {
                assert(out@ =~= self.file_name@.subrange(0, i + 1));
            }
            i = i + 1;
        }
        out.push(self.attributes);
        let mut z: usize = 0;
        while z < 8
            invariant
                z <= 8,
                out@ =~= self.file_name@ + seq![self.attributes] + Seq::new(
                    z as nat,
                    |i: int| 0u8,
                ),
            decreases 8 - z,
        {
            out.push(0u8);
            proof {
                assert(out@ =~= self.file_name@ + seq![self.attributes] + Seq::new(
                    (z + 1) as nat,
                    |i: int| 0u8,
                ));
            }
            z = z + 1;
        }
        let mut high = u16_to_le_bytes((self.start_cluster.0 >> 16) as u16);
        out.append(&mut high);
        let mut z4: usize = 0;
        while z4 < 4
            invariant
                z4 <= 4,
                out@ =~= self.file_name@ + seq![self.attributes] + Seq::new(8, |i: int| 0u8)
                    + spec_u16_to_le_bytes((self.start_cluster.0 >> 16) as u16) + Seq::new(
                    z4 as nat,
                    |i: int| 0u8,
                ),
            decreases 4 - z4,
        {
            out.push(0u8);
            proof {
                assert(out@ =~= self.file_name@ + seq![self.attributes] + Seq::new(
                    8,
                    |i: int| 0u8,
                ) + spec_u16_to_le_bytes((self.start_cluster.0 >> 16) as u16) + Seq::new(
                    (z4 + 1) as nat,
                    |i: int| 0u8,
                ));
            }
            z4 = z4 + 1;
        }
        let mut low = u16_to_le_bytes(self.start_cluster.0 as u16);
        out.append(&mut low);
        let mut size = u32_to_le_bytes(self.file_size);
        out.append(&mut size);
        proof {
            lemma_auto_spec_u16_to_from_le_bytes();
            lemma_auto_spec_u32_to_from_le_bytes();
            assert(out@ =~= spec_entry_record(
                self.file_name@,
                self.attributes,
                self.start_cluster.0,
                self.file_size,
            ));
        }
        out
    }

    /// Decode the 32-byte record stored at `offset` in `buf` back into an
    /// entry.
    pub fn from_bytes(buf: &[u8], offset: usize) -> (r: Self)
        requires
            offset + DIR_ENTRY_SIZE <= buf@.len(),
        ensures
            ({
                let rec = buf@.subrange(offset as int, offset + DIR_ENTRY_SIZE);
                &&& r.file_name@ == rec.subrange(0, 11)
                &&& r.attributes == rec[11]
                &&& r.start_cluster.0 == spec_u16_from_le_bytes(rec.subrange(20, 22)) * 0x10000
                    + spec_u16_from_le_bytes(rec.subrange(26, 28))
                &&& r.file_size == spec_u32_from_le_bytes(rec.subrange(28, 32))
            }),
    {
        let ghost rec = buf@.subrange(offset as int, offset + DIR_ENTRY_SIZE);
        proof {
            broadcast use vstd::slice::axiom_spec_len;

            assert(buf@.len() == vstd::slice::spec_slice_len(buf));
        }
        let mut field: [u8; 11] = [0u8; 11];
        let mut i: usize = 0;
        while i < 11
            invariant
                i <= 11,
                offset + DIR_ENTRY_SIZE <= buf@.len() <= usize::MAX,
                field@.len() == 11,
                forall|j: int| 0 <= j < i ==> field@[j] == buf@[offset + j],
            decreases 11 - i,
        {
            field[i] = buf[offset + i];
            i = i + 1;
        }
        let attributes = buf[offset + 11];
        let mut wordbuf: Vec<u8> = Vec::new();
        wordbuf.push(buf[offset + 20]);
        wordbuf.push(buf[offset + 21]);
        proof {
            assert(wordbuf@ =~= rec.subrange(20, 22));
        }
        let high = u16_from_le_bytes(wordbuf.as_slice());
        let mut wordbuf2: Vec<u8> = Vec::new();
        wordbuf2.push(buf[offset + 26]);
        wordbuf2.push(buf[offset + 27]);
        proof {
            assert(wordbuf2@ =~= rec.subrange(26, 28));
        }
        let low = u16_from_le_bytes(wordbuf2.as_slice());
        let mut sizebuf: Vec<u8> = Vec::new();
        sizebuf.push(buf[offset + 28]);
        sizebuf.push(buf[offset + 29]);
        sizebuf.push(buf[offset + 30]);
        sizebuf.push(buf[offset + 31]);
        proof {
            assert(sizebuf@ =~= rec.subrange(28, 32));
        }
        let file_size = u32_from_le_bytes(sizebuf.as_slice());
        let start_cluster = Cluster(high as u32 * 0x10000 + low as u32);
        let r = DirectoryEntry { file_name: field, attributes, start_cluster, file_size };
        proof {
            assert(r.file_name@ =~= rec.subrange(0, 11));
        }
        r
    }
}

/// Position of the first `.` in `bytes`, or `None`.
fn find_dot(bytes: &[u8]) -> (r: Option<usize>)
    ensures
        r matches Some(d) ==> 0 <= d < bytes@.len() && spec_dot_index(bytes@) == Some(d as int),
        r is None ==> spec_dot_index(bytes@) is None,
        r is None ==> forall|j: int| 0 <= j < bytes@.len() ==> bytes@[j] != 46u8,
        r matches Some(d) ==> forall|j: int| 0 <= j < d ==> bytes@[j] != 46u8,
{
    let mut i: usize = 0;
    while i < bytes.len()
        invariant
            i <= bytes@.len(),
            forall|j: int| 0 <= j < i ==> bytes@[j] != 46u8,
        decreases bytes@.len() - i,
    {
        if bytes[i] == 46u8 {
            proof {
                lemma_dot_index_found(bytes@, i as int);
            }
            return Some(i);
        }
        i = i + 1;
    }
    proof {
        lemma_dot_index_none(bytes@);
    }
    None
}

/// The first dot really is at `i` when everything before it is dot-free.
proof fn lemma_dot_index_found(s: Seq<u8>, i: int)
    requires
        0 <= i < s.len(),
        s[i] == 46u8,
        forall|j: int| 0 <= j < i ==> s[j] != 46u8,
    ensures
        spec_dot_index(s) == Some(i),
    decreases i,
{
    if i > 0 {
        lemma_dot_index_found(s.drop_first(), i - 1);
    }
}

/// A dot-free byte sequence has no dot index.
proof fn lemma_dot_index_none(s: Seq<u8>)
    requires
        forall|j: int| 0 <= j < s.len() ==> s[j] != 46u8,
    ensures
        spec_dot_index(s) is None,
    decreases s.len(),
{
    if s.len() > 0 {
        lemma_dot_index_none(s.drop_first());
    }
}

/// Law: the 32-byte record round-trips. Decoding the encoded record of any
/// entry recovers its name bytes, attribute byte, start cluster and size.
pub proof fn lemma_entry_record_roundtrip(name: Seq<u8>, attributes: u8, cluster: u32, size: u32)
    requires
        name.len() == 11,
    ensures
        spec_entry_record(name, attributes, cluster, size).len() == DIR_ENTRY_SIZE,
        spec_entry_record(name, attributes, cluster, size).subrange(0, 11) == name,
        spec_entry_record(name, attributes, cluster, size)[11] == attributes,
        spec_u16_from_le_bytes(
            spec_entry_record(name, attributes, cluster, size).subrange(20, 22),
        ) * 0x10000 + spec_u16_from_le_bytes(
            spec_entry_record(name, attributes, cluster, size).subrange(26, 28),
        ) == cluster,
        spec_u32_from_le_bytes(spec_entry_record(name, attributes, cluster, size).subrange(28, 32))
            == size,
{
    lemma_auto_spec_u16_to_from_le_bytes();
    lemma_auto_spec_u32_to_from_le_bytes();
    let rec = spec_entry_record(name, attributes, cluster, size);
    assert(rec.subrange(0, 11) =~= name);
    assert(rec.subrange(20, 22) =~= spec_u16_to_le_bytes((cluster >> 16) as u16));
    assert(rec.subrange(26, 28) =~= spec_u16_to_le_bytes(cluster as u16));
    assert(rec.subrange(28, 32) =~= spec_u32_to_le_bytes(size));
    assert(((cluster >> 16) as u16) as u32 * 0x10000 + (cluster as u16) as u32 == cluster)
        by (bit_vector);
}

} // verus!
