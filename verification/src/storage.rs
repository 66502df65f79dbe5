//! The storage-device capability: byte-addressable read/write over a backing
//! medium, and an in-memory device backed by a byte vector.

use vstd::prelude::*;

verus! {

/// Contents after writing `data` at `offset`: bytes inside the written
/// window come from `data`, all others keep their old value.
pub open spec fn write_bytes(s: Seq<u8>, offset: int, data: Seq<u8>) -> Seq<u8> {
    Seq::new(s.len(), |i: int| if offset <= i < offset + data.len() { data[i - offset] } else { s[i] })
}

/// A byte-addressable storage medium. Reads and writes move whole byte
/// ranges and fail atomically: an out-of-range request has no effect.
pub trait StorageDevice: Sized {
    /// The bytes the device holds, one per addressable offset.
    spec fn contents(&self) -> Seq<u8>;

    /// The device is addressed through 64-bit byte offsets, so it holds at
    /// most `u64::MAX` bytes.
    proof fn lemma_contents_bounded(&self)
        ensures
            self.contents().len() <= u64::MAX,
    ;

    /// Read `len` bytes starting at byte `offset`: exactly the bytes the
    /// device holds there. Fails exactly when the requested range runs past
    /// the end of the device.
    fn read(&self, offset: u64, len: usize) -> (r: Option<Vec<u8>>)
        ensures
            r is Some <==> offset + len <= self.contents().len(),
            r matches Some(b) ==> b@ == self.contents().subrange(offset as int, offset + len),
    ;

    /// Write all of `data` starting at byte `offset`. Fails exactly when the
    /// range runs past the end of the device, and a failed write changes
    /// nothing. The device's size never changes.
    fn write(&mut self, offset: u64, data: &[u8]) -> (r: Result<(), ()>)
        ensures
            r is Ok <==> offset + data@.len() <= old(self).contents().len(),
            r is Ok ==> final(self).contents() == write_bytes(
                old(self).contents(),
                offset as int,
                data@,
            ),
            r is Err ==> final(self).contents() == old(self).contents(),
    ;
}

/// An in-memory storage device of a fixed size, for exercising the engine
/// without hardware.
pub struct MockStorage {
    data: Vec<u8>,
}

impl MockStorage {
    /// A device of `size` bytes, all zero.
    pub fn new(size: usize) -> (r: Self)
        ensures
            r.contents() == Seq::new(size as nat, |i: int| 0u8),
    {
        let data: Vec<u8> = vec![0u8; size];
        proof {
            assert(data@ =~= Seq::new(size as nat, |i: int| 0u8));
        }
        MockStorage { data }
    }
}

impl StorageDevice for MockStorage {
    closed spec fn contents(&self) -> Seq<u8> {
        self.data@
    }

    proof fn lemma_contents_bounded(&self) {
        broadcast use vstd::std_specs::vec::axiom_spec_len;

        assert(self.data@.len() == vstd::std_specs::vec::spec_vec_len(&self.data));
    }

    fn read(&self, offset: u64, len: usize) -> (r: Option<Vec<u8>>) {
        proof {
            self.lemma_contents_bounded();
        }
        if offset > self.data.len() as u64 {
            return None;
        }
        let start: usize = offset as usize;
        if len > self.data.len() - start {
            return None;
        }
        let mut out: Vec<u8> = Vec::new();
        let mut i: usize = 0;
        proof {
            broadcast use vstd::std_specs::vec::axiom_spec_len;

            assert(self.data@.len() <= usize::MAX);
        }
        while i < len
            invariant
                i <= len,
                start + len <= self.data@.len() <= usize::MAX,
                out@ == self.data@.subrange(start as int, start + i),
            decreases len - i,
        {
            out.push(self.data[start + i]);
            proof {
                assert(out@ =~= self.data@.subrange(start as int, start + i + 1));
            }
            i = i + 1;
        }
        Some(out)
    }

    fn write(&mut self, offset: u64, data: &[u8]) -> (r: Result<(), ()>) {
        proof {
            self.lemma_contents_bounded();
        }
        if offset > self.data.len() as u64 {
            return Err(());
        }
        let start: usize = offset as usize;
        if data.len() > self.data.len() - start {
            return Err(());
        }
        let mut i: usize = 0;
        proof {
            broadcast use vstd::std_specs::vec::axiom_spec_len;

            assert(self.data@.len() <= usize::MAX);
        }
        while i < data.len()
            invariant
                i <= data@.len(),
                start + data@.len() <= self.data@.len() <= usize::MAX,
                self.data@.len() == old(self).data@.len(),
                forall|j: int| 0 <= j < i ==> self.data@[start + j] == data@[j],
                forall|j: int| 0 <= j < self.data@.len() && !(start <= j < start + i)
                    ==> self.data@[j] == old(self).data@[j],
            decreases data@.len() - i,
        {
            self.data[start + i] = data[i];
            i = i + 1;
        }
        proof {
            assert(self.data@ =~= write_bytes(old(self).data@, offset as int, data@));
        }
        Ok(())
    }
}

} // verus!
