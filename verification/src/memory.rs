//! The linear-memory sandbox of a module instance.
//!
//! Every pointer in the host-call ABI is an offset into this byte buffer and
//! every size is a byte count.  Reads and writes validate the whole range
//! against the buffer before touching it, so a handler that passes a bad
//! pointer gets an error and never reaches anything outside the sandbox.

use vstd::prelude::*;

verus! {

/// The module-owned byte buffer pointed to by the `i32` offsets in every
/// host-call signature.
pub struct LinearMemory {
    data: Vec<u8>,
}

/// Whether `ptr .. ptr + len` lies inside a buffer of `size` bytes.
pub open spec fn range_ok(ptr: u32, len: u64, size: nat) -> bool {
    ptr + len <= size
}

impl LinearMemory {
    pub closed spec fn view(&self) -> Seq<u8> {
        self.data@
    }

    /// A fresh zero-filled memory of `size` bytes.
    pub fn new(size: usize) -> (m: LinearMemory)
        ensures
            m@ == Seq::new(size as nat, |i: int| 0u8),
    {
        let data = vec![0u8; size];
        LinearMemory { data }
    }

    pub fn size(&self) -> (n: usize)
        ensures
            n == self@.len(),
    {
        self.data.len()
    }

    /// Copy of the byte range `ptr .. ptr + len`, or `None` when the range
    /// leaves the sandbox.
    pub fn read(&self, ptr: u32, len: u64) -> (r: Option<Vec<u8>>)
        ensures
            r is Some <==> range_ok(ptr, len, self@.len()),
            r matches Some(v) ==> v@ == self@.subrange(ptr as int, ptr + len),
    {
        let n = self.data.len();
        if len > n as u64 {
            return None;
        }
        let len = len as usize;
        if ptr as usize > n - len {
            return None;
        }
        let start = ptr as usize;
        let mut v: Vec<u8> = Vec::new();
        let mut i: usize = 0;
        while i < len
            invariant
                start + len <= self.data@.len(),
                start + len <= usize::MAX,
                i <= len,
                v@ == self.data@.subrange(start as int, start + i),
            decreases len - i,
        {
            v.push(self.data[start + i]);
            assert(v@ == self.data@.subrange(start as int, start + i + 1));
            i = i + 1;
        }
        Some(v)
    }

    /// Store `bytes` at `ptr`; fails without touching the buffer when the
    /// range leaves the sandbox.
    pub fn write(&mut self, ptr: u32, bytes: &[u8]) -> (r: Result<(), ()>)
        ensures
            r is Ok <==> range_ok(ptr, bytes@.len() as u64, old(self)@.len()),
            r is Ok ==> final(self)@ == old(self)@.subrange(0, ptr as int) + bytes@
                + old(self)@.subrange(ptr + bytes@.len(), old(self)@.len() as int),
            r is Err ==> final(self)@ == old(self)@,
    {
        let len = bytes.len();
        if len > self.data.len() || ptr as usize > self.data.len() - len {
            return Err(());
        }
        let start = ptr as usize;
        let ghost orig = self.data@;
        let mut i: usize = 0;
        while i < len
            invariant
                start + len <= self.data@.len(),
                start + len <= usize::MAX,
                i <= len,
                len == bytes@.len(),
                self.data@.len() == orig.len(),
                self.data@ == orig.subrange(0, start as int) + bytes@.subrange(0, i as int)
                    + orig.subrange(start + i, orig.len() as int),
            decreases len - i,
        {
            let ghost prev = self.data@;
            self.data[start + i] = bytes[i];
            assert(self.data@ =~= orig.subrange(0, start as int) + bytes@.subrange(0, i + 1)
                + orig.subrange(start + i + 1, orig.len() as int));
            i = i + 1;
        }
        proof {
            assert(bytes@.subrange(0, len as int) =~= bytes@);
            assert(self.data@ =~= orig.subrange(0, start as int) + bytes@
                + orig.subrange(start + len, orig.len() as int));
        }
        Ok(())
    }
}

} // verus!
