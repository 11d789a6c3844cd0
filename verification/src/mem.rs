//! Guest physical memory model: a mapped range of bytes with bounds-checked
//! reads and writes at guest physical addresses.
//!
//! Every address and length coming from the guest is untrusted; no access
//! outside the mapped range ever touches the backing bytes.

use vstd::prelude::*;

verus! {

/// Fault of a guest memory access: the range is not fully mapped.
#[derive(Clone, Copy, Debug, PartialEq, Eq, Structural)]
pub enum GuestMemoryError {
    InvalidGuestAddress,
}

/// The mapped guest memory: addresses `0 .. len` are backed, all others fault.
pub struct GuestMem {
    pub bytes: Vec<u8>,
}

impl View for GuestMem {
    type V = Seq<u8>;

    open spec fn view(&self) -> Seq<u8> {
        self.bytes@
    }
}

/// `mem` with `data` written at offset `at`; all other bytes unchanged.
pub open spec fn seq_write(mem: Seq<u8>, at: int, data: Seq<u8>) -> Seq<u8> {
    Seq::new(
        mem.len(),
        |i: int|
            if at <= i < at + data.len() {
                data[i - at]
            } else {
                mem[i]
            },
    )
}

impl GuestMem {
    /// A zeroed mapping of `size` bytes at guest address 0.
    pub fn new(size: usize) -> (r: GuestMem)
        ensures
            r@ == Seq::new(size as nat, |i: int| 0u8),
    {
        let mut bytes: Vec<u8> = Vec::new();
        let mut i: usize = 0;
        while i < size
            invariant
                i <= size,
                bytes@ == Seq::new(i as nat, |j: int| 0u8),
            decreases size - i,
        {
            bytes.push(0u8);
            assert(bytes@ =~= Seq::new((i + 1) as nat, |j: int| 0u8));
            i = i + 1;
        }
        GuestMem { bytes }
    }

    /// Number of mapped bytes.
    pub fn len(&self) -> (r: usize)
        ensures
            r == self@.len(),
    {
        self.bytes.len()
    }

    /// Writes `src[from .. to]` at guest address `addr`.  Fails, changing
    /// nothing, unless the whole destination range is mapped.
    pub fn write_range(&mut self, addr: u64, src: &Vec<u8>, from: usize, to: usize) -> (r: Result<
        (),
        GuestMemoryError,
    >)
        requires
            from <= to <= src@.len(),
        ensures
            r is Ok <==> addr + (to - from) <= old(self)@.len(),
            r is Ok ==> final(self)@ == seq_write(
                old(self)@,
                addr as int,
                src@.subrange(from as int, to as int),
            ),
            r is Err ==> final(self)@ == old(self)@ && r == Err::<(), GuestMemoryError>(
                GuestMemoryError::InvalidGuestAddress,
            ),
    {
        let n: usize = to - from;
        if addr > self.bytes.len() as u64 {
            return Err(GuestMemoryError::InvalidGuestAddress);
        }
        let a: usize = addr as usize;
        if n > self.bytes.len() - a {
            return Err(GuestMemoryError::InvalidGuestAddress);
        }
        let mut i: usize = 0;
        while i < n
            invariant
                i <= n,
                from + n <= src@.len(),
                from + n <= usize::MAX,
                a + n <= usize::MAX,
                a + n <= self.bytes@.len(),
                self.bytes@.len() == old(self)@.len(),
                forall|j: int|
                    a <= j < a + i ==> self.bytes@[j] == src@[from + (j - a)],
                forall|j: int|
                    0 <= j < self.bytes@.len() && !(a <= j < a + i) ==> self.bytes@[j] == old(
                        self,
                    )@[j],
            decreases n - i,
        {
            let v: u8 = src[from + i];
            self.bytes.set(a + i, v);
            i = i + 1;
        }
        assert(self.bytes@ =~= seq_write(old(self)@, addr as int, src@.subrange(
            from as int,
            to as int,
        )));
        Ok(())
    }

    /// Reads `len` bytes at guest address `addr`.  Fails unless the whole
    /// source range is mapped.
    pub fn read_range(&self, addr: u64, len: usize) -> (r: Result<Vec<u8>, GuestMemoryError>)
        ensures
            r is Ok <==> addr + len <= self@.len(),
            r matches Ok(v) ==> v@ == self@.subrange(addr as int, addr + len),
            r is Err ==> r == Err::<Vec<u8>, GuestMemoryError>(GuestMemoryError::InvalidGuestAddress),
    {
        if addr > self.bytes.len() as u64 {
            return Err(GuestMemoryError::InvalidGuestAddress);
        }
        let a: usize = addr as usize;
        if len > self.bytes.len() - a {
            return Err(GuestMemoryError::InvalidGuestAddress);
        }
        let mut out: Vec<u8> = Vec::new();
        let mut i: usize = 0;
        while i < len
            invariant
                i <= len,
                a + len <= usize::MAX,
                a + len <= self.bytes@.len(),
                out@ == self.bytes@.subrange(a as int, a + i),
            decreases len - i,
        {
            out.push(self.bytes[a + i]);
            assert(out@ =~= self.bytes@.subrange(a as int, a + i + 1));
            i = i + 1;
        }
        Ok(out)
    }
}

} // verus!
