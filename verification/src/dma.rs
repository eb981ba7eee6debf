//! Buffers in memory that devices can reach.
use vstd::prelude::*;
use crate::error::Error;

verus! {

/// What a buffer asks of the allocator of DMA memory.
#[derive(Clone, Copy, Debug, PartialEq, Eq, Structural)]
pub struct DmaRequest {
    pub len: usize,
    pub align: usize,
    pub zeroed: bool,
}

/// A block of DMA memory, with the address of its first byte. Its owner alone uses it, but for a
/// device while an I/O on it is under way; the owner does not look at the bytes meanwhile.
pub struct DmaMemory {
    pub addr: usize,
    pub bytes: &'static mut [u8],
}

impl View for DmaMemory {
    type V = Seq<u8>;

    open spec fn view(&self) -> Seq<u8> {
        self.bytes@
    }
}

impl DmaRequest {
    /// What an allocator may answer: nothing, or a block that has the requested length, alignment
    /// and, where zeroed memory was asked for, contents.
    pub open spec fn answered_by(self, got: Option<DmaMemory>) -> bool {
        got matches Some(mem) ==> {
            &&& mem@.len() == self.len
            &&& self.align != 0 ==> mem.addr as int % self.align as int == 0
            &&& self.zeroed ==> mem@ == Seq::new(self.len as nat, |i: int| 0u8)
        }
    }

    /// `dma_alloc` can be asked this, and answers as an allocator may.
    pub open spec fn can_ask<A: FnOnce(DmaRequest) -> Option<DmaMemory>>(
        self,
        dma_alloc: A,
    ) -> bool {
        &&& dma_alloc.requires((self,))
        &&& forall|got: Option<DmaMemory>|
            #[trigger] dma_alloc.ensures((self,), got) ==> self.answered_by(got)
    }
}

/// A buffer allocated from DMA-capable memory. It owns its memory.
pub struct DmaBuf {
    mem: DmaMemory,
}

impl View for DmaBuf {
    type V = Seq<u8>;

    closed spec fn view(&self) -> Seq<u8> {
        self.mem@
    }
}

/// Default alignment of DMA buffers.
pub const ALIGN_4K: usize = 4096;

impl DmaBuf {
    /// The address of the first byte.
    pub closed spec fn spec_addr(&self) -> usize {
        self.mem.addr
    }

    /// The buffer over exactly the memory that came back, or `NoMemory` where none did.
    pub open spec fn made_from(got: Option<DmaMemory>, res: Result<DmaBuf, Error>) -> bool {
        match got {
            Some(mem) => res matches Ok(buf) && buf@ == mem@ && buf.spec_addr() == mem.addr,
            None => res matches Err(Error::NoMemory),
        }
    }

    /// `res` is what an allocation makes of an answer of `dma_alloc` to `req`.
    pub open spec fn allocated<A: FnOnce(DmaRequest) -> Option<DmaMemory>>(
        dma_alloc: A,
        req: DmaRequest,
        res: Result<DmaBuf, Error>,
    ) -> bool {
        &&& exists|got: Option<DmaMemory>|
            #[trigger] dma_alloc.ensures((req,), got) && DmaBuf::made_from(got, res)
        &&& res matches Ok(buf) ==> {
            &&& buf@.len() == req.len
            &&& req.align != 0 ==> buf.spec_addr() as int % req.align as int == 0
            &&& req.zeroed ==> buf@ == Seq::new(req.len as nat, |i: int| 0u8)
        }
    }

    /// The buffer over the memory that an allocator gave, if it gave any.
    pub fn from_memory(got: Option<DmaMemory>) -> (res: Result<DmaBuf, Error>)
        ensures
            DmaBuf::made_from(got, res),
    {
        match got {
            Some(mem) => Ok(DmaBuf { mem }),
            None => Err(Error::NoMemory),
        }
    }

    fn allocate<A: FnOnce(DmaRequest) -> Option<DmaMemory>>(
        len: usize,
        align: usize,
        zeroed: bool,
        dma_alloc: A,
    ) -> (res: Result<DmaBuf, Error>)
        requires
            (DmaRequest { len, align, zeroed }).can_ask(dma_alloc),
        ensures
            DmaBuf::allocated(dma_alloc, (DmaRequest { len, align, zeroed }), res),
    {
        let got = dma_alloc(DmaRequest { len, align, zeroed });
        DmaBuf::from_memory(got)
    }

    /// Creates a new DMA buffer of the specified length, with memory from `dma_alloc`.
    pub fn new<A: FnOnce(DmaRequest) -> Option<DmaMemory>>(len: usize, dma_alloc: A) -> (res: Result<
        DmaBuf,
        Error,
    >)
        requires
            (DmaRequest { len, align: ALIGN_4K, zeroed: false }).can_ask(dma_alloc),
        ensures
            DmaBuf::allocated(
                dma_alloc,
                (DmaRequest { len, align: ALIGN_4K, zeroed: false }),
                res,
            ),
    {
        DmaBuf::allocate(len, ALIGN_4K, false, dma_alloc)
    }

    /// Creates a new DMA buffer with custom alignment.
    pub fn new_aligned<A: FnOnce(DmaRequest) -> Option<DmaMemory>>(
        len: usize,
        align: usize,
        dma_alloc: A,
    ) -> (res: Result<DmaBuf, Error>)
        requires
            (DmaRequest { len, align, zeroed: false }).can_ask(dma_alloc),
        ensures
            DmaBuf::allocated(dma_alloc, (DmaRequest { len, align, zeroed: false }), res),
    {
        DmaBuf::allocate(len, align, false, dma_alloc)
    }

    /// Creates a new zeroed DMA buffer of the specified length.
    pub fn new_zeroed<A: FnOnce(DmaRequest) -> Option<DmaMemory>>(
        len: usize,
        dma_alloc: A,
    ) -> (res: Result<DmaBuf, Error>)
        requires
            (DmaRequest { len, align: ALIGN_4K, zeroed: true }).can_ask(dma_alloc),
        ensures
            DmaBuf::allocated(dma_alloc, (DmaRequest { len, align: ALIGN_4K, zeroed: true }), res),
    {
        DmaBuf::allocate(len, ALIGN_4K, true, dma_alloc)
    }

    /// Creates a new zeroed DMA buffer with custom alignment.
    pub fn new_aligned_zeroed<A: FnOnce(DmaRequest) -> Option<DmaMemory>>(
        len: usize,
        align: usize,
        dma_alloc: A,
    ) -> (res: Result<DmaBuf, Error>)
        requires
            (DmaRequest { len, align, zeroed: true }).can_ask(dma_alloc),
        ensures
            DmaBuf::allocated(dma_alloc, (DmaRequest { len, align, zeroed: true }), res),
    {
        DmaBuf::allocate(len, align, true, dma_alloc)
    }

    /// Returns the address of the first byte.
    pub fn addr(&self) -> (addr: usize)
        ensures
            addr == self.spec_addr(),
    {
        self.mem.addr
    }

    /// Returns the length of the buffer in bytes.
    pub fn len(&self) -> (len: usize)
        ensures
            len == self@.len(),
    {
        self.mem.bytes.len()
    }

    pub fn is_empty(&self) -> (empty: bool)
        ensures
            empty == (self@.len() == 0),
    {
        self.mem.bytes.len() == 0
    }

    pub fn as_slice(&self) -> (bytes: &[u8])
        ensures
            bytes@ == self@,
    {
        &*self.mem.bytes
    }

    pub fn as_mut_slice(&mut self) -> (bytes: &mut [u8])
        ensures
            bytes@ == old(self)@,
            final(self)@ == final(bytes)@,
            final(self).spec_addr() == old(self).spec_addr(),
    {
        &mut *self.mem.bytes
    }

    /// Gives the memory back, for its allocator to free.
    pub fn into_memory(self) -> (mem: DmaMemory)
        ensures
            mem@ == self@,
            mem.addr == self.spec_addr(),
    {
        self.mem
    }
}

} // verus!
