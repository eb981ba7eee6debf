//! I/O operations: zero-copy views of requests, owned buffers, and splitting.
use vstd::prelude::*;
use vstd::arithmetic::power2::is_pow2;
use crate::bdev_io::{BdevIo, RawBdevIo};
use crate::c::{iovec, SPDK_DIF_DISABLE};
use crate::c_enum::{CEnum, DifType};
use crate::dma::{ALIGN_4K, DmaBuf, DmaMemory, DmaRequest};
use crate::error::Error;
use crate::iovs::{
    addrs, all_valid, front, front_iovs, Iovecs, lemma_front_covers_first_bytes, segment_addrs,
    total_len,
};
use crate::split::{IoRefSplitter, SplitterState};

verus! {

/// `usize::is_power_of_two`: true exactly of the powers of two.
pub assume_specification[ usize::is_power_of_two ](n: usize) -> (res: bool)
    ensures
        res == is_pow2(n as int),
;

/// A zero-copy view of a request: the data segments, and the logical block range that they hold
/// in blocks of `block_len` bytes.
pub struct IoRef<'a> {
    data_iovs: Iovecs,
    offset_blocks: u64,
    ref_offset: usize,
    num_blocks: usize,
    block_len: usize,
    _marker: std::marker::PhantomData<&'a ()>,
}

/// What an `IoRef` refers to: the data segments, the logical block address, the position in the
/// parent in blocks, the number of blocks and the block length in bytes.
pub struct IoRefView {
    pub iovs: Seq<iovec>,
    pub offset_blocks: u64,
    pub ref_offset: usize,
    pub num_blocks: usize,
    pub block_len: usize,
}

impl IoRefView {
    /// The number of bytes of the block range.
    pub open spec fn total_bytes(self) -> nat {
        self.num_blocks as nat * self.block_len as nat
    }

    /// The segments and the byte length of the block range fit into the address space.
    pub open spec fn valid(self) -> bool {
        &&& all_valid(self.iovs)
        &&& self.total_bytes() <= usize::MAX
    }

    /// The segments hold exactly the bytes of the block range.
    pub open spec fn covers_blocks(self) -> bool {
        total_len(self.iovs) == self.total_bytes()
    }
}

/// The block length of a view: the one asked for, or the device's where none is.
pub open spec fn view_block_len(block_len: usize, device_block_len: nat) -> nat {
    if block_len != 0 {
        block_len as nat
    } else {
        device_block_len
    }
}

/// A block length that a view may be asked for: 0, for the device's own, or a power of two of at
/// least 512.
pub open spec fn block_len_allowed(block_len: usize) -> bool {
    block_len == 0 || (is_pow2(block_len as int) && block_len >= 512)
}

/// A view of the request can be made: the device and its data integrity format are known and,
/// where the request is not refused anyway, its sizes can be counted in bytes and its blocks are
/// not empty.
pub open spec fn viewable(req: RawBdevIo, block_len: usize) -> bool {
    &&& req.bdev != 0
    &&& DifType::has_variant(req.dif_type)
    &&& (req.dif_type == SPDK_DIF_DISABLE && block_len_allowed(block_len) && req.num_blocks
        <= usize::MAX) ==> {
        &&& req.num_blocks * req.block_size <= usize::MAX
        &&& req.offset_blocks * req.block_size <= u64::MAX
        &&& view_block_len(block_len, req.block_size as nat) > 0
    }
}

/// Tells whether a view of the request can be made.
pub fn is_viewable<W>(io: &BdevIo<W>, block_len: usize) -> (res: bool)
    ensures
        res == viewable(io.request(), block_len),
{
    let req = io.raw_request();
    if req.bdev == 0 || DifType::try_from_c(req.dif_type).is_err() {
        return false;
    }
    let allowed = block_len == 0 || (block_len.is_power_of_two() && block_len >= 512);
    if req.dif_type != SPDK_DIF_DISABLE || !allowed || req.num_blocks > usize::MAX as u64 {
        return true;
    }
    (req.num_blocks as usize).checked_mul(req.block_size as usize).is_some()
        && req.offset_blocks.checked_mul(req.block_size as u64).is_some() && (block_len != 0
        || req.block_size != 0)
}

/// The segments of a view with `bytes` bytes of blocks: the request's, up to as many bytes.
pub open spec fn view_iovs(iovs: Seq<iovec>, bytes: nat) -> Seq<iovec> {
    front(iovs, bytes)
}

/// The view of a request: its block range counted in whole blocks of the view, and the segments
/// of these blocks.
pub open spec fn request_view(req: RawBdevIo, block_len: usize) -> Result<IoRefView, Error> {
    let len = view_block_len(block_len, req.block_size as nat);
    if req.dif_type != SPDK_DIF_DISABLE {
        Err(Error::UnsupportedFeature)
    } else if !block_len_allowed(block_len) {
        Err(Error::InvalidArguments)
    } else if req.num_blocks > usize::MAX {
        Err(Error::IntDowncast)
    } else {
        let num_blocks = (req.num_blocks * req.block_size) / len as int;
        Ok(
            IoRefView {
                iovs: view_iovs(req.iovs@, (num_blocks * len) as nat),
                offset_blocks: ((req.offset_blocks * req.block_size) / len as int) as u64,
                ref_offset: 0,
                num_blocks: num_blocks as usize,
                block_len: len as usize,
            },
        )
    }
}

/// Whatever the block length of a view, its segments hold exactly its blocks where those of the
/// request hold the request's blocks, and they refer to the first bytes of the request.
pub proof fn lemma_request_view_covers_blocks(req: RawBdevIo, block_len: usize)
    requires
        viewable(req, block_len),
        all_valid(req.iovs@),
        request_view(req, block_len) is Ok,
    ensures
        ({
            let view = request_view(req, block_len)->Ok_0;
            &&& view.valid()
            &&& view.total_bytes() <= req.num_blocks * req.block_size
            &&& total_len(req.iovs@) == req.num_blocks * req.block_size ==> view.covers_blocks()
            &&& total_len(req.iovs@) >= view.total_bytes() ==> view.covers_blocks() && addrs(
                view.iovs,
            ) == addrs(req.iovs@).take(view.total_bytes() as int)
        }),
{
    let len = view_block_len(block_len, req.block_size as nat) as int;
    let size = req.num_blocks * req.block_size;
    let num_blocks = size / len;
    assert(size >= 0) by (nonlinear_arith)
        requires
            size == req.num_blocks * req.block_size,
    ;
    assert(0 <= num_blocks <= size && 0 <= num_blocks * len <= size) by (nonlinear_arith)
        requires
            size >= 0,
            len > 0,
            num_blocks == size / len,
    ;
    lemma_front_covers_first_bytes(req.iovs@, (num_blocks * len) as nat);
}

/// A view of a request whose range begins and ends at blocks of the view keeps the range: it
/// begins at the same byte and has the same number of bytes, and the request's segments where
/// these have no more.
pub proof fn lemma_request_view_keeps_range(req: RawBdevIo, block_len: usize)
    requires
        viewable(req, block_len),
        all_valid(req.iovs@),
        request_view(req, block_len) is Ok,
        (req.offset_blocks * req.block_size) % view_block_len(
            block_len,
            req.block_size as nat,
        ) as int == 0,
        (req.num_blocks * req.block_size) % view_block_len(
            block_len,
            req.block_size as nat,
        ) as int == 0,
    ensures
        ({
            let view = request_view(req, block_len)->Ok_0;
            &&& view.offset_blocks * view.block_len == req.offset_blocks * req.block_size
            &&& view.total_bytes() == req.num_blocks * req.block_size
            &&& total_len(req.iovs@) <= view.total_bytes() ==> view.iovs == req.iovs@
        }),
{
    let len = view_block_len(block_len, req.block_size as nat) as int;
    let size = req.num_blocks * req.block_size;
    let start = req.offset_blocks * req.block_size;
    vstd::arithmetic::div_mod::lemma_fundamental_div_mod(size, len);
    vstd::arithmetic::div_mod::lemma_fundamental_div_mod(start, len);
    assert(0 <= size / len <= size && 0 <= start / len <= start) by (nonlinear_arith)
        requires
            size >= 0,
            start >= 0,
            len > 0,
    ;
    vstd::arithmetic::mul::lemma_mul_is_commutative(size / len, len);
    vstd::arithmetic::mul::lemma_mul_is_commutative(start / len, len);
    lemma_front_covers_first_bytes(req.iovs@, size as nat);
}

impl<'a> View for IoRef<'a> {
    type V = IoRefView;

    closed spec fn view(&self) -> IoRefView {
        IoRefView {
            iovs: self.data_iovs@,
            offset_blocks: self.offset_blocks,
            ref_offset: self.ref_offset,
            num_blocks: self.num_blocks,
            block_len: self.block_len,
        }
    }
}

impl<'a> IoRef<'a> {
    #[verifier::type_invariant]
    closed spec fn inv(&self) -> bool {
        self@.valid()
    }

    /// Creates a view of a request in blocks of `block_len` bytes, or of the device's block
    /// length where `block_len` is 0.
    pub(crate) fn from_bdev_io<W>(io: &'a BdevIo<W>, block_len: usize) -> (res: Result<
        IoRef<'a>,
        Error,
    >)
        requires
            viewable(io.request(), block_len),
        ensures
            match request_view(io.request(), block_len) {
                Ok(view) => res matches Ok(ioref) && ioref@ == view && all_valid(
                    io.request().iovs@,
                ),
                Err(e) => res matches Err(err) && err == e,
            },
    {
        if io.dif_type() != DifType::Disable {
            return Err(Error::UnsupportedFeature);
        }
        if block_len != 0 && (!block_len.is_power_of_two() || block_len < 512) {
            return Err(Error::InvalidArguments);
        }
        let n = io.num_blocks();
        if n > usize::MAX as u64 {
            return Err(Error::IntDowncast);
        }
        let parent_num_blocks: usize = n as usize;
        let parent_block_len = io.block_len();
        let size: usize = parent_num_blocks * parent_block_len;
        let block_len = if block_len != 0 { block_len } else { parent_block_len };
        let num_blocks: usize = size / block_len;
        let offset_blocks: u64 = io.offset_blocks() * (parent_block_len as u64) / (block_len as u64);
        proof {
            vstd::arithmetic::div_mod::lemma_fundamental_div_mod(size as int, block_len as int);
            vstd::arithmetic::mul::lemma_mul_is_commutative(num_blocks as int, block_len as int);
            assert(io.request().offset_blocks * io.request().block_size == io.request().offset_blocks
                * parent_block_len);
        }
        let iovs = io.iovs();
        let bytes: usize = num_blocks * block_len;
        let data_iovs = front_iovs(iovs, bytes);
        proof {
            lemma_front_covers_first_bytes(iovs@, bytes as nat);
        }
        Ok(
            IoRef {
                data_iovs,
                offset_blocks,
                ref_offset: 0,
                num_blocks,
                block_len,
                _marker: std::marker::PhantomData,
            },
        )
    }

    /// Sets the logical block address. This is useful when splitting or reordering I/O.
    pub fn update_offset_blocks(&mut self, offset_blocks: u64)
        ensures
            final(self)@ == (IoRefView { offset_blocks, ..old(self)@ }),
    {
        proof {
            use_type_invariant(&*self);
        }
        self.offset_blocks = offset_blocks;
    }

    pub fn num_blocks(&self) -> (n: usize)
        ensures
            n == self@.num_blocks,
    {
        self.num_blocks
    }

    /// Returns the number of bytes of the block range.
    pub fn total_bytes(&self) -> (n: usize)
        ensures
            n == self@.total_bytes(),
    {
        proof {
            use_type_invariant(self);
        }
        self.num_blocks * self.block_len
    }

    /// Returns the logical block address.
    pub(crate) fn offset_blocks(&self) -> (n: u64)
        ensures
            n == self@.offset_blocks,
    {
        self.offset_blocks
    }

    /// Returns the block length in bytes.
    pub(crate) fn block_len(&self) -> (n: usize)
        ensures
            n == self@.block_len,
    {
        self.block_len
    }

    /// Returns the data segments.
    pub(crate) fn iovs(&self) -> (iovs: &[iovec])
        ensures
            iovs@ == self@.iovs,
            all_valid(iovs@),
    {
        proof {
            use_type_invariant(self);
        }
        self.data_iovs.segments()
    }

    /// A view of a part of another one, without a logical block address.
    pub(crate) fn child(
        data_iovs: Iovecs,
        ref_offset: usize,
        num_blocks: usize,
        block_len: usize,
    ) -> (child: IoRef<'a>)
        requires
            all_valid(data_iovs@),
            num_blocks * block_len <= usize::MAX,
        ensures
            child@ == (IoRefView {
                iovs: data_iovs@,
                offset_blocks: 0,
                ref_offset,
                num_blocks,
                block_len,
            }),
    {
        IoRef {
            data_iovs,
            offset_blocks: 0,
            ref_offset,
            num_blocks,
            block_len,
            _marker: std::marker::PhantomData,
        }
    }

    /// Copies the data of the view into a new buffer with memory from `dma_alloc`. `data` is the
    /// memory of the segments.
    pub fn to_buf<A: FnOnce(DmaRequest) -> Option<DmaMemory>>(
        &self,
        data: &[&[u8]],
        dma_alloc: A,
    ) -> (res: Result<IoBuf, Error>)
        requires
            self@.covers_blocks(),
            segments_match(self@.iovs, data@),
            copy_request(self@.total_bytes()).can_ask(dma_alloc),
        ensures
            exists|got: Option<DmaMemory>|
                #[trigger] dma_alloc.ensures((copy_request(self@.total_bytes()),), got)
                    && match got {
                    Some(mem) => res matches Ok(buf) && buf@ == (IoBufView {
                        addr: mem.addr,
                        data: joined(data@),
                        offset_blocks: self@.offset_blocks,
                        num_blocks: self@.num_blocks,
                        block_len: self@.block_len,
                    }) && buf@.data.len() == buf@.total_bytes(),
                    None => res matches Err(Error::NoMemory),
                },
    {
        proof {
            use_type_invariant(self);
            lemma_joined_len(self@.iovs, data@);
        }
        let total = self.total_bytes();
        let mut dmabuf = match DmaBuf::new(total, dma_alloc) {
            Ok(dmabuf) => dmabuf,
            Err(_) => {
                return Err(Error::NoMemory);
            },
        };
        gather(data, dmabuf.as_mut_slice());
        Ok(
            IoBuf {
                data: dmabuf,
                span: BlockSpan {
                    offset_blocks: self.offset_blocks,
                    num_blocks: self.num_blocks,
                    block_len: self.block_len,
                },
            },
        )
    }
}

/// The request for the memory of a copy of `total` bytes.
pub open spec fn copy_request(total: nat) -> DmaRequest {
    DmaRequest { len: total as usize, align: ALIGN_4K, zeroed: false }
}

/// `data` holds one slice for each segment, as long as the segment.
pub open spec fn segments_match(iovs: Seq<iovec>, data: Seq<&[u8]>) -> bool {
    &&& data.len() == iovs.len()
    &&& forall|i: int| 0 <= i < iovs.len() ==> (#[trigger] data[i])@.len() == iovs[i].iov_len
}

/// The bytes of the slices, one slice after the other.
pub open spec fn joined(data: Seq<&[u8]>) -> Seq<u8>
    decreases data.len(),
{
    if data.len() == 0 {
        Seq::empty()
    } else {
        data[0]@ + joined(data.skip(1))
    }
}

proof fn lemma_joined_len(iovs: Seq<iovec>, data: Seq<&[u8]>)
    requires
        segments_match(iovs, data),
    ensures
        joined(data).len() == total_len(iovs),
    decreases data.len(),
{
    if data.len() > 0 {
        assert forall|i: int| 0 <= i < iovs.skip(1).len() implies (#[trigger] data.skip(1)[i])@.len()
            == iovs.skip(1)[i].iov_len by {
            assert(data.skip(1)[i] == data[i + 1]);
        }
        lemma_joined_len(iovs.skip(1), data.skip(1));
        assert(data[0]@.len() == iovs[0].iov_len);
    }
}

/// A copy of a view holds what memory holds at the addresses of the view's segments, byte by byte:
/// `mem` is memory, and `data` are the slices of it that the segments cover.
pub proof fn lemma_copy_is_memory(iovs: Seq<iovec>, data: Seq<&[u8]>, mem: spec_fn(int) -> u8)
    requires
        segments_match(iovs, data),
        forall|i: int, j: int|
            0 <= i < data.len() && 0 <= j < data[i]@.len() ==> #[trigger] data[i]@[j] == mem(
                iovs[i].iov_base + j,
            ),
    ensures
        joined(data) == addrs(iovs).map_values(mem),
    decreases iovs.len(),
{
    if iovs.len() == 0 {
        assert(joined(data) =~= addrs(iovs).map_values(mem));
    } else {
        let rest_iovs = iovs.skip(1);
        let rest = data.skip(1);
        assert forall|i: int| 0 <= i < rest_iovs.len() implies (#[trigger] rest[i])@.len()
            == rest_iovs[i].iov_len by {
            assert(rest[i] == data[i + 1]);
        }
        assert forall|i: int, j: int|
            0 <= i < rest.len() && 0 <= j < rest[i]@.len() implies #[trigger] rest[i]@[j] == mem(
            rest_iovs[i].iov_base + j,
        ) by {
            assert(rest[i] == data[i + 1]);
            assert(data[i + 1]@[j] == mem(iovs[i + 1].iov_base + j));
        }
        lemma_copy_is_memory(rest_iovs, rest, mem);
        assert(data[0]@.len() == iovs[0].iov_len);
        assert forall|j: int| 0 <= j < data[0]@.len() implies data[0]@[j] == segment_addrs(
            iovs[0],
        ).map_values(mem)[j] by {
            assert(data[0]@[j] == mem(iovs[0].iov_base + j));
        }
        assert(data[0]@ =~= segment_addrs(iovs[0]).map_values(mem));
        assert(joined(data) =~= addrs(iovs).map_values(mem));
    }
}

/// `slice::copy_from_slice`: afterwards the slice holds the elements of `src`, which has to be as
/// long as the slice.
pub assume_specification<Item: Copy>[ <[Item]>::copy_from_slice ](
    dst: &mut [Item],
    src: &[Item],
)
    requires
        old(dst)@.len() == src@.len(),
    ensures
        final(dst)@ == src@,
;

/// Copies the slices of `data`, one after the other, into `dst`.
fn gather(data: &[&[u8]], dst: &mut [u8])
    requires
        old(dst)@.len() == joined(data@).len(),
    ensures
        final(dst)@ == joined(data@),
{
    let total: usize = dst.len();
    let mut dst_offset: usize = 0;
    let mut i: usize = 0;
    assert(data@.skip(0) =~= data@);
    while i < data.len()
        invariant
            i <= data@.len(),
            dst_offset <= dst@.len(),
            dst@.len() == total == joined(data@).len(),
            dst@.len() - dst_offset == joined(data@.skip(i as int)).len(),
            dst@.take(dst_offset as int) + joined(data@.skip(i as int)) == joined(data@),
        decreases data@.len() - i,
    {
        let src = data[i];
        let ghost before = dst@;
        let ghost rest = data@.skip(i as int);
        assert(rest[0] == src);
        assert(rest.skip(1) =~= data@.skip(i + 1));
        {
            let (_, tail) = dst.split_at_mut(dst_offset);
            let (segment, _) = tail.split_at_mut(src.len());
            segment.copy_from_slice(src);
        }
        dst_offset = dst_offset + src.len();
        i = i + 1;
        assert(dst@.take(dst_offset as int) =~= before.take(dst_offset - src@.len()) + src@);
        assert(dst@.take(dst_offset as int) + joined(data@.skip(i as int)) =~= before.take(
            dst_offset - src@.len(),
        ) + joined(rest));
    }
    assert(data@.skip(i as int) =~= Seq::<&[u8]>::empty());
    assert(dst@.take(dst_offset as int) =~= dst@);
    assert(dst@ =~= joined(data@));
}

/// A block range whose length in bytes fits into the address space.
struct BlockSpan {
    offset_blocks: u64,
    num_blocks: usize,
    block_len: usize,
}

impl BlockSpan {
    #[verifier::type_invariant]
    spec fn inv(&self) -> bool {
        self.num_blocks * self.block_len <= usize::MAX
    }
}

/// An owned DMA buffer with the logical block range that it holds.
pub struct IoBuf {
    data: DmaBuf,
    span: BlockSpan,
}

/// What an `IoBuf` holds: the address and the bytes of its memory, the logical block address, the
/// number of blocks and the block length in bytes.
pub struct IoBufView {
    pub addr: usize,
    pub data: Seq<u8>,
    pub offset_blocks: u64,
    pub num_blocks: usize,
    pub block_len: usize,
}

impl View for IoBuf {
    type V = IoBufView;

    closed spec fn view(&self) -> IoBufView {
        IoBufView {
            addr: self.data.spec_addr(),
            data: self.data@,
            offset_blocks: self.span.offset_blocks,
            num_blocks: self.span.num_blocks,
            block_len: self.span.block_len,
        }
    }
}

impl IoBufView {
    /// The number of bytes of the block range.
    pub open spec fn total_bytes(self) -> nat {
        self.num_blocks as nat * self.block_len as nat
    }
}

impl IoBuf {
    /// The blocks of a buffer, if it holds a whole number of them.
    pub fn new(data: DmaBuf, offset_blocks: u64, block_len: usize) -> (res: Result<IoBuf, Error>)
        requires
            block_len == 0 ==> data@.len() != 0,
        ensures
            if block_len == 0 || data@.len() as int % block_len as int != 0 {
                res matches Err(Error::InvalidArguments)
            } else {
                res matches Ok(buf) && {
                    &&& buf@ == (IoBufView {
                        addr: data.spec_addr(),
                        data: data@,
                        offset_blocks,
                        num_blocks: (data@.len() as int / block_len as int) as usize,
                        block_len,
                    })
                    &&& buf@.total_bytes() == data@.len()
                }
            },
    {
        let data_len = data.len();
        if block_len == 0 || data_len % block_len != 0 {
            return Err(Error::InvalidArguments);
        }
        let num_blocks: usize = data_len / block_len;
        proof {
            vstd::arithmetic::div_mod::lemma_fundamental_div_mod(data_len as int, block_len as int);
            vstd::arithmetic::mul::lemma_mul_is_commutative(num_blocks as int, block_len as int);
        }
        Ok(IoBuf { data, span: BlockSpan { offset_blocks, num_blocks, block_len } })
    }

    pub fn num_blocks(&self) -> (n: usize)
        ensures
            n == self@.num_blocks,
    {
        self.span.num_blocks
    }

    pub fn total_bytes(&self) -> (n: usize)
        ensures
            n == self@.total_bytes(),
    {
        proof {
            use_type_invariant(&self.span);
        }
        self.span.num_blocks * self.span.block_len
    }

    /// Returns the logical block address.
    pub(crate) fn offset_blocks(&self) -> (n: u64)
        ensures
            n == self@.offset_blocks,
    {
        self.span.offset_blocks
    }

    /// Returns the block length in bytes.
    pub(crate) fn block_len(&self) -> (n: usize)
        ensures
            n == self@.block_len,
    {
        self.span.block_len
    }

    /// Returns the address of the memory.
    pub(crate) fn addr(&self) -> (addr: usize)
        ensures
            addr == self@.addr,
    {
        self.data.addr()
    }

    pub fn as_slice(&self) -> (bytes: &[u8])
        ensures
            bytes@ == self@.data,
    {
        self.data.as_slice()
    }

    /// Gives the buffer back.
    pub fn into_data(self) -> (data: DmaBuf)
        ensures
            data@ == self@.data,
            data.spec_addr() == self@.addr,
    {
        self.data
    }

    pub fn as_mut_slice(&mut self) -> (bytes: &mut [u8])
        ensures
            bytes@ == old(self)@.data,
            final(self)@ == (IoBufView { data: final(bytes)@, ..old(self)@ }),
    {
        self.data.as_mut_slice()
    }
}

/// Iterates over the data segments of an I/O.
pub enum IoIter<'a> {
    /// The segments of a zero-copy view, and the position of the next one.
    Ref(&'a [iovec], usize),
    /// The memory of an owned buffer, until it has been given.
    Buf(Option<iovec>),
}

impl<'a> IoIter<'a> {
    /// The segments still to come.
    pub open spec fn remaining(&self) -> Seq<iovec> {
        match self {
            IoIter::Ref(iovs, pos) => if *pos < iovs@.len() {
                iovs@.skip(*pos as int)
            } else {
                Seq::empty()
            },
            IoIter::Buf(Some(iov)) => seq![*iov],
            IoIter::Buf(None) => Seq::empty(),
        }
    }

    /// Gives the next segment.
    pub fn next(&mut self) -> (res: Option<iovec>)
        ensures
            match res {
                Some(iov) => old(self).remaining().len() > 0 && iov == old(self).remaining()[0]
                    && final(self).remaining() == old(self).remaining().skip(1),
                None => old(self).remaining().len() == 0 && final(self).remaining() == old(
                    self,
                ).remaining(),
            },
    {
        match self {
            IoIter::Ref(iovs, pos) => {
                if *pos < iovs.len() {
                    let iov = iovs[*pos];
                    *pos = *pos + 1;
                    assert(final(self).remaining() =~= old(self).remaining().skip(1));
                    Some(iov)
                } else {
                    None
                }
            },
            IoIter::Buf(slot) => {
                let res = slot.take();
                assert(final(self).remaining() =~= (if res is Some {
                    old(self).remaining().skip(1)
                } else {
                    old(self).remaining()
                }));
                res
            },
        }
    }
}

/// A data segment that can be written to: the segment of a zero-copy view, by its address, or the
/// bytes of an owned buffer.
pub enum IoSegmentMut<'a> {
    Segment(iovec),
    Bytes(&'a mut [u8]),
}

/// Iterates over the data segments of an I/O, to be written to.
pub enum IoIterMut<'a> {
    /// The segments of a zero-copy view, and the position of the next one.
    Ref(&'a [iovec], usize),
    /// The bytes of an owned buffer, until they have been given.
    Buf(Option<&'a mut [u8]>),
}

impl<'a> IoIterMut<'a> {
    /// Gives the next segment.
    pub fn next(&mut self) -> (res: Option<IoSegmentMut<'a>>)
        ensures
            match *old(self) {
                IoIterMut::Ref(iovs, pos) => if pos < iovs@.len() {
                    &&& res == Some(IoSegmentMut::<'a>::Segment(iovs@[pos as int]))
                    &&& *final(self) == IoIterMut::Ref(iovs, (pos + 1) as usize)
                } else {
                    &&& res is None
                    &&& *final(self) == *old(self)
                },
                IoIterMut::Buf(slot) => {
                    &&& *final(self) matches IoIterMut::Buf(None)
                    &&& match slot {
                        Some(bytes) => res matches Some(IoSegmentMut::Bytes(given)) && given@
                            == bytes@ && final(given)@ == final(bytes)@,
                        None => res is None,
                    }
                },
            },
    {
        match self {
            IoIterMut::Ref(iovs, pos) => {
                if *pos < iovs.len() {
                    let iov = iovs[*pos];
                    *pos = *pos + 1;
                    Some(IoSegmentMut::Segment(iov))
                } else {
                    None
                }
            },
            IoIterMut::Buf(slot) => match slot.take() {
                Some(bytes) => Some(IoSegmentMut::Bytes(bytes)),
                None => None,
            },
        }
    }
}

/// An I/O operation on either a zero-copy view or an owned buffer.
pub enum Io<'a> {
    Ref(IoRef<'a>),
    Buf(IoBuf),
}

impl<'a> Io<'a> {
    /// The data segments: those of the view, or the memory of the buffer as one.
    pub open spec fn segments(&self) -> Seq<iovec> {
        match self {
            Io::Ref(ioref) => ioref@.iovs,
            Io::Buf(iobuf) => seq![
                iovec { iov_base: iobuf@.addr, iov_len: iobuf@.data.len() as usize },
            ],
        }
    }

    /// The logical block address.
    pub open spec fn spec_offset_blocks(&self) -> u64 {
        match self {
            Io::Ref(ioref) => ioref@.offset_blocks,
            Io::Buf(iobuf) => iobuf@.offset_blocks,
        }
    }

    /// The number of blocks.
    pub open spec fn spec_num_blocks(&self) -> usize {
        match self {
            Io::Ref(ioref) => ioref@.num_blocks,
            Io::Buf(iobuf) => iobuf@.num_blocks,
        }
    }

    /// The block length in bytes.
    pub open spec fn spec_block_len(&self) -> usize {
        match self {
            Io::Ref(ioref) => ioref@.block_len,
            Io::Buf(iobuf) => iobuf@.block_len,
        }
    }

    /// The number of bytes of the blocks.
    pub open spec fn spec_total_bytes(&self) -> nat {
        self.spec_num_blocks() as nat * self.spec_block_len() as nat
    }

    /// Creates an I/O operation on a DMA buffer.
    pub fn new_buf(data: DmaBuf, offset_blocks: u64, block_len: usize) -> (res: Result<
        Io<'a>,
        Error,
    >)
        requires
            block_len == 0 ==> data@.len() != 0,
        ensures
            if block_len == 0 || data@.len() as int % block_len as int != 0 {
                res matches Err(Error::InvalidArguments)
            } else {
                res matches Ok(Io::Buf(buf)) && buf@ == (IoBufView {
                    addr: data.spec_addr(),
                    data: data@,
                    offset_blocks,
                    num_blocks: (data@.len() as int / block_len as int) as usize,
                    block_len,
                }) && buf@.data.len() == buf@.total_bytes()
            },
            res matches Ok(io) ==> total_len(io.segments()) == io.spec_total_bytes(),
    {
        match IoBuf::new(data, offset_blocks, block_len) {
            Ok(buf) => {
                proof {
                    use_type_invariant(&buf.span);
                    lemma_segments_hold_blocks(Io::Buf(buf));
                }
                Ok(Io::Buf(buf))
            },
            Err(e) => Err(e),
        }
    }

    /// Creates an I/O operation on the data of a request, without copying it.
    pub fn from_bdev_io<W>(io: &'a BdevIo<W>, block_len: usize) -> (res: Result<Io<'a>, Error>)
        requires
            viewable(io.request(), block_len),
        ensures
            match request_view(io.request(), block_len) {
                Ok(view) => res matches Ok(Io::Ref(ioref)) && ioref@ == view,
                Err(e) => res matches Err(err) && err == e,
            },
            res matches Ok(view) ==> (total_len(io.request().iovs@) >= view.spec_total_bytes()
                ==> total_len(view.segments()) == view.spec_total_bytes()),
    {
        match IoRef::from_bdev_io(io, block_len) {
            Ok(ioref) => {
                proof {
                    lemma_request_view_covers_blocks(io.request(), block_len);
                }
                Ok(Io::Ref(ioref))
            },
            Err(e) => Err(e),
        }
    }

    /// Returns `true` if this is a zero-copy view.
    pub fn is_ref(&self) -> (res: bool)
        ensures
            res == (self is Ref),
    {
        match self {
            Io::Ref(_) => true,
            Io::Buf(_) => false,
        }
    }

    /// Splits a zero-copy view into children with blocks of `child_block_len` bytes, or of its
    /// own block length where none is given. An owned buffer cannot be split.
    pub fn split(&'a self, child_block_len: Option<usize>) -> (res: Result<
        IoRefSplitter<'a>,
        Error,
    >)
        ensures
            match self {
                Io::Ref(ioref) => res matches Ok(splitter) && splitter@ == SplitterState::fresh(
                    ioref@,
                    (match child_block_len {
                        Some(len) => len,
                        None => ioref@.block_len,
                    }) as nat,
                ),
                Io::Buf(_) => res matches Err(Error::UnsupportedOperation),
            },
    {
        match self {
            Io::Ref(ioref) => Ok(IoRefSplitter::new(ioref, child_block_len)),
            Io::Buf(_) => Err(Error::UnsupportedOperation),
        }
    }

    /// Returns the logical block address.
    pub fn offset_blocks(&self) -> (n: u64)
        ensures
            n == self.spec_offset_blocks(),
    {
        match self {
            Io::Ref(ioref) => ioref.offset_blocks(),
            Io::Buf(iobuf) => iobuf.offset_blocks(),
        }
    }

    /// Returns the number of blocks.
    pub fn num_blocks(&self) -> (n: usize)
        ensures
            n == self.spec_num_blocks(),
    {
        match self {
            Io::Ref(ioref) => ioref.num_blocks(),
            Io::Buf(iobuf) => iobuf.num_blocks(),
        }
    }

    /// Returns the block length in bytes.
    pub fn block_len(&self) -> (n: usize)
        ensures
            n == self.spec_block_len(),
    {
        match self {
            Io::Ref(ioref) => ioref.block_len(),
            Io::Buf(iobuf) => iobuf.block_len(),
        }
    }

    /// Returns the number of bytes of the blocks.
    pub fn total_bytes(&self) -> (n: usize)
        ensures
            n == self.spec_total_bytes(),
    {
        match self {
            Io::Ref(ioref) => ioref.total_bytes(),
            Io::Buf(iobuf) => iobuf.total_bytes(),
        }
    }

    /// Returns an iterator over the data segments.
    pub fn iter_iov<'b>(&'b self) -> (iter: IoIter<'b>)
        ensures
            iter.remaining() == self.segments(),
    {
        match self {
            Io::Ref(ioref) => {
                let iter = IoIter::Ref(ioref.iovs(), 0);
                assert(iter.remaining() =~= self.segments());
                iter
            },
            Io::Buf(iobuf) => {
                let len = iobuf.as_slice().len();
                IoIter::Buf(Some(iovec { iov_base: iobuf.addr(), iov_len: len }))
            },
        }
    }

    /// Returns an iterator over the data segments, to be written to: what is written to the bytes
    /// of an owned buffer is what the buffer holds afterwards.
    pub fn iter_iov_mut<'b>(&'b mut self) -> (iter: IoIterMut<'b>)
        ensures
            match *old(self) {
                Io::Ref(ioref) => {
                    &&& iter matches IoIterMut::Ref(iovs, pos) && iovs@ == ioref@.iovs && pos == 0
                    &&& *final(self) == *old(self)
                },
                Io::Buf(before) => {
                    &&& iter matches IoIterMut::Buf(Some(bytes)) && bytes@ == before@.data && (
                    *final(self) matches Io::Buf(after) && after@ == (IoBufView {
                        data: final(bytes)@,
                        ..before@
                    }))
                },
            },
    {
        match self {
            Io::Ref(ioref) => IoIterMut::Ref(ioref.iovs(), 0),
            Io::Buf(iobuf) => IoIterMut::Buf(Some(iobuf.as_mut_slice())),
        }
    }
}

/// Both are about the same memory and the same blocks; the bytes in the memory may differ.
pub open spec fn same_memory(a: Io<'_>, b: Io<'_>) -> bool {
    &&& (a is Ref) == (b is Ref)
    &&& a.segments() == b.segments()
    &&& a.spec_offset_blocks() == b.spec_offset_blocks()
    &&& a.spec_num_blocks() == b.spec_num_blocks()
    &&& a.spec_block_len() == b.spec_block_len()
}

/// The data segments of an I/O whose memory holds exactly its blocks have as many bytes as its
/// blocks.
pub proof fn lemma_segments_hold_blocks(io: Io<'_>)
    requires
        match io {
            Io::Ref(ioref) => ioref@.covers_blocks(),
            Io::Buf(iobuf) => iobuf@.data.len() == iobuf@.total_bytes() <= usize::MAX,
        },
    ensures
        total_len(io.segments()) == io.spec_total_bytes(),
{
    if let Io::Buf(iobuf) = io {
        assert(io.segments().skip(1) =~= Seq::<iovec>::empty());
        assert(total_len(io.segments().skip(1)) == 0);
    }
}

} // verus!
