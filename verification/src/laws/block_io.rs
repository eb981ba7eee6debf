//! Laws of scatter/gather lists, views, splitting and buffers.
use vstd::prelude::*;
use vstd::arithmetic::power2::is_pow2;
use crate::bdev_io::BdevIo;
use crate::c::iovec;
use crate::dma::{DmaBuf, DmaMemory, DmaRequest};
use crate::error::Error;
use crate::io::{
    is_viewable, joined, lemma_request_view_covers_blocks, viewable, Io, IoBuf, IoIter, IoRef,
};
use crate::iovs::{
    addrs, all_valid, lemma_addrs_len, lemma_front_covers_first_bytes, lemma_sliced_covers_window,
    lemma_sliced_keeps_layout, slice_iovs, total_len, Iovecs,
};
use crate::split::IoRefSplitter;

verus! {

/// The bytes of a list are those of its segments, one after the other: a list without segments has
/// none, a segment has those from its base on, and a list put together has those of its parts.
pub proof fn law_addrs_of_lists(a: Seq<iovec>, iov: iovec, b: Seq<iovec>)
    ensures
        addrs(Seq::empty()) == Seq::<int>::empty(),
        addrs(seq![iov]) == Seq::new(iov.iov_len as nat, |i: int| iov.iov_base + i),
        addrs(a + b) == addrs(a) + addrs(b),
        total_len(a) == addrs(a).len(),
    decreases a.len(),
{
    lemma_addrs_len(a);
    assert(seq![iov].skip(1) =~= Seq::<iovec>::empty());
    assert(addrs(seq![iov].skip(1)) =~= Seq::<int>::empty());
    assert(addrs(seq![iov]) =~= Seq::new(iov.iov_len as nat, |i: int| iov.iov_base + i));
    if a.len() == 0 {
        assert(a + b =~= b);
        assert(addrs(a) + addrs(b) =~= addrs(b));
    } else {
        law_addrs_of_lists(a.skip(1), iov, b);
        assert((a + b).skip(1) =~= a.skip(1) + b);
        assert((a + b)[0] == a[0]);
        assert(addrs(a + b) =~= addrs(a) + addrs(b));
    }
}

/// Slices joined are the bytes of the slices, one slice after the other.
pub proof fn law_joined_slices(a: Seq<&[u8]>, slice: &[u8], b: Seq<&[u8]>)
    ensures
        joined(Seq::empty()) == Seq::<u8>::empty(),
        joined(seq![slice]) == slice@,
        joined(a + b) == joined(a) + joined(b),
    decreases a.len(),
{
    assert(seq![slice].skip(1) =~= Seq::<&[u8]>::empty());
    assert(joined(seq![slice].skip(1)) =~= Seq::<u8>::empty());
    assert(joined(seq![slice]) =~= slice@);
    if a.len() == 0 {
        assert(a + b =~= b);
        assert(joined(a) + joined(b) =~= joined(b));
    } else {
        law_joined_slices(a.skip(1), slice, b);
        assert((a + b).skip(1) =~= a.skip(1) + b);
        assert((a + b)[0] == a[0]);
        assert(joined(a + b) =~= joined(a) + joined(b));
    }
}

/// A part of a list can be cut out exactly where the list has the bytes, it has exactly these, and
/// each of its segments lies in a segment of the list.
pub proof fn law_slice_is_window(
    iovs: &[iovec],
    offset: usize,
    len: usize,
    res: Result<Iovecs, Error>,
)
    requires
        all_valid(iovs@),
        call_ensures(slice_iovs, (iovs, offset, len), res),
    ensures
        res is Ok <==> offset + len <= addrs(iovs@).len(),
        res matches Err(e) ==> e is OutOfRange,
        res matches Ok(part) ==> {
            &&& addrs(part@) == addrs(iovs@).subrange(offset as int, offset + len)
            &&& forall|k: int|
                0 <= k < part@.len() ==> {
                    &&& len > 0 ==> (#[trigger] part@[k]).iov_len > 0
                    &&& exists|j: int|
                        0 <= j < iovs@.len() && (#[trigger] iovs@[j]).iov_base <= part@[k].iov_base
                            && part@[k].iov_base + part@[k].iov_len <= iovs@[j].iov_base
                            + iovs@[j].iov_len
                }
        },
{
    lemma_addrs_len(iovs@);
    lemma_sliced_covers_window(iovs@, offset as nat, len as nat);
    if let Ok(part) = res {
        assert forall|k: int| 0 <= k < part@.len() implies {
            &&& len > 0 ==> (#[trigger] part@[k]).iov_len > 0
            &&& exists|j: int|
                0 <= j < iovs@.len() && (#[trigger] iovs@[j]).iov_base <= part@[k].iov_base
                    && part@[k].iov_base + part@[k].iov_len <= iovs@[j].iov_base
                    + iovs@[j].iov_len
        } by {
            lemma_sliced_keeps_layout(iovs@, offset as nat, len as nat, k);
        }
    }
}

/// A request of a known device whose sizes can be counted in bytes and whose blocks are not empty
/// can be viewed in blocks of any length.
pub proof fn law_ordinary_request_is_viewable<W>(io: &BdevIo<W>, block_len: usize, res: bool)
    requires
        call_ensures(is_viewable::<W>, (io, block_len), res),
        io.request().bdev != 0,
        0 <= io.request().dif_type <= 3,
        io.request().num_blocks * io.request().block_size <= usize::MAX,
        io.request().offset_blocks * io.request().block_size <= u64::MAX,
        io.request().block_size > 0,
    ensures
        res,
        viewable(io.request(), block_len),
{
}

/// Which requests are refused a view, and with which error.
pub proof fn law_view_errors<'a, W>(
    io: &'a BdevIo<W>,
    block_len: usize,
    res: Result<Io<'a>, Error>,
)
    requires
        call_ensures(Io::<'a>::from_bdev_io::<W>, (io, block_len), res),
    ensures
        io.request().dif_type != 0 ==> res == Err::<Io<'a>, Error>(Error::UnsupportedFeature),
        io.request().dif_type == 0 && block_len != 0 && (block_len < 512 || !is_pow2(
            block_len as int,
        )) ==> res == Err::<Io<'a>, Error>(Error::InvalidArguments),
        io.request().dif_type == 0 && (block_len == 0 || (block_len >= 512 && is_pow2(
            block_len as int,
        ))) ==> (res is Ok <==> io.request().num_blocks <= usize::MAX) && (res matches Err(e)
            ==> e is IntDowncast),
        res matches Ok(view) ==> view is Ref,
{
}

/// A view has the block length asked for, or the device's where none is, and its range is the
/// request's, counted in its blocks: it begins in the block in which the request begins, and has
/// as many whole blocks as the request. A view in the device's blocks has the request's own range.
pub proof fn law_view_has_the_range_of_the_request<'a, W>(
    io: &'a BdevIo<W>,
    block_len: usize,
    res: Result<Io<'a>, Error>,
)
    requires
        viewable(io.request(), block_len),
        call_ensures(Io::<'a>::from_bdev_io::<W>, (io, block_len), res),
        res is Ok,
    ensures
        res->Ok_0 matches Io::Ref(view) && {
            let req = io.request();
            let len = view@.block_len;
            &&& block_len != 0 ==> len == block_len
            &&& block_len == 0 ==> len == req.block_size
            &&& view@.ref_offset == 0
            &&& block_len == 0 ==> view@.offset_blocks == req.offset_blocks && view@.num_blocks
                == req.num_blocks
            &&& view@.offset_blocks * len <= req.offset_blocks * req.block_size
                < view@.offset_blocks * len + len
            &&& view@.num_blocks * len <= req.num_blocks * req.block_size < view@.num_blocks * len
                + len
        },
{
    let req = io.request();
    let len = if block_len != 0 {
        block_len as int
    } else {
        req.block_size as int
    };
    let size = req.num_blocks * req.block_size;
    let start = req.offset_blocks * req.block_size;
    assert(size >= 0 && start >= 0) by (nonlinear_arith)
        requires
            size == req.num_blocks * req.block_size,
            start == req.offset_blocks * req.block_size,
    ;
    vstd::arithmetic::div_mod::lemma_fundamental_div_mod(size, len);
    vstd::arithmetic::div_mod::lemma_fundamental_div_mod(start, len);
    vstd::arithmetic::mul::lemma_mul_is_commutative(size / len, len);
    vstd::arithmetic::mul::lemma_mul_is_commutative(start / len, len);
    vstd::arithmetic::div_mod::lemma_mod_bound(size, len);
    vstd::arithmetic::div_mod::lemma_mod_bound(start, len);
    assert(0 <= size / len <= size && 0 <= start / len <= start) by (nonlinear_arith)
        requires
            size >= 0,
            start >= 0,
            len > 0,
    ;
    if block_len == 0 {
        vstd::arithmetic::div_mod::lemma_div_multiples_vanish(req.num_blocks as int, len);
        vstd::arithmetic::div_mod::lemma_div_multiples_vanish(req.offset_blocks as int, len);
        vstd::arithmetic::mul::lemma_mul_is_commutative(req.num_blocks as int, len);
        vstd::arithmetic::mul::lemma_mul_is_commutative(req.offset_blocks as int, len);
    }
}

/// A view refers to the request's own memory: to its first bytes, as many as the view's blocks
/// have, and by the request's own segments where these have no more.
pub proof fn law_view_refers_to_the_memory_of_the_request<'a, W>(
    io: &'a BdevIo<W>,
    block_len: usize,
    res: Result<Io<'a>, Error>,
)
    requires
        viewable(io.request(), block_len),
        all_valid(io.request().iovs@),
        call_ensures(Io::<'a>::from_bdev_io::<W>, (io, block_len), res),
        res is Ok,
    ensures
        res->Ok_0 matches Io::Ref(view) && {
            let bytes = view@.num_blocks * view@.block_len;
            let all = io.request().iovs@;
            &&& addrs(all).len() >= bytes ==> addrs(view@.iovs) == addrs(all).take(bytes)
            &&& addrs(all).len() <= bytes ==> view@.iovs == all
        },
{
    let req = io.request();
    lemma_request_view_covers_blocks(req, block_len);
    lemma_addrs_len(req.iovs@);
    law_view_has_the_range_of_the_request(io, block_len, res);
    if let Io::Ref(view) = res->Ok_0 {
        lemma_front_covers_first_bytes(req.iovs@, (view@.num_blocks * view@.block_len) as nat);
    }
}

/// A copy asks for as many bytes as the blocks have, in memory aligned to 4096 bytes. It holds the
/// bytes of all slices in that memory, and the block range of the view; where there is no memory
/// there is no copy.
pub proof fn law_copy_holds_all_bytes<'a, 'b, A: FnOnce(DmaRequest) -> Option<DmaMemory>>(
    view: &'b IoRef<'a>,
    data: &'b [&'b [u8]],
    dma_alloc: A,
    res: Result<IoBuf, Error>,
)
    requires
        call_ensures(IoRef::<'a>::to_buf::<A>, (view, data, dma_alloc), res),
        view@.num_blocks * view@.block_len <= usize::MAX,
    ensures
        exists|got: Option<DmaMemory>|
            #[trigger] dma_alloc.ensures(
                (
                    DmaRequest {
                        len: (view@.num_blocks * view@.block_len) as usize,
                        align: 4096,
                        zeroed: false,
                    },
                ),
                got,
            ) && match got {
                Some(mem) => res matches Ok(copy) && {
                    &&& copy@.addr == mem.addr
                    &&& copy@.data == joined(data@)
                    &&& copy@.offset_blocks == view@.offset_blocks
                    &&& copy@.num_blocks == view@.num_blocks
                    &&& copy@.block_len == view@.block_len
                },
                None => res == Err::<IoBuf, Error>(Error::NoMemory),
            },
{
}

/// A buffer is an I/O exactly where it holds a whole number of blocks that are not empty; it
/// stays as it is, and its blocks are all of its bytes.
pub proof fn law_buffer_is_whole_blocks<'a>(
    data: DmaBuf,
    offset_blocks: u64,
    block_len: usize,
    res: Result<Io<'a>, Error>,
)
    requires
        call_ensures(Io::<'a>::new_buf, (data, offset_blocks, block_len), res),
    ensures
        res is Ok <==> block_len > 0 && data@.len() as int % block_len as int == 0,
        res matches Err(e) ==> e is InvalidArguments,
        res matches Ok(io) ==> (io matches Io::Buf(buf) && {
            &&& buf@.addr == data.spec_addr()
            &&& buf@.data == data@
            &&& buf@.offset_blocks == offset_blocks
            &&& buf@.block_len == block_len
            &&& buf@.num_blocks * block_len == data@.len()
        }),
{
}

/// What an I/O says of itself is what its view or its buffer says.
pub proof fn law_io_describes_itself<'a, 'b>(
    io: &'b Io<'a>,
    is_ref: bool,
    offset_blocks: u64,
    num_blocks: usize,
    block_len: usize,
    total_bytes: usize,
    iter: IoIter<'b>,
)
    requires
        call_ensures(Io::<'a>::is_ref, (io,), is_ref),
        call_ensures(Io::<'a>::offset_blocks, (io,), offset_blocks),
        call_ensures(Io::<'a>::num_blocks, (io,), num_blocks),
        call_ensures(Io::<'a>::block_len, (io,), block_len),
        call_ensures(Io::<'a>::total_bytes, (io,), total_bytes),
        call_ensures(Io::<'a>::iter_iov, (io,), iter),
    ensures
        total_bytes == num_blocks * block_len,
        match io {
            Io::Ref(view) => {
                &&& is_ref
                &&& offset_blocks == view@.offset_blocks
                &&& num_blocks == view@.num_blocks
                &&& block_len == view@.block_len
                &&& iter.remaining() == view@.iovs
            },
            Io::Buf(buf) => {
                &&& !is_ref
                &&& offset_blocks == buf@.offset_blocks
                &&& num_blocks == buf@.num_blocks
                &&& block_len == buf@.block_len
                &&& iter.remaining().len() == 1
                &&& iter.remaining()[0].iov_base == buf@.addr
                &&& buf@.data.len() <= usize::MAX ==> iter.remaining()[0].iov_len
                    == buf@.data.len()
            },
        },
{
}

/// Only a view can be split. The splitter is about all segments and all blocks of the view, its
/// children have the block length asked for, and it has taken nothing yet.
pub proof fn law_split_is_as_asked<'a>(
    io: &'a Io<'a>,
    asked: Option<usize>,
    res: Result<IoRefSplitter<'a>, Error>,
)
    requires
        call_ensures(Io::<'a>::split, (io, asked), res),
    ensures
        res is Ok <==> io is Ref,
        res matches Err(e) ==> e is UnsupportedOperation,
        res matches Ok(splitter) ==> (io matches Io::Ref(parent) && {
            &&& splitter@.iovs == parent@.iovs
            &&& splitter@.total_bytes == parent@.num_blocks * parent@.block_len
            &&& splitter@.cursor == 0
            &&& asked is Some ==> splitter@.child_block_len == asked->Some_0
            &&& asked is None ==> splitter@.child_block_len == parent@.block_len
        }),
{
}

/// Taking blocks gives a child exactly where the parent has them left, both in its blocks and in
/// its segments. The child has as many blocks, of the children's block length, without a logical
/// block address, and refers to the next bytes of the parent; only then the splitter advances.
pub proof fn law_take_gives_the_next_blocks<'a>(
    splitter: &mut IoRefSplitter<'a>,
    blocks: usize,
    res: Result<IoRef<'a>, Error>,
)
    requires
        call_ensures(IoRefSplitter::<'a>::take, (splitter, blocks), res),
        old(splitter)@.valid(),
    ensures
        ({
            let before = old(splitter)@;
            let after = final(splitter)@;
            let bytes = blocks * before.child_block_len;
            &&& res is Ok <==> before.cursor + bytes <= before.total_bytes && before.cursor + bytes
                <= addrs(before.iovs).len()
            &&& after.iovs == before.iovs
            &&& after.total_bytes == before.total_bytes
            &&& after.child_block_len == before.child_block_len
            &&& res matches Err(e) ==> e is OutOfRange && after.cursor == before.cursor
            &&& res matches Ok(child) ==> {
                &&& after.cursor == before.cursor + bytes
                &&& child@.num_blocks == blocks
                &&& child@.block_len == before.child_block_len
                &&& child@.offset_blocks == 0
                &&& before.child_block_len > 0 ==> child@.ref_offset * before.child_block_len
                    == before.cursor
                &&& addrs(child@.iovs) == addrs(before.iovs).subrange(
                    before.cursor as int,
                    before.cursor + bytes,
                )
            }
        }),
{
    let before = old(splitter)@;
    lemma_addrs_len(before.iovs);
    assert(blocks as nat * before.child_block_len == blocks * before.child_block_len);
    if before.child_block_len > 0 {
        let q = before.cursor as int / before.child_block_len as int;
        vstd::arithmetic::div_mod::lemma_fundamental_div_mod(
            before.cursor as int,
            before.child_block_len as int,
        );
        vstd::arithmetic::mul::lemma_mul_is_commutative(q, before.child_block_len as int);
        assert(0 <= q <= before.cursor) by (nonlinear_arith)
            requires
                q == before.cursor as int / before.child_block_len as int,
                before.child_block_len > 0,
        ;
    }
}

/// However often blocks were taken of a split view before, `taken` in all: the next blocks are
/// given exactly where the view has them left. The child has the block length that the split was asked
/// for and holds the blocks behind those taken before, and the splitter stands behind it.
pub proof fn law_children_are_as_asked<'a>(
    io: &'a Io<'a>,
    asked: Option<usize>,
    first: IoRefSplitter<'a>,
    splitter: &mut IoRefSplitter<'a>,
    taken: nat,
    blocks: usize,
    res: Result<IoRef<'a>, Error>,
)
    requires
        call_ensures(Io::<'a>::split, (io, asked), Ok(first)),
        old(splitter)@.iovs == first@.iovs,
        old(splitter)@.total_bytes == first@.total_bytes,
        old(splitter)@.child_block_len == first@.child_block_len,
        old(splitter)@.cursor == taken * first@.child_block_len,
        old(splitter)@.valid(),
        call_ensures(IoRefSplitter::<'a>::take, (splitter, blocks), res),
    ensures
        io matches Io::Ref(parent) && {
            let len = if asked is Some {
                asked->Some_0
            } else {
                parent@.block_len
            };
            &&& addrs(parent@.iovs).len() == parent@.num_blocks * parent@.block_len ==> (res is Ok
                <==> (taken + blocks) * len <= parent@.num_blocks * parent@.block_len)
            &&& final(splitter)@.iovs == first@.iovs
            &&& final(splitter)@.total_bytes == first@.total_bytes
            &&& final(splitter)@.child_block_len == first@.child_block_len
            &&& res is Err ==> final(splitter)@.cursor == taken * first@.child_block_len
            &&& res matches Ok(child) ==> {
                &&& child@.block_len == len
                &&& child@.num_blocks == blocks
                &&& addrs(child@.iovs).len() == blocks * len
                &&& addrs(child@.iovs) == addrs(parent@.iovs).subrange(
                    taken * len,
                    (taken + blocks) * len,
                )
                &&& final(splitter)@.cursor == (taken + blocks) * first@.child_block_len
            }
        },
{
    let len = first@.child_block_len as int;
    law_split_is_as_asked(io, asked, Ok(first));
    law_take_gives_the_next_blocks(splitter, blocks, res);
    assert((taken + blocks) * len == taken * len + blocks * len) by (nonlinear_arith);
    assert(blocks * len >= 0 && taken * len >= 0) by (nonlinear_arith)
        requires
            len >= 0,
    ;
}

} // verus!
