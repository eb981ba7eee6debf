//! Laws of requests, their completion, and I/O on lower-layer devices.
use vstd::prelude::*;
use crate::bdev::{bdev_io_type_supported, Bdev};
use crate::bdev_io::{BdevIo, BdevIoCompletion, BdevIoMsg, IoRange, IoStatus, RawBdevIo};
use crate::c::iovec;
use crate::c_enum::{CEnum, DifType, IoType};
use crate::dma::{DmaBuf, DmaMemory, DmaRequest};
use crate::error::Error;
use crate::future::{IoFuture, Poll};
use crate::io::Io;
use crate::lbdev::{BdevDesc, Lbdev, LbdevIoChannel, LbdevIoEnd, LbdevIoRequest, LbdevIoResult};
use crate::thread::SpdkThread;

verus! {

/// Which I/O type each C constant stands for; no other constant stands for one.
pub proof fn law_io_type_constants(value: i32, res: Result<IoType, i32>, io_type: IoType, c: i32)
    requires
        call_ensures(IoType::try_from_c, (value,), res),
        call_ensures(IoType::into_c, (io_type,), c),
    ensures
        res == (match value {
            0 => Ok(IoType::Invalid),
            1 => Ok(IoType::Read),
            2 => Ok(IoType::Write),
            3 => Ok(IoType::Unmap),
            4 => Ok(IoType::Flush),
            5 => Ok(IoType::Reset),
            6 => Ok(IoType::NvmeAdmin),
            7 => Ok(IoType::NvmeIo),
            8 => Ok(IoType::NvmeIoMd),
            9 => Ok(IoType::WriteZeroes),
            10 => Ok(IoType::Zcopy),
            11 => Ok(IoType::GenZoneInfo),
            12 => Ok(IoType::ZoneManagement),
            13 => Ok(IoType::ZoneAppend),
            14 => Ok(IoType::Compare),
            15 => Ok(IoType::CompareAndWrite),
            16 => Ok(IoType::Abort),
            17 => Ok(IoType::SeekHole),
            18 => Ok(IoType::SeekData),
            19 => Ok(IoType::Copy),
            20 => Ok(IoType::NvmeIovMd),
            21 => Ok(IoType::NvmeNssr),
            22 => Ok(IoType::WriteUncorrectable),
            _ => Err(value),
        }),
        value == c ==> res == Ok::<IoType, i32>(io_type),
        0 <= c <= 22,
{
}

/// Which data integrity format each C constant stands for; no other constant stands for one.
pub proof fn law_dif_type_constants(value: i32, res: Result<DifType, i32>, dif_type: DifType, c: i32)
    requires
        call_ensures(DifType::try_from_c, (value,), res),
        call_ensures(DifType::into_c, (dif_type,), c),
    ensures
        res == (match value {
            0 => Ok(DifType::Disable),
            1 => Ok(DifType::Type1),
            2 => Ok(DifType::Type2),
            3 => Ok(DifType::Type3),
            _ => Err(value),
        }),
        value == c ==> res == Ok::<DifType, i32>(dif_type),
        0 <= c <= 3,
{
}

/// `res` is the buffer over what `dma_alloc` gave for `len` bytes with this alignment, zeroed or
/// not: all of that memory at its address, or an error where there was none.
pub open spec fn is_over_memory<A: FnOnce(DmaRequest) -> Option<DmaMemory>>(
    dma_alloc: A,
    len: usize,
    align: usize,
    zeroed: bool,
    res: Result<DmaBuf, Error>,
) -> bool {
    exists|got: Option<DmaMemory>|
        #[trigger] dma_alloc.ensures((DmaRequest { len, align, zeroed },), got) && match got {
            Some(mem) => res matches Ok(buf) && buf@ == mem.bytes@ && buf.spec_addr() == mem.addr,
            None => res == Err::<DmaBuf, Error>(Error::NoMemory),
        }
}

/// Each way to make a buffer asks for the memory that it says, and has the length asked for, an
/// address aligned as asked, and zeros where it says so.
pub proof fn law_buffers_are_as_asked<A: FnOnce(DmaRequest) -> Option<DmaMemory>>(
    len: usize,
    align: usize,
    dma_alloc: A,
    plain: Result<DmaBuf, Error>,
    aligned: Result<DmaBuf, Error>,
    zeroed: Result<DmaBuf, Error>,
    aligned_zeroed: Result<DmaBuf, Error>,
)
    requires
        call_ensures(DmaBuf::new::<A>, (len, dma_alloc), plain),
        call_ensures(DmaBuf::new_aligned::<A>, (len, align, dma_alloc), aligned),
        call_ensures(DmaBuf::new_zeroed::<A>, (len, dma_alloc), zeroed),
        call_ensures(DmaBuf::new_aligned_zeroed::<A>, (len, align, dma_alloc), aligned_zeroed),
    ensures
        is_over_memory(dma_alloc, len, 4096, false, plain),
        is_over_memory(dma_alloc, len, align, false, aligned),
        is_over_memory(dma_alloc, len, 4096, true, zeroed),
        is_over_memory(dma_alloc, len, align, true, aligned_zeroed),
        plain matches Ok(buf) ==> buf@.len() == len && buf.spec_addr() as int % 4096 == 0,
        aligned matches Ok(buf) ==> buf@.len() == len,
        aligned is Ok && align != 0 ==> aligned->Ok_0.spec_addr() as int % align as int == 0,
        zeroed matches Ok(buf) ==> buf@.len() == len && buf.spec_addr() as int % 4096 == 0 && (
        forall|i: int| 0 <= i < len ==> buf@[i] == 0),
        aligned_zeroed matches Ok(buf) ==> buf@.len() == len && (forall|i: int|
            0 <= i < len ==> buf@[i] == 0),
        aligned_zeroed is Ok && align != 0 ==> aligned_zeroed->Ok_0.spec_addr() as int
            % align as int == 0,
{
}

/// A new future is not done and wakes nobody.
pub proof fn law_new_future_is_pending<W>(fut: IoFuture<W>)
    requires
        call_ensures(IoFuture::<W>::new, (), fut),
    ensures
        !fut@.done,
        fut@.waker is None,
{
}

/// Polling tells whether the I/O is done, and only notes whom to wake where it is not.
pub proof fn law_poll_tells_whether_done<W>(fut: &mut IoFuture<W>, waker: W, res: Poll)
    requires
        call_ensures(IoFuture::<W>::poll, (fut, waker), res),
    ensures
        res == Poll::Ready <==> old(fut)@.done,
        final(fut)@.done == old(fut)@.done,
        old(fut)@.done ==> final(fut)@.waker == old(fut)@.waker,
        !old(fut)@.done ==> final(fut)@.waker == Some(waker),
{
}

/// Completion makes the future done and hands out whom to wake, in whatever state it was.
pub proof fn law_completion_makes_done<W>(fut: &mut IoFuture<W>, to_wake: Option<W>)
    requires
        call_ensures(IoFuture::<W>::complete, (fut,), to_wake),
    ensures
        final(fut)@.done,
        final(fut)@.waker is None,
        to_wake == old(fut)@.waker,
{
}

/// A completed request is reported to SPDK by its address, with 1 for success and -1 for failure;
/// whoever waits for it is woken, and it stays the same request.
pub proof fn law_completed_request_is_reported<W>(
    io: &mut BdevIo<W>,
    status: IoStatus,
    todo: BdevIoCompletion<W>,
)
    requires
        call_ensures(BdevIo::<W>::complete, (io, status), todo),
    ensures
        todo.raw == old(io).request().raw,
        status == IoStatus::Success ==> todo.status == 1,
        status == IoStatus::Failure ==> todo.status == -1,
        todo.to_wake == old(io).completion().waker,
        final(io).completion().done,
        final(io).completion().waker is None,
        final(io).request() == old(io).request(),
{
}

/// A request that is completed on another thread is sent to that thread, and completed there as it
/// would have been here.
pub proof fn law_request_is_completed_on_another_thread<W>(
    io: BdevIo<W>,
    thread: &SpdkThread,
    status: IoStatus,
    msg: BdevIoMsg<W>,
    todo: BdevIoCompletion<W>,
)
    requires
        call_ensures(BdevIo::<W>::complete_on, (io, thread, status), msg),
        call_ensures(BdevIoMsg::<W>::deliver, (msg,), todo),
    ensures
        msg.thread == *thread,
        todo.raw == io.request().raw,
        status == IoStatus::Success ==> todo.status == 1,
        status == IoStatus::Failure ==> todo.status == -1,
        todo.to_wake == io.completion().waker,
{
}

/// What a request says of itself is what SPDK says of it; only reads and writes have a range.
pub proof fn law_request_describes_itself<W>(
    io: &BdevIo<W>,
    io_type: IoType,
    decoded: Result<IoType, i32>,
    dif_type: DifType,
    offset_blocks: u64,
    num_blocks: u64,
    block_len: usize,
    range: Option<IoRange>,
)
    requires
        call_ensures(BdevIo::<W>::io_type, (io,), io_type),
        call_ensures(IoType::try_from_c, (io.request().io_type,), decoded),
        call_ensures(BdevIo::<W>::dif_type, (io,), dif_type),
        call_ensures(BdevIo::<W>::offset_blocks, (io,), offset_blocks),
        call_ensures(BdevIo::<W>::num_blocks, (io,), num_blocks),
        call_ensures(BdevIo::<W>::block_len, (io,), block_len),
        call_ensures(BdevIo::<W>::range, (io,), range),
    ensures
        offset_blocks == io.request().offset_blocks,
        num_blocks == io.request().num_blocks,
        block_len == io.request().block_size,
        io_type == IoType::Read <==> io.request().io_type == 1,
        io_type == IoType::Write <==> io.request().io_type == 2,
        decoded == Ok::<IoType, i32>(io_type),
        dif_type == DifType::Disable <==> io.request().dif_type == 0,
        dif_type == DifType::Type1 <==> io.request().dif_type == 1,
        dif_type == DifType::Type2 <==> io.request().dif_type == 2,
        dif_type == DifType::Type3 <==> io.request().dif_type == 3,
        range is Some <==> io_type == IoType::Read || io_type == IoType::Write,
        range matches Some(r) ==> r.lba == offset_blocks && r.num_blocks == num_blocks,
{
}

/// A device is opened by its name and mode, once; a result that is not 0 is the error, and else
/// the descriptor is the one that SPDK gave.
pub proof fn law_open_asks_spdk<F: FnOnce(&str, bool) -> (i32, usize)>(
    name: &str,
    write: bool,
    bdev_open: F,
    desc: Result<BdevDesc, Error>,
    dev: Result<Lbdev, Error>,
)
    requires
        call_ensures(BdevDesc::open::<F>, (name, write, bdev_open), desc),
        call_ensures(Lbdev::open::<F>, (name, bdev_open), dev),
    ensures
        exists|ret: (i32, usize)| #[trigger]
            bdev_open.ensures((name, write), ret) && (if ret.0 == 0 {
                desc matches Ok(d) && d.spec_raw() == ret.1
            } else {
                desc == Err::<BdevDesc, Error>(Error::SpdkBdevOpen(ret.0))
            }),
        exists|ret: (i32, usize)| #[trigger]
            bdev_open.ensures((name, true), ret) && (if ret.0 == 0 {
                dev matches Ok(d) && d@.desc.spec_raw() == ret.1 && d@.name == name@
            } else {
                dev == Err::<Lbdev, Error>(Error::SpdkBdevOpen(ret.0))
            }),
{
}

/// The result of opening a device.
pub proof fn law_opened_descriptor(rc: i32, raw: usize, res: Result<BdevDesc, Error>)
    requires
        call_ensures(BdevDesc::opened, (rc, raw), res),
    ensures
        res is Ok <==> rc == 0,
        res matches Ok(desc) ==> desc.spec_raw() == raw,
        res matches Err(e) ==> e == Error::SpdkBdevOpen(rc),
{
}

/// The request `req` is about all memory and all blocks of `io`, on this device and channel.
pub open spec fn is_about_all_of(
    req: LbdevIoRequest,
    dev: &Lbdev,
    ch: &LbdevIoChannel,
    io: Io<'_>,
) -> bool {
    &&& req.desc == dev@.desc.spec_raw()
    &&& req.ch == ch.spec_raw()
    &&& req.iovs@.len() <= i32::MAX ==> req.iovcnt == req.iovs@.len()
    &&& match io {
        Io::Ref(view) => {
            &&& req.iovs@ == view@.iovs
            &&& req.lba == view@.offset_blocks
            &&& req.num_blocks == view@.num_blocks
        },
        Io::Buf(buf) => {
            &&& req.iovs@ == seq![
                iovec { iov_base: buf@.addr, iov_len: buf@.data.len() as usize },
            ]
            &&& req.lba == buf@.offset_blocks
            &&& req.num_blocks == buf@.num_blocks
        },
    }
}

/// A read and a write are submitted as what they are, for the whole I/O; nothing is over yet, and
/// the outcome keeps the I/O.
pub proof fn law_io_is_submitted_whole<'a, 'b, W>(
    dev: &'b Lbdev,
    ch: &'b LbdevIoChannel,
    io: Io<'a>,
    read: (LbdevIoRequest, LbdevIoResult<'a, W>),
    write: (LbdevIoRequest, LbdevIoResult<'a, W>),
)
    requires
        call_ensures(Lbdev::read::<W>, (dev, ch, io), read),
        call_ensures(Lbdev::write::<W>, (dev, ch, io), write),
    ensures
        read.0.op == IoType::Read,
        write.0.op == IoType::Write,
        read.1@.op == IoType::Read,
        write.1@.op == IoType::Write,
        is_about_all_of(read.0, dev, ch, io),
        is_about_all_of(write.0, dev, ch, io),
        !read.1@.fut.done && !read.1@.success && read.1@.fut.waker is None,
        !write.1@.fut.done && !write.1@.success && write.1@.fut.waker is None,
        write.1@.io == Some(io),
        read.1@.io matches Some(kept) && is_the_same_memory(kept, io),
{
    let kept = read.1@.io->Some_0;
    assert(kept.segments() == io.segments());
    if io is Buf {
        assert(kept.segments()[0] == io.segments()[0]);
    }
}

/// Two I/Os are views of the same segments or buffers at the same address and of the same length,
/// with the same blocks.
pub open spec fn is_the_same_memory(a: Io<'_>, b: Io<'_>) -> bool {
    match (a, b) {
        (Io::Ref(x), Io::Ref(y)) => {
            &&& x@.iovs == y@.iovs
            &&& x@.offset_blocks == y@.offset_blocks
            &&& x@.num_blocks == y@.num_blocks
            &&& x@.block_len == y@.block_len
        },
        (Io::Buf(x), Io::Buf(y)) => {
            &&& x@.addr == y@.addr
            &&& x@.data.len() as usize == y@.data.len() as usize
            &&& x@.offset_blocks == y@.offset_blocks
            &&& x@.num_blocks == y@.num_blocks
            &&& x@.block_len == y@.block_len
        },
        _ => false,
    }
}

/// Whoever has polled an outcome or not: once SPDK reports the end of the I/O, the outcome is
/// ready with exactly the reported success, the task that waits is to be woken, and the memory is
/// handed out.
pub proof fn law_reported_success_counts<'a, W>(
    result: &mut LbdevIoResult<'a, W>,
    success: bool,
    end: LbdevIoEnd<'a, W>,
)
    requires
        call_ensures(LbdevIoResult::<'a, W>::finished, (result, success), end),
    ensures
        final(result)@.success == success,
        final(result)@.fut.done,
        final(result)@.fut.waker is None,
        final(result)@.io is None,
        final(result)@.op == old(result)@.op,
        end.to_wake == old(result)@.fut.waker,
        end.io is Some <==> old(result)@.io is Some,
        end.io is Some ==> is_the_same_memory(end.io->Some_0, old(result)@.io->Some_0),
        old(result)@.op == IoType::Write ==> end.io == old(result)@.io,
{
    if let (Some(a), Some(b)) = (end.io, old(result)@.io) {
        assert(a.segments() == b.segments());
        if a is Buf {
            assert(a.segments()[0] == b.segments()[0]);
        }
    }
}

/// Whatever the state of an outcome: a refused request is over at once without success, and its
/// memory is handed out; a request that SPDK took changes nothing yet.
pub proof fn law_submission_decides<'a, W>(
    result: &mut LbdevIoResult<'a, W>,
    rc: i32,
    end: LbdevIoEnd<'a, W>,
)
    requires
        call_ensures(LbdevIoResult::<'a, W>::submitted, (result, rc), end),
    ensures
        rc == 0 ==> final(result)@ == old(result)@ && end.to_wake is None && end.io is None,
        rc != 0 ==> {
            &&& !final(result)@.success
            &&& final(result)@.fut.done
            &&& final(result)@.fut.waker is None
            &&& final(result)@.io is None
            &&& end.to_wake == old(result)@.fut.waker
            &&& end.io == old(result)@.io
        },
{
}

/// What an outcome says is what was reported last.
pub proof fn law_success_is_told<'a, W>(result: &LbdevIoResult<'a, W>, success: bool)
    requires
        call_ensures(LbdevIoResult::<'a, W>::success, (result,), success),
    ensures
        success == result@.success,
{
}

/// A status is told to SPDK as 1 for success and as -1 for failure.
pub proof fn law_status_codes(status: IoStatus, code: i32)
    requires
        call_ensures(IoStatus::code, (status,), code),
    ensures
        status == IoStatus::Success ==> code == 1,
        status == IoStatus::Failure ==> code == -1,
{
}

/// A request is taken as it is and is not complete, nobody waiting for it.
pub proof fn law_request_begins_pending<W>(req: RawBdevIo, io: BdevIo<W>)
    requires
        call_ensures(BdevIo::<W>::new, (req,), io),
    ensures
        io.request() == req,
        !io.completion().done,
        io.completion().waker is None,
{
}

/// A buffer over memory that an allocator gave is all of that memory at its address; without
/// memory there is no buffer.
pub proof fn law_buffer_is_over_its_memory(got: Option<DmaMemory>, res: Result<DmaBuf, Error>)
    requires
        call_ensures(DmaBuf::from_memory, (got,), res),
    ensures
        match got {
            Some(mem) => res matches Ok(buf) && buf@ == mem.bytes@ && buf.spec_addr() == mem.addr,
            None => res == Err::<DmaBuf, Error>(Error::NoMemory),
        },
{
}

/// A device is asked about an I/O type exactly where the C constant stands for one, and then what
/// it says counts.
pub proof fn law_device_tells_what_it_supports<B: Bdev>(
    bdev: &B,
    value: i32,
    decoded: Result<IoType, i32>,
    res: bool,
)
    requires
        call_ensures(bdev_io_type_supported::<B>, (bdev, value), res),
        call_ensures(IoType::try_from_c, (value,), decoded),
    ensures
        value < 0 || value > 22 ==> !res,
        decoded is Err ==> !res,
        decoded matches Ok(io_type) ==> call_ensures(B::io_type_supported, (bdev, io_type), res),
{
}

} // verus!
