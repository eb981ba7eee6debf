//! Client side of lower-layer block devices.
use vstd::prelude::*;
use crate::c_enum::IoType;
use crate::error::Error;
use crate::future::{IoFuture, IoFutureState};
use crate::io::{same_memory, Io, IoIter};
use crate::iovs::Iovecs;

verus! {

/// An open descriptor of a block device: its address, which is never 0.
#[derive(Debug, Clone, Copy, PartialEq, Eq, Structural)]
pub struct BdevDesc {
    raw: usize,
}

impl BdevDesc {
    /// The address.
    pub closed spec fn spec_raw(&self) -> usize {
        self.raw
    }

    /// What opening a device with result `rc` and descriptor address `desc` gives.
    pub open spec fn opened_as(ret: (i32, usize), res: Result<BdevDesc, Error>) -> bool {
        if ret.0 != 0 {
            res matches Err(e) && e == Error::SpdkBdevOpen(ret.0)
        } else {
            res matches Ok(desc) && desc.spec_raw() == ret.1
        }
    }

    /// The descriptor that opening a device with result `rc` gave.
    pub fn opened(rc: i32, desc: usize) -> (res: Result<BdevDesc, Error>)
        requires
            rc == 0 ==> desc != 0,
        ensures
            BdevDesc::opened_as((rc, desc), res),
    {
        if rc != 0 {
            return Err(Error::SpdkBdevOpen(rc));
        }
        Ok(BdevDesc { raw: desc })
    }

    /// Opens a device by its name, which must not hold a NUL character. `bdev_open` asks SPDK and
    /// gives its result and the address of the descriptor.
    pub fn open<F: FnOnce(&str, bool) -> (i32, usize)>(
        name: &str,
        write: bool,
        bdev_open: F,
    ) -> (res: Result<BdevDesc, Error>)
        requires
            !name@.contains('\0'),
            bdev_open.requires((name, write)),
            forall|ret: (i32, usize)| #[trigger]
                bdev_open.ensures((name, write), ret) && ret.0 == 0 ==> ret.1 != 0,
        ensures
            exists|ret: (i32, usize)| #[trigger]
                bdev_open.ensures((name, write), ret) && BdevDesc::opened_as(ret, res),
    {
        let (rc, desc) = bdev_open(name, write);
        assert(bdev_open.ensures((name, write), (rc, desc)));
        BdevDesc::opened(rc, desc)
    }

    /// Returns the address.
    pub fn raw(&self) -> (raw: usize)
        ensures
            raw == self.spec_raw(),
    {
        self.raw
    }
}

/// An I/O channel of a lower-layer block device: its address, which is never 0.
#[derive(Debug, Clone, Copy, PartialEq, Eq, Structural)]
pub struct LbdevIoChannel {
    raw: usize,
}

impl LbdevIoChannel {
    /// The address.
    pub closed spec fn spec_raw(&self) -> usize {
        self.raw
    }

    pub fn new(raw: usize) -> (ch: LbdevIoChannel)
        requires
            raw != 0,
        ensures
            ch.spec_raw() == raw,
    {
        LbdevIoChannel { raw }
    }

    /// Returns the address.
    pub fn raw(&self) -> (raw: usize)
        ensures
            raw == self.spec_raw(),
    {
        self.raw
    }
}

/// The outcome of a submitted I/O: a future that is ready once the I/O is over, and whether it
/// succeeded. It owns the I/O, and with it the memory that SPDK uses, until the I/O is over. `W`
/// wakes the task that waits.
pub struct LbdevIoResult<'a, W> {
    op: IoType,
    fut: IoFuture<W>,
    success: bool,
    io: Option<Io<'a>>,
}

/// What is handed out when an I/O is over: whom to wake, and the I/O, which SPDK does not use any
/// more.
pub struct LbdevIoEnd<'a, W> {
    pub to_wake: Option<W>,
    pub io: Option<Io<'a>>,
}

/// The state of an outcome: the operation, the completion, and the I/O as long as SPDK may use its
/// memory. SPDK writes to the memory of a read, whose bytes are not known meanwhile.
pub struct LbdevIoState<'a, W> {
    pub op: IoType,
    pub fut: IoFutureState<W>,
    pub success: bool,
    pub io: Option<Io<'a>>,
}

impl<'a, W> LbdevIoState<'a, W> {
    /// The I/O has not been submitted yet.
    pub open spec fn fresh(op: IoType, io: Io<'a>) -> LbdevIoState<'a, W> {
        LbdevIoState { op, fut: IoFutureState::fresh(), success: false, io: Some(io) }
    }

    /// The I/O is over, successfully or not: the waiting task is to be woken, and the I/O is
    /// handed out, with its bytes unchanged where it was a write.
    pub open spec fn finishes(
        self,
        success: bool,
        after: LbdevIoState<'a, W>,
        end: LbdevIoEnd<'a, W>,
    ) -> bool {
        &&& after == LbdevIoState { fut: self.fut.completed().0, success, io: None, ..self }
        &&& end.to_wake == self.fut.completed().1
        &&& match self.io {
            Some(before) => end.io matches Some(io) && same_memory(io, before) && (self.op
                == IoType::Write ==> io == before),
            None => end.io is None,
        }
    }

    /// SPDK took the request with result `rc`: a refused request is over, without success, and
    /// the I/O is handed out as it was; one that was taken will be reported later, and nothing is
    /// handed out.
    pub open spec fn submitted(self, rc: i32) -> (LbdevIoState<'a, W>, LbdevIoEnd<'a, W>) {
        if rc != 0 {
            (
                LbdevIoState { fut: self.fut.completed().0, success: false, io: None, ..self },
                LbdevIoEnd { to_wake: self.fut.completed().1, io: self.io },
            )
        } else {
            (self, LbdevIoEnd { to_wake: None, io: None })
        }
    }

    /// A task polled the future.
    pub open spec fn polled(self, waker: W) -> LbdevIoState<'a, W> {
        LbdevIoState { fut: self.fut.polled(waker).0, ..self }
    }
}

impl<'a, W> View for LbdevIoResult<'a, W> {
    type V = LbdevIoState<'a, W>;

    closed spec fn view(&self) -> LbdevIoState<'a, W> {
        LbdevIoState { op: self.op, fut: self.fut@, success: self.success, io: self.io }
    }
}

impl<'a, W> LbdevIoResult<'a, W> {
    fn new(op: IoType, io: Io<'a>) -> (res: LbdevIoResult<'a, W>)
        ensures
            res@ == LbdevIoState::<'a, W>::fresh(op, io),
    {
        LbdevIoResult { op, fut: IoFuture::new(), success: false, io: Some(io) }
    }

    /// Returns the future of the completion.
    pub fn future(&mut self) -> (fut: &mut IoFuture<W>)
        ensures
            fut@ == old(self)@.fut,
            final(self)@ == (LbdevIoState { fut: final(fut)@, ..old(self)@ }),
    {
        &mut self.fut
    }

    /// Tells whether the I/O succeeded.
    pub fn success(&self) -> (success: bool)
        ensures
            success == self@.success,
    {
        self.success
    }

    /// Ends the I/O.
    fn end(&mut self, success: bool) -> (end: LbdevIoEnd<'a, W>)
        ensures
            final(self)@ == (LbdevIoState {
                fut: old(self)@.fut.completed().0,
                success,
                io: None,
                ..old(self)@
            }),
            end == (LbdevIoEnd { to_wake: old(self)@.fut.completed().1, io: old(self)@.io }),
    {
        self.success = success;
        let to_wake = self.fut.complete();
        let io = self.io.take();
        LbdevIoEnd { to_wake, io }
    }

    /// Notes that SPDK took the request with result `rc`. Returns the waker that the caller has
    /// to wake, if any, and the I/O where it is over.
    pub fn submitted(&mut self, rc: i32) -> (end: LbdevIoEnd<'a, W>)
        ensures
            (final(self)@, end) == old(self)@.submitted(rc),
    {
        if rc != 0 {
            self.end(false)
        } else {
            LbdevIoEnd { to_wake: None, io: None }
        }
    }

    /// Notes that the I/O is over. Returns the waker that the caller has to wake, if any, and the
    /// I/O; nothing is said of the bytes that a read has left in its memory.
    pub fn finished(&mut self, success: bool) -> (end: LbdevIoEnd<'a, W>)
        ensures
            old(self)@.finishes(success, final(self)@, end),
    {
        self.end(success)
    }
}

/// A vectored read or write for SPDK: which of the two, the addresses of the descriptor and of the
/// channel, the data segments and their number as SPDK takes it, and the block range.
pub struct LbdevIoRequest {
    pub op: IoType,
    pub desc: usize,
    pub ch: usize,
    pub iovs: Iovecs,
    pub iovcnt: i32,
    pub lba: u64,
    pub num_blocks: u64,
}

impl LbdevIoRequest {
    /// The request is the operation `op` on all data segments and the whole block range of `io`,
    /// on the given device and channel.
    pub open spec fn is_for(
        self,
        op: IoType,
        dev: &Lbdev,
        ch: &LbdevIoChannel,
        io: Io<'_>,
    ) -> bool {
        &&& self.op == op
        &&& self.desc == dev@.desc.spec_raw()
        &&& self.ch == ch.spec_raw()
        &&& self.iovs@ == io.segments()
        &&& self.iovcnt == io.segments().len() as usize as i32
        &&& io.segments().len() <= i32::MAX ==> self.iovcnt == io.segments().len()
        &&& self.lba == io.spec_offset_blocks()
        &&& self.num_blocks == io.spec_num_blocks()
    }
}

/// A lower-layer block device, open for reading and writing.
#[derive(Debug)]
pub struct Lbdev {
    name: String,
    desc: BdevDesc,
}

/// What an `Lbdev` is: the name of the device and its descriptor.
pub struct LbdevView {
    pub name: Seq<char>,
    pub desc: BdevDesc,
}

impl View for Lbdev {
    type V = LbdevView;

    closed spec fn view(&self) -> LbdevView {
        LbdevView { name: self.name@, desc: self.desc }
    }
}

impl Lbdev {
    /// Opens a device by its name, for reading and writing.
    pub fn open<F: FnOnce(&str, bool) -> (i32, usize)>(name: &str, bdev_open: F) -> (res: Result<
        Lbdev,
        Error,
    >)
        requires
            !name@.contains('\0'),
            bdev_open.requires((name, true)),
            forall|ret: (i32, usize)| #[trigger]
                bdev_open.ensures((name, true), ret) && ret.0 == 0 ==> ret.1 != 0,
        ensures
            exists|ret: (i32, usize)| #[trigger]
                bdev_open.ensures((name, true), ret) && if ret.0 != 0 {
                    res matches Err(e) && e == Error::SpdkBdevOpen(ret.0)
                } else {
                    res matches Ok(dev) && dev@.name == name@ && dev@.desc.spec_raw() == ret.1
                },
    {
        match BdevDesc::open(name, true, bdev_open) {
            Ok(desc) => Ok(Lbdev { name: name.to_owned(), desc }),
            Err(e) => Err(e),
        }
    }

    /// Returns the descriptor.
    pub fn desc(&self) -> (desc: &BdevDesc)
        ensures
            *desc == self@.desc,
    {
        &self.desc
    }

    /// The request for an operation on all of `io`.
    fn request(&self, op: IoType, ch: &LbdevIoChannel, io: &Io<'_>) -> (req: LbdevIoRequest)
        ensures
            req.is_for(op, self, ch, *io),
    {
        let iovs = collect_segments(io.iter_iov());
        let iovcnt: i32 = #[verifier::truncate] (iovs.segments().len() as i32);
        LbdevIoRequest {
            op,
            desc: self.desc.raw,
            ch: ch.raw,
            iovs,
            iovcnt,
            lba: io.offset_blocks(),
            num_blocks: io.num_blocks() as u64,
        }
    }

    /// Prepares a read into the memory of `io`, which the outcome keeps until the read is over.
    pub fn read<'a, W>(&self, ch: &LbdevIoChannel, io: Io<'a>) -> (res: (
        LbdevIoRequest,
        LbdevIoResult<'a, W>,
    ))
        ensures
            res.0.is_for(IoType::Read, self, ch, io),
            exists|kept: Io<'a>|
                #[trigger] same_memory(kept, io) && res.1@ == LbdevIoState::<'a, W>::fresh(
                    IoType::Read,
                    kept,
                ),
    {
        let req = self.request(IoType::Read, ch, &io);
        assert(same_memory(io, io));
        (req, LbdevIoResult::new(IoType::Read, io))
    }

    /// Prepares a write of the memory of `io`, which the outcome keeps until the write is over.
    pub fn write<'a, W>(&self, ch: &LbdevIoChannel, io: Io<'a>) -> (res: (
        LbdevIoRequest,
        LbdevIoResult<'a, W>,
    ))
        ensures
            res.0.is_for(IoType::Write, self, ch, io),
            res.1@ == LbdevIoState::<'a, W>::fresh(IoType::Write, io),
    {
        let req = self.request(IoType::Write, ch, &io);
        (req, LbdevIoResult::new(IoType::Write, io))
    }
}

/// Collects the segments that an iterator still gives.
fn collect_segments(iter: IoIter<'_>) -> (iovs: Iovecs)
    ensures
        iovs@ == iter.remaining(),
{
    let ghost all = iter.remaining();
    let mut iter = iter;
    let mut iovs = Iovecs::new();
    assert(iovs@ + iter.remaining() =~= all);
    loop
        invariant
            iovs@ + iter.remaining() == all,
        ensures
            iovs@ == all,
        decreases iter.remaining().len(),
    {
        let ghost before = iovs@;
        let ghost rest = iter.remaining();
        match iter.next() {
            Some(iov) => {
                iovs.push(iov);
                assert(iovs@ + iter.remaining() =~= before + rest);
            },
            None => {
                assert(before + rest =~= before);
                break ;
            },
        }
    }
    iovs
}

/// The memory of an I/O is kept from the beginning until SPDK refuses the request or reports its
/// end, whoever polls meanwhile; only then is it handed out, once.
pub proof fn lemma_memory_is_kept_until_the_end<'a, W>(
    state: LbdevIoState<'a, W>,
    waker: W,
    rc: i32,
    success: bool,
    after: LbdevIoState<'a, W>,
    end: LbdevIoEnd<'a, W>,
)
    requires
        state.io is Some,
        state.finishes(success, after, end),
        rc != 0,
    ensures
        state.polled(waker).io == state.io,
        state.submitted(0).0.io == state.io && state.submitted(0).1.io is None,
        state.submitted(rc).0.io is None && (state.submitted(rc).1.io matches Some(io)
            && same_memory(io, state.io.unwrap())),
        after.io is None && (end.io matches Some(io) && same_memory(io, state.io.unwrap())),
{
}

/// A request that SPDK refused is over at once and did not succeed; whoever waits is woken, and
/// whoever polls later finds it ready.
pub proof fn lemma_refused_io_fails_at_once<'a, W>(state: LbdevIoState<'a, W>, rc: i32, waker: W)
    requires
        rc != 0,
    ensures
        state.submitted(rc).0.fut.done,
        !state.submitted(rc).0.success,
        state.submitted(rc).1.to_wake == state.fut.waker,
        state.submitted(rc).0.fut.polled(waker).1 == crate::future::Poll::Ready,
{
}

/// A request that SPDK took stays pending until SPDK reports its end, keeps the task that waits,
/// and then wakes it with the reported success.
pub proof fn lemma_taken_io_reports_later<'a, W>(
    state: LbdevIoState<'a, W>,
    waker: W,
    success: bool,
    after: LbdevIoState<'a, W>,
    end: LbdevIoEnd<'a, W>,
)
    requires
        !state.fut.done,
        state.polled(waker).finishes(success, after, end),
    ensures
        state.submitted(0).0 == state,
        state.submitted(0).1.to_wake is None,
        !state.polled(waker).fut.done,
        end.to_wake == Some(waker),
        after.fut.done,
        after.success == success,
{
}

} // verus!
