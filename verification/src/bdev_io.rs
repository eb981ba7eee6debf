//! Requests that SPDK submits to a block device.
use vstd::prelude::*;
use crate::c::{
    iovec, SPDK_BDEV_IO_STATUS_FAILED, SPDK_BDEV_IO_STATUS_SUCCESS, SPDK_BDEV_IO_TYPE_READ,
    SPDK_BDEV_IO_TYPE_WRITE,
};
use crate::c_enum::{CEnum, DifType, IoType};
use crate::future::{IoFuture, IoFutureState};
use crate::iovs::all_valid;
use crate::thread::SpdkThread;

verus! {

/// Identity of a block device.
#[derive(Copy, Clone, Debug, Hash, PartialEq, Eq, Structural)]
pub struct BdevId(pub usize);

/// A range of blocks of an I/O operation.
#[derive(Debug, Copy, Clone, PartialEq, Eq, Structural)]
pub struct IoRange {
    pub lba: u64,
    pub num_blocks: u64,
}

/// Status of an I/O operation.
#[derive(Debug, Copy, Clone, PartialEq, Eq, Structural)]
pub enum IoStatus {
    Success,
    Failure,
}

impl IoStatus {
    /// The C constant of the status.
    pub open spec fn spec_code(self) -> i32 {
        match self {
            IoStatus::Success => SPDK_BDEV_IO_STATUS_SUCCESS,
            IoStatus::Failure => SPDK_BDEV_IO_STATUS_FAILED,
        }
    }

    /// Returns the C constant of the status.
    pub fn code(self) -> (code: i32)
        ensures
            code == self.spec_code(),
    {
        match self {
            IoStatus::Success => SPDK_BDEV_IO_STATUS_SUCCESS,
            IoStatus::Failure => SPDK_BDEV_IO_STATUS_FAILED,
        }
    }
}

/// What SPDK says of a request: addresses of the request and of its block device, the C constants
/// of the I/O type and of the device's data integrity format, the block range, the block size of
/// the device in bytes, and the request's data segments.
#[derive(Debug)]
pub struct RawBdevIo {
    pub raw: usize,
    pub bdev: usize,
    pub io_type: i32,
    pub dif_type: i32,
    pub offset_blocks: u64,
    pub num_blocks: u64,
    pub block_size: u32,
    pub iovs: Vec<iovec>,
}

/// A request with an address, whose segments end inside the address space.
struct BdevRequest {
    req: RawBdevIo,
}

impl BdevRequest {
    #[verifier::type_invariant]
    spec fn inv(&self) -> bool {
        &&& self.req.raw != 0
        &&& all_valid(self.req.iovs@)
    }
}

/// A request that SPDK submitted to a block device, with the future of its completion. `W` wakes
/// the task that waits for the completion.
pub struct BdevIo<W> {
    submitted: BdevRequest,
    fut: IoFuture<W>,
}

/// What is left to do to complete a request: wake the waiting task, then report `status` to SPDK
/// for the request at address `raw`.
pub struct BdevIoCompletion<W> {
    pub to_wake: Option<W>,
    pub raw: usize,
    pub status: i32,
}

/// A message to `thread`, which completes the request there.
pub struct BdevIoMsg<W> {
    pub thread: SpdkThread,
    pub io: BdevIo<W>,
    pub status: IoStatus,
}

impl<W> BdevIo<W> {
    /// What SPDK says of the request.
    pub closed spec fn request(&self) -> RawBdevIo {
        self.submitted.req
    }

    /// The state of the completion.
    pub closed spec fn completion(&self) -> IoFutureState<W> {
        self.fut@
    }

    /// Takes over a request from SPDK.
    pub fn new(req: RawBdevIo) -> (io: BdevIo<W>)
        requires
            req.raw != 0,
            all_valid(req.iovs@),
        ensures
            io.request() == req,
            io.completion() == IoFutureState::<W>::fresh(),
    {
        BdevIo { submitted: BdevRequest { req }, fut: IoFuture::new() }
    }

    /// Returns what SPDK says of the request.
    pub fn raw_request(&self) -> (req: &RawBdevIo)
        ensures
            *req == self.request(),
    {
        &self.submitted.req
    }

    /// Notes what SPDK says of the request now, such as segments that it has filled in meanwhile.
    pub fn refresh(&mut self, req: RawBdevIo)
        requires
            req.raw == old(self).request().raw,
            all_valid(req.iovs@),
        ensures
            final(self).request() == req,
            final(self).completion() == old(self).completion(),
    {
        proof {
            use_type_invariant(&self.submitted);
        }
        self.submitted = BdevRequest { req };
    }

    /// Returns the future of the completion.
    pub fn future(&mut self) -> (fut: &mut IoFuture<W>)
        ensures
            fut@ == old(self).completion(),
            final(self).completion() == final(fut)@,
            final(self).request() == old(self).request(),
    {
        &mut self.fut
    }

    /// Completes the request with the given status: its future is done, and the caller is told
    /// whom to wake and what to report.
    pub fn complete(&mut self, status: IoStatus) -> (todo: BdevIoCompletion<W>)
        ensures
            final(self).request() == old(self).request(),
            (final(self).completion(), todo.to_wake) == old(self).completion().completed(),
            todo.raw == old(self).request().raw,
            todo.status == status.spec_code(),
    {
        let to_wake = self.fut.complete();
        BdevIoCompletion { to_wake, raw: self.submitted.req.raw, status: status.code() }
    }

    /// Completes the request on a specific SPDK thread: the message carries the request there.
    pub fn complete_on(self, thread: &SpdkThread, status: IoStatus) -> (msg: BdevIoMsg<W>)
        ensures
            msg.thread == *thread,
            msg.io == self,
            msg.status == status,
    {
        BdevIoMsg { thread: *thread, io: self, status }
    }

    /// Returns the type of the request.
    pub fn io_type(&self) -> (io_type: IoType)
        requires
            IoType::has_variant(self.request().io_type),
        ensures
            io_type.c_value() == self.request().io_type,
    {
        match IoType::try_from_c(self.submitted.req.io_type) {
            Ok(io_type) => io_type,
            Err(_) => {
                assert(false);
                IoType::Invalid
            },
        }
    }

    /// Returns the offset in blocks.
    pub fn offset_blocks(&self) -> (n: u64)
        ensures
            n == self.request().offset_blocks,
    {
        self.submitted.req.offset_blocks
    }

    /// Returns the number of blocks.
    pub fn num_blocks(&self) -> (n: u64)
        ensures
            n == self.request().num_blocks,
    {
        self.submitted.req.num_blocks
    }

    /// Returns the block range of a read or a write; a request of another type has none.
    pub fn range(&self) -> (range: Option<IoRange>)
        requires
            IoType::has_variant(self.request().io_type),
        ensures
            range == (if self.request().io_type == SPDK_BDEV_IO_TYPE_READ
                || self.request().io_type == SPDK_BDEV_IO_TYPE_WRITE {
                Some(
                    IoRange {
                        lba: self.request().offset_blocks,
                        num_blocks: self.request().num_blocks,
                    },
                )
            } else {
                None
            }),
    {
        match self.io_type() {
            IoType::Read | IoType::Write => Some(
                IoRange { lba: self.offset_blocks(), num_blocks: self.num_blocks() },
            ),
            _ => None,
        }
    }

    /// Returns the identity of the block device.
    pub fn bdev_id(&self) -> (id: BdevId)
        requires
            self.request().bdev != 0,
        ensures
            id == BdevId(self.request().bdev),
    {
        BdevId(self.submitted.req.bdev)
    }

    /// Returns the block length of the block device in bytes.
    pub fn block_len(&self) -> (len: usize)
        requires
            self.request().bdev != 0,
        ensures
            len == self.request().block_size,
    {
        self.submitted.req.block_size as usize
    }

    /// Returns the data integrity format of the block device.
    pub fn dif_type(&self) -> (dif_type: DifType)
        requires
            self.request().bdev != 0,
            DifType::has_variant(self.request().dif_type),
        ensures
            dif_type.c_value() == self.request().dif_type,
    {
        match DifType::try_from_c(self.submitted.req.dif_type) {
            Ok(dif_type) => dif_type,
            Err(_) => {
                assert(false);
                DifType::Disable
            },
        }
    }

    /// Returns the data segments of the request.
    pub fn iovs(&self) -> (iovs: &[iovec])
        ensures
            iovs@ == self.request().iovs@,
            all_valid(iovs@),
    {
        proof {
            use_type_invariant(&self.submitted);
        }
        self.submitted.req.iovs.as_slice()
    }
}

impl<W> BdevIoMsg<W> {
    /// What the receiving thread has to do.
    pub fn deliver(self) -> (todo: BdevIoCompletion<W>)
        ensures
            todo.to_wake == self.io.completion().waker,
            todo.raw == self.io.request().raw,
            todo.status == self.status.spec_code(),
    {
        let BdevIoMsg { thread: _, io, status } = self;
        let mut io = io;
        io.complete(status)
    }
}

} // verus!
