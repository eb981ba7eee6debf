//! Constants and plain records of the SPDK C interface.
use vstd::prelude::*;

verus! {

/// One scatter/gather segment: the address of its first byte and its length.
#[allow(non_camel_case_types)]
#[derive(Clone, Copy, Debug, PartialEq, Eq, Structural)]
pub struct iovec {
    pub iov_base: usize,
    pub iov_len: usize,
}

impl iovec {
    /// The segment ends inside the address space.
    pub open spec fn valid(self) -> bool {
        self.iov_base + self.iov_len <= usize::MAX
    }
}

pub const SPDK_BDEV_IO_STATUS_SUCCESS: i32 = 1;
pub const SPDK_BDEV_IO_STATUS_FAILED: i32 = -1;

pub const SPDK_DIF_DISABLE: i32 = 0;
pub const SPDK_DIF_TYPE1: i32 = 1;
pub const SPDK_DIF_TYPE2: i32 = 2;
pub const SPDK_DIF_TYPE3: i32 = 3;

pub const SPDK_BDEV_IO_TYPE_INVALID: i32 = 0;
pub const SPDK_BDEV_IO_TYPE_READ: i32 = 1;
pub const SPDK_BDEV_IO_TYPE_WRITE: i32 = 2;
pub const SPDK_BDEV_IO_TYPE_UNMAP: i32 = 3;
pub const SPDK_BDEV_IO_TYPE_FLUSH: i32 = 4;
pub const SPDK_BDEV_IO_TYPE_RESET: i32 = 5;
pub const SPDK_BDEV_IO_TYPE_NVME_ADMIN: i32 = 6;
pub const SPDK_BDEV_IO_TYPE_NVME_IO: i32 = 7;
pub const SPDK_BDEV_IO_TYPE_NVME_IO_MD: i32 = 8;
pub const SPDK_BDEV_IO_TYPE_WRITE_ZEROES: i32 = 9;
pub const SPDK_BDEV_IO_TYPE_ZCOPY: i32 = 10;
pub const SPDK_BDEV_IO_TYPE_GET_ZONE_INFO: i32 = 11;
pub const SPDK_BDEV_IO_TYPE_ZONE_MANAGEMENT: i32 = 12;
pub const SPDK_BDEV_IO_TYPE_ZONE_APPEND: i32 = 13;
pub const SPDK_BDEV_IO_TYPE_COMPARE: i32 = 14;
pub const SPDK_BDEV_IO_TYPE_COMPARE_AND_WRITE: i32 = 15;
pub const SPDK_BDEV_IO_TYPE_ABORT: i32 = 16;
pub const SPDK_BDEV_IO_TYPE_SEEK_HOLE: i32 = 17;
pub const SPDK_BDEV_IO_TYPE_SEEK_DATA: i32 = 18;
pub const SPDK_BDEV_IO_TYPE_COPY: i32 = 19;
pub const SPDK_BDEV_IO_TYPE_NVME_IOV_MD: i32 = 20;
pub const SPDK_BDEV_IO_TYPE_NVME_NSSR: i32 = 21;
pub const SPDK_BDEV_IO_TYPE_WRITE_UNCORRECTABLE: i32 = 22;

} // verus!
