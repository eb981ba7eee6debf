//! Storage I/O logic for SPDK block devices: zero-copy views of requests and their splitting, DMA
//! buffers, completion of asynchronous I/O, per-thread run queues and storage, the registry of
//! block devices, and commands.
//!
//! Nothing here calls into SPDK. Addresses of SPDK's structures are plain numbers, and where an
//! answer of SPDK is needed, the caller hands in either the answer or a function that asks.
pub mod app;
pub mod bdev;
pub mod bdev_io;
pub mod c;
pub mod c_enum;
pub mod dma;
pub mod error;
pub mod future;
pub mod io;
pub mod iovs;
pub mod laws;
pub mod lbdev;
pub mod link;
pub mod names;
pub mod opts;
pub mod raid1;
pub mod rpc;
pub mod sched;
pub mod split;
pub mod tcb;
pub mod text;
pub mod thread;
pub mod tls;

pub use app::SpdkApp;
pub use bdev::{
    bdev_registry_add, bdev_registry_remove, Bdev, BdevCtx, BdevIoChannel, BdevIoChannelRef,
    BdevRegistry, RawBdevHandle,
};
pub use bdev_io::{BdevId, BdevIo, IoRange, IoStatus, RawBdevIo};
pub use c::iovec;
pub use c_enum::{CEnum, DifType, IoType};
pub use dma::{DmaBuf, DmaMemory, DmaRequest};
pub use error::Error;
pub use future::{IoFuture, Poll};
pub use io::{Io, IoBuf, IoIter, IoIterMut, IoRef, IoSegmentMut};
pub use lbdev::{BdevDesc, Lbdev, LbdevIoChannel, LbdevIoEnd, LbdevIoRequest, LbdevIoResult};
pub use names::NameMap;
pub use opts::SpdkBdevOptsC;
pub use split::IoRefSplitter;
pub use tcb::{Task, Tcb, TcbCache, TcbPtr, TcbRegistry, ThreadKey};
pub use thread::{thread_id, CpuSet, SpdkThread};
pub use tls::{Tls, TlsKey, TlsSlots, TLS_SLOTS};
