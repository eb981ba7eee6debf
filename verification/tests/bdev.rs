use ironspdk::bdev::{bdev_ctx_drop, bdev_delete_reply, bdev_delete_target, bdev_io_type_supported};
use ironspdk::{
    bdev_registry_add, bdev_registry_remove, iovec, Bdev, BdevCtx, BdevDesc, BdevId, BdevIo,
    BdevIoChannel, BdevIoChannelRef, BdevRegistry, CEnum, DifType, DmaBuf, DmaMemory, DmaRequest,
    Error, Io, IoRange, IoStatus, IoType, Lbdev, LbdevIoChannel, LbdevIoResult, NameMap, Poll,
    RawBdevHandle, RawBdevIo, SpdkThread,
};

fn request(io_type: i32) -> RawBdevIo {
    RawBdevIo {
        raw: 0x1000,
        bdev: 0x2000,
        io_type,
        dif_type: 0,
        offset_blocks: 40,
        num_blocks: 8,
        block_size: 512,
        iovs: vec![iovec { iov_base: 0x10000, iov_len: 4096 }],
    }
}

fn give(req: DmaRequest) -> Option<DmaMemory> {
    Some(DmaMemory { addr: 0x40000, bytes: Box::leak(vec![0u8; req.len].into_boxed_slice()) })
}

#[test]
fn c_constants_round_trip() {
    for value in 0..23 {
        let io_type = IoType::try_from_c(value).unwrap();
        assert_eq!(io_type.into_c(), value);
    }
    for value in 0..4 {
        assert_eq!(DifType::try_from_c(value).unwrap().into_c(), value);
    }
    assert_eq!(IoType::try_from_c(1), Ok(IoType::Read));
    assert_eq!(IoType::WriteUncorrectable.into_c(), 22);
    assert_eq!(DifType::Disable.into_c(), 0);
    assert_eq!(DifType::Type3.into_c(), 3);
}

#[test]
fn unknown_c_constants_are_given_back() {
    for value in [-1, 23, 100, i32::MAX, i32::MIN] {
        assert_eq!(IoType::try_from_c(value), Err(value));
    }
    for value in [-1, 4, i32::MAX, i32::MIN] {
        assert_eq!(DifType::try_from_c(value), Err(value));
    }
}

#[test]
fn a_request_tells_what_spdk_says() {
    let io: BdevIo<u32> = BdevIo::new(request(2));
    assert_eq!(io.io_type(), IoType::Write);
    assert_eq!(io.offset_blocks(), 40);
    assert_eq!(io.num_blocks(), 8);
    assert_eq!(io.block_len(), 512);
    assert_eq!(io.dif_type(), DifType::Disable);
    assert_eq!(io.bdev_id(), BdevId(0x2000));
    assert_eq!(io.iovs(), &[iovec { iov_base: 0x10000, iov_len: 4096 }]);
}

#[test]
fn only_reads_and_writes_have_a_range() {
    for io_type in 0..23 {
        let io: BdevIo<u32> = BdevIo::new(request(io_type));
        if io_type == 1 || io_type == 2 {
            assert_eq!(io.range(), Some(IoRange { lba: 40, num_blocks: 8 }));
        } else {
            assert_eq!(io.range(), None);
        }
    }
}

#[test]
fn completing_a_request_wakes_who_waits() {
    let mut io: BdevIo<u32> = BdevIo::new(request(1));
    assert_eq!(io.future().poll(1), Poll::Pending);
    assert_eq!(io.future().poll(2), Poll::Pending);
    let todo = io.complete(IoStatus::Success);
    assert_eq!(todo.to_wake, Some(2));
    assert_eq!(todo.raw, 0x1000);
    assert_eq!(todo.status, 1);
    assert_eq!(io.future().poll(3), Poll::Ready);
    assert_eq!(io.future().complete(), None);
}

#[test]
fn a_failed_request_reports_failure() {
    let mut io: BdevIo<u32> = BdevIo::new(request(1));
    let todo = io.complete(IoStatus::Failure);
    assert_eq!(todo.to_wake, None);
    assert_eq!(todo.status, -1);
    assert_eq!(IoStatus::Success.code(), 1);
    assert_eq!(IoStatus::Failure.code(), -1);
}

#[test]
fn a_request_is_completed_on_another_thread() {
    let mut io: BdevIo<u32> = BdevIo::new(request(1));
    let _ = io.future().poll(9);
    let thread = SpdkThread::from_raw(0x7000);
    let msg = io.complete_on(&thread, IoStatus::Failure);
    assert_eq!(msg.thread, thread);
    let todo = msg.deliver();
    assert_eq!(todo.to_wake, Some(9));
    assert_eq!(todo.raw, 0x1000);
    assert_eq!(todo.status, -1);
}

struct ReadOnly;

impl Bdev for ReadOnly {
    type Channel = u32;
    type Io = BdevIo<u32>;

    fn init(&self, rawbdev: RawBdevHandle) {
        assert_eq!(rawbdev.raw(), 0x99);
    }

    fn io_type_supported(&self, io_type: IoType) -> bool {
        io_type == IoType::Read
    }

    fn create_io_channel(&self) -> BdevIoChannel<u32> {
        BdevIoChannel::new(5)
    }

    fn submit_io(&self, ch: BdevIoChannelRef, io: BdevIo<u32>) {
        assert_eq!(ch.raw(), 0x77);
        assert_eq!(io.num_blocks(), 8);
    }
}

#[test]
fn a_device_is_asked_for_known_operations_only() {
    let dev = ReadOnly;
    assert!(bdev_io_type_supported(&dev, 1));
    assert!(!bdev_io_type_supported(&dev, 2));
    assert!(!bdev_io_type_supported(&dev, 23));
    assert!(!bdev_io_type_supported(&dev, -1));
    dev.init(RawBdevHandle::new(0x99));
    dev.submit_io(BdevIoChannelRef::from_raw(0x77), BdevIo::new(request(1)));
    let mut ch = dev.create_io_channel();
    *ch.inner_mut() += 1;
    assert_eq!(*ch.inner_mut(), 6);
}

#[test]
fn a_name_is_registered_once() {
    let mut reg: BdevRegistry<u32> = NameMap::new();
    assert!(bdev_registry_add(&mut reg, "a".to_string(), 1).is_ok());
    assert!(bdev_registry_add(&mut reg, "b".to_string(), 2).is_ok());
    let again = bdev_registry_add(&mut reg, "a".to_string(), 3);
    assert!(matches!(again, Err(Error::AlreadyExists)));
    assert_eq!(reg.get("a"), Some(&1));
    assert_eq!(bdev_registry_remove(&mut reg, "a".to_string()).unwrap(), 1);
    assert_eq!(reg.get("a"), None);
    assert_eq!(reg.get("b"), Some(&2));
    assert!(bdev_registry_add(&mut reg, "a".to_string(), 4).is_ok());
    assert_eq!(reg.get("a"), Some(&4));
}

#[test]
fn an_unknown_name_cannot_be_unregistered() {
    let mut reg: BdevRegistry<u32> = NameMap::new();
    match bdev_registry_remove(&mut reg, "x".to_string()) {
        Err(Error::SpdkBdevNotFound(name)) => assert_eq!(name, "x"),
        _ => panic!("expected an unknown name"),
    }
}

#[test]
fn a_dropped_context_frees_its_name() {
    let mut reg: BdevRegistry<u32> = NameMap::new();
    bdev_registry_add(&mut reg, "a".to_string(), 1).unwrap();
    let mut ctx = BdevCtx { name: "a".to_string(), bdev: 1u32, spdk_bdev: 0 };
    assert_eq!(ctx.get_spdk_bdev(), 0);
    ctx.set_spdk_bdev(0x500);
    assert_eq!(ctx.get_spdk_bdev(), 0x500);
    bdev_ctx_drop(&mut reg, ctx);
    assert!(!reg.contains_key("a"));
}

#[test]
fn only_registered_devices_are_deleted() {
    let mut reg: BdevRegistry<u32> = NameMap::new();
    bdev_registry_add(&mut reg, "mine".to_string(), 1).unwrap();
    let mut args = NameMap::new();
    args.insert("name".to_string(), "mine".to_string());
    assert_eq!(bdev_delete_target(&reg, &args).unwrap(), "mine");
    args.insert("name".to_string(), "other".to_string());
    match bdev_delete_target(&reg, &args) {
        Err(Error::SpdkBdevNotFound(name)) => assert_eq!(name, "other"),
        _ => panic!("expected an unknown name"),
    }
    assert_eq!(bdev_delete_reply("mine", 0).unwrap(), "Successfully deleted bdev 'mine'");
    assert!(matches!(bdev_delete_reply("mine", -19), Err(Error::SpdkBdevDelete(-19))));
}

#[test]
fn opening_a_device_asks_for_it_by_name() {
    let dev = Lbdev::open("Malloc0", |name, write| {
        assert_eq!(name, "Malloc0");
        assert!(write);
        (0, 0x300)
    })
    .unwrap();
    assert_eq!(dev.desc().raw(), 0x300);
    let failed = Lbdev::open("Malloc0", |_, _| (-19, 0));
    assert!(matches!(failed, Err(Error::SpdkBdevOpen(-19))));
    let desc = BdevDesc::open("Malloc1", false, |name, write| {
        assert_eq!(name, "Malloc1");
        assert!(!write);
        (0, 0x310)
    });
    assert_eq!(desc.unwrap().raw(), 0x310);
    assert!(matches!(BdevDesc::opened(5, 0), Err(Error::SpdkBdevOpen(5))));
}

fn device() -> Lbdev {
    Lbdev::open("d", |_, _| (0, 0x300)).unwrap()
}

#[test]
fn reads_and_writes_are_about_the_whole_io() {
    let dev = device();
    let ch = LbdevIoChannel::new(0x400);
    assert_eq!(ch.raw(), 0x400);
    let mut req = request(1);
    req.iovs = vec![
        iovec { iov_base: 0x10000, iov_len: 1024 },
        iovec { iov_base: 0x20000, iov_len: 1024 },
        iovec { iov_base: 0x30000, iov_len: 2048 },
    ];
    let io: BdevIo<u32> = BdevIo::new(req);
    let (read, _): (_, LbdevIoResult<u32>) = dev.read(&ch, Io::from_bdev_io(&io, 0).unwrap());
    assert_eq!(read.op, IoType::Read);
    assert_eq!(read.desc, 0x300);
    assert_eq!(read.ch, 0x400);
    assert_eq!(read.iovs.segments(), io.iovs());
    assert_eq!(read.iovcnt, 3);
    assert_eq!(read.lba, 40);
    assert_eq!(read.num_blocks, 8);
    let (write, _): (_, LbdevIoResult<u32>) = dev.write(&ch, Io::from_bdev_io(&io, 0).unwrap());
    assert_eq!(write.op, IoType::Write);
    assert_eq!(write.iovs.segments(), io.iovs());
    assert_eq!(write.iovcnt, 3);
    assert_eq!(write.lba, 40);
    assert_eq!(write.num_blocks, 8);
    let (write, _): (_, LbdevIoResult<u32>) = dev.write(&ch, buffer());
    assert_eq!(write.iovs.segments(), &[iovec { iov_base: 0x40000, iov_len: 1024 }]);
    assert_eq!(write.iovcnt, 1);
    assert_eq!(write.lba, 3);
    assert_eq!(write.num_blocks, 2);
}

fn buffer() -> Io<'static> {
    Io::new_buf(DmaBuf::new(1024, give).unwrap(), 3, 512).unwrap()
}

fn in_flight() -> LbdevIoResult<'static, u32> {
    device().read(&LbdevIoChannel::new(0x400), buffer()).1
}

#[test]
fn a_refused_io_is_over_at_once() {
    let mut result = in_flight();
    assert!(!result.success());
    let end = result.submitted(-12);
    assert_eq!(end.to_wake, None);
    assert!(end.io.is_some());
    assert!(!result.success());
    assert_eq!(result.future().poll(1), Poll::Ready);
    let mut waiting = in_flight();
    let _ = waiting.future().poll(4);
    assert_eq!(waiting.submitted(-12).to_wake, Some(4));
}

#[test]
fn a_taken_io_is_over_when_it_is_reported() {
    for success in [true, false] {
        let mut result = in_flight();
        assert_eq!(result.submitted(0).to_wake, None);
        assert_eq!(result.future().poll(7), Poll::Pending);
        assert!(!result.success());
        assert_eq!(result.finished(success).to_wake, Some(7));
        assert_eq!(result.success(), success);
        assert_eq!(result.future().poll(8), Poll::Ready);
    }
}

#[test]
fn the_memory_of_an_io_is_kept_until_it_is_over() {
    let mut result = in_flight();
    assert!(result.submitted(0).io.is_none());
    let _ = result.future().poll(7);
    match result.finished(true).io {
        Some(Io::Buf(buf)) => assert_eq!(buf.into_data().addr(), 0x40000),
        _ => panic!("expected the buffer"),
    }
    assert!(result.finished(true).io.is_none());
}

#[test]
fn a_finished_read_gives_the_same_memory_back() {
    let mut result = in_flight();
    let _ = result.submitted(0);
    let io = result.finished(true).io.unwrap();
    assert!(!io.is_ref());
    assert_eq!(io.offset_blocks(), 3);
    assert_eq!(io.num_blocks(), 2);
    assert_eq!(io.block_len(), 512);
    assert_eq!(io.iter_iov().next(), Some(iovec { iov_base: 0x40000, iov_len: 1024 }));
}

#[test]
fn a_finished_write_leaves_the_bytes() {
    let mut data = DmaBuf::new(512, give).unwrap();
    data.as_mut_slice()[5] = 77;
    let io = Io::new_buf(data, 0, 512).unwrap();
    let (_, mut result): (_, LbdevIoResult<u32>) = device().write(&LbdevIoChannel::new(1), io);
    let _ = result.submitted(0);
    match result.finished(true).io {
        Some(Io::Buf(buf)) => assert_eq!(buf.as_slice()[5], 77),
        _ => panic!("expected the buffer"),
    }
}

#[test]
fn a_request_is_refreshed_in_place() {
    let mut io: BdevIo<u32> = BdevIo::new(request(1));
    let _ = io.future().poll(4);
    let filled = vec![iovec { iov_base: 0x50000, iov_len: 4096 }];
    io.refresh(RawBdevIo { iovs: filled.clone(), ..request(1) });
    assert_eq!(io.iovs(), &filled[..]);
    assert_eq!(io.complete(IoStatus::Success).to_wake, Some(4));
}
