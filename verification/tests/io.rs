use ironspdk::io::is_viewable;
use ironspdk::iovs::slice_iovs;
use ironspdk::{
    iovec, BdevIo, DmaBuf, DmaMemory, DmaRequest, Error, Io, IoBuf, IoRef,
    IoRefSplitter, IoSegmentMut, RawBdevIo,
};

fn seg(iov_base: usize, iov_len: usize) -> iovec {
    iovec { iov_base, iov_len }
}

fn memory(addr: usize, bytes: Vec<u8>) -> DmaMemory {
    DmaMemory { addr, bytes: Box::leak(bytes.into_boxed_slice()) }
}

fn give(req: DmaRequest) -> Option<DmaMemory> {
    Some(memory(req.align * 16, vec![0u8; req.len]))
}

fn request(block_size: u32, offset_blocks: u64, num_blocks: u64, iovs: Vec<iovec>) -> RawBdevIo {
    RawBdevIo {
        raw: 0x1000,
        bdev: 0x2000,
        io_type: 1,
        dif_type: 0,
        offset_blocks,
        num_blocks,
        block_size,
        iovs,
    }
}

fn bdev_io(req: RawBdevIo) -> BdevIo<u32> {
    BdevIo::new(req)
}

fn segments(io: &Io) -> Vec<iovec> {
    let mut iter = io.iter_iov();
    let mut out = Vec::new();
    while let Some(iov) = iter.next() {
        out.push(iov);
    }
    out
}

fn child_segments(child: IoRef) -> Vec<iovec> {
    segments(&Io::Ref(child))
}

#[test]
fn slicing_cuts_the_first_and_the_last_segment() {
    let iovs = [seg(1000, 100), seg(5000, 50), seg(9000, 200)];
    let part = slice_iovs(&iovs, 30, 200).unwrap();
    assert_eq!(part.segments(), &[seg(1030, 70), seg(5000, 50), seg(9000, 80)]);
}

#[test]
fn slicing_skips_whole_segments() {
    let iovs = [seg(1000, 100), seg(5000, 50), seg(9000, 200)];
    let part = slice_iovs(&iovs, 150, 10).unwrap();
    assert_eq!(part.segments(), &[seg(9000, 10)]);
}

#[test]
fn slicing_leaves_out_empty_segments() {
    let iovs = [seg(7, 0), seg(1000, 10), seg(8, 0), seg(2000, 10)];
    let part = slice_iovs(&iovs, 5, 10).unwrap();
    assert_eq!(part.segments(), &[seg(1005, 5), seg(2000, 5)]);
}

#[test]
fn slicing_all_bytes_gives_the_list() {
    let iovs = [seg(1000, 3), seg(2000, 4)];
    let part = slice_iovs(&iovs, 0, 7).unwrap();
    assert_eq!(part.segments(), &iovs);
}

#[test]
fn slicing_beyond_the_end_is_out_of_range() {
    let iovs = [seg(1000, 3), seg(2000, 4)];
    assert!(matches!(slice_iovs(&iovs, 0, 8), Err(Error::OutOfRange)));
    assert!(matches!(slice_iovs(&iovs, 7, 1), Err(Error::OutOfRange)));
    assert!(matches!(slice_iovs(&[], 0, 1), Err(Error::OutOfRange)));
}

#[test]
fn slicing_no_bytes_succeeds_up_to_the_end() {
    let iovs = [seg(1000, 3)];
    let part = slice_iovs(&iovs, 2, 0).unwrap();
    assert_eq!(part.segments(), &[seg(1002, 0)]);
    assert_eq!(slice_iovs(&iovs, 3, 0).unwrap().segments(), &[]);
    assert_eq!(slice_iovs(&[], 0, 0).unwrap().segments(), &[]);
    assert!(matches!(slice_iovs(&iovs, 4, 0), Err(Error::OutOfRange)));
}

#[test]
fn dma_buffers_ask_for_what_they_need() {
    let mut asked = Vec::new();
    let buf = DmaBuf::new(100, |req| {
        asked.push(req);
        give(req)
    })
    .unwrap();
    assert_eq!(buf.len(), 100);
    let _ = DmaBuf::new_aligned(100, 512, |req| {
        asked.push(req);
        give(req)
    });
    let _ = DmaBuf::new_zeroed(100, |req| {
        asked.push(req);
        give(req)
    });
    let _ = DmaBuf::new_aligned_zeroed(100, 64, |req| {
        asked.push(req);
        give(req)
    });
    assert_eq!(
        asked,
        vec![
            DmaRequest { len: 100, align: 4096, zeroed: false },
            DmaRequest { len: 100, align: 512, zeroed: false },
            DmaRequest { len: 100, align: 4096, zeroed: true },
            DmaRequest { len: 100, align: 64, zeroed: true },
        ]
    );
}

#[test]
fn a_buffer_that_gets_no_memory_is_an_error() {
    assert!(matches!(DmaBuf::new(16, |_| None), Err(Error::NoMemory)));
    assert!(matches!(DmaBuf::new_zeroed(16, |_| None), Err(Error::NoMemory)));
    assert!(matches!(DmaBuf::from_memory(None), Err(Error::NoMemory)));
}

#[test]
fn a_buffer_is_initialized_in_place() {
    let mut buf = DmaBuf::new_zeroed(16 * 1024, give).unwrap();
    buf.as_mut_slice()[0] = 42;
    assert_eq!(buf.len(), 16384);
    assert!(!buf.is_empty());
    assert_eq!(buf.as_slice()[0], 42);
    assert_eq!(buf.as_slice()[1], 0);
    assert_eq!(buf.addr(), 4096 * 16);
    let mem = buf.into_memory();
    assert_eq!(mem.addr, 4096 * 16);
    assert_eq!(mem.bytes[0], 42);
}

#[test]
fn an_empty_buffer_is_empty() {
    let buf = DmaBuf::new(0, give).unwrap();
    assert!(buf.is_empty());
    assert_eq!(buf.len(), 0);
}

#[test]
fn a_buffer_holds_a_whole_number_of_blocks() {
    let buf = IoBuf::new(DmaBuf::new(1536, give).unwrap(), 7, 512).unwrap();
    assert_eq!(buf.num_blocks(), 3);
    assert_eq!(buf.total_bytes(), 1536);
    assert_eq!(buf.as_slice().len(), 1536);
    let odd = IoBuf::new(DmaBuf::new(1000, give).unwrap(), 7, 512);
    assert!(matches!(odd, Err(Error::InvalidArguments)));
    let none = IoBuf::new(DmaBuf::new(1000, give).unwrap(), 7, 0);
    assert!(matches!(none, Err(Error::InvalidArguments)));
}

#[test]
fn an_io_on_a_buffer_has_its_blocks() {
    let buf = DmaBuf::new(4096, give).unwrap();
    let io = Io::new_buf(buf, 9, 512).unwrap();
    assert!(!io.is_ref());
    assert_eq!(io.num_blocks(), 8);
    assert_eq!(io.block_len(), 512);
    assert_eq!(io.offset_blocks(), 9);
    assert!(matches!(io.split(None), Err(Error::UnsupportedOperation)));
    let odd = Io::new_buf(DmaBuf::new(100, give).unwrap(), 0, 512);
    assert!(matches!(odd, Err(Error::InvalidArguments)));
}

#[test]
fn the_segments_of_a_buffer_have_as_many_bytes_as_its_blocks() {
    let buf = DmaBuf::new(1024, give).unwrap();
    let io = Io::new_buf(buf, 0, 512).unwrap();
    let total: usize = segments(&io).iter().map(|s| s.iov_len).sum();
    assert_eq!(total, io.num_blocks() * 512);
    assert_eq!(total, io.total_bytes());
    assert_eq!(segments(&io), vec![seg(4096 * 16, 1024)]);
}

#[test]
fn a_buffer_is_filled_through_its_segments() {
    let buf = DmaBuf::new(1024, give).unwrap();
    let mut io = Io::new_buf(buf, 0, 512).unwrap();
    let mut iter = io.iter_iov_mut();
    match iter.next() {
        Some(IoSegmentMut::Bytes(bytes)) => {
            assert_eq!(bytes.len(), 1024);
            bytes.fill(0xFF);
        }
        _ => panic!("expected the bytes of the buffer"),
    }
    assert!(iter.next().is_none());
    assert!(iter.next().is_none());
    assert_eq!(segments(&io), vec![seg(4096 * 16, 1024)]);
    match &io {
        Io::Buf(iobuf) => assert!(iobuf.as_slice().iter().all(|b| *b == 0xFF)),
        Io::Ref(_) => unreachable!(),
    }
}

#[test]
fn a_view_has_the_segments_of_its_request() {
    let iovs = vec![seg(10_000, 512), seg(20_000, 1024), seg(30_000, 512)];
    let io = bdev_io(request(512, 8, 4, iovs.clone()));
    let mut view = Io::from_bdev_io(&io, 0).unwrap();
    assert!(view.is_ref());
    assert_eq!(view.offset_blocks(), 8);
    assert_eq!(view.num_blocks(), 4);
    assert_eq!(view.block_len(), 512);
    assert_eq!(segments(&view), iovs);
    assert_eq!(view.total_bytes(), 2048);
    let mut iter = view.iter_iov_mut();
    for iov in &iovs {
        match iter.next() {
            Some(IoSegmentMut::Segment(given)) => assert_eq!(given, *iov),
            _ => panic!("expected a segment"),
        }
    }
    assert!(iter.next().is_none());
}

#[test]
fn a_view_may_count_in_other_blocks() {
    let io = bdev_io(request(512, 8, 16, vec![seg(10_000, 8192)]));
    let view = Io::from_bdev_io(&io, 4096).unwrap();
    assert_eq!(view.offset_blocks(), 1);
    assert_eq!(view.num_blocks(), 2);
    assert_eq!(view.block_len(), 4096);
    let fine = bdev_io(request(4096, 3, 2, vec![seg(10_000, 8192)]));
    let view = Io::from_bdev_io(&fine, 512).unwrap();
    assert_eq!(view.offset_blocks(), 24);
    assert_eq!(view.num_blocks(), 16);
}

#[test]
fn block_lengths_are_powers_of_two_from_512_on() {
    let io = bdev_io(request(512, 0, 16, vec![seg(10_000, 8192)]));
    for bad in [1usize, 2, 256, 511, 513, 1000, 4095, 4097, usize::MAX] {
        assert!(matches!(Io::from_bdev_io(&io, bad), Err(Error::InvalidArguments)));
    }
    for good in [0usize, 512, 1024, 2048, 4096] {
        assert!(Io::from_bdev_io(&io, good).is_ok());
    }
}

#[test]
fn a_view_of_protected_data_is_not_supported() {
    for dif_type in [1, 2, 3] {
        let req = RawBdevIo { dif_type, ..request(512, 0, 1, vec![seg(10_000, 512)]) };
        let io = bdev_io(req);
        assert!(matches!(Io::from_bdev_io(&io, 0), Err(Error::UnsupportedFeature)));
        assert!(matches!(Io::from_bdev_io(&io, 3), Err(Error::UnsupportedFeature)));
    }
}

#[test]
fn a_copy_holds_the_bytes_of_all_segments() {
    let iovs = vec![seg(10_000, 256), seg(20_000, 512), seg(30_000, 256)];
    let io = bdev_io(request(512, 5, 2, iovs));
    let view = Io::from_bdev_io(&io, 0).unwrap();
    let ioref = match &view {
        Io::Ref(ioref) => ioref,
        Io::Buf(_) => unreachable!(),
    };
    let a = vec![1u8; 256];
    let b = vec![2u8; 512];
    let c = vec![3u8; 256];
    assert_eq!(ioref.total_bytes(), 1024);
    let copy = ioref.to_buf(&[&a[..], &b[..], &c[..]], give).unwrap();
    let mut all = a.clone();
    all.extend(b.iter());
    all.extend(c.iter());
    assert_eq!(copy.as_slice(), &all[..]);
    assert_eq!(copy.num_blocks(), 2);
    assert_eq!(copy.total_bytes(), 1024);
    assert_eq!(Io::Buf(copy).offset_blocks(), 5);
    let refused = ioref.to_buf(&[&a[..], &b[..], &c[..]], |_| None);
    assert!(matches!(refused, Err(Error::NoMemory)));
}

#[test]
fn a_split_takes_consecutive_children() {
    let iovs = vec![seg(100_000, 6000), seg(200_000, 6288), seg(300_000, 4096)];
    let io = bdev_io(request(512, 0, 32, iovs));
    let view = Io::from_bdev_io(&io, 0).unwrap();
    let mut splitter: IoRefSplitter = view.split(Some(4096)).unwrap();
    let first = splitter.take(1).unwrap();
    let second = splitter.take(2).unwrap();
    let third = splitter.take(1).unwrap();
    assert_eq!(first.num_blocks(), 1);
    assert_eq!(second.num_blocks(), 2);
    assert_eq!(second.total_bytes(), 8192);
    assert_eq!(child_segments(first), vec![seg(100_000, 4096)]);
    assert_eq!(child_segments(second), vec![seg(104_096, 1904), seg(200_000, 6288)]);
    assert_eq!(child_segments(third), vec![seg(300_000, 4096)]);
    assert!(matches!(splitter.take(1), Err(Error::OutOfRange)));
}

#[test]
fn a_refused_take_does_not_advance() {
    let io = bdev_io(request(512, 0, 4, vec![seg(1000, 2048)]));
    let view = Io::from_bdev_io(&io, 0).unwrap();
    let mut splitter = view.split(None).unwrap();
    let _ = splitter.take(3).unwrap();
    assert!(matches!(splitter.take(2), Err(Error::OutOfRange)));
    assert!(matches!(splitter.take(usize::MAX), Err(Error::OutOfRange)));
    let last = splitter.take(1).unwrap();
    assert_eq!(child_segments(last), vec![seg(1000 + 1536, 512)]);
}

#[test]
fn a_child_gets_its_address_from_the_caller() {
    let io = bdev_io(request(512, 77, 4, vec![seg(1000, 2048)]));
    let view = Io::from_bdev_io(&io, 0).unwrap();
    let mut splitter = view.split(Some(1024)).unwrap();
    let _ = splitter.take(1).unwrap();
    let mut child = splitter.take(1).unwrap();
    child.update_offset_blocks(39);
    assert_eq!(child.num_blocks(), 1);
    let child = Io::Ref(child);
    assert_eq!(child.offset_blocks(), 39);
    assert_eq!(child.block_len(), 1024);
    let fresh = view.split(None).unwrap().take(1).unwrap();
    assert_eq!(Io::Ref(fresh).offset_blocks(), 0);
}

#[test]
fn taking_no_blocks_gives_an_empty_child_up_to_the_end() {
    let io = bdev_io(request(512, 0, 2, vec![seg(1000, 1024)]));
    let view = Io::from_bdev_io(&io, 0).unwrap();
    let mut splitter = view.split(None).unwrap();
    let none = splitter.take(0).unwrap();
    assert_eq!(none.num_blocks(), 0);
    assert_eq!(none.total_bytes(), 0);
    let _ = splitter.take(2).unwrap();
    let at_end = splitter.take(0).unwrap();
    assert_eq!(at_end.num_blocks(), 0);
    assert_eq!(at_end.total_bytes(), 0);
    assert!(child_segments(at_end).is_empty());
    assert!(matches!(splitter.take(1), Err(Error::OutOfRange)));
}

#[test]
fn a_child_can_be_split_again() {
    let io = bdev_io(request(512, 0, 16, vec![seg(1000, 3000), seg(9000, 5192)]));
    let view = Io::from_bdev_io(&io, 0).unwrap();
    let mut outer = view.split(Some(4096)).unwrap();
    let _ = outer.take(1).unwrap();
    let child = Io::Ref(outer.take(1).unwrap());
    let mut inner = child.split(Some(512)).unwrap();
    let part = inner.take(2).unwrap();
    assert_eq!(child_segments(part), vec![seg(9000 + 1096, 1024)]);
}

#[test]
fn a_request_is_viewable_where_its_sizes_can_be_counted() {
    let whole = vec![seg(10_000, 512)];
    assert!(is_viewable(&bdev_io(request(512, 0, 1, whole.clone())), 0));
    assert!(is_viewable(&bdev_io(request(512, 0, 1, whole.clone())), 4096));
    let far = bdev_io(request(512, u64::MAX, 1, whole.clone()));
    assert!(!is_viewable(&far, 0));
    assert!(is_viewable(&far, 3));
    assert!(matches!(Io::from_bdev_io(&far, 3), Err(Error::InvalidArguments)));
    let long = bdev_io(request(512, 0, u64::MAX, whole.clone()));
    assert!(!is_viewable(&long, 0));
    let empty = bdev_io(request(0, 0, 1, whole.clone()));
    assert!(!is_viewable(&empty, 0));
    assert!(is_viewable(&empty, 512));
    let unknown = bdev_io(RawBdevIo { bdev: 0, ..request(512, 0, 1, whole.clone()) });
    assert!(!is_viewable(&unknown, 0));
    let format = bdev_io(RawBdevIo { dif_type: 9, ..request(512, 0, 1, whole) });
    assert!(!is_viewable(&format, 0));
    assert_eq!(format.raw_request().dif_type, 9);
}

#[test]
fn a_buffer_can_be_taken_back() {
    let mut buf = IoBuf::new(DmaBuf::new(512, give).unwrap(), 0, 512).unwrap();
    buf.as_mut_slice()[3] = 9;
    let data = buf.into_data();
    assert_eq!(data.len(), 512);
    assert_eq!(data.as_slice()[3], 9);
    assert_eq!(data.addr(), 4096 * 16);
}

fn shared_between_threads<T: Send + Sync>() {}

#[test]
fn buffers_are_shared_between_threads() {
    shared_between_threads::<DmaBuf>();
    shared_between_threads::<IoBuf>();
    shared_between_threads::<ironspdk::SpdkThread>();
}

fn bytes_of(io: &Io) -> usize {
    segments(io).iter().map(|s| s.iov_len).sum()
}

#[test]
fn the_segments_of_a_view_are_cut_to_its_blocks() {
    let io = bdev_io(request(512, 0, 3, vec![seg(10_000, 512), seg(20_000, 1024)]));
    let view = Io::from_bdev_io(&io, 1024).unwrap();
    assert_eq!(view.num_blocks(), 1);
    assert_eq!(segments(&view), vec![seg(10_000, 512), seg(20_000, 512)]);
    assert_eq!(bytes_of(&view), view.total_bytes());
    let none = bdev_io(request(512, 0, 1, vec![seg(10_000, 512)]));
    let view = Io::from_bdev_io(&none, 4096).unwrap();
    assert_eq!(view.num_blocks(), 0);
    assert!(segments(&view).is_empty());
    let whole = bdev_io(request(512, 0, 2, vec![seg(10_000, 1024), seg(20_000, 0)]));
    let view = Io::from_bdev_io(&whole, 0).unwrap();
    assert_eq!(segments(&view), vec![seg(10_000, 1024), seg(20_000, 0)]);
    let empty = bdev_io(request(512, 0, 0, vec![seg(4096, 0)]));
    let view = Io::from_bdev_io(&empty, 0).unwrap();
    assert_eq!(view.num_blocks(), 0);
    assert_eq!(segments(&view), vec![seg(4096, 0)]);
    let between = bdev_io(request(512, 0, 3, vec![seg(10_000, 1024), seg(20_000, 512)]));
    let view = Io::from_bdev_io(&between, 1024).unwrap();
    assert_eq!(segments(&view), vec![seg(10_000, 1024)]);
}

#[test]
fn the_segments_of_every_view_hold_its_blocks() {
    for num_blocks in 0..20u64 {
        let half = (num_blocks as usize * 512) / 2;
        let rest = num_blocks as usize * 512 - half;
        let io = bdev_io(request(512, 7, num_blocks, vec![seg(10_000, half), seg(90_000, rest)]));
        for block_len in [0usize, 512, 1024, 2048, 4096] {
            let view = Io::from_bdev_io(&io, block_len).unwrap();
            assert_eq!(bytes_of(&view), view.total_bytes());
            assert_eq!(view.total_bytes(), view.num_blocks() * view.block_len());
        }
    }
}
