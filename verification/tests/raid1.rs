use ironspdk::raid1::{
    io_type_supported, parse_children, raid1_action, raid1_create_args, raid1_create_opts,
    raid1_create_reply, write_outcome, Geometry, Raid1Action, Raid1BdevOpts, Raid1Read, Raid1Step,
    Raid1Write,
};
use ironspdk::rpc::RpcCmdArgs;
use ironspdk::{BdevRegistry, CEnum, Error, IoStatus, IoType, NameMap, SpdkBdevOptsC};

fn args(pairs: &[(&str, &str)]) -> RpcCmdArgs {
    let mut args = NameMap::new();
    for (name, value) in pairs {
        args.insert(name.to_string(), value.to_string());
    }
    args
}

fn names(names: &[&str]) -> Vec<String> {
    names.iter().map(|n| n.to_string()).collect()
}

fn geometry(block_len: usize, num_blocks: u64) -> Geometry {
    Geometry { block_len, num_blocks }
}

#[test]
fn reads_writes_and_flushes_are_supported() {
    for value in 0..23 {
        let io_type = IoType::try_from_c(value).unwrap();
        let expected = match io_type {
            IoType::Read => Raid1Action::Read,
            IoType::Write => Raid1Action::Write,
            IoType::Flush => Raid1Action::Complete(IoStatus::Success),
            _ => Raid1Action::Complete(IoStatus::Failure),
        };
        assert_eq!(raid1_action(io_type), expected);
        assert_eq!(io_type_supported(io_type), value == 1 || value == 2 || value == 4);
    }
}

#[test]
fn reads_go_around_the_children() {
    let mut next_read = 0;
    let mut seen = Vec::new();
    for _ in 0..5 {
        let mut read = Raid1Read::new(3);
        match read.next(&mut next_read) {
            Raid1Step::Try(child) => seen.push(child),
            Raid1Step::Complete(_) => panic!("a child has to be tried"),
        }
        assert_eq!(read.tried(true, &mut next_read), Raid1Step::Complete(IoStatus::Success));
    }
    assert_eq!(seen, vec![1, 2, 0, 1, 2]);
}

#[test]
fn a_failed_read_goes_on_to_the_next_child() {
    let mut next_read = 1;
    let mut read = Raid1Read::new(3);
    assert_eq!(read.next(&mut next_read), Raid1Step::Try(2));
    assert_eq!(read.tried(false, &mut next_read), Raid1Step::Try(0));
    assert_eq!(read.tried(true, &mut next_read), Raid1Step::Complete(IoStatus::Success));
    assert_eq!(next_read, 0);
}

#[test]
fn a_read_fails_once_every_child_failed() {
    let mut next_read = 2;
    let mut read = Raid1Read::new(3);
    assert_eq!(read.next(&mut next_read), Raid1Step::Try(0));
    assert_eq!(read.tried(false, &mut next_read), Raid1Step::Try(1));
    assert_eq!(read.tried(false, &mut next_read), Raid1Step::Try(2));
    assert_eq!(read.tried(false, &mut next_read), Raid1Step::Complete(IoStatus::Failure));
    let mut none = Raid1Read::new(0);
    assert_eq!(none.next(&mut next_read), Raid1Step::Complete(IoStatus::Failure));
    let mut last = usize::MAX;
    assert_eq!(none.next(&mut last), Raid1Step::Complete(IoStatus::Failure));
    assert_eq!(none.tried(true, &mut last), Raid1Step::Complete(IoStatus::Success));
    assert_eq!(last, usize::MAX);
}

#[test]
fn a_write_goes_to_every_child() {
    let mut write = Raid1Write::new(3);
    assert_eq!(write.next(), Some(0));
    assert_eq!(write.next(), Some(1));
    assert_eq!(write.next(), Some(2));
    assert_eq!(write.next(), None);
    assert_eq!(write.next(), None);
    assert_eq!(Raid1Write::new(0).next(), None);
}

#[test]
fn a_write_succeeds_where_one_child_does() {
    assert_eq!(write_outcome(&vec![true, true]), (IoStatus::Success, vec![]));
    assert_eq!(write_outcome(&vec![false, true, false]), (IoStatus::Success, vec![0, 2]));
    assert_eq!(write_outcome(&vec![false, false]), (IoStatus::Failure, vec![0, 1]));
    assert_eq!(write_outcome(&vec![]), (IoStatus::Failure, vec![]));
}

#[test]
fn children_have_the_same_geometry() {
    let same = parse_children(&names(&["a", "b"]), |_| Ok(geometry(512, 100)));
    assert_eq!(same.unwrap(), geometry(512, 100));
    let blocks = parse_children(&names(&["a", "b"]), |name| {
        Ok(geometry(512, if name == "a" { 100 } else { 101 }))
    });
    assert!(matches!(blocks, Err(Error::InvalidArguments)));
    let lengths = parse_children(&names(&["a", "b"]), |name| {
        Ok(geometry(if name == "a" { 512 } else { 4096 }, 100))
    });
    assert!(matches!(lengths, Err(Error::InvalidArguments)));
    let none = parse_children(&names(&[]), |_| Ok(geometry(512, 100)));
    assert!(matches!(none, Err(Error::InvalidArguments)));
}

#[test]
fn a_child_that_cannot_be_opened_is_an_error() {
    let failed = parse_children(&names(&["a", "b", "c"]), |name| match name {
        "a" => Ok(geometry(512, 100)),
        "b" => Err(Error::SpdkBdevOpen(-19)),
        _ => panic!("not to be asked"),
    });
    assert!(matches!(failed, Err(Error::SpdkBdevOpen(-19))));
}

#[test]
fn options_have_defaults() {
    let opts = Raid1BdevOpts::from_rpc(&args(&[])).unwrap();
    assert_eq!(opts.blocklen, 512);
    assert_eq!(opts.blockcnt, 64 * 1024 * 1024 / 512);
    assert!(!opts.write_cache);
    let opts = Raid1BdevOpts::from_rpc(&args(&[
        ("blocklen", "4096"),
        ("blockcnt", "10"),
        ("write_cache", "true"),
    ]))
    .unwrap();
    assert_eq!(
        opts.to_c(),
        SpdkBdevOptsC {
            blocklen: 4096,
            blockcnt: 10,
            write_cache: true,
            ..SpdkBdevOptsC::default()
        }
    );
}

#[test]
fn the_first_invalid_option_is_named() {
    let cases = [
        (args(&[("blocklen", "x"), ("blockcnt", "y")]), "blocklen"),
        (args(&[("blockcnt", "-1"), ("write_cache", "1")]), "blockcnt"),
        (args(&[("write_cache", "yes")]), "write_cache"),
    ];
    for (args, field) in cases {
        match Raid1BdevOpts::from_rpc(&args) {
            Err(Error::InvalidField(name)) => assert_eq!(name, field),
            _ => panic!("expected an invalid field"),
        }
    }
}

#[test]
fn a_mirror_is_created_from_arguments() {
    let args = args(&[("name", "R"), ("children", "M0,M1,"), ("write_cache", "true")]);
    let create = raid1_create_args(&args).unwrap();
    assert_eq!(create.name, "R");
    assert_eq!(create.children, names(&["M0", "M1", ""]));
    let mut reg: BdevRegistry<u32> = NameMap::new();
    let opts =
        raid1_create_opts(&mut reg, &args, "R".to_string(), 5, geometry(4096, 77)).unwrap();
    assert_eq!(opts.blocklen, 4096);
    assert_eq!(opts.blockcnt, 77);
    assert!(opts.write_cache);
    assert_eq!(reg.get("R"), Some(&5));
    let taken = raid1_create_opts(&mut reg, &args, "R".to_string(), 6, geometry(4096, 77));
    assert!(matches!(taken, Err(Error::AlreadyExists)));
    assert_eq!(
        raid1_create_reply(&mut reg, "R".to_string(), 0).unwrap(),
        "Successfully created RAID1 bdev: 'R'"
    );
    assert!(reg.contains_key("R"));
}

#[test]
fn a_mirror_that_is_not_created_loses_its_name() {
    let mut reg: BdevRegistry<u32> = NameMap::new();
    let none = args(&[]);
    let _ = raid1_create_opts(&mut reg, &none, "R".to_string(), 5, geometry(512, 1)).unwrap();
    let failed = raid1_create_reply(&mut reg, "R".to_string(), -17);
    assert!(matches!(failed, Err(Error::SpdkBdevCreate(-17))));
    assert!(!reg.contains_key("R"));
    let unknown = raid1_create_reply(&mut reg, "R".to_string(), -17);
    assert!(matches!(unknown, Err(Error::SpdkBdevNotFound(_))));
}

#[test]
fn a_mirror_with_an_invalid_option_keeps_its_name() {
    let mut reg: BdevRegistry<u32> = NameMap::new();
    let bad = args(&[("write_cache", "maybe")]);
    match raid1_create_opts(&mut reg, &bad, "R".to_string(), 5, geometry(512, 1)) {
        Err(Error::InvalidField(field)) => assert_eq!(field, "write_cache"),
        _ => panic!("expected an invalid field"),
    }
    assert!(reg.contains_key("R"));
}

#[test]
fn a_mirror_needs_a_name_and_children() {
    for given in [args(&[]), args(&[("name", "R")]), args(&[("children", "a")])] {
        assert!(matches!(raid1_create_args(&given), Err(Error::InvalidArguments)));
    }
}
