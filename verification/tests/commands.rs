use ironspdk::app::{app_result, Error as AppError};
use ironspdk::opts::{read_bool, read_u32, read_u64};
use ironspdk::rpc::{
    handle_rpc_cmd, json_args, register_rpc_cmd_handler, rpc_reply, rs_handle_rpc_cmd,
    DispatchTable, JsonIter, JsonMember, RpcCmdArgs, RpcCmdResult,
};
use ironspdk::{Error, NameMap, SpdkApp, SpdkBdevOptsC};

fn member(name: &[u8], val: &[u8], val_len: usize) -> JsonMember {
    JsonMember { name: name.to_vec(), val: val.to_vec(), val_len }
}

fn hello(args: RpcCmdArgs) -> RpcCmdResult {
    match args.get("who") {
        Some(who) => Ok(format!("hello {}", who)),
        None => Err(Error::InvalidArguments),
    }
}

fn bye(_args: RpcCmdArgs) -> RpcCmdResult {
    Ok("bye".to_string())
}

type Handler = fn(RpcCmdArgs) -> RpcCmdResult;

#[test]
fn a_map_keeps_the_last_value_of_a_name() {
    let mut map: NameMap<u32> = NameMap::new();
    assert!(!map.contains_key("a"));
    map.insert("a".to_string(), 1);
    map.insert("b".to_string(), 2);
    map.insert("a".to_string(), 3);
    assert_eq!(map.get("a"), Some(&3));
    assert_eq!(map.get("b"), Some(&2));
    assert_eq!(map.remove("a"), Some(3));
    assert_eq!(map.remove("a"), None);
    assert_eq!(map.get("a"), None);
    assert!(map.contains_key("b"));
    assert!(!map.contains_key(""));
}

#[test]
fn a_command_goes_to_its_handler() {
    let mut table: DispatchTable<Handler> = NameMap::new();
    register_rpc_cmd_handler(&mut table, "greet", hello as Handler);
    let mut args = NameMap::new();
    args.insert("who".to_string(), "world".to_string());
    assert_eq!(handle_rpc_cmd(&table, "greet", args).unwrap(), "hello world");
    assert!(matches!(
        handle_rpc_cmd(&table, "greet", NameMap::new()),
        Err(Error::InvalidArguments)
    ));
}

#[test]
fn the_last_registered_handler_counts() {
    let mut table: DispatchTable<Handler> = NameMap::new();
    register_rpc_cmd_handler(&mut table, "cmd", hello as Handler);
    register_rpc_cmd_handler(&mut table, "cmd", bye as Handler);
    register_rpc_cmd_handler(&mut table, "other", hello as Handler);
    assert_eq!(handle_rpc_cmd(&table, "cmd", NameMap::new()).unwrap(), "bye");
}

#[test]
fn an_unknown_command_is_an_error() {
    let table: DispatchTable<Handler> = NameMap::new();
    match handle_rpc_cmd(&table, "nope", NameMap::new()) {
        Err(Error::RpcCmdUnknown(cmd)) => assert_eq!(cmd, "nope"),
        _ => panic!("expected an unknown command"),
    }
}

#[test]
fn replies_tell_errors() {
    assert_eq!(rpc_reply(Ok("done".to_string())), "done");
    assert_eq!(rpc_reply(Err(Error::NoMemory)), "Error: Out of memory");
    assert_eq!(
        rpc_reply(Err(Error::RpcCmdUnknown("x".to_string()))),
        "Error: Unknown RPC command 'x"
    );
}

#[test]
fn arguments_come_from_the_members_of_an_object() {
    let args = json_args(6, |i| match i {
        0 => member(b"name", b"Raid0", 1),
        2 => member(b"nested", b"[]", 3),
        _ => panic!("no member at this position"),
    });
    assert_eq!(args.get("name"), Some(&"Raid0".to_string()));
    assert_eq!(args.get("nested"), Some(&"[]".to_string()));
    assert_eq!(args.get("other"), None);
}

#[test]
fn the_last_member_of_a_name_counts() {
    let args = json_args(4, |i| match i {
        0 => member(b"a", b"first", 1),
        2 => member(b"a", b"second", 1),
        _ => panic!("no member at this position"),
    });
    assert_eq!(args.get("a"), Some(&"second".to_string()));
}

#[test]
fn an_empty_object_gives_no_arguments() {
    let args = json_args(0, |_| panic!("no member"));
    assert!(!args.contains_key("a"));
}

#[test]
fn bytes_that_are_no_text_are_replaced() {
    let mut iter = JsonIter::new(2);
    assert_eq!(iter.peek(), Some(0));
    let (name, val) = iter.next(&member("h\u{e9}".as_bytes(), &[0x41, 0xff, 0x42], 1));
    assert_eq!(name, "h\u{e9}");
    assert_eq!(val, "A\u{fffd}B");
    assert_eq!(iter.peek(), None);
}

#[test]
fn a_command_is_answered_with_text() {
    let mut table: DispatchTable<Handler> = NameMap::new();
    register_rpc_cmd_handler(&mut table, "greet", hello as Handler);
    let who = |_| member(b"who", b"you", 1);
    assert_eq!(rs_handle_rpc_cmd(&table, "greet", 2, who), "hello you");
    assert_eq!(rs_handle_rpc_cmd(&table, "greet", 0, who), "Error: Invalid arguments");
    assert_eq!(rs_handle_rpc_cmd(&table, "what", 2, who), "Error: Unknown RPC command 'what");
}

#[test]
fn errors_have_messages() {
    let parse = "x".parse::<i32>().unwrap_err();
    let cases: Vec<(Error, &str)> = vec![
        (Error::AlreadyExists, "This entity already exists"),
        (Error::SpdkBdevNotFound("d".to_string()), "SPDK block device 'd' not found"),
        (Error::SpdkBdevDelete(-19), "Failed to delete SPDK block device: -19"),
        (Error::SpdkBdevCreate(7), "Failed to create SPDK block device: 7"),
        (Error::SpdkBdevOpen(0), "Failed to open SPDK block device: 0"),
        (Error::RpcCmdUnknown("c".to_string()), "Unknown RPC command 'c"),
        (Error::InvalidArguments, "Invalid arguments"),
        (Error::InvalidField("f".to_string()), "Invalid field 'f'"),
        (Error::NoMemory, "Out of memory"),
        (Error::UnsupportedFeature, "Unsupported feature"),
        (Error::SharedBufferModification, "Attempt to modify shared buffer"),
        (Error::UnsupportedOperation, "Unsupported operation"),
        (Error::OutOfRange, "Out of range"),
        (Error::IntDowncast, "Integer downcast error"),
        (Error::from(parse), "Integer parse error"),
    ];
    for (error, message) in cases {
        assert_eq!(error.message(), message);
    }
}

#[test]
fn numbers_in_messages_are_decimal() {
    for rc in [0, 1, -1, 9, 10, -10, 99, 12345, i32::MAX, i32::MIN] {
        assert_eq!(
            Error::SpdkBdevOpen(rc).message(),
            format!("Failed to open SPDK block device: {}", rc)
        );
    }
}

#[test]
fn an_application_starts_when_its_arguments_are_parsed() {
    let mut app: SpdkApp<u32> = SpdkApp::new("raid1");
    app.on_start(1);
    app.on_shutdown(2);
    assert_eq!(app.name(), "raid1");
    let start = app.run(1).unwrap().unwrap();
    assert_eq!(start.start, 1);
    assert_eq!(start.shutdown, Some(2));
}

#[test]
fn an_application_needs_no_shutdown_callback() {
    let mut app: SpdkApp<u32> = SpdkApp::new("a");
    app.on_start(1);
    app.on_start(5);
    let start = app.run(1).unwrap().unwrap();
    assert_eq!(start.start, 5);
    assert_eq!(start.shutdown, None);
}

#[test]
fn an_application_ends_where_help_was_asked_for() {
    let app: SpdkApp<u32> = SpdkApp::new("a");
    assert!(matches!(app.run(0), Ok(None)));
}

#[test]
fn an_application_fails_without_arguments_or_a_start() {
    let app: SpdkApp<u32> = SpdkApp::new("a");
    assert!(matches!(app.run(-22), Err(AppError::ParseArgv(-22))));
    let app: SpdkApp<u32> = SpdkApp::new("a");
    assert!(matches!(app.run(1), Err(AppError::NoStartCbDefined)));
    assert!(app_result(0).is_ok());
    assert!(matches!(app_result(-1), Err(AppError::Start(-1))));
    assert_eq!(
        AppError::NoStartCbDefined.message(),
        "No start callback (.on_start()) defined"
    );
    assert_eq!(AppError::ParseArgv(-22).message(), "Failed to parse arguments: -22");
    assert_eq!(AppError::Start(3).message(), "SPDK application start failed: 3");
}

#[test]
fn options_are_read_from_arguments() {
    let mut args: RpcCmdArgs = NameMap::new();
    args.insert("a".to_string(), "4294967295".to_string());
    args.insert("b".to_string(), "18446744073709551615".to_string());
    args.insert("c".to_string(), "true".to_string());
    args.insert("bad".to_string(), "4294967296x".to_string());
    assert_eq!(read_u32(&args, "a", 1).unwrap(), u32::MAX);
    assert_eq!(read_u64(&args, "b", 1).unwrap(), u64::MAX);
    assert!(read_bool(&args, "c", false).unwrap());
    assert_eq!(read_u32(&args, "none", 512).unwrap(), 512);
    assert_eq!(read_u64(&args, "none", 7).unwrap(), 7);
    assert!(read_bool(&args, "none", true).unwrap());
    for res in [
        read_u32(&args, "bad", 1).map(|_| ()),
        read_u64(&args, "bad", 1).map(|_| ()),
        read_bool(&args, "bad", true).map(|_| ()),
    ] {
        match res {
            Err(Error::InvalidField(field)) => assert_eq!(field, "bad"),
            _ => panic!("expected an invalid field"),
        }
    }
    assert!(matches!(read_u32(&args, "b", 1), Err(Error::InvalidField(_))));
}

#[test]
fn options_are_unset_by_default() {
    let opts = SpdkBdevOptsC::default();
    assert_eq!(opts.blocklen, 0);
    assert_eq!(opts.blockcnt, 0);
    assert!(!opts.write_cache);
    assert_eq!(opts.preferred_unmap_granularity, 0);
}
