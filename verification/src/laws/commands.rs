//! Laws of applications, commands, options and names.
use vstd::prelude::*;
use crate::app::{app_result, AppStart, Error as AppError, SpdkApp};
use crate::bdev::{
    bdev_ctx_drop, bdev_delete_reply, bdev_delete_target, bdev_registry_add, bdev_registry_remove,
    BdevCtx, BdevRegistry,
};
use crate::error::Error;
use crate::opts::{read_bool, read_u32, read_u64, SpdkBdevOptsC};
use crate::rpc::{
    arg_texts, args_of, gives_member, handle_rpc_cmd, json_args, position_behind,
    register_rpc_cmd_handler, reply_text, rpc_reply, rs_handle_rpc_cmd, utf8_lossy, walked,
    DispatchTable, JsonMember, RpcCmdArgs, RpcCmdResult,
};
use crate::text::{parse_bool, parse_unsigned};

verus! {

/// An application is started only where its command line was parsed with result 1 and it has a
/// start callback, and then with its own callbacks. The result 0 ends it without an error whatever
/// callbacks it has; every other result is the error.
pub proof fn law_application_starts_only_when_parsed<C>(
    app: SpdkApp<C>,
    rc: i32,
    res: Result<Option<AppStart<C>>, AppError>,
)
    requires
        call_ensures(SpdkApp::<C>::run, (app, rc), res),
    ensures
        res is Ok && res->Ok_0 is Some <==> rc == 1 && app@.start_cb is Some,
        res is Ok && res->Ok_0 is None <==> rc == 0,
        res is Ok && res->Ok_0 is Some ==> app@.start_cb == Some(res->Ok_0->Some_0.start)
            && app@.shutdown_cb == res->Ok_0->Some_0.shutdown,
        rc != 0 && rc != 1 ==> res == Err::<Option<AppStart<C>>, AppError>(AppError::ParseArgv(rc)),
        rc == 1 && app@.start_cb is None ==> res == Err::<Option<AppStart<C>>, AppError>(
            AppError::NoStartCbDefined,
        ),
{
}

/// An application has the callbacks that were set last, each where it was set.
pub proof fn law_callbacks_are_kept<C>(
    name: &str,
    fresh: SpdkApp<C>,
    starting: &mut SpdkApp<C>,
    stopping: &mut SpdkApp<C>,
    f: C,
)
    requires
        call_ensures(SpdkApp::<C>::new, (name,), fresh),
        call_ensures(SpdkApp::<C>::on_start, (starting, f), ()),
        call_ensures(SpdkApp::<C>::on_shutdown, (stopping, f), ()),
    ensures
        fresh@.name == name@ && fresh@.start_cb is None && fresh@.shutdown_cb is None,
        final(starting)@.start_cb == Some(f),
        final(starting)@.shutdown_cb == old(starting)@.shutdown_cb,
        final(starting)@.name == old(starting)@.name,
        final(stopping)@.shutdown_cb == Some(f),
        final(stopping)@.start_cb == old(stopping)@.start_cb,
        final(stopping)@.name == old(stopping)@.name,
{
}

/// An application that SPDK ran succeeded exactly where the result is 0.
pub proof fn law_application_result(rc: i32, res: Result<(), AppError>)
    requires
        call_ensures(app_result, (rc,), res),
    ensures
        res is Ok <==> rc == 0,
        res matches Err(e) ==> e == AppError::Start(rc),
{
}

/// A name is given exactly where no device has it, and then it is the device's; other names stay.
pub proof fn law_name_is_given_once<B>(
    reg: &mut BdevRegistry<B>,
    name: String,
    bdevh: B,
    res: Result<(), Error>,
    other: Seq<char>,
)
    requires
        call_ensures(bdev_registry_add::<B>, (reg, name, bdevh), res),
        other != name@,
    ensures
        res is Ok <==> !old(reg)@.contains_key(name@),
        res matches Err(e) ==> e is AlreadyExists && final(reg)@ == old(reg)@,
        final(reg)@.contains_key(name@),
        res is Ok ==> final(reg)@[name@] == bdevh,
        final(reg)@.contains_key(other) == old(reg)@.contains_key(other),
        old(reg)@.contains_key(other) ==> final(reg)@[other] == old(reg)@[other],
{
}

/// A name is taken away exactly where a device has it, and that device is given back; other names
/// stay. So it is when SPDK gives a device up.
pub proof fn law_name_is_taken_away<B>(
    reg: &mut BdevRegistry<B>,
    name: String,
    res: Result<B, Error>,
    given_up: &mut BdevRegistry<B>,
    ctx: BdevCtx<B>,
    other: Seq<char>,
)
    requires
        call_ensures(bdev_registry_remove::<B>, (reg, name), res),
        call_ensures(bdev_ctx_drop::<B>, (given_up, ctx), ()),
        other != name@,
        other != ctx.name@,
    ensures
        res is Ok <==> old(reg)@.contains_key(name@),
        res matches Ok(bdevh) ==> bdevh == old(reg)@[name@],
        res matches Err(e) ==> e == Error::SpdkBdevNotFound(name),
        !final(reg)@.contains_key(name@),
        final(reg)@.contains_key(other) == old(reg)@.contains_key(other),
        old(reg)@.contains_key(other) ==> final(reg)@[other] == old(reg)@[other],
        !final(given_up)@.contains_key(ctx.name@),
        final(given_up)@.contains_key(other) == old(given_up)@.contains_key(other),
        old(given_up)@.contains_key(other) ==> final(given_up)@[other] == old(given_up)@[other],
{
}

/// A command is handled by the handler that was registered for it last; an unknown command is an
/// error with its name.
pub proof fn law_registered_handler_is_called<H: Fn(RpcCmdArgs) -> RpcCmdResult>(
    table: &mut DispatchTable<H>,
    cmd: &str,
    handler: H,
    registered: &DispatchTable<H>,
    args: RpcCmdArgs,
    res: RpcCmdResult,
    any: &DispatchTable<H>,
    unknown: &str,
    of_unknown: RpcCmdResult,
)
    requires
        call_ensures(register_rpc_cmd_handler::<H>, (table, cmd, handler), ()),
        registered@ == final(table)@,
        call_ensures(handle_rpc_cmd::<H>, (registered, cmd, args), res),
        !any@.contains_key(unknown@),
        call_ensures(handle_rpc_cmd::<H>, (any, unknown, args), of_unknown),
    ensures
        handler.ensures((args,), res),
        of_unknown matches Err(Error::RpcCmdUnknown(name)) && name@ == unknown@,
{
}

/// A command that succeeds is answered with what it gave, and one that fails with the message of
/// its error.
pub proof fn law_reply_tells_the_result(
    res: RpcCmdResult,
    reply: String,
    e: &Error,
    message: String,
)
    requires
        call_ensures(rpc_reply, (res,), reply),
        call_ensures(Error::message, (e,), message),
    ensures
        res matches Ok(text) ==> reply@ == text@,
        res == Err::<String, Error>(*e) ==> reply@ == "Error: "@ + message@,
        reply_text(res) == reply@,
{
}

/// The walk over an object begins at its first value, goes on behind each member's name and value,
/// visits no member behind the object's end, and stops only there.
pub proof fn law_walk_visits_every_member<F: Fn(usize) -> JsonMember>(
    member_at: F,
    object_len: usize,
    members: Seq<JsonMember>,
    at: Seq<int>,
    k: int,
)
    requires
        walked(member_at, object_len, members),
        at.len() == members.len() + 1,
        at[0] == 0,
        forall|j: int|
            0 <= j < members.len() ==> #[trigger] at[j + 1] == at[j] + 1 + members[j].val_len,
    ensures
        at[members.len() as int] >= object_len,
        0 <= k < members.len() ==> at[k] < object_len && member_at.ensures(
            (at[k] as usize,),
            members[k],
        ),
{
    lemma_positions(members, at, members.len() as int);
    if 0 <= k < members.len() {
        lemma_positions(members, at, k);
        assert(gives_member(member_at, object_len, members, k));
    }
}

proof fn lemma_positions(members: Seq<JsonMember>, at: Seq<int>, k: int)
    requires
        at.len() == members.len() + 1,
        at[0] == 0,
        forall|j: int|
            0 <= j < members.len() ==> #[trigger] at[j + 1] == at[j] + 1 + members[j].val_len,
        0 <= k <= members.len(),
    ensures
        at[k] == position_behind(members, k),
    decreases k,
{
    if k > 0 {
        lemma_positions(members, at, k - 1);
        assert(at[k - 1 + 1] == at[k - 1] + 1 + members[k - 1].val_len);
    }
}

/// The arguments of a command are the members of its object: each name has the value of its last
/// member, and there are no other names.
pub proof fn law_last_member_of_a_name_counts(members: Seq<JsonMember>, k: int, name: Seq<char>)
    ensures
        0 <= k < members.len() && (forall|j: int|
            k < j < members.len() ==> utf8_lossy(#[trigger] members[j].name@) != utf8_lossy(
                members[k].name@,
            )) ==> args_of(members).contains_key(utf8_lossy(members[k].name@)) && args_of(
            members,
        )[utf8_lossy(members[k].name@)] == utf8_lossy(members[k].val@),
        args_of(members).contains_key(name) ==> exists|j: int|
            0 <= j < members.len() && utf8_lossy(#[trigger] members[j].name@) == name,
    decreases members.len(),
{
    if members.len() > 0 {
        let before = members.drop_last();
        let last = members.len() - 1;
        law_last_member_of_a_name_counts(before, k, name);
        if args_of(members).contains_key(name) {
            if utf8_lossy(members[last].name@) == name {
                assert(utf8_lossy(members[last].name@) == name);
            } else {
                let j = choose|j: int|
                    0 <= j < before.len() && utf8_lossy(#[trigger] before[j].name@) == name;
                assert(members[j] == before[j]);
            }
        }
        if 0 <= k < last && (forall|j: int|
            k < j < members.len() ==> utf8_lossy(#[trigger] members[j].name@) != utf8_lossy(
                members[k].name@,
            )) {
            assert(before[k] == members[k]);
            assert forall|j: int| k < j < before.len() implies utf8_lossy(
                #[trigger] before[j].name@,
            ) != utf8_lossy(before[k].name@) by {
                assert(before[j] == members[j]);
            }
            assert(utf8_lossy(members[last].name@) != utf8_lossy(members[k].name@));
        }
    }
}

/// An option without an argument has its default; with an argument it has what the argument
/// writes, and an argument that writes no value of the option is an error with the option's name.
pub proof fn law_options_are_read(
    args: &RpcCmdArgs,
    field: &str,
    text: &str,
    default32: u32,
    default64: u64,
    default_bool: bool,
    res32: Result<u32, Error>,
    res64: Result<u64, Error>,
    res_bool: Result<bool, Error>,
    parsed32: Option<u64>,
    parsed64: Option<u64>,
    parsed_bool: Option<bool>,
)
    requires
        call_ensures(read_u32, (args, field, default32), res32),
        call_ensures(read_u64, (args, field, default64), res64),
        call_ensures(read_bool, (args, field, default_bool), res_bool),
        args@.contains_key(field@) ==> text@ == args@[field@]@,
        call_ensures(parse_unsigned, (text, u32::MAX as u64), parsed32),
        call_ensures(parse_unsigned, (text, u64::MAX), parsed64),
        call_ensures(parse_bool, (text,), parsed_bool),
    ensures
        !args@.contains_key(field@) ==> res32 == Ok::<u32, Error>(default32) && res64 == Ok::<
            u64,
            Error,
        >(default64) && res_bool == Ok::<bool, Error>(default_bool),
        args@.contains_key(field@) ==> match parsed32 {
            Some(v) => res32 == Ok::<u32, Error>(v as u32),
            None => res32 matches Err(Error::InvalidField(name)) && name@ == field@,
        },
        args@.contains_key(field@) ==> match parsed64 {
            Some(v) => res64 == Ok::<u64, Error>(v),
            None => res64 matches Err(Error::InvalidField(name)) && name@ == field@,
        },
        args@.contains_key(field@) ==> match parsed_bool {
            Some(v) => res_bool == Ok::<bool, Error>(v),
            None => res_bool matches Err(Error::InvalidField(name)) && name@ == field@,
        },
{
}

/// Options that nobody has set are 0 and false.
pub proof fn law_options_are_unset()
    ensures
        ({
            let opts = SpdkBdevOptsC::unset();
            &&& opts.blocklen == 0 && opts.blockcnt == 0 && !opts.write_cache
            &&& opts.phys_blocklen == 0 && opts.split_on_write_unit == 0
            &&& opts.split_on_optimal_io_boundary == 0 && opts.md_interleave == 0
            &&& opts.dif_is_head_of_md == 0 && opts.write_unit_size == 0
            &&& opts.optimal_io_boundary == 0 && opts.preferred_write_alignment == 0
            &&& opts.preferred_write_granularity == 0 && opts.optimal_write_size == 0
            &&& opts.preferred_unmap_alignment == 0 && opts.preferred_unmap_granularity == 0
        }),
{
}

/// The arguments that a command gets are those that the members of its object write, name by
/// name, also where the command is answered with text.
pub proof fn law_command_gets_its_arguments<
    H: Fn(RpcCmdArgs) -> RpcCmdResult,
    F: Fn(usize) -> JsonMember,
>(
    table: &DispatchTable<H>,
    cmd: &str,
    object_len: usize,
    member_at: F,
    args: RpcCmdArgs,
    reply: String,
)
    requires
        call_ensures(json_args::<F>, (object_len, member_at), args),
        call_ensures(rs_handle_rpc_cmd::<H, F>, (table, cmd, object_len, member_at), reply),
    ensures
        exists|members: Seq<JsonMember>| #[trigger]
            walked(member_at, object_len, members) && written_by(args@, args_of(members)),
        table@.contains_key(cmd@) ==> exists|
            members: Seq<JsonMember>,
            given: RpcCmdArgs,
            res: RpcCmdResult,
        |
            #![trigger walked(member_at, object_len, members), table@[cmd@].ensures((given,), res)]
            walked(member_at, object_len, members) && written_by(given@, args_of(members))
                && table@[cmd@].ensures((given,), res) && match res {
                Ok(text) => reply@ == text@,
                Err(e) => reply@ == "Error: "@ + e.text(),
            },
        !table@.contains_key(cmd@) ==> reply@ == "Error: "@ + ("Unknown RPC command '"@ + cmd@),
{
    let members = choose|members: Seq<JsonMember>| #[trigger]
        walked(member_at, object_len, members) && arg_texts(args@) == args_of(members);
    assert(written_by(args@, args_of(members)));
    if table@.contains_key(cmd@) {
        let (m, given, res) = choose|
            members: Seq<JsonMember>,
            given: RpcCmdArgs,
            res: RpcCmdResult,
        |
            #![trigger walked(member_at, object_len, members), table@[cmd@].ensures((given,), res)]
            walked(member_at, object_len, members) && arg_texts(given@) == args_of(members)
                && table@[cmd@].ensures((given,), res) && reply@ == reply_text(res);
        assert(written_by(given@, args_of(m)));
    }
}

/// The strings of `args` have the names and the texts of `written`.
pub open spec fn written_by(
    args: Map<Seq<char>, String>,
    written: Map<Seq<char>, Seq<char>>,
) -> bool {
    forall|name: Seq<char>| #[trigger]
        args.contains_key(name) == written.contains_key(name) && (args.contains_key(name)
            ==> args[name]@ == written[name])
}

/// A device is deleted by the name that the command gives, where a device has that name; SPDK's
/// result decides the reply.
pub proof fn law_device_is_deleted_by_name<B>(
    reg: &BdevRegistry<B>,
    args: &RpcCmdArgs,
    target: Result<String, Error>,
    name: &str,
    rc: i32,
    reply: RpcCmdResult,
)
    requires
        args@.contains_key("name"@),
        call_ensures(bdev_delete_target::<B>, (reg, args), target),
        call_ensures(bdev_delete_reply, (name, rc), reply),
    ensures
        target is Ok <==> reg@.contains_key(args@["name"@]@),
        target matches Ok(found) ==> found@ == args@["name"@]@,
        target matches Err(e) ==> (e matches Error::SpdkBdevNotFound(missing) && missing@
            == args@["name"@]@),
        reply is Ok <==> rc == 0,
        reply matches Ok(text) ==> text@ == "Successfully deleted bdev '"@ + name@ + "'"@,
        reply matches Err(e) ==> e == Error::SpdkBdevDelete(rc),
{
}

} // verus!
