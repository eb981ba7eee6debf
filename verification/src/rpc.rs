//! Commands that arrive as JSON-RPC requests.
use vstd::prelude::*;
use crate::error::{prefixed, Error};
use crate::names::NameMap;

verus! {

pub type RpcCmd = String;

/// The arguments of a command, by name.
pub type RpcCmdArgs = NameMap<String>;

/// What a command gives: its reply, or an error.
pub type RpcCmdResult = Result<String, Error>;

/// The handlers of the commands, by command.
pub type DispatchTable<H> = NameMap<H>;

/// Sets the handler of a command, in place of any earlier one.
pub fn register_rpc_cmd_handler<H>(table: &mut DispatchTable<H>, cmd: &str, handler: H)
    ensures
        final(table)@ == old(table)@.insert(cmd@, handler),
{
    table.insert(cmd.to_owned(), handler);
}

/// Hands a command to its handler.
pub fn handle_rpc_cmd<H: Fn(RpcCmdArgs) -> RpcCmdResult>(
    table: &DispatchTable<H>,
    cmd: &str,
    args: RpcCmdArgs,
) -> (res: RpcCmdResult)
    requires
        table@.contains_key(cmd@) ==> table@[cmd@].requires((args,)),
    ensures
        if table@.contains_key(cmd@) {
            table@[cmd@].ensures((args,), res)
        } else {
            res matches Err(Error::RpcCmdUnknown(unknown)) && unknown@ == cmd@
        },
{
    match table.get(cmd) {
        Some(handler) => handler(args),
        None => Err(Error::RpcCmdUnknown(cmd.to_owned())),
    }
}

/// The text that answers a command.
pub open spec fn reply_text(res: RpcCmdResult) -> Seq<char> {
    match res {
        Ok(reply) => reply@,
        Err(e) => "Error: "@ + e.text(),
    }
}

/// Returns the text that answers a command.
pub fn rpc_reply(res: RpcCmdResult) -> (reply: String)
    ensures
        reply@ == reply_text(res),
{
    match res {
        Ok(reply) => reply,
        Err(e) => {
            let message = e.message();
            prefixed("Error: ", message.as_str())
        },
    }
}

/// The text that `String::from_utf8_lossy` makes of the bytes.
pub uninterp spec fn utf8_lossy(bytes: Seq<u8>) -> Seq<char>;

/// Calls `String::from_utf8_lossy`: the text is what the bytes encode, and where they are no valid
/// UTF-8 the replacement character stands for what cannot be decoded.
#[verifier::external_body]
fn text_from_utf8_lossy(bytes: &[u8]) -> (text: String)
    ensures
        text@ == utf8_lossy(bytes@),
        vstd::utf8::valid_utf8(bytes@) ==> text@ == vstd::utf8::decode_utf8(bytes@),
{
    String::from_utf8_lossy(bytes).to_string()
}

/// One member of a JSON object: the bytes of its name and of its value, and the number of JSON
/// values that the value takes up.
#[derive(Debug)]
pub struct JsonMember {
    pub name: Vec<u8>,
    pub val: Vec<u8>,
    pub val_len: usize,
}

/// Walks the members of a JSON object whose values lie one behind the other.
#[derive(Debug)]
pub struct JsonIter {
    object_len: usize,
    idx: usize,
}

impl JsonIter {
    /// The number of JSON values in the object.
    pub closed spec fn spec_object_len(&self) -> usize {
        self.object_len
    }

    /// The position of the next member.
    pub closed spec fn position(&self) -> usize {
        self.idx
    }

    /// At the first member of an object of `object_len` JSON values.
    pub fn new(object_len: usize) -> (iter: JsonIter)
        ensures
            iter.spec_object_len() == object_len,
            iter.position() == 0,
    {
        JsonIter { object_len, idx: 0 }
    }

    /// Returns the position of the next member, if there is one.
    pub fn peek(&self) -> (res: Option<usize>)
        ensures
            res == (if self.position() < self.spec_object_len() {
                Some(self.position())
            } else {
                None
            }),
    {
        if self.idx < self.object_len {
            Some(self.idx)
        } else {
            None
        }
    }

    /// Takes the member at the next position, and goes on behind its name and its value.
    pub fn next(&mut self, member: &JsonMember) -> (res: (String, String))
        requires
            old(self).position() + 1 + member.val_len <= usize::MAX,
        ensures
            res.0@ == utf8_lossy(member.name@),
            res.1@ == utf8_lossy(member.val@),
            final(self).position() == old(self).position() + 1 + member.val_len,
            final(self).spec_object_len() == old(self).spec_object_len(),
    {
        let name = text_from_utf8_lossy(member.name.as_slice());
        let val = text_from_utf8_lossy(member.val.as_slice());
        self.idx = self.idx + 1 + member.val_len;
        (name, val)
    }
}

/// The position behind the first `k` members, which lie one behind the other from position 0 on.
pub open spec fn position_behind(members: Seq<JsonMember>, k: int) -> int
    decreases k,
{
    if k <= 0 {
        0
    } else {
        position_behind(members, k - 1) + 1 + members[k - 1].val_len
    }
}

/// Member `k` begins inside the object, and `member_at` gives it for its position.
pub open spec fn gives_member<F: Fn(usize) -> JsonMember>(
    member_at: F,
    object_len: usize,
    members: Seq<JsonMember>,
    k: int,
) -> bool {
    &&& position_behind(members, k) < object_len
    &&& member_at.ensures((position_behind(members, k) as usize,), members[k])
}

/// `members` are members that `member_at` gives for an object of `object_len` JSON values, from
/// the first one on.
pub open spec fn walked_from_start<F: Fn(usize) -> JsonMember>(
    member_at: F,
    object_len: usize,
    members: Seq<JsonMember>,
) -> bool {
    forall|k: int|
        0 <= k < members.len() ==> #[trigger] gives_member(member_at, object_len, members, k)
}

/// `members` are members that `member_at` gives for an object of `object_len` JSON values, from
/// the first to the last.
pub open spec fn walked<F: Fn(usize) -> JsonMember>(
    member_at: F,
    object_len: usize,
    members: Seq<JsonMember>,
) -> bool {
    &&& walked_from_start(member_at, object_len, members)
    &&& position_behind(members, members.len() as int) >= object_len
}

/// The arguments that the members write: the text of each name has the text of its value, the
/// last one where a name occurs more than once.
pub open spec fn args_of(members: Seq<JsonMember>) -> Map<Seq<char>, Seq<char>>
    decreases members.len(),
{
    if members.len() == 0 {
        Map::empty()
    } else {
        args_of(members.drop_last()).insert(
            utf8_lossy(members.last().name@),
            utf8_lossy(members.last().val@),
        )
    }
}

/// The texts of the arguments.
pub open spec fn arg_texts(args: Map<Seq<char>, String>) -> Map<Seq<char>, Seq<char>> {
    args.map_values(|v: String| v@)
}

proof fn lemma_position_behind_prefix(members: Seq<JsonMember>, m: JsonMember, k: int)
    requires
        0 <= k <= members.len(),
    ensures
        position_behind(members.push(m), k) == position_behind(members, k),
    decreases k,
{
    if k > 0 {
        lemma_position_behind_prefix(members, m, k - 1);
    }
}

proof fn lemma_walk_on<F: Fn(usize) -> JsonMember>(
    member_at: F,
    object_len: usize,
    members: Seq<JsonMember>,
    m: JsonMember,
)
    requires
        walked_from_start(member_at, object_len, members),
        position_behind(members, members.len() as int) < object_len,
        member_at.ensures((position_behind(members, members.len() as int) as usize,), m),
    ensures
        walked_from_start(member_at, object_len, members.push(m)),
        position_behind(members.push(m), members.push(m).len() as int) == position_behind(
            members,
            members.len() as int,
        ) + 1 + m.val_len,
{
    let after = members.push(m);
    assert forall|k: int| 0 <= k < after.len() implies #[trigger] gives_member(
        member_at,
        object_len,
        after,
        k,
    ) by {
        lemma_position_behind_prefix(members, m, k);
        if k < members.len() {
            assert(gives_member(member_at, object_len, members, k));
        }
    }
    lemma_position_behind_prefix(members, m, members.len() as int);
}

/// Collects the arguments of a command from a JSON object of `object_len` JSON values;
/// `member_at` gives the member at a position.
pub fn json_args<F: Fn(usize) -> JsonMember>(object_len: usize, member_at: F) -> (args: RpcCmdArgs)
    requires
        forall|i: usize| i < object_len ==> member_at.requires((i,)),
        forall|i: usize, m: JsonMember|
            i < object_len && #[trigger] member_at.ensures((i,), m) ==> i + 1 + m.val_len
                <= usize::MAX,
    ensures
        exists|members: Seq<JsonMember>| #[trigger]
            walked(member_at, object_len, members) && arg_texts(args@) == args_of(members),
{
    let mut args: RpcCmdArgs = NameMap::new();
    let mut iter = JsonIter::new(object_len);
    let ghost mut members: Seq<JsonMember> = Seq::empty();
    assert(arg_texts(args@) =~= args_of(members));
    loop
        invariant
            forall|i: usize| i < object_len ==> member_at.requires((i,)),
            forall|i: usize, m: JsonMember|
                i < object_len && #[trigger] member_at.ensures((i,), m) ==> i + 1 + m.val_len
                    <= usize::MAX,
            iter.spec_object_len() == object_len,
            iter.position() == position_behind(members, members.len() as int),
            walked_from_start(member_at, object_len, members),
            arg_texts(args@) == args_of(members),
        ensures
            iter.position() >= object_len,
        decreases (if iter.position() < object_len { object_len - iter.position() } else { 0 }),
    {
        let i = match iter.peek() {
            Some(i) => i,
            None => {
                break ;
            },
        };
        let member = member_at(i);
        let ghost before = members;
        let ghost old_args = args@;
        let (name, val) = iter.next(&member);
        args.insert(name, val);
        proof {
            lemma_walk_on(member_at, object_len, before, member);
            members = before.push(member);
            assert(members.drop_last() =~= before);
            assert(arg_texts(args@) =~= arg_texts(old_args).insert(name@, val@));
        }
    }
    assert(walked(member_at, object_len, members));
    args
}

/// A command goes to the handler that was registered last for it, whatever was registered before
/// or for other commands.
pub proof fn lemma_last_registration_counts<H>(
    table: Map<Seq<char>, H>,
    cmd: Seq<char>,
    other: Seq<char>,
    first: H,
    last: H,
    third: H,
)
    requires
        cmd != other,
    ensures
        table.insert(cmd, first).insert(cmd, last).insert(other, third).contains_key(cmd),
        table.insert(cmd, first).insert(cmd, last).insert(other, third)[cmd] == last,
{
}

/// Answers a command whose arguments are the members of a JSON object of `object_len` JSON values.
pub fn rs_handle_rpc_cmd<H: Fn(RpcCmdArgs) -> RpcCmdResult, F: Fn(usize) -> JsonMember>(
    table: &DispatchTable<H>,
    cmd: &str,
    object_len: usize,
    member_at: F,
) -> (reply: String)
    requires
        forall|i: usize| i < object_len ==> member_at.requires((i,)),
        forall|i: usize, m: JsonMember|
            i < object_len && #[trigger] member_at.ensures((i,), m) ==> i + 1 + m.val_len
                <= usize::MAX,
        table@.contains_key(cmd@) ==> forall|args: RpcCmdArgs| #[trigger]
            table@[cmd@].requires((args,)),
    ensures
        if table@.contains_key(cmd@) {
            exists|members: Seq<JsonMember>, args: RpcCmdArgs, res: RpcCmdResult|
                #![trigger walked(member_at, object_len, members), table@[cmd@].ensures((args,), res)]
                walked(member_at, object_len, members) && arg_texts(args@) == args_of(members)
                    && table@[cmd@].ensures((args,), res) && reply@ == reply_text(res)
        } else {
            reply@ == "Error: "@ + ("Unknown RPC command '"@ + cmd@)
        },
{
    let args = json_args(object_len, member_at);
    let res = handle_rpc_cmd(table, cmd, args);
    rpc_reply(res)
}

} // verus!
