//! A mirror over several lower-layer block devices.
use vstd::prelude::*;
use crate::bdev::{bdev_registry_add, bdev_registry_remove, registered, BdevRegistry};
use crate::bdev_io::IoStatus;
use crate::c_enum::IoType;
use crate::error::{quoted, Error};
use crate::opts::{
    field_read, given_bool, given_u32, given_u64, read_bool, read_u32, read_u64, SpdkBdevOptsC,
};
use crate::rpc::{RpcCmdArgs, RpcCmdResult};
use crate::text::{split, split_text, Separator, texts};

verus! {

/// Tells which I/O operations the mirror accepts.
pub fn io_type_supported(io_type: IoType) -> (res: bool)
    ensures
        res == (io_type == IoType::Read || io_type == IoType::Write || io_type == IoType::Flush),
{
    match io_type {
        IoType::Read | IoType::Write | IoType::Flush => true,
        _ => false,
    }
}

/// What to do with a request.
#[derive(Debug, Clone, Copy, PartialEq, Eq, Structural)]
pub enum Raid1Action {
    Read,
    Write,
    Complete(IoStatus),
}

/// Decides what to do with a request of a type. There is nothing to flush.
pub fn raid1_action(io_type: IoType) -> (action: Raid1Action)
    ensures
        action == (if io_type == IoType::Read {
            Raid1Action::Read
        } else if io_type == IoType::Write {
            Raid1Action::Write
        } else if io_type == IoType::Flush {
            Raid1Action::Complete(IoStatus::Success)
        } else {
            Raid1Action::Complete(IoStatus::Failure)
        }),
{
    match io_type {
        IoType::Read => Raid1Action::Read,
        IoType::Write => Raid1Action::Write,
        IoType::Flush => Raid1Action::Complete(IoStatus::Success),
        _ => Raid1Action::Complete(IoStatus::Failure),
    }
}

/// A read that goes to one child after the other until one succeeds.
#[derive(Debug)]
pub struct Raid1Read {
    children: usize,
    tried: usize,
}

/// What a read does next.
#[derive(Debug, Clone, Copy, PartialEq, Eq, Structural)]
pub enum Raid1Step {
    /// Read from this child.
    Try(usize),
    /// Complete the request.
    Complete(IoStatus),
}

/// The child that follows another one, around the circle of the children.
pub open spec fn following(child: int, children: int) -> int {
    (child + 1) % children
}

impl Raid1Read {
    /// The number of children.
    pub closed spec fn spec_children(&self) -> usize {
        self.children
    }

    /// The number of children tried so far.
    pub closed spec fn spec_tried(&self) -> usize {
        self.tried
    }

    /// A read from a mirror of `children` children.
    pub fn new(children: usize) -> (read: Raid1Read)
        ensures
            read.spec_children() == children,
            read.spec_tried() == 0,
    {
        Raid1Read { children, tried: 0 }
    }

    /// Goes on to the child that follows the last one read from, which `next_read` keeps for all
    /// reads. The request fails once there were as many tries as there are children.
    pub fn next(&mut self, next_read: &mut usize) -> (step: Raid1Step)
        requires
            old(self).spec_tried() < old(self).spec_children() ==> *old(next_read) < usize::MAX,
        ensures
            final(self).spec_children() == old(self).spec_children(),
            if old(self).spec_tried() < old(self).spec_children() {
                &&& *final(next_read) == following(
                    *old(next_read) as int,
                    old(self).spec_children() as int,
                )
                &&& step == Raid1Step::Try(*final(next_read))
                &&& final(self).spec_tried() == old(self).spec_tried() + 1
            } else {
                &&& *final(next_read) == *old(next_read)
                &&& step == Raid1Step::Complete(IoStatus::Failure)
                &&& final(self).spec_tried() == old(self).spec_tried()
            },
    {
        if self.tried < self.children {
            self.tried = self.tried + 1;
            *next_read = (*next_read + 1) % self.children;
            Raid1Step::Try(*next_read)
        } else {
            Raid1Step::Complete(IoStatus::Failure)
        }
    }

    /// Goes on once a child was read from: the first success completes the request.
    pub fn tried(&mut self, success: bool, next_read: &mut usize) -> (step: Raid1Step)
        requires
            !success && old(self).spec_tried() < old(self).spec_children() ==> *old(next_read)
                < usize::MAX,
        ensures
            final(self).spec_children() == old(self).spec_children(),
            if success {
                &&& step == Raid1Step::Complete(IoStatus::Success)
                &&& *final(next_read) == *old(next_read)
                &&& final(self).spec_tried() == old(self).spec_tried()
            } else if old(self).spec_tried() < old(self).spec_children() {
                &&& *final(next_read) == following(
                    *old(next_read) as int,
                    old(self).spec_children() as int,
                )
                &&& step == Raid1Step::Try(*final(next_read))
                &&& final(self).spec_tried() == old(self).spec_tried() + 1
            } else {
                &&& *final(next_read) == *old(next_read)
                &&& step == Raid1Step::Complete(IoStatus::Failure)
                &&& final(self).spec_tried() == old(self).spec_tried()
            },
    {
        if success {
            return Raid1Step::Complete(IoStatus::Success);
        }
        self.next(next_read)
    }
}

/// The child of try `k` of a read that nothing else interferes with, after the child `start`.
pub open spec fn child_of_try(start: int, children: int, k: int) -> int
    decreases k,
{
    if k <= 0 {
        start
    } else {
        following(child_of_try(start, children, k - 1), children)
    }
}

proof fn lemma_child_of_try(start: int, children: int, k: int)
    requires
        0 <= start < children,
        0 <= k,
    ensures
        child_of_try(start, children, k) == (start + k) % children,
        0 <= child_of_try(start, children, k) < children,
    decreases k,
{
    if k == 0 {
        vstd::arithmetic::div_mod::lemma_small_mod(start as nat, children as nat);
    } else {
        lemma_child_of_try(start, children, k - 1);
        vstd::arithmetic::div_mod::lemma_add_mod_noop(start + k - 1, 1, children);
        vstd::arithmetic::div_mod::lemma_mod_bound(start + k, children);
        let prev = (start + k - 1) % children;
        assert((prev + 1) % children == (start + k) % children) by {
            vstd::arithmetic::div_mod::lemma_add_mod_noop_right(1, start + k - 1, children);
        }
    }
}

/// A read that fails at every child has tried each child: child `c` is among the tries.
pub proof fn lemma_failover_reaches_every_child(start: int, children: int, c: int) -> (k: int)
    requires
        0 <= start < children,
        0 <= c < children,
    ensures
        1 <= k <= children,
        child_of_try(start, children, k) == c,
{
    let k = if c > start {
        c - start
    } else {
        c - start + children
    };
    lemma_child_of_try(start, children, k);
    if c > start {
        vstd::arithmetic::div_mod::lemma_small_mod(c as nat, children as nat);
    } else {
        vstd::arithmetic::div_mod::lemma_small_mod(c as nat, children as nat);
        vstd::arithmetic::div_mod::lemma_mod_add_multiples_vanish(c, children);
    }
    k
}

/// A write that goes to all children.
#[derive(Debug)]
pub struct Raid1Write {
    children: usize,
    submitted: usize,
}

/// The children that a write still goes to, in order, where it goes to `child` next.
pub open spec fn children_from(child: nat, children: nat) -> Seq<usize>
    decreases children - child,
{
    if child < children {
        seq![child as usize] + children_from(child + 1, children)
    } else {
        Seq::empty()
    }
}

proof fn lemma_children_from(child: nat, children: nat)
    requires
        child <= children,
    ensures
        children_from(child, children) == Seq::new(
            (children - child) as nat,
            |i: int| (child + i) as usize,
        ),
    decreases children - child,
{
    if child < children {
        lemma_children_from(child + 1, children);
    }
    assert(children_from(child, children) =~= Seq::new(
        (children - child) as nat,
        |i: int| (child + i) as usize,
    ));
}

/// A write goes to every child, once and in order.
pub proof fn lemma_write_goes_to_every_child(children: usize, c: usize)
    ensures
        children_from(0, children as nat).len() == children,
        c < children ==> children_from(0, children as nat)[c as int] == c,
{
    lemma_children_from(0, children as nat);
}

impl Raid1Write {
    /// The children that the write still goes to, in order.
    pub closed spec fn remaining(&self) -> Seq<usize> {
        children_from(self.submitted as nat, self.children as nat)
    }

    /// A write to a mirror of `children` children.
    pub fn new(children: usize) -> (write: Raid1Write)
        ensures
            write.remaining() == children_from(0, children as nat),
    {
        Raid1Write { children, submitted: 0 }
    }

    /// Gives the next child to write to.
    pub fn next(&mut self) -> (res: Option<usize>)
        ensures
            match res {
                Some(child) => {
                    &&& old(self).remaining().len() > 0
                    &&& child == old(self).remaining()[0]
                    &&& final(self).remaining() == old(self).remaining().skip(1)
                },
                None => {
                    &&& old(self).remaining().len() == 0
                    &&& final(self).remaining() == old(self).remaining()
                },
            },
    {
        if self.submitted < self.children {
            let child: usize = self.submitted;
            self.submitted = child + 1;
            assert(final(self).remaining() =~= old(self).remaining().skip(1));
            Some(child)
        } else {
            None
        }
    }
}

/// The children whose writes failed, in order.
pub open spec fn failed_children(successes: Seq<bool>) -> Seq<usize>
    decreases successes.len(),
{
    if successes.len() == 0 {
        Seq::empty()
    } else if successes.last() {
        failed_children(successes.drop_last())
    } else {
        failed_children(successes.drop_last()).push((successes.len() - 1) as usize)
    }
}

/// The outcome of a write to all children: it succeeds where at least one child succeeds. Returns
/// the children that failed, too.
pub fn write_outcome(successes: &Vec<bool>) -> (res: (IoStatus, Vec<usize>))
    ensures
        res.0 == (if successes@.contains(true) {
            IoStatus::Success
        } else {
            IoStatus::Failure
        }),
        res.1@ == failed_children(successes@),
{
    let mut status = IoStatus::Failure;
    let mut failures: Vec<usize> = Vec::new();
    let mut idx: usize = 0;
    assert(failures@ =~= failed_children(successes@.take(0)));
    while idx < successes.len()
        invariant
            idx <= successes@.len(),
            failures@ == failed_children(successes@.take(idx as int)),
            status == IoStatus::Success ==> successes@.contains(true),
            status == IoStatus::Failure ==> forall|j: int| 0 <= j < idx ==> !successes@[j],
        decreases successes@.len() - idx,
    {
        assert(successes@.take(idx + 1).drop_last() =~= successes@.take(idx as int));
        assert(successes@.take(idx + 1).last() == successes@[idx as int]);
        if successes[idx] {
            status = IoStatus::Success;
        } else {
            failures.push(idx);
        }
        idx = idx + 1;
    }
    assert(successes@.take(idx as int) =~= successes@);
    (status, failures)
}

/// The size of a block in bytes and the number of blocks.
#[derive(Debug, Clone, Copy, PartialEq, Eq, Structural)]
pub struct Geometry {
    pub block_len: usize,
    pub num_blocks: u64,
}

/// `geometry_of` may answer `answer` for the device with this name.
pub open spec fn answers<F: Fn(&str) -> Result<Geometry, Error>>(
    geometry_of: F,
    name: Seq<char>,
    answer: Result<Geometry, Error>,
) -> bool {
    exists|text: &str| text@ == name && #[trigger] geometry_of.ensures((text,), answer)
}

/// All answers give the geometry of the first one.
pub open spec fn all_alike(answers: Seq<Result<Geometry, Error>>) -> bool {
    forall|k: int| 0 <= k < answers.len() ==> (#[trigger] answers[k]) is Ok && answers[k] == answers[0]
}

/// What the answers for the children, in order, say of the mirror: nothing where they go on, its
/// geometry where all `children` children are alike, and an error where the last one has no
/// geometry or one that differs from the first.
pub open spec fn common_geometry(answers: Seq<Result<Geometry, Error>>, children: nat) -> Option<
    Result<Geometry, Error>,
> {
    if answers.len() == 0 || !all_alike(answers.drop_last()) {
        None
    } else {
        match answers.last() {
            Err(e) => Some(Err(e)),
            Ok(geometry) => if answers.last() != answers[0] {
                Some(Err(Error::InvalidArguments))
            } else if answers.len() == children {
                Some(Ok(geometry))
            } else {
                None
            },
        }
    }
}

/// Finds the geometry that all children have, of which there has to be one; `geometry_of` opens a
/// child by its name and asks for its geometry. Children behind one that rules a mirror out are
/// not asked.
pub fn parse_children<F: Fn(&str) -> Result<Geometry, Error>>(
    children_names: &Vec<String>,
    geometry_of: F,
) -> (res: Result<Geometry, Error>)
    requires
        forall|name: &str| #[trigger] geometry_of.requires((name,)),
    ensures
        if children_names@.len() == 0 {
            res matches Err(Error::InvalidArguments)
        } else {
            exists|asked: Seq<Result<Geometry, Error>>|
                asked.len() <= children_names@.len() && #[trigger] common_geometry(
                    asked,
                    children_names@.len(),
                ) == Some(res) && forall|k: int|
                    0 <= k < asked.len() ==> answers(
                        geometry_of,
                        children_names@[k]@,
                        #[trigger] asked[k],
                    )
        },
{
    if children_names.len() == 0 {
        return Err(Error::InvalidArguments);
    }
    let ghost mut asked: Seq<Result<Geometry, Error>> = Seq::empty();
    let mut common: Option<Geometry> = None;
    let mut i: usize = 0;
    while i < children_names.len()
        invariant
            i <= children_names@.len(),
            forall|name: &str| #[trigger] geometry_of.requires((name,)),
            asked.len() == i,
            all_alike(asked),
            i > 0 ==> common is Some && asked[0] == Ok::<Geometry, Error>(common.unwrap()),
            i == 0 ==> common is None,
            forall|k: int|
                0 <= k < asked.len() ==> answers(
                    geometry_of,
                    children_names@[k]@,
                    #[trigger] asked[k],
                ),
        decreases children_names@.len() - i,
    {
        let name = children_names[i].as_str();
        let answer = geometry_of(name);
        let ghost before = asked;
        proof {
            asked = before.push(answer);
            assert(asked.drop_last() =~= before);
            assert(answers(geometry_of, children_names@[i as int]@, answer));
        }
        let child = match answer {
            Ok(child) => child,
            Err(e) => {
                assert(common_geometry(asked, children_names@.len()) == Some(
                    Err::<Geometry, Error>(e),
                ));
                return Err(e);
            },
        };
        match common {
            None => {
                common = Some(child);
            },
            Some(existing) => {
                if existing.block_len != child.block_len || existing.num_blocks
                    != child.num_blocks {
                    assert(common_geometry(asked, children_names@.len()) == Some(
                        Err::<Geometry, Error>(Error::InvalidArguments),
                    ));
                    return Err(Error::InvalidArguments);
                }
            },
        }
        i = i + 1;
    }
    proof {
        assert(all_alike(asked.drop_last()));
        assert(common_geometry(asked, children_names@.len()) == Some(
            Ok::<Geometry, Error>(common.unwrap()),
        ));
    }
    Ok(common.unwrap())
}

/// The options of a mirror.
#[derive(Debug, Clone, Copy, PartialEq, Eq, Structural)]
pub struct Raid1BdevOpts {
    pub blocklen: u32,
    pub blockcnt: u64,
    pub write_cache: bool,
}

/// The block length of a mirror where none is given.
pub const DEFAULT_BLOCKLEN: u32 = 512;

/// The number of blocks of a mirror where none is given: 64 MBytes.
pub const DEFAULT_BLOCKCNT: u64 = 131072;

/// The first field whose argument writes no value of it.
pub open spec fn invalid_field(args: Map<Seq<char>, String>) -> Option<Seq<char>> {
    if given_u32(args, "blocklen"@) == Some(None::<u32>) {
        Some("blocklen"@)
    } else if given_u64(args, "blockcnt"@) == Some(None::<u64>) {
        Some("blockcnt"@)
    } else if given_bool(args, "write_cache"@) == Some(None::<bool>) {
        Some("write_cache"@)
    } else {
        None
    }
}

impl Raid1BdevOpts {
    /// Reads the options from the arguments of a command.
    pub fn from_rpc(args: &RpcCmdArgs) -> (res: Result<Raid1BdevOpts, Error>)
        ensures
            match res {
                Ok(opts) => {
                    &&& invalid_field(args@) is None
                    &&& field_read(
                        given_u32(args@, "blocklen"@),
                        DEFAULT_BLOCKLEN,
                        "blocklen"@,
                        Ok(opts.blocklen),
                    )
                    &&& field_read(
                        given_u64(args@, "blockcnt"@),
                        DEFAULT_BLOCKCNT,
                        "blockcnt"@,
                        Ok(opts.blockcnt),
                    )
                    &&& field_read(
                        given_bool(args@, "write_cache"@),
                        false,
                        "write_cache"@,
                        Ok(opts.write_cache),
                    )
                },
                Err(e) => e matches Error::InvalidField(name) && invalid_field(args@) == Some(
                    name@,
                ),
            },
    {
        let blocklen = match read_u32(args, "blocklen", DEFAULT_BLOCKLEN) {
            Ok(v) => v,
            Err(e) => {
                return Err(e);
            },
        };
        let blockcnt = match read_u64(args, "blockcnt", DEFAULT_BLOCKCNT) {
            Ok(v) => v,
            Err(e) => {
                return Err(e);
            },
        };
        let write_cache = match read_bool(args, "write_cache", false) {
            Ok(v) => v,
            Err(e) => {
                return Err(e);
            },
        };
        Ok(Raid1BdevOpts { blocklen, blockcnt, write_cache })
    }

    /// Returns the options as SPDK takes them.
    pub fn to_c(&self) -> (opts: SpdkBdevOptsC)
        ensures
            opts == (SpdkBdevOptsC {
                blocklen: self.blocklen,
                blockcnt: self.blockcnt,
                write_cache: self.write_cache,
                ..SpdkBdevOptsC::unset()
            }),
    {
        let mut opts = SpdkBdevOptsC::default();
        opts.blocklen = self.blocklen;
        opts.blockcnt = self.blockcnt;
        opts.write_cache = self.write_cache;
        opts
    }
}

/// What the command to create a mirror is about: its name and the names of its children, which
/// commas separate.
#[derive(Debug)]
pub struct Raid1Create {
    pub name: String,
    pub children: Vec<String>,
}

/// Reads what the command to create a mirror is about.
pub fn raid1_create_args(args: &RpcCmdArgs) -> (res: Result<Raid1Create, Error>)
    ensures
        if args@.contains_key("name"@) && args@.contains_key("children"@) {
            res matches Ok(create) && create.name == args@["name"@] && texts(create.children@)
                == split(args@["children"@]@, Separator::Char(','))
        } else {
            res matches Err(Error::InvalidArguments)
        },
{
    match (args.get("name"), args.get("children")) {
        (Some(name), Some(children)) => Ok(
            Raid1Create {
                name: name.clone(),
                children: split_text(children.as_str(), Separator::Char(',')),
            },
        ),
        _ => Err(Error::InvalidArguments),
    }
}

/// Gives a mirror its name, and returns the options with which SPDK is to create it: those of the
/// command, with the geometry of the children.
pub fn raid1_create_opts<B>(
    reg: &mut BdevRegistry<B>,
    args: &RpcCmdArgs,
    name: String,
    bdevh: B,
    geometry: Geometry,
) -> (res: Result<SpdkBdevOptsC, Error>)
    ensures
        match registered(old(reg)@, name@, bdevh) {
            None => (res matches Err(Error::AlreadyExists)) && final(reg)@ == old(reg)@,
            Some(after) => final(reg)@ == after && match res {
                Ok(opts) => opts == (SpdkBdevOptsC {
                    blocklen: geometry.block_len as u32,
                    blockcnt: geometry.num_blocks,
                    write_cache: match given_bool(args@, "write_cache"@) {
                        Some(Some(v)) => v,
                        _ => false,
                    },
                    ..SpdkBdevOptsC::unset()
                }) && invalid_field(args@) is None,
                Err(e) => e matches Error::InvalidField(field) && invalid_field(args@) == Some(
                    field@,
                ),
            },
        },
{
    match bdev_registry_add(reg, name, bdevh) {
        Ok(_) => {},
        Err(e) => {
            return Err(e);
        },
    }
    let mut opts = match Raid1BdevOpts::from_rpc(args) {
        Ok(opts) => opts,
        Err(e) => {
            return Err(e);
        },
    };
    opts.blockcnt = geometry.num_blocks;
    opts.blocklen = #[verifier::truncate] (geometry.block_len as u32);
    Ok(opts.to_c())
}

/// The reply to the command to create a mirror, which SPDK did with result `rc`. A mirror that
/// SPDK did not create loses its name.
pub fn raid1_create_reply<B>(reg: &mut BdevRegistry<B>, name: String, rc: i32) -> (res: RpcCmdResult)
    ensures
        if rc == 0 {
            &&& res matches Ok(reply) && reply@ == "Successfully created RAID1 bdev: '"@ + name@
                + "'"@
            &&& final(reg)@ == old(reg)@
        } else {
            &&& final(reg)@ == old(reg)@.remove(name@)
            &&& res == Err::<String, Error>(
                if old(reg)@.contains_key(name@) {
                    Error::SpdkBdevCreate(rc)
                } else {
                    Error::SpdkBdevNotFound(name)
                },
            )
        },
{
    if rc != 0 {
        match bdev_registry_remove(reg, name) {
            Ok(_) => {},
            Err(e) => {
                assert(final(reg)@ =~= old(reg)@.remove(name@));
                return Err(e);
            },
        }
        return Err(Error::SpdkBdevCreate(rc));
    }
    Ok(quoted("Successfully created RAID1 bdev: '", name.as_str(), "'"))
}

} // verus!
