//! Laws of the mirror.
use vstd::prelude::*;
use crate::bdev::BdevRegistry;
use crate::bdev_io::IoStatus;
use crate::c_enum::IoType;
use crate::error::Error;
use crate::laws::texts::{interleaved, lemma_pieces_make_up, written};
use crate::opts::{read_bool, read_u32, read_u64, SpdkBdevOptsC};
use crate::raid1::{
    answers, common_geometry, failed_children, io_type_supported, lemma_write_goes_to_every_child,
    parse_children, raid1_action, raid1_create_args, raid1_create_opts, raid1_create_reply,
    write_outcome, Geometry, Raid1Action, Raid1BdevOpts, Raid1Create, Raid1Read, Raid1Step,
    Raid1Write,
};
use crate::rpc::RpcCmdArgs;

verus! {

/// Where a mirror has a geometry, every child was asked, and each answered with exactly this one.
pub proof fn law_children_have_the_geometry<F: Fn(&str) -> Result<Geometry, Error>>(
    names: &Vec<String>,
    geometry_of: F,
    res: Result<Geometry, Error>,
)
    requires
        call_ensures(parse_children::<F>, (names, geometry_of), res),
    ensures
        res matches Ok(geometry) ==> names@.len() > 0 && forall|k: int|
            0 <= k < names@.len() ==> exists|name: &str|
                name@ == (#[trigger] names@[k])@ && #[trigger] geometry_of.ensures(
                    (name,),
                    Ok(geometry),
                ),
{
    if let Ok(geometry) = res {
        let n = names@.len();
        let asked = choose|asked: Seq<Result<Geometry, Error>>|
            asked.len() <= n && #[trigger] common_geometry(asked, n) == Some(res) && forall|k: int|
                0 <= k < asked.len() ==> answers(geometry_of, names@[k]@, #[trigger] asked[k]);
        assert forall|k: int| 0 <= k < n implies exists|name: &str|
            name@ == (#[trigger] names@[k])@ && #[trigger] geometry_of.ensures(
                (name,),
                Ok(geometry),
            ) by {
            assert(answers(geometry_of, names@[k]@, asked[k]));
            if k < n - 1 {
                assert(asked.drop_last()[k] == asked[k]);
                assert(asked.drop_last()[0] == asked[0]);
            }
            assert(asked[k] == Ok::<Geometry, Error>(geometry));
        }
    }
}

/// The only answer for the child with this name is `answer`.
pub open spec fn only_answers<F: Fn(&str) -> Result<Geometry, Error>>(
    geometry_of: F,
    name: Seq<char>,
    answer: Result<Geometry, Error>,
) -> bool {
    forall|text: &str, got: Result<Geometry, Error>|
        text@ == name && #[trigger] geometry_of.ensures((text,), got) ==> got == answer
}

/// Children that differ in their block length or their number of blocks make no mirror.
pub proof fn law_different_children_make_no_mirror<F: Fn(&str) -> Result<Geometry, Error>>(
    names: &Vec<String>,
    geometry_of: F,
    res: Result<Geometry, Error>,
    i: int,
    j: int,
    a: Geometry,
    b: Geometry,
)
    requires
        call_ensures(parse_children::<F>, (names, geometry_of), res),
        0 <= i < names@.len(),
        0 <= j < names@.len(),
        only_answers(geometry_of, names@[i]@, Ok(a)),
        only_answers(geometry_of, names@[j]@, Ok(b)),
        a.block_len != b.block_len || a.num_blocks != b.num_blocks,
    ensures
        res is Err,
{
    law_children_have_the_geometry(names, geometry_of, res);
    if let Ok(geometry) = res {
        let x = choose|name: &str|
            name@ == names@[i]@ && #[trigger] geometry_of.ensures((name,), Ok(geometry));
        let y = choose|name: &str|
            name@ == names@[j]@ && #[trigger] geometry_of.ensures((name,), Ok(geometry));
        assert(geometry_of.ensures((x,), Ok(geometry)));
        assert(geometry_of.ensures((y,), Ok(geometry)));
    }
}

/// Children that all have one geometry make a mirror of that geometry. The first child that has
/// none, behind children that are alike, decides the error, and the first that differs is an
/// error of the arguments; no children make no mirror.
pub proof fn law_equal_children_make_a_mirror<F: Fn(&str) -> Result<Geometry, Error>>(
    names: &Vec<String>,
    geometry_of: F,
    res: Result<Geometry, Error>,
    geometry: Geometry,
    stop: int,
    last: Result<Geometry, Error>,
)
    requires
        call_ensures(parse_children::<F>, (names, geometry_of), res),
        0 <= stop <= names@.len(),
        forall|k: int|
            0 <= k < stop ==> only_answers(geometry_of, (#[trigger] names@[k])@, Ok(geometry)),
        stop < names@.len() ==> only_answers(geometry_of, names@[stop]@, last),
    ensures
        names@.len() == 0 ==> res == Err::<Geometry, Error>(Error::InvalidArguments),
        0 < names@.len() == stop ==> res == Ok::<Geometry, Error>(geometry),
        stop < names@.len() && last is Err ==> res == last,
        0 < stop < names@.len() && last is Ok && last != Ok::<Geometry, Error>(geometry) ==> res
            == Err::<Geometry, Error>(Error::InvalidArguments),
{
    let n = names@.len();
    if n > 0 {
        let asked = choose|asked: Seq<Result<Geometry, Error>>|
            asked.len() <= n && #[trigger] common_geometry(asked, n) == Some(res) && forall|k: int|
                0 <= k < asked.len() ==> answers(geometry_of, names@[k]@, #[trigger] asked[k]);
        assert forall|k: int| 0 <= k < asked.len() && k < stop implies #[trigger] asked[k] == Ok::<
            Geometry,
            Error,
        >(geometry) by {
            assert(answers(geometry_of, names@[k]@, asked[k]));
            assert(only_answers(geometry_of, names@[k]@, Ok(geometry)));
        }
        if stop < asked.len() {
            assert(answers(geometry_of, names@[stop]@, asked[stop]));
            assert(asked[stop] == last);
            if stop < asked.len() - 1 {
                assert(asked.drop_last()[stop] == asked[stop]);
                assert(asked.drop_last()[0] == asked[0]);
            }
        }
    }
}

/// A read goes on to the next child around the circle, as long as there were fewer tries than
/// children; the first success completes the request, and it fails once every try failed.
pub proof fn law_read_goes_around(
    read: &mut Raid1Read,
    next_read: &mut usize,
    step: Raid1Step,
    tried: &mut Raid1Read,
    success: bool,
    next_tried: &mut usize,
    next_step: Raid1Step,
)
    requires
        call_ensures(Raid1Read::next, (read, next_read), step),
        call_ensures(Raid1Read::tried, (tried, success, next_tried), next_step),
        *old(next_read) < old(read).spec_children(),
        *old(next_tried) < old(tried).spec_children(),
    ensures
        old(read).spec_tried() < old(read).spec_children() ==> step == Raid1Step::Try(
            *final(next_read),
        ) && final(read).spec_tried() == old(read).spec_tried() + 1,
        old(read).spec_tried() < old(read).spec_children() ==> *final(next_read) == (if *old(
            next_read,
        ) + 1 < old(read).spec_children() {
            *old(next_read) + 1
        } else {
            0
        }),
        old(read).spec_tried() >= old(read).spec_children() ==> step == Raid1Step::Complete(
            IoStatus::Failure,
        ),
        success ==> next_step == Raid1Step::Complete(IoStatus::Success) && *final(next_tried)
            == *old(next_tried),
        !success && old(tried).spec_tried() < old(tried).spec_children() ==> next_step
            == Raid1Step::Try(*final(next_tried)) && *final(next_tried) == (if *old(next_tried) + 1
            < old(tried).spec_children() {
            *old(next_tried) + 1
        } else {
            0
        }),
        !success && old(tried).spec_tried() >= old(tried).spec_children() ==> next_step
            == Raid1Step::Complete(IoStatus::Failure),
{
    let n = old(read).spec_children();
    let m = old(tried).spec_children();
    if *old(next_read) + 1 < n {
        vstd::arithmetic::div_mod::lemma_small_mod((*old(next_read) + 1) as nat, n as nat);
    } else {
        vstd::arithmetic::div_mod::lemma_mod_self_0(n as int);
    }
    if *old(next_tried) + 1 < m {
        vstd::arithmetic::div_mod::lemma_small_mod((*old(next_tried) + 1) as nat, m as nat);
    } else {
        vstd::arithmetic::div_mod::lemma_mod_self_0(m as int);
    }
}

/// Wherever the last read went: a try goes to a child, and from the last read it takes one step
/// around the circle of the children.
pub proof fn law_read_stays_among_the_children(
    read: &mut Raid1Read,
    next_read: &mut usize,
    step: Raid1Step,
)
    requires
        call_ensures(Raid1Read::next, (read, next_read), step),
    ensures
        step is Try <==> old(read).spec_tried() < old(read).spec_children(),
        step is Try ==> *final(next_read) < old(read).spec_children(),
        step is Try ==> (*old(next_read) + 1 - *final(next_read)) % (old(read).spec_children() as int)
            == 0,
        step is Complete ==> *final(next_read) == *old(next_read),
        final(read).spec_children() == old(read).spec_children(),
{
    let n = old(read).spec_children() as int;
    let next = *old(next_read) + 1;
    if step is Try {
        vstd::arithmetic::div_mod::lemma_mod_bound(next, n);
        vstd::arithmetic::div_mod::lemma_fundamental_div_mod(next, n);
        vstd::arithmetic::div_mod::lemma_mod_multiples_basic(next / n, n);
        vstd::arithmetic::mul::lemma_mul_is_commutative(next / n, n);
    }
}

/// A read begins without a try, and a write begins with all children ahead of it, in order.
pub proof fn law_operations_begin(children: usize, read: Raid1Read, write: Raid1Write, c: usize)
    requires
        call_ensures(Raid1Read::new, (children,), read),
        call_ensures(Raid1Write::new, (children,), write),
    ensures
        read.spec_children() == children,
        read.spec_tried() == 0,
        write.remaining().len() == children,
        c < children ==> write.remaining()[c as int] == c,
{
    lemma_write_goes_to_every_child(children, c);
}

/// A write succeeds exactly where the write to some child did, and the children that failed are
/// told, each once and in order.
pub proof fn law_write_succeeds_with_one_child(
    successes: &Vec<bool>,
    res: (IoStatus, Vec<usize>),
    k: int,
)
    requires
        call_ensures(write_outcome, (successes,), res),
        successes@.len() <= usize::MAX,
    ensures
        res.0 == IoStatus::Success <==> exists|i: int|
            0 <= i < successes@.len() && #[trigger] successes@[i],
        forall|i: int, j: int| 0 <= i < j < res.1@.len() ==> res.1@[i] < res.1@[j],
        0 <= k < successes@.len() ==> (!successes@[k] <==> res.1@.contains(k as usize)),
        forall|i: int| 0 <= i < res.1@.len() ==> #[trigger] res.1@[i] < successes@.len(),
{
    lemma_failed_children(successes@, k);
    if successes@.contains(true) {
        let i = successes@.index_of(true);
        assert(successes@[i]);
    }
}

proof fn lemma_failed_children(successes: Seq<bool>, k: int)
    requires
        successes.len() <= usize::MAX,
    ensures
        ({
            let failed = failed_children(successes);
            &&& forall|i: int, j: int| 0 <= i < j < failed.len() ==> failed[i] < failed[j]
            &&& forall|i: int| 0 <= i < failed.len() ==> #[trigger] failed[i] < successes.len()
            &&& 0 <= k < successes.len() ==> (!successes[k] <==> failed.contains(k as usize))
        }),
    decreases successes.len(),
{
    if successes.len() > 0 {
        let before = successes.drop_last();
        let failed_before = failed_children(before);
        let failed = failed_children(successes);
        lemma_failed_children(before, k);
        if 0 <= k < successes.len() {
            if successes.last() {
                if k == successes.len() - 1 && failed.contains(k as usize) {
                    let i = failed.index_of(k as usize);
                    assert(failed[i] < before.len());
                }
            } else {
                assert(failed[failed.len() - 1] == successes.len() - 1);
                if k < successes.len() - 1 {
                    if failed_before.contains(k as usize) {
                        let i = failed_before.index_of(k as usize);
                        assert(failed[i] == k as usize);
                    }
                    if failed.contains(k as usize) {
                        let i = failed.index_of(k as usize);
                        assert(failed_before[i] == k as usize);
                    }
                }
            }
        }
    }
}

/// The options of a mirror are read as options with the defaults 512, 131072 and false; the first
/// that cannot be read decides the error.
pub proof fn law_mirror_options_are_read(
    args: &RpcCmdArgs,
    res: Result<Raid1BdevOpts, Error>,
    blocklen: Result<u32, Error>,
    blockcnt: Result<u64, Error>,
    write_cache: Result<bool, Error>,
)
    requires
        call_ensures(Raid1BdevOpts::from_rpc, (args,), res),
        call_ensures(read_u32, (args, "blocklen", 512u32), blocklen),
        call_ensures(read_u64, (args, "blockcnt", 131072u64), blockcnt),
        call_ensures(read_bool, (args, "write_cache", false), write_cache),
    ensures
        res is Ok <==> blocklen is Ok && blockcnt is Ok && write_cache is Ok,
        res matches Ok(opts) ==> blocklen == Ok::<u32, Error>(opts.blocklen) && blockcnt == Ok::<
            u64,
            Error,
        >(opts.blockcnt) && write_cache == Ok::<bool, Error>(opts.write_cache),
        res is Err ==> (res->Err_0 matches Error::InvalidField(name) && name@ == (if blocklen
            is Err {
            "blocklen"@
        } else if blockcnt is Err {
            "blockcnt"@
        } else {
            "write_cache"@
        })),
{
}

/// A mirror that is created has the geometry of its children and the write cache that its command
/// asks for, and nothing else is set. It has its name from then on, which has to be free.
pub proof fn law_mirror_is_created_with_its_geometry<B>(
    reg: &mut BdevRegistry<B>,
    args: &RpcCmdArgs,
    name: String,
    bdevh: B,
    geometry: Geometry,
    res: Result<SpdkBdevOptsC, Error>,
    write_cache: Result<bool, Error>,
)
    requires
        call_ensures(raid1_create_opts::<B>, (reg, args, name, bdevh, geometry), res),
        call_ensures(read_bool, (args, "write_cache", false), write_cache),
    ensures
        old(reg)@.contains_key(name@) ==> res == Err::<SpdkBdevOptsC, Error>(Error::AlreadyExists)
            && final(reg)@ == old(reg)@,
        !old(reg)@.contains_key(name@) ==> final(reg)@ == old(reg)@.insert(name@, bdevh),
        res matches Ok(opts) ==> {
            &&& geometry.block_len <= u32::MAX ==> opts.blocklen == geometry.block_len
            &&& opts.blockcnt == geometry.num_blocks
            &&& write_cache == Ok::<bool, Error>(opts.write_cache)
            &&& opts.phys_blocklen == 0 && opts.split_on_write_unit == 0
            &&& opts.split_on_optimal_io_boundary == 0 && opts.md_interleave == 0
            &&& opts.dif_is_head_of_md == 0 && opts.write_unit_size == 0
            &&& opts.optimal_io_boundary == 0 && opts.preferred_write_alignment == 0
            &&& opts.preferred_write_granularity == 0 && opts.optimal_write_size == 0
            &&& opts.preferred_unmap_alignment == 0 && opts.preferred_unmap_granularity == 0
        },
{
}

/// The command to create a mirror needs a name and children; the children's names are what stands
/// between the commas.
pub proof fn law_children_are_between_commas(args: &RpcCmdArgs, res: Result<Raid1Create, Error>)
    requires
        call_ensures(raid1_create_args, (args,), res),
    ensures
        res is Ok <==> args@.contains_key("name"@) && args@.contains_key("children"@),
        res matches Err(e) ==> e is InvalidArguments,
        res matches Ok(create) ==> {
            &&& create.name@ == args@["name"@]@
            &&& create.children@.len() > 0
            &&& forall|i: int, k: int|
                0 <= i < create.children@.len() && 0 <= k < create.children@[i]@.len()
                    ==> #[trigger] create.children@[i]@[k] != ','
            &&& interleaved(
                written(create.children@),
                Seq::new((create.children@.len() - 1) as nat, |i: int| ','),
            ) == args@["children"@]@
        },
{
    if let Ok(create) = res {
        lemma_pieces_make_up(args@["children"@]@, ',', create.children@);
    }
}

/// A write goes to the first child that is left, and ends where none is.
pub proof fn law_write_takes_the_next_child(write: &mut Raid1Write, res: Option<usize>)
    requires
        call_ensures(Raid1Write::next, (write,), res),
    ensures
        res is Some <==> old(write).remaining().len() > 0,
        res matches Some(child) ==> old(write).remaining() == seq![child] + final(write).remaining(),
        res is None ==> final(write).remaining().len() == 0,
{
    if let Some(child) = res {
        assert(old(write).remaining() =~= seq![child] + final(write).remaining());
    }
}

/// The mirror reads, writes and flushes, and only that: a request of a type that it does not
/// support fails, and only such a request fails at once.
pub proof fn law_mirror_does_what_it_supports(
    io_type: IoType,
    supported: bool,
    action: Raid1Action,
)
    requires
        call_ensures(io_type_supported, (io_type,), supported),
        call_ensures(raid1_action, (io_type,), action),
    ensures
        supported <==> io_type is Read || io_type is Write || io_type is Flush,
        !supported <==> action == Raid1Action::Complete(IoStatus::Failure),
        io_type is Read <==> action is Read,
        io_type is Write <==> action is Write,
        io_type is Flush <==> action == Raid1Action::Complete(IoStatus::Success),
{
}

/// The options of a mirror are handed on as they are, and nothing else is set.
pub proof fn law_mirror_options_are_handed_on(opts: &Raid1BdevOpts, c: SpdkBdevOptsC)
    requires
        call_ensures(Raid1BdevOpts::to_c, (opts,), c),
    ensures
        c.blocklen == opts.blocklen,
        c.blockcnt == opts.blockcnt,
        c.write_cache == opts.write_cache,
        c.phys_blocklen == 0 && c.split_on_write_unit == 0 && c.split_on_optimal_io_boundary == 0,
        c.md_interleave == 0 && c.dif_is_head_of_md == 0 && c.write_unit_size == 0,
        c.optimal_io_boundary == 0 && c.preferred_write_alignment == 0,
        c.preferred_write_granularity == 0 && c.optimal_write_size == 0,
        c.preferred_unmap_alignment == 0 && c.preferred_unmap_granularity == 0,
{
}

/// A mirror that SPDK refuses loses its name again, and other devices keep theirs; the reply names
/// the mirror where SPDK takes it.
pub proof fn law_refused_mirror_loses_its_name<B>(
    reg: &mut BdevRegistry<B>,
    name: String,
    rc: i32,
    res: Result<String, Error>,
    other: Seq<char>,
)
    requires
        call_ensures(raid1_create_reply::<B>, (reg, name, rc), res),
        other != name@,
    ensures
        res is Ok <==> rc == 0,
        res matches Ok(reply) ==> reply@ == "Successfully created RAID1 bdev: '"@ + name@ + "'"@
            && final(reg)@ == old(reg)@,
        rc != 0 ==> !final(reg)@.contains_key(name@),
        rc != 0 && old(reg)@.contains_key(name@) ==> res == Err::<String, Error>(
            Error::SpdkBdevCreate(rc),
        ),
        rc != 0 && !old(reg)@.contains_key(name@) ==> res == Err::<String, Error>(
            Error::SpdkBdevNotFound(name),
        ),
        final(reg)@.contains_key(other) == old(reg)@.contains_key(other),
        old(reg)@.contains_key(other) ==> final(reg)@[other] == old(reg)@[other],
{
}

} // verus!
