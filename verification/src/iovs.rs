//! Scatter/gather lists and the bytes they cover.
use vstd::prelude::*;
use crate::c::iovec;
use crate::error::Error;

verus! {

/// A scatter/gather list that keeps up to two segments inline: a `smallvec::SmallVec`, of which
/// only what the four methods below claim is known.
#[verifier::external_body]
pub struct Iovecs {
    inner: smallvec::SmallVec<[iovec; 2]>,
}

/// The segments that a list holds, first to last.
pub uninterp spec fn iovecs_contents(v: Iovecs) -> Seq<iovec>;

impl View for Iovecs {
    type V = Seq<iovec>;

    open spec fn view(&self) -> Seq<iovec> {
        iovecs_contents(*self)
    }
}

impl Iovecs {
    /// Calls `SmallVec::new`: the new list holds no segment.
    #[verifier::external_body]
    pub(crate) fn new() -> (v: Iovecs)
        ensures
            iovecs_contents(v) == Seq::<iovec>::empty(),
    {
        Iovecs { inner: smallvec::SmallVec::new() }
    }

    /// Calls `SmallVec::from_slice`: the new list holds a copy of each segment of the slice, in
    /// order.
    #[verifier::external_body]
    pub(crate) fn from_slice(iovs: &[iovec]) -> (v: Iovecs)
        ensures
            iovecs_contents(v) == iovs@,
    {
        Iovecs { inner: smallvec::SmallVec::from_slice(iovs) }
    }

    /// Calls `SmallVec::push`: the segment is appended at the end and the others stay.
    #[verifier::external_body]
    pub(crate) fn push(&mut self, iov: iovec)
        ensures
            iovecs_contents(*final(self)) == iovecs_contents(*old(self)).push(iov),
    {
        self.inner.push(iov)
    }

    /// Calls `SmallVec::as_slice`: the slice holds exactly the segments of the list, in order.
    #[verifier::external_body]
    fn as_slice(&self) -> (iovs: &[iovec])
        ensures
            iovs@ == iovecs_contents(*self),
    {
        self.inner.as_slice()
    }

    /// Returns the segments of the list.
    pub fn segments(&self) -> (iovs: &[iovec])
        ensures
            iovs@ == self@,
    {
        self.as_slice()
    }
}

/// The addresses of the bytes of one segment.
pub open spec fn segment_addrs(iov: iovec) -> Seq<int> {
    Seq::new(iov.iov_len as nat, |i: int| iov.iov_base + i)
}

/// The addresses of the bytes of a scatter/gather list, in the order in which the list gives them.
pub open spec fn addrs(iovs: Seq<iovec>) -> Seq<int>
    decreases iovs.len(),
{
    if iovs.len() == 0 {
        Seq::empty()
    } else {
        segment_addrs(iovs[0]) + addrs(iovs.skip(1))
    }
}

/// The number of bytes of a scatter/gather list.
pub open spec fn total_len(iovs: Seq<iovec>) -> nat
    decreases iovs.len(),
{
    if iovs.len() == 0 {
        0
    } else {
        iovs[0].iov_len as nat + total_len(iovs.skip(1))
    }
}

/// Every segment of the list ends inside the address space.
pub open spec fn all_valid(iovs: Seq<iovec>) -> bool {
    forall|i: int| 0 <= i < iovs.len() ==> (#[trigger] iovs[i]).valid()
}

/// A window of `len` bytes at `offset` can be cut out of `total` bytes.
pub open spec fn window_fits(total: nat, offset: nat, len: nat) -> bool {
    offset + len <= total
}

/// The part of a scatter/gather list that covers the `len` bytes from byte `offset` on. Segments
/// in front of the window are left out, the first one is cut at its front, the last one at its
/// end, and those between stay whole. A window without bytes is a segment without bytes, where the
/// list goes on, and no segment at its end.
pub open spec fn sliced(iovs: Seq<iovec>, offset: nat, len: nat) -> Option<Seq<iovec>>
    decreases iovs.len(),
{
    if iovs.len() == 0 {
        if offset == 0 && len == 0 {
            Some(Seq::empty())
        } else {
            None
        }
    } else if offset >= iovs[0].iov_len {
        sliced(iovs.skip(1), (offset - iovs[0].iov_len) as nat, len)
    } else if len <= iovs[0].iov_len - offset {
        Some(
            seq![
                iovec { iov_base: (iovs[0].iov_base + offset) as usize, iov_len: len as usize },
            ],
        )
    } else {
        let avail = (iovs[0].iov_len - offset) as nat;
        match sliced(iovs.skip(1), 0, (len - avail) as nat) {
            Some(rest) => Some(
                seq![
                    iovec { iov_base: (iovs[0].iov_base + offset) as usize, iov_len: avail as usize },
                ] + rest,
            ),
            None => None,
        }
    }
}

/// A list has one address for each of its bytes.
pub proof fn lemma_addrs_len(iovs: Seq<iovec>)
    ensures
        addrs(iovs).len() == total_len(iovs),
    decreases iovs.len(),
{
    if iovs.len() > 0 {
        lemma_addrs_len(iovs.skip(1));
    }
}

/// A part of a list exists exactly where the window fits, it covers exactly the bytes of the
/// window, in order, and it stays inside the address space.
pub proof fn lemma_sliced_covers_window(iovs: Seq<iovec>, offset: nat, len: nat)
    requires
        all_valid(iovs),
    ensures
        sliced(iovs, offset, len) is Some <==> window_fits(total_len(iovs), offset, len),
        sliced(iovs, offset, len) matches Some(part) ==> {
            &&& addrs(part) == addrs(iovs).subrange(offset as int, (offset + len) as int)
            &&& total_len(part) == len
            &&& all_valid(part)
            &&& len > 0 ==> part.len() > 0
        },
    decreases iovs.len(),
{
    if iovs.len() == 0 {
        if len == 0 && offset == 0 {
            assert(addrs(iovs).subrange(0, 0) =~= Seq::<int>::empty());
        }
    } else {
        let rest = iovs.skip(1);
        let head = iovs[0];
        lemma_addrs_len(iovs);
        lemma_addrs_len(rest);
        assert forall|i: int| 0 <= i < rest.len() implies (#[trigger] rest[i]).valid() by {
            assert(rest[i] == iovs[i + 1]);
        }
        if offset >= head.iov_len {
            let o = (offset - head.iov_len) as nat;
            lemma_sliced_covers_window(rest, o, len);
            if sliced(iovs, offset, len) is Some {
                assert(addrs(rest).subrange(o as int, (o + len) as int) =~= addrs(iovs).subrange(
                    offset as int,
                    (offset + len) as int,
                ));
            }
        } else if len <= head.iov_len - offset {
            let cut = iovec { iov_base: (head.iov_base + offset) as usize, iov_len: len as usize };
            assert(seq![cut].skip(1) =~= Seq::<iovec>::empty());
            assert(addrs(seq![cut].skip(1)) =~= Seq::<int>::empty());
            assert(total_len(seq![cut].skip(1)) == 0);
            assert(addrs(seq![cut]) =~= addrs(iovs).subrange(offset as int, (offset + len) as int));
        } else {
            let avail = (head.iov_len - offset) as nat;
            let cut = iovec { iov_base: (head.iov_base + offset) as usize, iov_len: avail as usize };
            lemma_sliced_covers_window(rest, 0, (len - avail) as nat);
            if let Some(tail) = sliced(rest, 0, (len - avail) as nat) {
                let part = seq![cut] + tail;
                assert(part.skip(1) =~= tail);
                assert(addrs(part) =~= addrs(iovs).subrange(offset as int, (offset + len) as int));
                assert forall|i: int| 0 <= i < part.len() implies (#[trigger] part[i]).valid() by {
                    if i > 0 {
                        assert(part[i] == tail[i - 1]);
                    }
                }
            }
        }
    }
}

/// Segment `a` is a part of segment `b`.
pub open spec fn within(a: iovec, b: iovec) -> bool {
    b.iov_base <= a.iov_base && a.iov_base + a.iov_len <= b.iov_base + b.iov_len
}

/// A part of a list keeps the layout of the list: each of its segments is a part of a segment of
/// the list; each but the first begins where that segment begins, and each but the last ends
/// where it ends. No segment of a part with bytes is empty.
pub proof fn lemma_sliced_keeps_layout(iovs: Seq<iovec>, offset: nat, len: nat, k: int)
    requires
        all_valid(iovs),
        sliced(iovs, offset, len) is Some,
        0 <= k < sliced(iovs, offset, len).unwrap().len(),
    ensures
        ({
            let part = sliced(iovs, offset, len).unwrap();
            &&& exists|j: int|
                0 <= j < iovs.len() && within(part[k], #[trigger] iovs[j]) && (0 < k
                    ==> part[k].iov_base == iovs[j].iov_base) && (k < part.len() - 1
                    ==> part[k].iov_base + part[k].iov_len == iovs[j].iov_base + iovs[j].iov_len)
            &&& len > 0 ==> part[k].iov_len > 0
        }),
    decreases iovs.len(),
{
    let part = sliced(iovs, offset, len).unwrap();
    let head = iovs[0];
    let rest = iovs.skip(1);
    assert(all_valid(rest)) by {
        assert forall|i: int| 0 <= i < rest.len() implies (#[trigger] rest[i]).valid() by {
            assert(rest[i] == iovs[i + 1]);
        }
    }
    if offset >= head.iov_len {
        let o = (offset - head.iov_len) as nat;
        lemma_sliced_keeps_layout(rest, o, len, k);
        let j = choose|j: int|
            0 <= j < rest.len() && within(part[k], #[trigger] rest[j]) && (0 < k
                ==> part[k].iov_base == rest[j].iov_base) && (k < part.len() - 1
                ==> part[k].iov_base + part[k].iov_len == rest[j].iov_base + rest[j].iov_len);
        assert(rest[j] == iovs[j + 1]);
    } else if len <= head.iov_len - offset {
        assert(within(part[k], iovs[0]));
    } else {
        let avail = (head.iov_len - offset) as nat;
        let tail = sliced(rest, 0, (len - avail) as nat).unwrap();
        if k == 0 {
            assert(within(part[k], iovs[0]));
        } else {
            lemma_sliced_keeps_layout(rest, 0, (len - avail) as nat, k - 1);
            lemma_sliced_begins_with_segment(rest, (len - avail) as nat);
            assert(part[k] == tail[k - 1]);
            if k == 1 {
                let j = choose|j: int|
                    0 <= j < rest.len() && within(tail[0], #[trigger] rest[j]) && tail[0].iov_base
                        == rest[j].iov_base && (0 < tail.len() - 1 ==> tail[0].iov_base
                        + tail[0].iov_len == rest[j].iov_base + rest[j].iov_len);
                assert(rest[j] == iovs[j + 1]);
            } else {
                let j = choose|j: int|
                    0 <= j < rest.len() && within(tail[k - 1], #[trigger] rest[j]) && (0 < k - 1
                        ==> tail[k - 1].iov_base == rest[j].iov_base) && (k - 1 < tail.len() - 1
                        ==> tail[k - 1].iov_base + tail[k - 1].iov_len == rest[j].iov_base
                        + rest[j].iov_len);
                assert(rest[j] == iovs[j + 1]);
            }
        }
    }
}

proof fn lemma_sliced_begins_with_segment(iovs: Seq<iovec>, len: nat)
    requires
        all_valid(iovs),
        sliced(iovs, 0, len) is Some,
        len > 0,
    ensures
        sliced(iovs, 0, len).unwrap().len() > 0,
        ({
            let part = sliced(iovs, 0, len).unwrap();
            exists|j: int|
                0 <= j < iovs.len() && within(part[0], #[trigger] iovs[j]) && part[0].iov_base
                    == iovs[j].iov_base && (0 < part.len() - 1 ==> part[0].iov_base
                    + part[0].iov_len == iovs[j].iov_base + iovs[j].iov_len)
        }),
    decreases iovs.len(),
{
    let part = sliced(iovs, 0, len).unwrap();
    let head = iovs[0];
    let rest = iovs.skip(1);
    if head.iov_len == 0 {
        assert forall|i: int| 0 <= i < rest.len() implies (#[trigger] rest[i]).valid() by {
            assert(rest[i] == iovs[i + 1]);
        }
        lemma_sliced_begins_with_segment(rest, len);
        let j = choose|j: int|
            0 <= j < rest.len() && within(part[0], #[trigger] rest[j]) && part[0].iov_base
                == rest[j].iov_base && (0 < part.len() - 1 ==> part[0].iov_base + part[0].iov_len
                == rest[j].iov_base + rest[j].iov_len);
        assert(rest[j] == iovs[j + 1]);
    } else {
        assert(within(part[0], iovs[0]));
    }
}

/// Cuts the `len` bytes from byte `offset` on out of a scatter/gather list.
pub fn slice_iovs(iovs: &[iovec], offset: usize, len: usize) -> (res: Result<Iovecs, Error>)
    requires
        all_valid(iovs@),
    ensures
        match res {
            Ok(part) => {
                &&& window_fits(total_len(iovs@), offset as nat, len as nat)
                &&& sliced(iovs@, offset as nat, len as nat) == Some(part@)
                &&& addrs(part@) == addrs(iovs@).subrange(offset as int, offset + len)
                &&& all_valid(part@)
            },
            Err(e) => {
                &&& e is OutOfRange
                &&& !window_fits(total_len(iovs@), offset as nat, len as nat)
            },
        },
{
    proof {
        lemma_sliced_covers_window(iovs@, offset as nat, len as nat);
    }
    let mut result = Iovecs::new();
    let mut left_offset: usize = offset;
    let mut left_len: usize = len;
    let mut i: usize = 0;
    assert(iovs@.skip(0) =~= iovs@);
    while i < iovs.len()
        invariant
            i <= iovs@.len(),
            all_valid(iovs@),
            sliced(iovs@, offset as nat, len as nat) == (match sliced(
                iovs@.skip(i as int),
                left_offset as nat,
                left_len as nat,
            ) {
                Some(rest) => Some(result@ + rest),
                None => None::<Seq<iovec>>,
            }),
            sliced(iovs@, offset as nat, len as nat) is Some <==> window_fits(
                total_len(iovs@),
                offset as nat,
                len as nat,
            ),
            sliced(iovs@, offset as nat, len as nat) matches Some(part) ==> {
                &&& addrs(part) == addrs(iovs@).subrange(offset as int, offset + len)
                &&& all_valid(part)
            },
        decreases iovs@.len() - i,
    {
        let iov = iovs[i];
        let ghost before = result@;
        let ghost tail = iovs@.skip(i as int);
        assert(tail[0] == iov);
        assert(tail.skip(1) =~= iovs@.skip(i + 1));
        i = i + 1;
        if left_offset >= iov.iov_len {
            left_offset = left_offset - iov.iov_len;
            continue ;
        }
        let start: usize = left_offset;
        let avail: usize = iov.iov_len - start;
        let take: usize = if avail < left_len { avail } else { left_len };
        let cut = iovec { iov_base: iov.iov_base + start, iov_len: take };
        result.push(cut);
        left_len = left_len - take;
        left_offset = 0;
        if left_len == 0 {
            assert(result@ =~= before + seq![cut]);
            return Ok(result);
        }
        proof {
            if let Some(rest) = sliced(iovs@.skip(i as int), 0, left_len as nat) {
                assert(before + (seq![cut] + rest) =~= result@ + rest);
            }
        }
    }
    assert(iovs@.skip(i as int) =~= Seq::<iovec>::empty());
    if left_offset == 0 && left_len == 0 {
        assert(result@ + Seq::<iovec>::empty() =~= result@);
        return Ok(result);
    }
    Err(Error::OutOfRange)
}

/// The front of a scatter/gather list, of at most `len` bytes: the last segment is cut where the
/// list has more bytes.
pub open spec fn front(iovs: Seq<iovec>, len: nat) -> Seq<iovec>
    decreases iovs.len(),
{
    if iovs.len() == 0 {
        Seq::empty()
    } else if iovs[0].iov_len <= len {
        seq![iovs[0]] + front(iovs.skip(1), (len - iovs[0].iov_len) as nat)
    } else if len == 0 {
        Seq::empty()
    } else {
        seq![iovec { iov_base: iovs[0].iov_base, iov_len: len as usize }]
    }
}

/// The front of a list has the first bytes of the list, as many as asked for where there are as
/// many, and it is the list itself where there are no more.
pub proof fn lemma_front_covers_first_bytes(iovs: Seq<iovec>, len: nat)
    requires
        all_valid(iovs),
    ensures
        all_valid(front(iovs, len)),
        total_len(iovs) <= len ==> front(iovs, len) == iovs,
        total_len(iovs) >= len ==> total_len(front(iovs, len)) == len && addrs(front(iovs, len))
            == addrs(iovs).take(len as int),
    decreases iovs.len(),
{
    lemma_addrs_len(iovs);
    if iovs.len() == 0 {
        assert(front(iovs, len) =~= iovs);
        assert(addrs(iovs).take(0) =~= addrs(iovs));
    } else {
        let head = iovs[0];
        let rest = iovs.skip(1);
        assert forall|i: int| 0 <= i < rest.len() implies (#[trigger] rest[i]).valid() by {
            assert(rest[i] == iovs[i + 1]);
        }
        if head.iov_len <= len {
            let left = (len - head.iov_len) as nat;
            let tail = front(rest, left);
            let part = seq![head] + tail;
            lemma_front_covers_first_bytes(rest, left);
            lemma_addrs_len(rest);
            assert(part.skip(1) =~= tail);
            assert forall|i: int| 0 <= i < part.len() implies (#[trigger] part[i]).valid() by {
                if i > 0 {
                    assert(part[i] == tail[i - 1]);
                }
            }
            if total_len(rest) <= left {
                assert(part =~= iovs);
            }
            if total_len(rest) >= left {
                assert(addrs(part) =~= addrs(iovs).take(len as int));
            }
        } else if len == 0 {
            assert(addrs(front(iovs, len)) =~= addrs(iovs).take(0));
        } else {
            let cut = iovec { iov_base: head.iov_base, iov_len: len as usize };
            assert(seq![cut].skip(1) =~= Seq::<iovec>::empty());
            assert(addrs(seq![cut].skip(1)) =~= Seq::<int>::empty());
            assert(total_len(seq![cut].skip(1)) == 0);
            assert(addrs(seq![cut]) =~= addrs(iovs).take(len as int));
        }
    }
}

/// Cuts a scatter/gather list to its first `len` bytes.
pub(crate) fn front_iovs(iovs: &[iovec], len: usize) -> (part: Iovecs)
    ensures
        part@ == front(iovs@, len as nat),
{
    let mut left: usize = len;
    let mut whole: usize = 0;
    assert(iovs@.take(0) + front(iovs@.skip(0), len as nat) =~= front(iovs@, len as nat)) by {
        assert(iovs@.skip(0) =~= iovs@);
    }
    while whole < iovs.len() && iovs[whole].iov_len <= left
        invariant
            whole <= iovs@.len(),
            front(iovs@, len as nat) == iovs@.take(whole as int) + front(
                iovs@.skip(whole as int),
                left as nat,
            ),
        decreases iovs@.len() - whole,
    {
        let ghost rest = iovs@.skip(whole as int);
        assert(rest[0] == iovs@[whole as int]);
        assert(rest.skip(1) =~= iovs@.skip(whole + 1));
        left = left - iovs[whole].iov_len;
        assert(iovs@.take(whole as int) + (seq![rest[0]] + front(rest.skip(1), left as nat))
            =~= iovs@.take(whole + 1) + front(rest.skip(1), left as nat));
        whole = whole + 1;
    }
    let mut part = Iovecs::from_slice(vstd::slice::slice_subrange(iovs, 0, whole));
    assert(part@ =~= iovs@.take(whole as int));
    let ghost rest = iovs@.skip(whole as int);
    if whole < iovs.len() && left > 0 {
        assert(rest[0] == iovs@[whole as int]);
        part.push(iovec { iov_base: iovs[whole].iov_base, iov_len: left });
    }
    assert(part@ =~= iovs@.take(whole as int) + front(rest, left as nat));
    part
}

} // verus!
