//! Sequential splitting of zero-copy views.
use vstd::prelude::*;
use crate::c::iovec;
use crate::error::Error;
use crate::io::{IoRef, IoRefView};
use crate::iovs::{
    addrs, all_valid, lemma_addrs_len, lemma_sliced_covers_window, slice_iovs, sliced, total_len,
};

verus! {

/// Splits a view into consecutive children without copying data. A child may begin or end in the
/// middle of a segment of the parent.
pub struct IoRefSplitter<'a> {
    parent_iovs: &'a [iovec],
    parent_total_bytes: usize,
    child_block_len: usize,
    cursor_bytes: usize,
}

/// The state of a splitter: the parent's segments and length in bytes, the block length of the
/// children, and the number of bytes taken so far.
pub struct SplitterState {
    pub iovs: Seq<iovec>,
    pub total_bytes: nat,
    pub child_block_len: nat,
    pub cursor: nat,
}

impl SplitterState {
    /// A splitter that has taken nothing of `parent` yet.
    pub open spec fn fresh(parent: IoRefView, child_block_len: nat) -> SplitterState {
        SplitterState {
            iovs: parent.iovs,
            total_bytes: parent.total_bytes(),
            child_block_len,
            cursor: 0,
        }
    }

    /// The parent's segments end inside the address space, and the splitter stands at a child
    /// block inside the parent.
    pub open spec fn valid(self) -> bool {
        &&& all_valid(self.iovs)
        &&& self.cursor <= self.total_bytes <= usize::MAX
        &&& self.cursor <= total_len(self.iovs)
        &&& self.child_block_len <= usize::MAX
        &&& if self.child_block_len == 0 {
            self.cursor == 0
        } else {
            self.cursor as int % self.child_block_len as int == 0
        }
    }

    /// The next `blocks` blocks lie inside the parent: inside its blocks and, where they have
    /// bytes, inside its segments.
    pub open spec fn in_range(self, blocks: nat) -> bool {
        let bytes = blocks * self.child_block_len;
        &&& self.cursor + bytes <= self.total_bytes
        &&& bytes > 0 ==> self.cursor + bytes <= total_len(self.iovs)
    }

    /// The splitter after `blocks` blocks were taken.
    pub open spec fn advanced(self, blocks: nat) -> SplitterState {
        SplitterState { cursor: self.cursor + blocks * self.child_block_len, ..self }
    }

    /// The child that the next `blocks` blocks make: it refers to the parent's memory, knows its
    /// position in the parent, and has no logical block address yet.
    pub open spec fn child(self, blocks: nat) -> IoRefView {
        IoRefView {
            iovs: sliced(self.iovs, self.cursor, blocks * self.child_block_len).unwrap(),
            offset_blocks: 0,
            ref_offset: if self.child_block_len == 0 {
                0
            } else {
                (self.cursor as int / self.child_block_len as int) as usize
            },
            num_blocks: blocks as usize,
            block_len: self.child_block_len as usize,
        }
    }
}

impl<'a> View for IoRefSplitter<'a> {
    type V = SplitterState;

    closed spec fn view(&self) -> SplitterState {
        SplitterState {
            iovs: self.parent_iovs@,
            total_bytes: self.parent_total_bytes as nat,
            child_block_len: self.child_block_len as nat,
            cursor: self.cursor_bytes as nat,
        }
    }
}

impl<'a> IoRefSplitter<'a> {
    #[verifier::type_invariant]
    closed spec fn inv(&self) -> bool {
        self@.valid()
    }

    /// A splitter of `parent` into children with blocks of `child_block_len` bytes, or of the
    /// parent's block length where none is given.
    pub(crate) fn new(parent: &'a IoRef<'a>, child_block_len: Option<usize>) -> (s: IoRefSplitter<
        'a,
    >)
        ensures
            s@ == SplitterState::fresh(
                parent@,
                (match child_block_len {
                    Some(len) => len,
                    None => parent@.block_len,
                }) as nat,
            ),
    {
        let child_block_len = match child_block_len {
            Some(len) => len,
            None => parent.block_len(),
        };
        let parent_total_bytes = parent.total_bytes();
        proof {
            if child_block_len > 0 {
                vstd::arithmetic::div_mod::lemma_small_mod(0, child_block_len as nat);
            }
        }
        IoRefSplitter {
            parent_iovs: parent.iovs(),
            parent_total_bytes,
            child_block_len,
            cursor_bytes: 0,
        }
    }

    /// Takes the next `blocks` blocks. The splitter advances only where it gives a child.
    pub fn take(&mut self, blocks: usize) -> (res: Result<IoRef<'a>, Error>)
        requires
            old(self)@.child_block_len == 0 ==> total_len(old(self)@.iovs) == 0,
        ensures
            match res {
                Ok(child) => {
                    &&& old(self)@.in_range(blocks as nat)
                    &&& child@ == old(self)@.child(blocks as nat)
                    &&& addrs(child@.iovs) == addrs(old(self)@.iovs).subrange(
                        old(self)@.cursor as int,
                        final(self)@.cursor as int,
                    )
                    &&& final(self)@ == old(self)@.advanced(blocks as nat)
                },
                Err(e) => {
                    &&& !old(self)@.in_range(blocks as nat)
                    &&& e is OutOfRange
                    &&& final(self)@ == old(self)@
                },
            },
    {
        proof {
            use_type_invariant(&*self);
        }
        let bytes: usize = match blocks.checked_mul(self.child_block_len) {
            Some(bytes) => bytes,
            None => {
                return Err(Error::OutOfRange);
            },
        };
        if bytes > self.parent_total_bytes - self.cursor_bytes {
            return Err(Error::OutOfRange);
        }
        let iovs = match slice_iovs(self.parent_iovs, self.cursor_bytes, bytes) {
            Ok(iovs) => iovs,
            Err(_) => {
                return Err(Error::OutOfRange);
            },
        };
        let ref_offset: usize = if self.child_block_len == 0 {
            0
        } else {
            self.cursor_bytes / self.child_block_len
        };
        let child = IoRef::child(iovs, ref_offset, blocks, self.child_block_len);
        proof {
            if self.child_block_len > 0 {
                vstd::arithmetic::div_mod::lemma_mod_multiples_vanish(
                    blocks as int,
                    self.cursor_bytes as int,
                    self.child_block_len as int,
                );
            }
        }
        self.cursor_bytes = self.cursor_bytes + bytes;
        Ok(child)
    }
}

/// A child refers to exactly the bytes of the parent from the splitter's position on, holds a
/// whole number of blocks, and its position in the parent is the splitter's position in blocks.
pub proof fn lemma_child_is_window(state: SplitterState, blocks: nat)
    requires
        state.valid(),
        state.child_block_len > 0,
        state.in_range(blocks),
    ensures
        state.child(blocks).valid(),
        state.child(blocks).covers_blocks(),
        state.child(blocks).ref_offset * state.child_block_len == state.cursor,
        addrs(state.child(blocks).iovs) == addrs(state.iovs).subrange(
            state.cursor as int,
            state.advanced(blocks).cursor as int,
        ),
        state.advanced(blocks).valid(),
{
    let bytes = blocks * state.child_block_len;
    lemma_sliced_covers_window(state.iovs, state.cursor, bytes);
    assert(blocks <= bytes) by (nonlinear_arith)
        requires
            bytes == blocks * state.child_block_len,
            state.child_block_len > 0,
    ;
    vstd::arithmetic::div_mod::lemma_fundamental_div_mod(
        state.cursor as int,
        state.child_block_len as int,
    );
    let q = state.cursor as int / state.child_block_len as int;
    assert(0 <= q <= state.cursor) by (nonlinear_arith)
        requires
            q == state.cursor as int / state.child_block_len as int,
            state.child_block_len > 0,
    ;
    vstd::arithmetic::mul::lemma_mul_is_commutative(q, state.child_block_len as int);
    vstd::arithmetic::mul::lemma_mul_is_commutative(blocks as int, state.child_block_len as int);
    vstd::arithmetic::div_mod::lemma_mod_multiples_vanish(
        blocks as int,
        state.cursor as int,
        state.child_block_len as int,
    );
}

/// Each of the block counts, taken one after the other, lies inside the parent.
pub open spec fn all_in_range(state: SplitterState, counts: Seq<nat>) -> bool
    decreases counts.len(),
{
    counts.len() == 0 || (state.in_range(counts[0]) && all_in_range(
        state.advanced(counts[0]),
        counts.skip(1),
    ))
}

/// The splitter after the block counts were taken, one after the other.
pub open spec fn advanced_by_all(state: SplitterState, counts: Seq<nat>) -> SplitterState
    decreases counts.len(),
{
    if counts.len() == 0 {
        state
    } else {
        advanced_by_all(state.advanced(counts[0]), counts.skip(1))
    }
}

/// The addresses of the bytes of the children that the block counts make, child after child.
pub open spec fn addrs_of_children(state: SplitterState, counts: Seq<nat>) -> Seq<int>
    decreases counts.len(),
{
    if counts.len() == 0 {
        Seq::empty()
    } else {
        addrs(state.child(counts[0]).iovs) + addrs_of_children(
            state.advanced(counts[0]),
            counts.skip(1),
        )
    }
}

/// However a parent is split, its children together refer to consecutive bytes of it, each byte
/// once and in order.
pub proof fn lemma_children_are_consecutive(state: SplitterState, counts: Seq<nat>)
    requires
        state.valid(),
        state.child_block_len > 0,
        all_in_range(state, counts),
    ensures
        state.cursor <= advanced_by_all(state, counts).cursor <= addrs(state.iovs).len(),
        addrs_of_children(state, counts) == addrs(state.iovs).subrange(
            state.cursor as int,
            advanced_by_all(state, counts).cursor as int,
        ),
        advanced_by_all(state, counts).valid(),
        advanced_by_all(state, counts).iovs == state.iovs,
    decreases counts.len(),
{
    lemma_addrs_len(state.iovs);
    if counts.len() == 0 {
        assert(addrs(state.iovs).subrange(state.cursor as int, state.cursor as int) =~= Seq::<
            int,
        >::empty());
    } else {
        let next = state.advanced(counts[0]);
        lemma_child_is_window(state, counts[0]);
        lemma_children_are_consecutive(next, counts.skip(1));
        let end = advanced_by_all(state, counts).cursor as int;
        assert(addrs(state.iovs).subrange(state.cursor as int, next.cursor as int) + addrs(
            state.iovs,
        ).subrange(next.cursor as int, end) =~= addrs(state.iovs).subrange(
            state.cursor as int,
            end,
        ));
    }
}

/// A parent whose segments hold exactly its blocks, and which is split to its end, is covered by
/// its children: their bytes, child after child, are the bytes of the parent.
pub proof fn lemma_split_to_the_end_covers_parent(
    parent: IoRefView,
    child_block_len: nat,
    counts: Seq<nat>,
)
    requires
        parent.valid(),
        parent.covers_blocks(),
        0 < child_block_len <= usize::MAX,
        all_in_range(SplitterState::fresh(parent, child_block_len), counts),
        advanced_by_all(SplitterState::fresh(parent, child_block_len), counts).cursor
            == parent.total_bytes(),
    ensures
        addrs_of_children(SplitterState::fresh(parent, child_block_len), counts) == addrs(
            parent.iovs,
        ),
{
    let state = SplitterState::fresh(parent, child_block_len);
    lemma_addrs_len(parent.iovs);
    lemma_children_are_consecutive(state, counts);
    assert(addrs(parent.iovs).subrange(0, addrs(parent.iovs).len() as int) =~= addrs(parent.iovs));
}

/// Taking no blocks succeeds at every position, also at the end of the parent; the child has no
/// bytes, and the splitter stays where it is.
pub proof fn lemma_no_blocks_are_in_range(state: SplitterState)
    requires
        state.valid(),
    ensures
        state.in_range(0),
        state.child(0).num_blocks == 0,
        total_len(state.child(0).iovs) == 0,
        state.advanced(0) == state,
{
    lemma_sliced_covers_window(state.iovs, state.cursor, 0);
    assert(0 * state.child_block_len == 0);
}

} // verus!
