//! Storage that belongs to one SPDK thread.
use vstd::prelude::*;

verus! {

/// The number of slots of each thread.
pub const TLS_SLOTS: usize = 4;

/// A key of thread-local values of type `T`: the slot that holds them.
pub struct TlsKey<T> {
    slot: usize,
    _marker: std::marker::PhantomData<T>,
}

impl<T> Clone for TlsKey<T> {
    fn clone(&self) -> (key: TlsKey<T>)
        ensures
            key == *self,
    {
        *self
    }
}

impl<T> Copy for TlsKey<T> {

}

/// Knows which slots are taken by keys, and hands out free ones.
#[derive(Debug)]
pub struct TlsSlots {
    taken: [bool; 4],
}

/// The taken slots.
impl View for TlsSlots {
    type V = Set<usize>;

    closed spec fn view(&self) -> Set<usize> {
        Set::new(|slot: usize| slot < TLS_SLOTS && self.taken@[slot as int])
    }
}

/// The first slot that is not taken.
pub open spec fn is_first_free(taken: Set<usize>, slot: usize) -> bool {
    &&& slot < TLS_SLOTS
    &&& !taken.contains(slot)
    &&& forall|s: usize| s < slot ==> taken.contains(s)
}

/// No slot is left.
pub open spec fn all_taken(taken: Set<usize>) -> bool {
    forall|slot: usize| slot < TLS_SLOTS ==> taken.contains(slot)
}

impl TlsSlots {
    /// A key has the slot.
    #[verifier::inline]
    pub open spec fn taken(&self, slot: usize) -> bool {
        self@.contains(slot)
    }

    /// No slot is taken.
    pub fn new() -> (slots: TlsSlots)
        ensures
            slots@ == Set::<usize>::empty(),
            forall|slot: usize| !slots.taken(slot),
    {
        let slots = TlsSlots { taken: [false, false, false, false] };
        assert(slots@ =~= Set::<usize>::empty());
        slots
    }

    /// Takes a slot for a key that was made with it. It may be taken already.
    pub fn mark(&mut self, slot: usize)
        requires
            slot < TLS_SLOTS,
        ensures
            final(self)@ == old(self)@.insert(slot),
            forall|s: usize| final(self).taken(s) <==> old(self).taken(s) || s == slot,
    {
        self.taken[slot] = true;
        assert(self@ =~= old(self)@.insert(slot));
    }

    /// The first free slot.
    fn first_free(&self) -> (res: Option<usize>)
        ensures
            match res {
                Some(slot) => is_first_free(self@, slot),
                None => forall|s: usize| s < TLS_SLOTS ==> self.taken(s),
            },
    {
        let mut i: usize = 0;
        while i < TLS_SLOTS
            invariant
                i <= TLS_SLOTS,
                forall|s: usize| s < i ==> self.taken(s),
            decreases TLS_SLOTS - i,
        {
            if !self.taken[i] {
                return Some(i);
            }
            i = i + 1;
        }
        None
    }

    /// Tells whether a slot is left.
    pub fn has_free(&self) -> (res: bool)
        ensures
            res == (exists|slot: usize| slot < TLS_SLOTS && !self.taken(slot)),
            !res <==> all_taken(self@),
    {
        self.first_free().is_some()
    }
}

impl<T> TlsKey<T> {
    #[verifier::type_invariant]
    closed spec fn inv(&self) -> bool {
        self.slot < TLS_SLOTS
    }

    /// The slot.
    pub closed spec fn spec_slot(&self) -> usize {
        self.slot
    }

    /// A key of a slot that the caller picks.
    pub fn new(slot: usize) -> (key: TlsKey<T>)
        requires
            slot < TLS_SLOTS,
        ensures
            key.spec_slot() == slot,
    {
        TlsKey { slot, _marker: std::marker::PhantomData }
    }

    /// A key of the first free slot, which is taken from now on.
    pub fn allocate(slots: &mut TlsSlots) -> (key: TlsKey<T>)
        requires
            exists|s: usize| s < TLS_SLOTS && !old(slots).taken(s),
        ensures
            is_first_free(old(slots)@, key.spec_slot()),
            final(slots)@ == old(slots)@.insert(key.spec_slot()),
            !old(slots).taken(key.spec_slot()),
            forall|s: usize|
                final(slots).taken(s) <==> old(slots).taken(s) || s == key.spec_slot(),
    {
        let slot: usize = slots.first_free().unwrap();
        slots.mark(slot);
        TlsKey { slot, _marker: std::marker::PhantomData }
    }

    /// Returns the slot.
    pub fn slot(&self) -> (slot: usize)
        ensures
            slot == self.spec_slot(),
            slot < TLS_SLOTS,
    {
        proof {
            use_type_invariant(self);
        }
        self.slot
    }

    /// Sets the value of the key, in place of any earlier one, which is dropped first.
    pub fn set<V>(&self, tls: &mut Tls<V>, value: V)
        ensures
            self.spec_slot() < TLS_SLOTS,
            old(tls)@.len() == TLS_SLOTS,
            final(tls)@ == old(tls)@.update(self.spec_slot() as int, Some(value)),
    {
        let slot = self.slot();
        let _ = tls.clear_slot(slot);
        tls.slots[slot] = Some(value);
        assert(final(tls)@ =~= old(tls)@.update(slot as int, Some(value)));
    }

    /// Sets the value of the key, in place of any earlier one, and takes the slot of the key, which
    /// is not handed out from now on.
    pub fn set_in_use<V>(&self, slots: &mut TlsSlots, tls: &mut Tls<V>, value: V)
        ensures
            self.spec_slot() < TLS_SLOTS,
            old(tls)@.len() == TLS_SLOTS,
            final(tls)@ == old(tls)@.update(self.spec_slot() as int, Some(value)),
            final(slots)@ == old(slots)@.insert(self.spec_slot()),
            forall|s: usize|
                final(slots).taken(s) <==> old(slots).taken(s) || s == self.spec_slot(),
    {
        slots.mark(self.slot());
        self.set(tls, value);
    }

    /// Returns the value of the key.
    pub fn get<'b, V>(&self, tls: &'b Tls<V>) -> (res: Option<&'b V>)
        ensures
            self.spec_slot() < TLS_SLOTS,
            tls@.len() == TLS_SLOTS,
            match res {
                Some(v) => tls@[self.spec_slot() as int] == Some(*v),
                None => tls@[self.spec_slot() as int] is None,
            },
    {
        let slot = self.slot();
        tls.slots[slot].as_ref()
    }

    /// Returns the value of the key, to be changed in place.
    pub fn get_mut<'b, V>(&self, tls: &'b mut Tls<V>) -> (res: Option<&'b mut V>)
        ensures
            self.spec_slot() < TLS_SLOTS,
            old(tls)@.len() == TLS_SLOTS,
            match res {
                Some(v) => {
                    &&& old(tls)@[self.spec_slot() as int] == Some(*v)
                    &&& final(tls)@ == old(tls)@.update(self.spec_slot() as int, Some(*final(v)))
                },
                None => {
                    &&& old(tls)@[self.spec_slot() as int] is None
                    &&& final(tls)@ == old(tls)@
                },
            },
    {
        let slot = self.slot();
        tls.slots[slot].as_mut()
    }

    /// Drops the value of the key.
    pub fn clear<V>(&self, tls: &mut Tls<V>)
        ensures
            self.spec_slot() < TLS_SLOTS,
            old(tls)@.len() == TLS_SLOTS,
            final(tls)@ == old(tls)@.update(self.spec_slot() as int, None),
    {
        let slot = self.slot();
        let _ = tls.clear_slot(slot);
    }
}

/// The slots of one thread.
pub struct Tls<V> {
    slots: [Option<V>; 4],
}

impl<V> View for Tls<V> {
    type V = Seq<Option<V>>;

    closed spec fn view(&self) -> Seq<Option<V>> {
        self.slots@
    }
}

impl<V> Tls<V> {
    /// Slots without values.
    pub fn new() -> (tls: Tls<V>)
        ensures
            tls@ == Seq::new(TLS_SLOTS as nat, |i: int| None::<V>),
    {
        let tls = Tls { slots: [None, None, None, None] };
        assert(tls@ =~= Seq::new(TLS_SLOTS as nat, |i: int| None::<V>));
        tls
    }

    /// Takes the value out of a slot.
    pub fn clear_slot(&mut self, index: usize) -> (res: Option<V>)
        requires
            index < TLS_SLOTS,
        ensures
            old(self)@.len() == TLS_SLOTS,
            res == old(self)@[index as int],
            final(self)@ == old(self)@.update(index as int, None),
    {
        self.slots[index].take()
    }

    /// Drops all values.
    pub fn clear_all(&mut self)
        ensures
            final(self)@ == Seq::new(TLS_SLOTS as nat, |i: int| None::<V>),
    {
        let mut i: usize = 0;
        while i < TLS_SLOTS
            invariant
                i <= TLS_SLOTS,
                self@.len() == TLS_SLOTS,
                forall|j: int| 0 <= j < i ==> self@[j] is None,
            decreases TLS_SLOTS - i,
        {
            let _ = self.clear_slot(i);
            i = i + 1;
        }
        assert(self@ =~= Seq::new(TLS_SLOTS as nat, |i: int| None::<V>));
    }
}

impl<V> Default for Tls<V> {
    fn default() -> (tls: Tls<V>)
        ensures
            tls@ == Seq::new(TLS_SLOTS as nat, |i: int| None::<V>),
    {
        Tls::new()
    }
}

/// A value that was set is what the key gives, until it is set again or cleared. Keys of other
/// slots are not affected.
pub proof fn lemma_set_get_clear<V>(
    slots: Seq<Option<V>>,
    slot: int,
    other: int,
    first: V,
    second: V,
)
    requires
        slots.len() == TLS_SLOTS,
        0 <= slot < TLS_SLOTS,
        0 <= other < TLS_SLOTS,
        slot != other,
    ensures
        slots.update(slot, Some(first))[slot] == Some(first),
        slots.update(slot, Some(first)).update(slot, Some(second)) == slots.update(
            slot,
            Some(second),
        ),
        slots.update(slot, Some(first)).update(slot, None)[slot] is None,
        slots.update(slot, Some(first))[other] == slots[other],
        slots.update(slot, None)[other] == slots[other],
{
    assert(slots.update(slot, Some(first)).update(slot, Some(second)) =~= slots.update(
        slot,
        Some(second),
    ));
}

/// Values are stored in taken slots only.
pub open spec fn stored_in_taken<V>(taken: Set<usize>, slots: Seq<Option<V>>) -> bool {
    &&& slots.len() == TLS_SLOTS
    &&& forall|s: usize| s < TLS_SLOTS && !taken.contains(s) ==> slots[s as int] is None
}

/// Where values are stored with `set_in_use`, on whatever thread, they are in taken slots only:
/// so it is at the beginning, and every store, clearing and allocation keeps it so.
pub proof fn lemma_stored_in_taken<V>(
    taken: Set<usize>,
    slots: Seq<Option<V>>,
    slot: usize,
    value: V,
)
    requires
        stored_in_taken(taken, slots),
        slot < TLS_SLOTS,
    ensures
        stored_in_taken(
            Set::<usize>::empty(),
            Seq::new(TLS_SLOTS as nat, |i: int| None::<V>),
        ),
        stored_in_taken(taken.insert(slot), slots.update(slot as int, Some(value))),
        stored_in_taken(taken.insert(slot), slots),
        stored_in_taken(taken, slots.update(slot as int, None)),
{
}

/// A key that is allocated while another one is in use has a slot of its own: it has no value
/// yet, and storing one leaves the value of the other key.
pub proof fn lemma_allocated_slot_is_free<V>(
    taken: Set<usize>,
    slots: Seq<Option<V>>,
    used: usize,
    first: V,
    allocated: usize,
    second: V,
)
    requires
        stored_in_taken(taken, slots),
        used < TLS_SLOTS,
        is_first_free(taken.insert(used), allocated),
    ensures
        allocated != used,
        slots.update(used as int, Some(first))[allocated as int] is None,
        slots.update(used as int, Some(first)).update(allocated as int, Some(second))[used as int]
            == Some(first),
{
}

} // verus!
