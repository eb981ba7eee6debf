//! Laws of tasks, run queues, control blocks and thread-local storage.
use vstd::prelude::*;
use crate::tcb::{
    PollRound, Task, TaskState, Tcb, TcbCache, TcbPtr, TcbRegistry, TcbRemains, ThreadKey,
};
use crate::tls::{Tls, TlsKey, TlsSlots};

verus! {

/// A new task is idle, and a new control block has no tasks and no values.
pub proof fn law_beginnings<H, V>(task: Task, poller: usize, tcb: Tcb<H, V>)
    requires
        call_ensures(Task::new, (), task),
        call_ensures(Tcb::<H, V>::new, (poller,), tcb),
    ensures
        task@ == TaskState::Idle,
        tcb@.runq.len() == 0,
        tcb@.poller == poller,
        tcb@.tls.len() == 4,
        forall|i: int| 0 <= i < 4 ==> tcb@.tls[i] is None,
{
}

/// A task is polled unless it is being polled already, and runs meanwhile.
pub proof fn law_task_begins_to_run(task: &mut Task, poll: bool)
    requires
        call_ensures(Task::begin_poll, (task,), poll),
    ensures
        poll <==> old(task)@ != TaskState::Running,
        final(task)@ == TaskState::Running,
{
}

/// A task that was polled is ready or idle. It goes to the end of the run queue exactly where it
/// was woken meanwhile and is not ready; nothing else of the control block changes.
pub proof fn law_polled_task_is_ready_or_idle<H, V>(
    task: &mut Task,
    ready: bool,
    tcb: &mut Tcb<H, V>,
    handle: H,
)
    requires
        call_ensures(Task::end_poll::<H, V>, (task, ready, tcb, handle), ()),
    ensures
        ready ==> final(task)@ == TaskState::Ready,
        !ready ==> final(task)@ == TaskState::Idle,
        !ready && old(task)@ == TaskState::Notified ==> final(tcb)@.runq == old(tcb)@.runq.push(
            handle,
        ),
        ready || old(task)@ != TaskState::Notified ==> final(tcb)@.runq == old(tcb)@.runq,
        final(tcb)@.poller == old(tcb)@.poller,
        final(tcb)@.tls == old(tcb)@.tls,
{
}

/// Waking a task of a running thread notifies a task that is idle or being polled, and no other.
/// An idle task goes to the end of the run queue; nothing else of the control block changes.
pub proof fn law_wake_notifies<H, V>(
    task: &mut Task,
    tcb: &mut Tcb<H, V>,
    handle: H,
    remains: Option<TcbRemains<H, V>>,
)
    requires
        call_ensures(Task::wake::<H, V>, (task, tcb, handle, true), remains),
    ensures
        remains is None,
        old(task)@ == TaskState::Idle || old(task)@ == TaskState::Running ==> final(task)@
            == TaskState::Notified,
        old(task)@ == TaskState::Notified || old(task)@ == TaskState::Ready ==> final(task)@ == old(
            task,
        )@,
        old(task)@ == TaskState::Idle ==> final(tcb)@.runq == old(tcb)@.runq.push(handle),
        old(task)@ != TaskState::Idle ==> final(tcb)@.runq == old(tcb)@.runq,
        final(tcb)@.poller == old(tcb)@.poller,
        final(tcb)@.tls == old(tcb)@.tls,
{
}

/// A thread that is not running shuts down, whether a task is woken or its poller is called: all
/// its tasks, values and its poller are handed out, none stays, and the task is left as it is.
pub proof fn law_exiting_thread_leaves_nothing<H, V>(
    task: &mut Task,
    woken: &mut Tcb<H, V>,
    handle: H,
    of_wake: Option<TcbRemains<H, V>>,
    polled: &mut Tcb<H, V>,
    of_poll: Result<PollRound, TcbRemains<H, V>>,
    shut: &mut Tcb<H, V>,
    of_shutdown: TcbRemains<H, V>,
)
    requires
        call_ensures(Task::wake::<H, V>, (task, woken, handle, false), of_wake),
        call_ensures(Tcb::<H, V>::poll, (polled, false), of_poll),
        call_ensures(Tcb::<H, V>::shutdown, (shut,), of_shutdown),
    ensures
        final(task)@ == old(task)@,
        of_wake matches Some(r) && r.tls@ == old(woken)@.tls && r.runq@ == old(woken)@.runq
            && r.poller == old(woken)@.poller,
        of_poll matches Err(r) && r.tls@ == old(polled)@.tls && r.runq@ == old(polled)@.runq
            && r.poller == old(polled)@.poller,
        of_shutdown.tls@ == old(shut)@.tls && of_shutdown.runq@ == old(shut)@.runq
            && of_shutdown.poller == old(shut)@.poller,
        final(woken)@.runq.len() == 0 && final(polled)@.runq.len() == 0 && final(shut)@.runq.len()
            == 0,
        forall|i: int|
            0 <= i < 4 ==> final(woken)@.tls[i] is None && final(polled)@.tls[i] is None && (
            #[trigger] final(shut)@.tls[i]) is None,
{
}

/// The poller of a running thread begins a round without work done, and changes nothing yet.
pub proof fn law_round_begins<H, V>(
    tcb: &mut Tcb<H, V>,
    res: Result<PollRound, TcbRemains<H, V>>,
)
    requires
        call_ensures(Tcb::<H, V>::poll, (tcb, true), res),
    ensures
        res matches Ok(round) && !round.spec_busy(),
        final(tcb)@ == old(tcb)@,
{
}

/// Tasks are worked off in the order in which they were queued: a spawned task goes to the end of
/// the run queue, and a round takes the first task, until there is none.
pub proof fn law_tasks_are_polled_in_order<H, V>(
    spawning: &mut Tcb<H, V>,
    task: H,
    round: &mut PollRound,
    tcb: &mut Tcb<H, V>,
    res: Option<H>,
)
    requires
        call_ensures(Tcb::<H, V>::spawn, (spawning, task), ()),
        call_ensures(PollRound::next::<H, V>, (round, tcb), res),
    ensures
        final(spawning)@.runq == old(spawning)@.runq.push(task),
        final(spawning)@.tls == old(spawning)@.tls,
        final(spawning)@.poller == old(spawning)@.poller,
        res is Some <==> old(tcb)@.runq.len() > 0,
        res matches Some(first) ==> old(tcb)@.runq == seq![first] + final(tcb)@.runq,
        res is None ==> final(tcb)@.runq.len() == 0,
        final(tcb)@.tls == old(tcb)@.tls,
        final(tcb)@.poller == old(tcb)@.poller,
{
    if let Some(first) = res {
        assert(old(tcb)@.runq =~= seq![first] + final(tcb)@.runq);
    }
}

/// A round was busy exactly where some call gave a task, and the poller then tells 1, else 0.
pub proof fn law_busy_round_is_told<H, V>(
    round: &mut PollRound,
    tcb: &mut Tcb<H, V>,
    res: Option<H>,
    done: &PollRound,
    status: i32,
)
    requires
        call_ensures(PollRound::next::<H, V>, (round, tcb), res),
        call_ensures(PollRound::status, (done,), status),
    ensures
        final(round).spec_busy() <==> old(round).spec_busy() || res is Some,
        done.spec_busy() ==> status == 1,
        !done.spec_busy() ==> status == 0,
{
}

/// A thread that has a control block keeps it; one without gets the new one; other threads are
/// not affected.
pub proof fn law_thread_keeps_its_control_block<F: FnOnce() -> usize>(
    reg: &mut TcbRegistry,
    key: ThreadKey,
    new_tcb: F,
    ptr: TcbPtr,
    other: ThreadKey,
)
    requires
        call_ensures(TcbRegistry::tcb_ptr_from_registry::<F>, (reg, key, new_tcb), ptr),
        other != key,
    ensures
        final(reg)@.contains_key(key) && final(reg)@[key] == ptr,
        old(reg)@.contains_key(key) ==> ptr == old(reg)@[key],
        !old(reg)@.contains_key(key) ==> new_tcb.ensures((), ptr.0),
        final(reg)@.contains_key(other) == old(reg)@.contains_key(other),
        old(reg)@.contains_key(other) ==> final(reg)@[other] == old(reg)@[other],
{
}

/// The control block used last is given again exactly where the thread is the same; else the
/// registry is asked for the current thread, and its answer is kept.
pub proof fn law_cache_follows_the_thread<F: FnOnce(ThreadKey) -> TcbPtr>(
    cache: &mut TcbCache,
    thread: usize,
    thread_id: u64,
    from_registry: F,
    ptr: TcbPtr,
)
    requires
        call_ensures(TcbCache::current::<F>, (cache, thread, thread_id, from_registry), ptr),
    ensures
        old(cache).thread_id == thread_id ==> ptr == old(cache).tcb,
        old(cache).thread_id != thread_id ==> from_registry.ensures((ThreadKey(thread),), ptr),
        final(cache).thread_id == thread_id,
        final(cache).tcb == ptr,
{
}

/// Allocating a key takes the first free slot and no other: no taken slot is given.
pub proof fn law_allocation_takes_the_first_free_slot<T>(slots: &mut TlsSlots, key: TlsKey<T>)
    requires
        call_ensures(TlsKey::<T>::allocate, (slots,), key),
    ensures
        key.spec_slot() < 4,
        !old(slots)@.contains(key.spec_slot()),
        forall|s: usize| s < key.spec_slot() ==> old(slots)@.contains(s),
        final(slots)@ == old(slots)@.insert(key.spec_slot()),
{
}

/// A value is read as it was stored, and is gone once it is cleared; a key of another slot reads
/// as before.
pub proof fn law_stored_value_is_read<T, V>(
    key: &TlsKey<T>,
    other: &TlsKey<T>,
    tls: &mut Tls<V>,
    value: V,
    cleared: &mut Tls<V>,
    stored: &Tls<V>,
    empty: &Tls<V>,
    own: Option<&V>,
    gone: Option<&V>,
    others: Option<&V>,
)
    requires
        key.spec_slot() != other.spec_slot(),
        call_ensures(TlsKey::<T>::set::<V>, (key, tls, value), ()),
        stored@ == final(tls)@,
        call_ensures(TlsKey::<T>::get::<V>, (key, stored), own),
        call_ensures(TlsKey::<T>::get::<V>, (other, stored), others),
        call_ensures(TlsKey::<T>::clear::<V>, (key, cleared), ()),
        empty@ == final(cleared)@,
        call_ensures(TlsKey::<T>::get::<V>, (key, empty), gone),
    ensures
        own == Some(&value),
        gone is None,
        others is Some <==> old(tls)@[other.spec_slot() as int] is Some,
        others matches Some(v) ==> old(tls)@[other.spec_slot() as int] == Some(*v),
{
}

/// A slot is left exactly where one of the four is free; none is taken at first, and a slot made
/// known is taken like an allocated one.
pub proof fn law_slots_are_left(
    fresh: TlsSlots,
    slots: &TlsSlots,
    free: bool,
    marked: &mut TlsSlots,
    slot: usize,
)
    requires
        call_ensures(TlsSlots::new, (), fresh),
        call_ensures(TlsSlots::has_free, (slots,), free),
        call_ensures(TlsSlots::mark, (marked, slot), ()),
    ensures
        forall|s: usize| !fresh@.contains(s),
        free <==> !slots@.contains(0) || !slots@.contains(1) || !slots@.contains(2)
            || !slots@.contains(3),
        final(marked)@ == old(marked)@.insert(slot),
{
    if free {
        let s = choose|s: usize| s < 4 && !slots@.contains(s);
        assert(s == 0 || s == 1 || s == 2 || s == 3);
    }
}

} // verus!
