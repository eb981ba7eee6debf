//! Per-thread control blocks: the run queue of tasks, and finding the block of a thread.
use std::collections::{HashMap, VecDeque};
use vstd::prelude::*;
use crate::tls::{Tls, TLS_SLOTS};

verus! {

broadcast use vstd::std_specs::hash::group_hash_axioms;

/// Identity of an SPDK thread: the address of its control structure.
#[derive(Copy, Clone, Debug, Hash, PartialEq, Eq, Structural)]
pub struct ThreadKey(pub usize);

impl ThreadKey {
    pub fn from_thread(thread: usize) -> (key: ThreadKey)
        ensures
            key == ThreadKey(thread),
    {
        ThreadKey(thread)
    }
}

/// The address of a control block.
#[derive(Copy, Clone, Debug, Hash, PartialEq, Eq, Structural)]
pub struct TcbPtr(pub usize);

impl TcbPtr {
    pub fn from_tcb(tcb: usize) -> (ptr: TcbPtr)
        ensures
            ptr == TcbPtr(tcb),
    {
        TcbPtr(tcb)
    }

    pub fn ptr(&self) -> (addr: usize)
        ensures
            addr == self.0,
    {
        self.0
    }
}

/// The control blocks of the threads that have one.
pub struct TcbRegistry {
    map: HashMap<usize, TcbPtr>,
}

impl View for TcbRegistry {
    type V = Map<ThreadKey, TcbPtr>;

    closed spec fn view(&self) -> Map<ThreadKey, TcbPtr> {
        Map::new(
            |key: ThreadKey| self.map@.contains_key(key.0),
            |key: ThreadKey| self.map@[key.0],
        )
    }
}

/// The registry after the control block of `key` was asked for, and that block: the one that is
/// known, or `fresh` where none is.
pub open spec fn found_or_added(
    reg: Map<ThreadKey, TcbPtr>,
    key: ThreadKey,
    fresh: TcbPtr,
) -> (Map<ThreadKey, TcbPtr>, TcbPtr) {
    if reg.contains_key(key) {
        (reg, reg[key])
    } else {
        (reg.insert(key, fresh), fresh)
    }
}

impl TcbRegistry {
    pub fn new() -> (reg: TcbRegistry)
        ensures
            reg@ == Map::<ThreadKey, TcbPtr>::empty(),
    {
        let reg = TcbRegistry { map: HashMap::new() };
        assert(reg@ =~= Map::<ThreadKey, TcbPtr>::empty());
        reg
    }

    /// Returns the control block of a thread.
    pub fn get(&self, key: ThreadKey) -> (res: Option<TcbPtr>)
        ensures
            match res {
                Some(ptr) => self@.contains_key(key) && ptr == self@[key],
                None => !self@.contains_key(key),
            },
    {
        match self.map.get(&key.0) {
            Some(ptr) => Some(*ptr),
            None => None,
        }
    }

    /// Returns the control block of a thread; a thread without one gets one that `new_tcb` makes.
    pub fn tcb_ptr_from_registry<F: FnOnce() -> usize>(&mut self, key: ThreadKey, new_tcb: F) -> (
    ptr: TcbPtr)
        requires
            !old(self)@.contains_key(key) ==> new_tcb.requires(()),
        ensures
            old(self)@.contains_key(key) ==> final(self)@ == old(self)@ && ptr == old(self)@[key],
            !old(self)@.contains_key(key) ==> exists|tcb: usize| #[trigger]
                new_tcb.ensures((), tcb) && (final(self)@, ptr) == found_or_added(
                    old(self)@,
                    key,
                    TcbPtr(tcb),
                ),
    {
        if let Some(ptr) = self.get(key) {
            return ptr;
        }
        let tcb = new_tcb();
        let ptr = TcbPtr::from_tcb(tcb);
        self.map.insert(key.0, ptr);
        assert(final(self)@ =~= old(self)@.insert(key, ptr));
        ptr
    }

    /// Forgets the control block of a thread and returns it.
    pub fn remove(&mut self, key: ThreadKey) -> (ptr: TcbPtr)
        requires
            old(self)@.contains_key(key),
        ensures
            ptr == old(self)@[key],
            final(self)@ == old(self)@.remove(key),
    {
        let ptr = self.map.remove(&key.0).unwrap();
        assert(final(self)@ =~= old(self)@.remove(key));
        ptr
    }
}

/// The control block that was used last, with the ID of its thread. IDs of threads start at 1;
/// the ID 0 says that none was used yet.
#[derive(Copy, Clone, Debug, PartialEq, Eq, Structural)]
pub struct TcbCache {
    pub thread_id: u64,
    pub tcb: TcbPtr,
}

impl TcbCache {
    pub fn new() -> (cache: TcbCache)
        ensures
            cache == (TcbCache { thread_id: 0, tcb: TcbPtr(0) }),
    {
        TcbCache { thread_id: 0, tcb: TcbPtr(0) }
    }

    /// Returns the control block of the current thread: the one used last where the thread is
    /// still the same, and else the one that `from_registry` finds, which is kept for later.
    pub fn current<F: FnOnce(ThreadKey) -> TcbPtr>(
        &mut self,
        thread: usize,
        thread_id: u64,
        from_registry: F,
    ) -> (ptr: TcbPtr)
        requires
            thread != 0,
            thread_id != 0,
            old(self).thread_id != thread_id ==> from_registry.requires((ThreadKey(thread),)),
        ensures
            if old(self).thread_id == thread_id {
                ptr == old(self).tcb && *final(self) == *old(self)
            } else {
                &&& from_registry.ensures((ThreadKey(thread),), ptr)
                &&& *final(self) == (TcbCache { thread_id, tcb: ptr })
            },
    {
        if self.thread_id == thread_id {
            self.tcb
        } else {
            let ptr = from_registry(ThreadKey::from_thread(thread));
            self.thread_id = thread_id;
            self.tcb = ptr;
            ptr
        }
    }
}

/// The cached control block is the one that the registry has for the thread with the cached ID;
/// `key_of` tells which thread has an ID.
pub open spec fn coherent(
    cache: TcbCache,
    reg: Map<ThreadKey, TcbPtr>,
    key_of: spec_fn(u64) -> ThreadKey,
) -> bool {
    cache.thread_id != 0 ==> reg.contains_key(key_of(cache.thread_id)) && reg[key_of(
        cache.thread_id,
    )] == cache.tcb
}

/// As long as the cached thread keeps its control block, whoever asks for the current control
/// block gets the one that the registry has for the current thread, and the cache stays coherent.
pub proof fn lemma_current_is_registered(
    cache: TcbCache,
    reg: Map<ThreadKey, TcbPtr>,
    key_of: spec_fn(u64) -> ThreadKey,
    thread_id: u64,
    fresh: TcbPtr,
)
    requires
        thread_id != 0,
        coherent(cache, reg, key_of),
    ensures
        cache.thread_id == thread_id ==> reg.contains_key(key_of(thread_id)) && reg[key_of(
            thread_id,
        )] == cache.tcb,
        ({
            let (after, ptr) = found_or_added(reg, key_of(thread_id), fresh);
            &&& after.contains_key(key_of(thread_id)) && after[key_of(thread_id)] == ptr
            &&& coherent(TcbCache { thread_id, tcb: ptr }, after, key_of)
            &&& coherent(cache, after, key_of)
        }),
{
}

/// Where a task stands.
#[derive(Clone, Copy, Debug, PartialEq, Eq, Structural)]
pub enum TaskState {
    Idle,
    Running,
    Notified,
    Ready,
}

impl TaskState {
    /// The state once polling begins, and whether the future is polled at all: not where it is
    /// being polled already.
    pub open spec fn poll_begun(self) -> (TaskState, bool) {
        if self == TaskState::Running {
            (self, false)
        } else {
            (TaskState::Running, true)
        }
    }

    /// The state once polling is over, and whether the task is queued again: where it was woken
    /// meanwhile and is not ready.
    pub open spec fn poll_ended(self, ready: bool) -> (TaskState, bool) {
        if ready {
            (TaskState::Ready, false)
        } else {
            (TaskState::Idle, self == TaskState::Notified)
        }
    }

    /// The state once the task is woken, and whether it is queued: where it is idle. A task that
    /// is being polled is queued when polling is over.
    pub open spec fn woken(self) -> (TaskState, bool) {
        match self {
            TaskState::Running => (TaskState::Notified, false),
            TaskState::Idle => (TaskState::Notified, true),
            TaskState::Notified | TaskState::Ready => (self, false),
        }
    }
}

/// The state of a task. The caller keeps the future beside it.
#[derive(Debug)]
pub struct Task {
    state: TaskState,
}

impl View for Task {
    type V = TaskState;

    closed spec fn view(&self) -> TaskState {
        self.state
    }
}

/// The control block of one SPDK thread: the run queue, the address of the poller that works it
/// off, and the thread's storage. `H` refers to a task, `V` is a stored value.
pub struct Tcb<H, V> {
    runq: VecDeque<H>,
    poller: usize,
    tls: Tls<V>,
}

/// What a control block holds.
pub struct TcbState<H, V> {
    pub runq: Seq<H>,
    pub poller: usize,
    pub tls: Seq<Option<V>>,
}

impl<H, V> TcbState<H, V> {
    /// The control block of a thread that has just begun.
    pub open spec fn fresh(poller: usize) -> TcbState<H, V> {
        TcbState {
            runq: Seq::empty(),
            poller,
            tls: Seq::new(TLS_SLOTS as nat, |i: int| None::<V>),
        }
    }

    /// With a task at the end of the run queue.
    pub open spec fn queued(self, task: H) -> TcbState<H, V> {
        TcbState { runq: self.runq.push(task), ..self }
    }
}

/// What a thread leaves behind: its stored values and then its tasks are to be dropped, the
/// poller is to be unregistered, and the control block is to leave the registry, in this order.
pub struct TcbRemains<H, V> {
    pub tls: Tls<V>,
    pub runq: VecDeque<H>,
    pub poller: usize,
}

impl<H, V> TcbRemains<H, V> {
    /// These are all stored values and tasks, and the poller, of `tcb`.
    pub open spec fn are_of(self, tcb: TcbState<H, V>) -> bool {
        &&& self.tls@ == tcb.tls
        &&& self.runq@ == tcb.runq
        &&& self.poller == tcb.poller
    }
}

impl<H, V> View for Tcb<H, V> {
    type V = TcbState<H, V>;

    closed spec fn view(&self) -> TcbState<H, V> {
        TcbState { runq: self.runq@, poller: self.poller, tls: self.tls@ }
    }
}

impl<H, V> Tcb<H, V> {
    /// The control block of a thread whose run queue the poller at address `poller` works off.
    pub fn new(poller: usize) -> (tcb: Tcb<H, V>)
        requires
            poller != 0,
        ensures
            tcb@ == TcbState::<H, V>::fresh(poller),
    {
        Tcb { runq: VecDeque::new(), poller, tls: Tls::new() }
    }

    /// Returns the thread's storage.
    pub fn tls(&self) -> (tls: &Tls<V>)
        ensures
            tls@ == self@.tls,
    {
        &self.tls
    }

    /// Returns the thread's storage, to be changed in place.
    pub fn tls_mut(&mut self) -> (tls: &mut Tls<V>)
        ensures
            tls@ == old(self)@.tls,
            final(self)@ == (TcbState { tls: final(tls)@, ..old(self)@ }),
    {
        &mut self.tls
    }

    /// Queues a new task.
    pub fn spawn(&mut self, task: H)
        ensures
            final(self)@ == old(self)@.queued(task),
    {
        self.runq.push_back(task);
    }

    /// Empties the control block of a thread that exits, and hands out what it leaves behind.
    pub fn shutdown(&mut self) -> (remains: TcbRemains<H, V>)
        ensures
            remains.are_of(old(self)@),
            final(self)@ == TcbState::<H, V>::fresh(old(self)@.poller),
    {
        let mut tls: Tls<V> = Tls::new();
        std::mem::swap(&mut tls, &mut self.tls);
        let mut runq: VecDeque<H> = VecDeque::new();
        std::mem::swap(&mut runq, &mut self.runq);
        TcbRemains { tls, runq, poller: self.poller }
    }

    /// Begins to work off the run queue, or shuts down where the thread is not running.
    pub fn poll(&mut self, running: bool) -> (res: Result<PollRound, TcbRemains<H, V>>)
        ensures
            match res {
                Ok(round) => running && !round.spec_busy() && final(self)@ == old(self)@,
                Err(remains) => {
                    &&& !running
                    &&& remains.are_of(old(self)@)
                    &&& final(self)@ == TcbState::<H, V>::fresh(old(self)@.poller)
                },
            },
    {
        if !running {
            return Err(self.shutdown());
        }
        Ok(PollRound { busy: false })
    }
}

/// Whether a round has polled a task, once it has asked for another one and got it or not.
pub open spec fn busy_after(busy: bool, got_task: bool) -> bool {
    busy || got_task
}

/// What the poller tells SPDK: 1 after a round with work, else 0.
pub open spec fn poll_status(busy: bool) -> i32 {
    if busy {
        1
    } else {
        0
    }
}

/// One round of working off a run queue, until it is empty.
#[derive(Debug)]
pub struct PollRound {
    busy: bool,
}

impl PollRound {
    /// A task was polled in this round.
    pub closed spec fn spec_busy(&self) -> bool {
        self.busy
    }

    /// Takes the next task to poll off the run queue. The round is over where there is none.
    pub fn next<H, V>(&mut self, tcb: &mut Tcb<H, V>) -> (res: Option<H>)
        ensures
            match res {
                Some(task) => {
                    &&& old(tcb)@.runq.len() > 0
                    &&& task == old(tcb)@.runq[0]
                    &&& final(tcb)@ == (TcbState { runq: old(tcb)@.runq.skip(1), ..old(tcb)@ })
                },
                None => {
                    &&& old(tcb)@.runq.len() == 0
                    &&& final(tcb)@ == old(tcb)@
                },
            },
            final(self).spec_busy() == busy_after(old(self).spec_busy(), res is Some),
    {
        let res = tcb.runq.pop_front();
        if res.is_some() {
            self.busy = true;
            assert(tcb.runq@ =~= old(tcb)@.runq.skip(1));
        }
        res
    }

    /// What the poller tells SPDK: 1 after a round with work, else 0.
    pub fn status(&self) -> (status: i32)
        ensures
            status == poll_status(self.spec_busy()),
    {
        if self.busy {
            1
        } else {
            0
        }
    }
}

impl Task {
    /// The state of a task that was not polled yet.
    pub fn new() -> (task: Task)
        ensures
            task@ == TaskState::Idle,
    {
        Task { state: TaskState::Idle }
    }

    /// Begins to poll the task. Tells whether the caller has to poll the future, and to report
    /// the result to `end_poll`.
    pub fn begin_poll(&mut self) -> (poll: bool)
        ensures
            (final(self)@, poll) == old(self)@.poll_begun(),
    {
        if self.state == TaskState::Running {
            return false;
        }
        self.state = TaskState::Running;
        true
    }

    /// Ends polling the task. A task that was woken meanwhile and is not ready is queued again;
    /// `handle` refers to the task.
    pub fn end_poll<H, V>(&mut self, ready: bool, tcb: &mut Tcb<H, V>, handle: H)
        ensures
            final(self)@ == old(self)@.poll_ended(ready).0,
            final(tcb)@ == (if old(self)@.poll_ended(ready).1 {
                old(tcb)@.queued(handle)
            } else {
                old(tcb)@
            }),
    {
        if ready {
            self.state = TaskState::Ready;
        } else if self.state == TaskState::Notified {
            self.state = TaskState::Idle;
            tcb.runq.push_back(handle);
        } else {
            self.state = TaskState::Idle;
        }
    }

    /// Wakes the task on a thread with the control block `tcb`; `handle` refers to the task. A
    /// thread that is not running shuts down instead.
    pub fn wake<H, V>(&mut self, tcb: &mut Tcb<H, V>, handle: H, running: bool) -> (remains: Option<
        TcbRemains<H, V>,
    >)
        ensures
            match remains {
                Some(remains) => {
                    &&& !running
                    &&& remains.are_of(old(tcb)@)
                    &&& final(tcb)@ == TcbState::<H, V>::fresh(old(tcb)@.poller)
                    &&& final(self)@ == old(self)@
                },
                None => {
                    &&& running
                    &&& final(self)@ == old(self)@.woken().0
                    &&& final(tcb)@ == (if old(self)@.woken().1 {
                        old(tcb)@.queued(handle)
                    } else {
                        old(tcb)@
                    })
                },
            },
    {
        if !running {
            return Some(tcb.shutdown());
        }
        match self.state {
            TaskState::Running => {
                self.state = TaskState::Notified;
            },
            TaskState::Idle => {
                self.state = TaskState::Notified;
                tcb.runq.push_back(handle);
            },
            TaskState::Notified | TaskState::Ready => {},
        }
        None
    }
}

} // verus!
