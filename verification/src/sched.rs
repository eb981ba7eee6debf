//! What holds of all tasks of a thread together.
use vstd::prelude::*;
use crate::tcb::{busy_after, poll_status, TaskState, TcbState};

verus! {

/// The tasks of one running thread: the state of each, the run queue, and the task that is being
/// polled.
#[verifier::ext_equal]
pub struct Scheduler {
    pub states: Map<nat, TaskState>,
    pub queue: Seq<nat>,
    pub polling: Option<nat>,
}

/// What can happen to the tasks of a thread.
pub enum Event {
    /// A new task is spawned.
    Spawn(nat),
    /// The next task is taken off the run queue, and polling it begins.
    Next,
    /// Polling is over, with the future ready or not.
    End(bool),
    /// A task is woken.
    Wake(nat),
}

impl Scheduler {
    /// No tasks.
    pub open spec fn empty() -> Scheduler {
        Scheduler { states: Map::empty(), queue: Seq::empty(), polling: None }
    }

    /// A task has the given state from now on, and is queued where `queue` says so.
    pub open spec fn with(self, task: nat, next: (TaskState, bool)) -> Scheduler {
        Scheduler {
            states: self.states.insert(task, next.0),
            queue: if next.1 {
                self.queue.push(task)
            } else {
                self.queue
            },
            ..self
        }
    }

    /// The event can happen now. One task is polled at a time.
    pub open spec fn enabled(self, event: Event) -> bool {
        match event {
            Event::Spawn(task) => !self.states.contains_key(task),
            Event::Next => self.polling is None && self.queue.len() > 0,
            Event::End(_) => self.polling is Some,
            Event::Wake(task) => self.states.contains_key(task),
        }
    }

    /// The tasks after an event: each event changes the state of one task as `TaskState` says, and
    /// queues that task where `TaskState` says so.
    pub open spec fn after(self, event: Event) -> Scheduler {
        match event {
            Event::Spawn(task) => self.with(task, (TaskState::Idle, true)),
            Event::Next => {
                let task = self.queue[0];
                let (state, poll) = self.states[task].poll_begun();
                Scheduler {
                    states: self.states.insert(task, state),
                    queue: self.queue.skip(1),
                    polling: if poll {
                        Some(task)
                    } else {
                        None
                    },
                }
            },
            Event::End(ready) => {
                let task = self.polling.unwrap();
                let next = self.with(task, self.states[task].poll_ended(ready));
                Scheduler { polling: None, ..next }
            },
            Event::Wake(task) => self.with(task, self.states[task].woken()),
        }
    }

    /// A task is running only while it is polled, a notified task is queued or being polled, and
    /// a task that is being polled is running or notified.
    pub open spec fn valid(self) -> bool {
        &&& forall|i: int|
            0 <= i < self.queue.len() ==> self.states.contains_key(#[trigger] self.queue[i])
        &&& self.polling matches Some(task) ==> self.states.contains_key(task) && (
        self.states[task] == TaskState::Running || self.states[task] == TaskState::Notified)
        &&& forall|task: nat| #[trigger]
            self.states.contains_key(task) ==> {
                &&& self.states[task] == TaskState::Running ==> self.polling == Some(task)
                &&& self.states[task] == TaskState::Notified ==> self.polling == Some(task)
                    || self.queue.contains(task)
            }
    }

    /// The task will be polled: it is queued, or it was woken while it is being polled.
    pub open spec fn owed_poll(self, task: nat) -> bool {
        self.queue.contains(task) || (self.polling == Some(task) && self.states[task]
            == TaskState::Notified)
    }
}

proof fn lemma_push_contains(queue: Seq<nat>, pushed: nat, task: nat)
    ensures
        queue.contains(task) ==> queue.push(pushed).contains(task),
        queue.push(pushed).contains(pushed),
{
    assert(queue.push(pushed)[queue.len() as int] == pushed);
    if queue.contains(task) {
        let i = queue.index_of(task);
        assert(queue.push(pushed)[i] == task);
    }
}

proof fn lemma_skip_contains(queue: Seq<nat>, task: nat)
    requires
        queue.len() > 0,
        queue.contains(task),
        task != queue[0],
    ensures
        queue.skip(1).contains(task),
{
    let i = queue.index_of(task);
    assert(queue.skip(1)[i - 1] == task);
}

/// Every event keeps the tasks of a thread valid: whatever happens, no notified task drops out of
/// the run queue.
pub proof fn lemma_events_keep_valid(s: Scheduler, event: Event)
    requires
        s.valid(),
        s.enabled(event),
    ensures
        s.after(event).valid(),
{
    let t = s.after(event);
    assert forall|i: int| 0 <= i < t.queue.len() implies t.states.contains_key(
        #[trigger] t.queue[i],
    ) by {
        match event {
            Event::Next => {
                assert(t.queue[i] == s.queue[i + 1]);
            },
            _ => {
                if i < s.queue.len() {
                    assert(t.queue[i] == s.queue[i]);
                }
            },
        }
    }
    assert forall|task: nat| #[trigger] t.states.contains_key(task) implies {
        &&& t.states[task] == TaskState::Running ==> t.polling == Some(task)
        &&& t.states[task] == TaskState::Notified ==> t.polling == Some(task)
            || t.queue.contains(task)
    } by {
        match event {
            Event::Spawn(x) => {
                lemma_push_contains(s.queue, x, task);
            },
            Event::Next => {
                let x = s.queue[0];
                assert(s.states.contains_key(x));
                if task != x && s.states[task] == TaskState::Notified {
                    lemma_skip_contains(s.queue, task);
                }
            },
            Event::End(_) => {
                let x = s.polling.unwrap();
                lemma_push_contains(s.queue, x, task);
            },
            Event::Wake(x) => {
                lemma_push_contains(s.queue, x, task);
            },
        }
    }
}

/// A task that is taken off the run queue is not being polled already, so its future is polled.
pub proof fn lemma_next_task_is_polled(s: Scheduler)
    requires
        s.valid(),
        s.enabled(Event::Next),
    ensures
        s.after(Event::Next).polling == Some(s.queue[0]),
        s.after(Event::Next).states[s.queue[0]] == TaskState::Running,
{
    assert(s.states.contains_key(s.queue[0]));
}

/// A new task will be polled, and so will a task that is woken before it is ready.
pub proof fn lemma_wake_owes_poll(s: Scheduler, task: nat)
    requires
        s.valid(),
    ensures
        s.enabled(Event::Spawn(task)) ==> s.after(Event::Spawn(task)).owed_poll(task),
        s.enabled(Event::Wake(task)) && s.states[task] != TaskState::Ready ==> s.after(
            Event::Wake(task),
        ).owed_poll(task),
{
    lemma_push_contains(s.queue, task, task);
}

/// A poll that is owed stays owed until the task is polled, or becomes ready: no wake is lost.
pub proof fn lemma_owed_poll_is_kept(s: Scheduler, event: Event, task: nat)
    requires
        s.valid(),
        s.enabled(event),
        s.states.contains_key(task),
        s.owed_poll(task),
    ensures
        s.after(event).owed_poll(task) || s.after(event).polling == Some(task) || s.after(
            event,
        ).states[task] == TaskState::Ready,
{
    match event {
        Event::Spawn(x) => {
            lemma_push_contains(s.queue, x, task);
        },
        Event::Next => {
            lemma_next_task_is_polled(s);
            if task != s.queue[0] && s.queue.contains(task) {
                lemma_skip_contains(s.queue, task);
            }
        },
        Event::End(_) => {
            lemma_push_contains(s.queue, s.polling.unwrap(), task);
        },
        Event::Wake(x) => {
            lemma_push_contains(s.queue, x, task);
        },
    }
}

/// Once the run queue is worked off, every task is idle or ready: nobody who was woken waits.
pub proof fn lemma_worked_off_queue_leaves_no_wake(s: Scheduler, task: nat)
    requires
        s.valid(),
        s.polling is None,
        s.queue.len() == 0,
        s.states.contains_key(task),
    ensures
        s.states[task] == TaskState::Idle || s.states[task] == TaskState::Ready,
{
}

/// Waking a task that is ready does nothing.
pub proof fn lemma_ready_task_is_not_queued(s: Scheduler, task: nat)
    requires
        s.states.contains_key(task),
        s.states[task] == TaskState::Ready,
    ensures
        s.after(Event::Wake(task)) == s,
{
    assert(s.after(Event::Wake(task)).states =~= s.states);
}

/// The tasks after a run of events.
pub open spec fn after_all(s: Scheduler, events: Seq<Event>) -> Scheduler
    decreases events.len(),
{
    if events.len() == 0 {
        s
    } else {
        after_all(s, events.drop_last()).after(events.last())
    }
}

/// Each event of a run can happen when it does.
pub open spec fn all_enabled(s: Scheduler, events: Seq<Event>) -> bool
    decreases events.len(),
{
    events.len() == 0 || (all_enabled(s, events.drop_last()) && after_all(
        s,
        events.drop_last(),
    ).enabled(events.last()))
}

/// A run of events keeps the tasks of a thread valid.
pub proof fn lemma_run_keeps_valid(s: Scheduler, events: Seq<Event>)
    requires
        s.valid(),
        all_enabled(s, events),
    ensures
        after_all(s, events).valid(),
    decreases events.len(),
{
    if events.len() > 0 {
        lemma_run_keeps_valid(s, events.drop_last());
        lemma_events_keep_valid(after_all(s, events.drop_last()), events.last());
    }
}

/// The tasks of a thread are valid after every run of events from its beginning on.
pub proof fn lemma_always_valid(events: Seq<Event>)
    requires
        all_enabled(Scheduler::empty(), events),
    ensures
        after_all(Scheduler::empty(), events).valid(),
{
    lemma_run_keeps_valid(Scheduler::empty(), events);
}

/// `s` is what the control block and the states of the tasks show; `id` tells which task a handle
/// refers to.
pub open spec fn shows<H, V>(
    s: Scheduler,
    tcb: TcbState<H, V>,
    states: Map<nat, TaskState>,
    id: spec_fn(H) -> nat,
) -> bool {
    &&& s.queue == tcb.runq.map_values(id)
    &&& s.states == states
}

/// `Tcb::spawn` of a new task is the event `Spawn`.
pub proof fn lemma_spawn_is_event<H, V>(
    s: Scheduler,
    tcb: TcbState<H, V>,
    states: Map<nat, TaskState>,
    id: spec_fn(H) -> nat,
    task: H,
)
    requires
        shows(s, tcb, states, id),
    ensures
        shows(
            s.after(Event::Spawn(id(task))),
            tcb.queued(task),
            states.insert(id(task), TaskState::Idle),
            id,
        ),
        s.after(Event::Spawn(id(task))).polling == s.polling,
{
    assert(tcb.runq.push(task).map_values(id) =~= tcb.runq.map_values(id).push(id(task)));
}

/// `PollRound::next` with `Task::begin_poll` of the task that it gives is the event `Next`: that
/// task is polled where `begin_poll` says so.
pub proof fn lemma_next_is_event<H, V>(
    s: Scheduler,
    tcb: TcbState<H, V>,
    states: Map<nat, TaskState>,
    id: spec_fn(H) -> nat,
)
    requires
        shows(s, tcb, states, id),
        s.enabled(Event::Next),
    ensures
        tcb.runq.len() > 0,
        ({
            let task = id(tcb.runq[0]);
            let (state, poll) = states[task].poll_begun();
            &&& shows(
                s.after(Event::Next),
                TcbState { runq: tcb.runq.skip(1), ..tcb },
                states.insert(task, state),
                id,
            )
            &&& s.after(Event::Next).polling == (if poll {
                Some(task)
            } else {
                None
            })
        }),
{
    assert(tcb.runq.skip(1).map_values(id) =~= tcb.runq.map_values(id).skip(1));
}

/// `Task::end_poll` of the task that is being polled is the event `End`.
pub proof fn lemma_end_is_event<H, V>(
    s: Scheduler,
    tcb: TcbState<H, V>,
    states: Map<nat, TaskState>,
    id: spec_fn(H) -> nat,
    task: H,
    ready: bool,
)
    requires
        shows(s, tcb, states, id),
        s.polling == Some(id(task)),
    ensures
        ({
            let (state, queue) = states[id(task)].poll_ended(ready);
            &&& shows(
                s.after(Event::End(ready)),
                if queue {
                    tcb.queued(task)
                } else {
                    tcb
                },
                states.insert(id(task), state),
                id,
            )
            &&& s.after(Event::End(ready)).polling is None
        }),
{
    assert(tcb.runq.push(task).map_values(id) =~= tcb.runq.map_values(id).push(id(task)));
}

/// `Task::wake` on a running thread is the event `Wake`.
pub proof fn lemma_wake_is_event<H, V>(
    s: Scheduler,
    tcb: TcbState<H, V>,
    states: Map<nat, TaskState>,
    id: spec_fn(H) -> nat,
    task: H,
)
    requires
        shows(s, tcb, states, id),
    ensures
        ({
            let (state, queue) = states[id(task)].woken();
            &&& shows(
                s.after(Event::Wake(id(task))),
                if queue {
                    tcb.queued(task)
                } else {
                    tcb
                },
                states.insert(id(task), state),
                id,
            )
            &&& s.after(Event::Wake(id(task))).polling == s.polling
        }),
{
    assert(tcb.runq.push(task).map_values(id) =~= tcb.runq.map_values(id).push(id(task)));
}

/// The event is not `Next`.
pub open spec fn is_no_next(event: Event) -> bool {
    !(event is Next)
}

/// One poll of a round: the next task is taken off the run queue, and until it has been polled the
/// given events happen.
pub open spec fn poll_runs(s: Scheduler, events: Seq<Event>) -> bool {
    &&& s.enabled(Event::Next)
    &&& all_enabled(s.after(Event::Next), events)
    &&& forall|i: int| 0 <= i < events.len() ==> is_no_next(#[trigger] events[i])
    &&& after_all(s.after(Event::Next), events).polling is None
}

/// One round: polls, each with the events that happen during it, until the run queue is empty.
pub open spec fn round_runs(s: Scheduler, polls: Seq<Seq<Event>>) -> bool
    decreases polls.len(),
{
    if polls.len() == 0 {
        s.queue.len() == 0
    } else {
        poll_runs(s, polls[0]) && round_runs(
            after_all(s.after(Event::Next), polls[0]),
            polls.skip(1),
        )
    }
}

/// The tasks after a round.
pub open spec fn after_round(s: Scheduler, polls: Seq<Seq<Event>>) -> Scheduler
    decreases polls.len(),
{
    if polls.len() == 0 {
        s
    } else {
        after_round(after_all(s.after(Event::Next), polls[0]), polls.skip(1))
    }
}

/// Whether a round with this many polls was busy: it asked for a task and got it as often, and
/// then got none.
pub open spec fn busy_after_polls(polls: nat) -> bool
    decreases polls,
{
    if polls == 0 {
        busy_after(false, false)
    } else {
        busy_after(busy_after_polls((polls - 1) as nat), true)
    }
}

/// A round that comes to its end has worked off the run queue and leaves no task that was woken,
/// and the poller tells SPDK of work exactly where the run queue was not empty when the round
/// began.
pub proof fn lemma_round_works_off_queue(s: Scheduler, polls: Seq<Seq<Event>>)
    requires
        s.valid(),
        s.polling is None,
        round_runs(s, polls),
    ensures
        after_round(s, polls).valid(),
        after_round(s, polls).polling is None,
        after_round(s, polls).queue.len() == 0,
        forall|task: nat| #[trigger]
            after_round(s, polls).states.contains_key(task) ==> after_round(s, polls).states[task]
                == TaskState::Idle || after_round(s, polls).states[task] == TaskState::Ready,
        poll_status(busy_after_polls(polls.len())) == (if s.queue.len() > 0 {
            1i32
        } else {
            0i32
        }),
    decreases polls.len(),
{
    if polls.len() > 0 {
        let first = after_all(s.after(Event::Next), polls[0]);
        lemma_events_keep_valid(s, Event::Next);
        lemma_run_keeps_valid(s.after(Event::Next), polls[0]);
        lemma_round_works_off_queue(first, polls.skip(1));
    }
}

} // verus!
