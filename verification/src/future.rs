//! Completion of asynchronous I/O.
use vstd::prelude::*;

verus! {

/// What polling a future gives.
#[derive(Clone, Copy, Debug, PartialEq, Eq, Structural)]
pub enum Poll {
    Ready,
    Pending,
}

/// A future that is ready once the I/O it stands for is done. `W` wakes the task that waits.
pub struct IoFuture<W> {
    done: bool,
    waker: Option<W>,
}

/// The state of a future: whether the I/O is done, and whom to wake when it is.
pub struct IoFutureState<W> {
    pub done: bool,
    pub waker: Option<W>,
}

impl<W> IoFutureState<W> {
    /// The state of a future whose I/O has just been submitted.
    pub open spec fn fresh() -> IoFutureState<W> {
        IoFutureState { done: false, waker: None }
    }

    /// Polling: ready once the I/O is done; until then the waker is kept, in place of any other.
    pub open spec fn polled(self, waker: W) -> (IoFutureState<W>, Poll) {
        if self.done {
            (self, Poll::Ready)
        } else {
            (IoFutureState { done: false, waker: Some(waker) }, Poll::Pending)
        }
    }

    /// Completion: the I/O is done from now on, and the waker is handed out.
    pub open spec fn completed(self) -> (IoFutureState<W>, Option<W>) {
        (IoFutureState { done: true, waker: None }, self.waker)
    }
}

impl<W> View for IoFuture<W> {
    type V = IoFutureState<W>;

    closed spec fn view(&self) -> IoFutureState<W> {
        IoFutureState { done: self.done, waker: self.waker }
    }
}

impl<W> IoFuture<W> {
    pub fn new() -> (fut: IoFuture<W>)
        ensures
            fut@ == IoFutureState::<W>::fresh(),
    {
        IoFuture { done: false, waker: None }
    }

    /// Is ready once the I/O is done; until then it keeps `waker`, in place of any earlier one.
    pub fn poll(&mut self, waker: W) -> (res: Poll)
        ensures
            (final(self)@, res) == old(self)@.polled(waker),
    {
        if self.done {
            Poll::Ready
        } else {
            self.waker = Some(waker);
            Poll::Pending
        }
    }

    /// Marks the I/O as done and hands out the waker that the caller has to wake, if any.
    pub fn complete(&mut self) -> (to_wake: Option<W>)
        ensures
            (final(self)@, to_wake) == old(self)@.completed(),
    {
        self.done = true;
        self.waker.take()
    }
}

impl<W> Default for IoFuture<W> {
    fn default() -> (fut: IoFuture<W>)
        ensures
            fut@ == IoFutureState::<W>::fresh(),
    {
        IoFuture::new()
    }
}

/// A task that polled a future before its I/O was done is the one that completion wakes, and only
/// the waker of its last poll is used.
pub proof fn lemma_completion_wakes_last_poller<W>(state: IoFutureState<W>, first: W, last: W)
    requires
        !state.done,
    ensures
        state.polled(last).0.completed().1 == Some(last),
        state.polled(first).0.polled(last).0.completed().1 == Some(last),
{
}

/// A completed future is ready at every later poll, keeps no waker, and has nobody left to wake:
/// a task is woken at most once for one I/O.
pub proof fn lemma_completed_future_stays_ready<W>(state: IoFutureState<W>, waker: W)
    ensures
        state.completed().0.polled(waker) == (state.completed().0, Poll::Ready),
        state.completed().0.polled(waker).0.completed().1 is None,
        state.completed().0.completed() == (state.completed().0, None::<W>),
{
}

} // verus!
