//! The state that a job run on another thread shares with the task that
//! awaits its result: the result once the job is done, and the waker of a
//! task that asked too early.
use vstd::prelude::*;

verus! {

pub struct SpawnBlocking<T, W> {
    value: Option<T>,
    waker: Option<W>,
}

impl<T, W> SpawnBlocking<T, W> {
    /// The result of the job, while nobody has taken it.
    pub closed spec fn spec_value(&self) -> Option<T> {
        self.value
    }

    /// The waker to call when the result arrives.
    pub closed spec fn spec_waker(&self) -> Option<W> {
        self.waker
    }

    /// No result yet and nobody waiting.
    pub fn new() -> (r: Self)
        ensures
            r.spec_value() is None,
            r.spec_waker() is None,
    {
        SpawnBlocking { value: None, waker: None }
    }

    /// A task asks for the result: it gets it if the job is done, and
    /// otherwise `waker` is kept, in place of any earlier one, to be called
    /// on completion.
    pub fn poll(&mut self, waker: W) -> (r: Option<T>)
        ensures
            final(self).spec_value() is None,
            r == old(self).spec_value(),
            old(self).spec_value() is Some ==> final(self).spec_waker() == old(self).spec_waker(),
            old(self).spec_value() is None ==> final(self).spec_waker() == Some(waker),
    {
        let taken = self.value.take();
        if taken.is_none() {
            self.waker = Some(waker);
        }
        taken
    }

    /// The job is done with `value`: it is kept for the next poll, and the
    /// waker of a waiting task, if any, is handed back to be called.
    pub fn complete(&mut self, value: T) -> (r: Option<W>)
        ensures
            final(self).spec_value() == Some(value),
            final(self).spec_waker() is None,
            r == old(self).spec_waker(),
    {
        self.value = Some(value);
        self.waker.take()
    }
}

} // verus!
