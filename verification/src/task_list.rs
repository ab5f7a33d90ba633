//! The registered tasks of a scheduler. A task is asked about an event only
//! through `TaskList::offer`, which asks it whether it accepts the event,
//! lets it handle the event when it does, and notes the offer and the answer
//! in the list's record; so the record shows the offers actually made, in
//! the order they were made, and which of them led to a `handle_event` call.

use vstd::prelude::*;
use crate::event::Event;
use crate::scheduler::accepts;
use crate::task::TaskBehavior;

verus! {

/// Tasks in registration order, with the record of the offers made to them.
pub struct TaskList<T> {
    tasks: Vec<T>,
    record: Ghost<Seq<(int, Event, bool)>>,
}

impl<T: TaskBehavior> TaskList<T> {
    /// The tasks, first registered first.
    pub closed spec fn tasks(&self) -> Seq<T> {
        self.tasks@
    }

    /// Every offer made, in the order made: the position of the task asked,
    /// the event, and whether the task accepted it (and so handled it).
    pub closed spec fn record(&self) -> Seq<(int, Event, bool)> {
        self.record@
    }

    pub fn new() -> (l: Self)
        ensures
            l.tasks() == Seq::<T>::empty(),
            l.record() == Seq::<(int, Event, bool)>::empty(),
    {
        TaskList { tasks: Vec::new(), record: Ghost(Seq::empty()) }
    }

    /// Adds `task` after the others.
    pub fn push(&mut self, task: T)
        ensures
            final(self).tasks() == old(self).tasks().push(task),
            final(self).tasks().len() == old(self).tasks().len() + 1,
            final(self).record() == old(self).record(),
    {
        self.tasks.push(task);
    }

    pub fn len(&self) -> (r: usize)
        ensures
            r == self.tasks().len(),
    {
        self.tasks.len()
    }

    /// Hands out every task, in order, and leaves none.
    pub fn take_all(&mut self) -> (r: Vec<T>)
        ensures
            r@ == old(self).tasks(),
            final(self).tasks() == Seq::<T>::empty(),
            final(self).record() == old(self).record(),
    {
        let mut all: Vec<T> = Vec::new();
        std::mem::swap(&mut all, &mut self.tasks);
        all
    }

    /// Replaces the tasks by `tasks`.
    pub fn put_all(&mut self, tasks: Vec<T>)
        ensures
            final(self).tasks() == tasks@,
            final(self).record() == old(self).record(),
    {
        self.tasks = tasks;
    }

    /// Offers `event` to the task at position `i`: asks it whether it accepts
    /// the event and, when it does, has it handle the event. Returns the
    /// answer; the offer and the answer are added to the record.
    pub fn offer(&mut self, i: usize, event: &Event) -> (accepted: bool)
        requires
            i < old(self).tasks().len(),
        ensures
            final(self).tasks().len() == old(self).tasks().len(),
            forall|j: int| 0 <= j < old(self).tasks().len() && j != i ==> final(self).tasks()[j] == old(self).tasks()[j],
            (!accepted && final(self).tasks()[i as int] == old(self).tasks()[i as int] && accepts(old(self).tasks()[i as int], *event, false))
                || (accepted && accepts(old(self).tasks()[i as int], *event, true) && exists|m: &mut T|
                    *m == old(self).tasks()[i as int] && *final(m) == final(self).tasks()[i as int] && call_ensures(T::handle_event, (m, event), ())),
            final(self).record() == old(self).record().push((i as int, *event, accepted)),
    {
        let accepted = self.tasks[i].matches(event);
        if accepted {
            self.tasks[i].handle_event(event);
            assert(exists|h: &mut T| call_ensures(T::handle_event, (h, event), ()));
        }
        self.record = Ghost(self.record@.push((i as int, *event, accepted)));
        accepted
    }
}

} // verus!
