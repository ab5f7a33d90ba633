//! The scheduler: registered tasks and a queue of events. Dispatching takes
//! the most recently queued event first and hands it to every registered task
//! that accepts it, in the order the tasks were registered.

use vstd::prelude::*;
use crate::event::Event;
use crate::task::TaskBehavior;
use crate::task_list::TaskList;
use crate::text::str_eq;

verus! {

/// Asked whether it accepts `event`, `task` may answer `answer`.
pub open spec fn accepts<T: TaskBehavior>(task: T, event: Event, answer: bool) -> bool {
    call_ensures(T::matches, (&task, &event), answer)
}

/// Asked its name, `task` may answer `name`.
pub open spec fn answers_name<T: TaskBehavior>(task: T, name: Seq<char>) -> bool {
    exists|r: &str| call_ensures(T::name, (&task,), r) && r@ == name
}

/// Asked its name, `task` may answer a name other than `name`.
pub open spec fn answers_other_name<T: TaskBehavior>(task: T, name: Seq<char>) -> bool {
    exists|r: &str| call_ensures(T::name, (&task,), r) && r@ != name
}

/// The positions in `idx` rise strictly, lie within `s`, and pick out `sub`.
pub open spec fn picks<A>(idx: Seq<int>, sub: Seq<A>, s: Seq<A>) -> bool {
    &&& idx.len() == sub.len()
    &&& forall|a: int, b: int| 0 <= a < b < idx.len() ==> idx[a] < idx[b]
    &&& forall|a: int| 0 <= a < idx.len() ==> 0 <= #[trigger] idx[a] < s.len() && sub[a] == s[idx[a]]
}

/// `kept` is `tasks` without the tasks that answered `name` when asked their
/// name: the others stay, in their order.
pub open spec fn without_named<T: TaskBehavior>(kept: Seq<T>, tasks: Seq<T>, name: Seq<char>) -> bool {
    exists|idx: Seq<int>|
        {
            &&& picks(idx, kept, tasks)
            &&& forall|a: int| 0 <= a < idx.len() ==> answers_other_name(tasks[#[trigger] idx[a]], name)
            &&& forall|j: int| 0 <= j < tasks.len() && !idx.contains(j) ==> answers_name(#[trigger] tasks[j], name)
        }
}

/// Positions that rise strictly within a sequence are no more than its length.
proof fn lemma_picks_len<A>(idx: Seq<int>, sub: Seq<A>, s: Seq<A>)
    requires
        picks(idx, sub, s),
    ensures
        sub.len() <= s.len(),
    decreases idx.len(),
{
    if idx.len() > 0 {
        let last = idx[idx.len() - 1];
        let shorter = idx.drop_last();
        assert(picks(shorter, sub.drop_last(), s.take(last))) by {
            assert forall|a: int| 0 <= a < shorter.len() implies 0 <= #[trigger] shorter[a] < s.take(last).len()
                && sub.drop_last()[a] == s.take(last)[shorter[a]] by {
                assert(idx[a] < idx[idx.len() - 1]);
            }
        }
        lemma_picks_len(shorter, sub.drop_last(), s.take(last));
    }
}

/// Unregistering never adds tasks: what is left is no longer than before.
pub proof fn law_unregister_never_adds<T: TaskBehavior>(kept: Seq<T>, tasks: Seq<T>, name: Seq<char>)
    requires
        without_named(kept, tasks, name),
    ensures
        kept.len() <= tasks.len(),
{
    let idx = choose|idx: Seq<int>|
        {
            &&& picks(idx, kept, tasks)
            &&& forall|a: int| 0 <= a < idx.len() ==> answers_other_name(tasks[#[trigger] idx[a]], name)
            &&& forall|j: int| 0 <= j < tasks.len() && !idx.contains(j) ==> answers_name(#[trigger] tasks[j], name)
        };
    lemma_picks_len(idx, kept, tasks);
}

/// The queue once `event` has been scheduled on it.
pub open spec fn queue_after_schedule(queue: Seq<Event>, event: Event) -> Seq<Event> {
    queue.push(event)
}

/// The event that the next dispatch step takes from `queue`: the most recently
/// queued one.
pub open spec fn next_dispatched(queue: Seq<Event>) -> Event {
    queue.last()
}

/// One dispatch step on the queue `before` leaves the queue `after` and
/// reports `took`: it takes the most recently queued event if there is one,
/// and leaves an empty queue as it is.
pub open spec fn dispatch_step(before: Seq<Event>, after: Seq<Event>, took: bool) -> bool {
    &&& took == (before.len() > 0)
    &&& took ==> after == before.drop_last()
    &&& !took ==> after == before
}

/// The event scheduled last is the one the next dispatch step takes, and that
/// step leaves the queue as it was before the event was scheduled.
pub proof fn law_last_queued_first_dispatched(queue: Seq<Event>, event: Event, after: Seq<Event>, took: bool)
    requires
        dispatch_step(queue_after_schedule(queue, event), after, took),
    ensures
        took,
        next_dispatched(queue_after_schedule(queue, event)) == event,
        after == queue,
{
    assert(queue_after_schedule(queue, event).drop_last() =~= queue);
}

/// The offers one dispatch step makes of `event` to `n` tasks: the task at
/// each position in turn, from the first registered to the last.
pub open spec fn offer_round(n: nat, event: Event) -> Seq<(int, Event)> {
    Seq::new(n, |i: int| (i, event))
}

/// The offers a full dispatch makes of the queue `events` to `n` tasks: a
/// round for each event, the most recently queued first.
pub open spec fn offers_for_queue(events: Seq<Event>, n: nat) -> Seq<(int, Event)>
    decreases events.len(),
{
    if events.len() == 0 {
        Seq::empty()
    } else {
        offer_round(n, events.last()) + offers_for_queue(events.drop_last(), n)
    }
}

/// The offers of a record, without the answers: each is the position of the
/// task asked and the event.
pub open spec fn asked(record: Seq<(int, Event, bool)>) -> Seq<(int, Event)> {
    record.map_values(|o: (int, Event, bool)| (o.0, o.1))
}

/// Within the part of a record from `start` on, the tasks were asked in
/// rising position order, so those that handled the event (answered yes) did
/// so in registration order.
pub open spec fn asked_in_order(record: Seq<(int, Event, bool)>, start: int) -> bool {
    forall|a: int, b: int| start <= a < b < record.len() ==> #[trigger] record[a].0 < #[trigger] record[b].0
}

/// One dispatch step of `event` over `n` tasks adds to the record exactly one
/// offer to each task, in registration order: offer `k` of the step goes to
/// the task at position `k`. So the tasks that handled the event are those
/// that accepted it, and they handled it in registration order, each once.
pub proof fn law_one_step_in_registration_order(before: Seq<(int, Event, bool)>, after: Seq<(int, Event, bool)>, n: nat, event: Event)
    requires
        after.take(before.len() as int) == before,
        asked(after) == asked(before) + offer_round(n, event),
    ensures
        after.len() == before.len() + n,
        asked_in_order(after, before.len() as int),
        forall|k: int| 0 <= k < n ==> (#[trigger] after[before.len() + k]).0 == k && after[before.len() + k].1 == event,
        forall|a: int, b: int| before.len() <= a < after.len() && before.len() <= b < after.len() && a != b
            ==> #[trigger] after[a].0 != #[trigger] after[b].0,
{
    assert(asked(after).len() == after.len());
    assert forall|k: int| 0 <= k < n implies (#[trigger] after[before.len() + k]).0 == k && after[before.len() + k].1 == event by {
        assert(asked(after)[before.len() + k] == (after[before.len() + k].0, after[before.len() + k].1));
        assert((asked(before) + offer_round(n, event))[before.len() + k] == offer_round(n, event)[k]);
    }
    assert forall|a: int, b: int| before.len() <= a < b < after.len() implies #[trigger] after[a].0 < #[trigger] after[b].0 by {
        assert(after[before.len() + (a - before.len())].0 == a - before.len());
        assert(after[before.len() + (b - before.len())].0 == b - before.len());
    }
    assert forall|a: int, b: int| before.len() <= a < after.len() && before.len() <= b < after.len() && a != b
        implies #[trigger] after[a].0 != #[trigger] after[b].0 by {
        assert(after[before.len() + (a - before.len())].0 == a - before.len());
        assert(after[before.len() + (b - before.len())].0 == b - before.len());
    }
}

pub struct EventScheduler<T> {
    tasks: TaskList<T>,
    event_queue: Vec<Event>,
}

impl<T: TaskBehavior> EventScheduler<T> {
    /// The registered tasks, in registration order.
    pub closed spec fn tasks(&self) -> Seq<T> {
        self.tasks.tasks()
    }

    /// The queued events, oldest first; the last is dispatched next.
    pub closed spec fn events(&self) -> Seq<Event> {
        self.event_queue@
    }

    /// Every offer made to a task, in the order made: the position of the
    /// task, the event, and whether the task accepted (and so handled) it.
    pub closed spec fn record(&self) -> Seq<(int, Event, bool)> {
        self.tasks.record()
    }

    /// Every question a task was asked, in the order asked: the position of
    /// the task, and the event it was asked whether it accepts.
    pub open spec fn offers(&self) -> Seq<(int, Event)> {
        asked(self.record())
    }

    pub fn new() -> (s: Self)
        ensures
            s.tasks() == Seq::<T>::empty(),
            s.events() == Seq::<Event>::empty(),
            s.offers() == Seq::<(int, Event)>::empty(),
            s.record() == Seq::<(int, Event, bool)>::empty(),
    {
        let s = EventScheduler { tasks: TaskList::new(), event_queue: Vec::new() };
        assert(s.offers() =~= Seq::<(int, Event)>::empty());
        s
    }

    /// A scheduler whose queue starts with `events`.
    pub fn new_with_queue(events: Vec<Event>) -> (s: Self)
        ensures
            s.tasks() == Seq::<T>::empty(),
            s.events() == events@,
            s.offers() == Seq::<(int, Event)>::empty(),
            s.record() == Seq::<(int, Event, bool)>::empty(),
    {
        let s = EventScheduler { tasks: TaskList::new(), event_queue: events };
        assert(s.offers() =~= Seq::<(int, Event)>::empty());
        s
    }

    pub fn register_task(&mut self, task: T)
        ensures
            final(self).tasks() == old(self).tasks().push(task),
            final(self).tasks().len() == old(self).tasks().len() + 1,
            final(self).events() == old(self).events(),
            final(self).offers() == old(self).offers(),
            final(self).record() == old(self).record(),
    {
        self.tasks.push(task);
    }

    /// Drops every task whose name is `task_name`; the others stay, in order.
    pub fn unregister_task(&mut self, task_name: &str)
        ensures
            without_named(final(self).tasks(), old(self).tasks(), task_name@),
            final(self).events() == old(self).events(),
            final(self).offers() == old(self).offers(),
            final(self).record() == old(self).record(),
    {
        let ghost orig = self.tasks.tasks();
        let mut remaining: Vec<T> = self.tasks.take_all();
        let mut reversed: Vec<T> = Vec::new();
        while remaining.len() > 0
            invariant
                remaining@ + reversed@.reverse() == orig,
            decreases remaining@.len(),
        {
            let ghost before = remaining@;
            match remaining.pop() {
                Some(t) => {
                    reversed.push(t);
                    assert(remaining@ + reversed@.reverse() =~= orig) by {
                        assert(reversed@.reverse() =~= seq![t] + reversed@.drop_last().reverse());
                        assert(before =~= remaining@.push(t));
                    }
                },
                None => {},
            }
        }
        assert(reversed@.reverse() =~= orig);
        let mut kept: Vec<T> = Vec::new();
        let ghost mut idx: Seq<int> = Seq::empty();
        while reversed.len() > 0
            invariant
                orig.len() >= reversed@.len(),
                reversed@.reverse() == orig.skip(orig.len() - reversed@.len()),
                picks(idx, kept@, orig),
                forall|a: int| 0 <= a < idx.len() ==> #[trigger] idx[a] < orig.len() - reversed@.len(),
                forall|a: int| 0 <= a < idx.len() ==> answers_other_name(orig[#[trigger] idx[a]], task_name@),
                forall|j: int| 0 <= j < orig.len() - reversed@.len() && !idx.contains(j) ==> answers_name(#[trigger] orig[j], task_name@),
            decreases reversed@.len(),
        {
            let ghost consumed = orig.len() - reversed@.len();
            let ghost before = reversed@;
            match reversed.pop() {
                Some(t) => {
                    assert(t == orig[consumed]) by {
                        assert(before.reverse()[0] == before[before.len() - 1]);
                        assert(orig.skip(consumed)[0] == orig[consumed]);
                    }
                    assert(reversed@.reverse() =~= orig.skip(orig.len() - reversed@.len())) by {
                        assert(before.reverse().drop_first() =~= reversed@.reverse());
                        assert(orig.skip(consumed).drop_first() =~= orig.skip(consumed + 1));
                    }
                    let name = t.name();
                    let drop = str_eq(name, task_name);
                    if !drop {
                        proof {
                            assert(answers_other_name(orig[consumed], task_name@));
                            let old_idx = idx;
                            idx = idx.push(consumed);
                            assert forall|j: int| 0 <= j < consumed + 1 && !idx.contains(j) implies answers_name(#[trigger] orig[j], task_name@) by {
                                assert(j != consumed) by {
                                    assert(idx[idx.len() - 1] == consumed);
                                }
                                if old_idx.contains(j) {
                                    let a = choose|a: int| 0 <= a < old_idx.len() && old_idx[a] == j;
                                    assert(idx[a] == j);
                                }
                            }
                        }
                        kept.push(t);
                    } else {
                        proof {
                            assert(answers_name(orig[consumed], task_name@));
                            assert forall|j: int| 0 <= j < consumed + 1 && !idx.contains(j) implies answers_name(#[trigger] orig[j], task_name@) by {
                            }
                        }
                    }
                },
                None => {},
            }
        }
        self.tasks.put_all(kept);
    }

    /// Queues `event`; it is the next to be dispatched.
    pub fn schedule(&mut self, event: Event)
        ensures
            final(self).events() == queue_after_schedule(old(self).events(), event),
            final(self).tasks() == old(self).tasks(),
            final(self).offers() == old(self).offers(),
            final(self).record() == old(self).record(),
    {
        self.event_queue.push(event);
    }

    /// Takes the most recently queued event, if there is one, and hands it to
    /// every task that accepts it, in registration order. Returns whether an
    /// event was dispatched.
    pub fn dispatch_next(&mut self) -> (r: bool)
        ensures
            dispatch_step(old(self).events(), final(self).events(), r),
            !r ==> final(self).tasks() == old(self).tasks(),
            !r ==> final(self).offers() == old(self).offers(),
            !r ==> final(self).record() == old(self).record(),
            r ==> final(self).offers() == old(self).offers() + offer_round(old(self).tasks().len(), next_dispatched(old(self).events())),
            final(self).record().take(old(self).record().len() as int) == old(self).record(),
            r ==> final(self).record().len() == old(self).record().len() + old(self).tasks().len(),
            r ==> forall|k: int| 0 <= k < old(self).tasks().len() ==> {
                let o = #[trigger] final(self).record()[old(self).record().len() + k];
                &&& o.0 == k
                &&& o.1 == next_dispatched(old(self).events())
                &&& (!o.2 && final(self).tasks()[k] == old(self).tasks()[k] && accepts(old(self).tasks()[k], next_dispatched(old(self).events()), false))
                    || (o.2 && accepts(old(self).tasks()[k], next_dispatched(old(self).events()), true) && exists|m: &mut T|
                        *m == old(self).tasks()[k] && *final(m) == final(self).tasks()[k] && call_ensures(T::handle_event, (m, &next_dispatched(old(self).events())), ()))
            },
            final(self).tasks().len() == old(self).tasks().len(),
            r ==> forall|i: int| 0 <= i < old(self).tasks().len() ==>
                (final(self).tasks()[i] == old(self).tasks()[i] && accepts(old(self).tasks()[i], next_dispatched(old(self).events()), false))
                || (accepts(old(self).tasks()[i], next_dispatched(old(self).events()), true) && exists|m: &mut T|
                    *m == old(self).tasks()[i] && *final(m) == final(self).tasks()[i] && call_ensures(T::handle_event, (m, &next_dispatched(old(self).events())), ())),
    {
        let ghost before = self.event_queue@;
        match self.event_queue.pop() {
            Some(event) => {
                let n = self.tasks.len();
                let ghost start = self.tasks.record().len();
                let mut i: usize = 0;
                while i < n
                    invariant
                        n == self.tasks.tasks().len(),
                        i <= n,
                        start == old(self).tasks.record().len(),
                        self.tasks.record().len() == start + i,
                        self.tasks.record().take(start as int) == old(self).tasks.record(),
                        self.event_queue@ == before.drop_last(),
                        event == before.last(),
                        forall|j: int| i <= j < n ==> self.tasks.tasks()[j] == old(self).tasks.tasks()[j],
                        forall|j: int| 0 <= j < i ==> {
                            let o = #[trigger] self.tasks.record()[start + j];
                            &&& o.0 == j
                            &&& o.1 == event
                            &&& (!o.2 && self.tasks.tasks()[j] == old(self).tasks.tasks()[j] && accepts(old(self).tasks.tasks()[j], event, false))
                                || (o.2 && accepts(old(self).tasks.tasks()[j], event, true) && exists|m: &mut T|
                                    *m == old(self).tasks.tasks()[j] && *final(m) == self.tasks.tasks()[j] && call_ensures(T::handle_event, (m, &event), ()))
                        },
                    decreases n - i,
                {
                    let ghost rec_before = self.tasks.record();
                    self.tasks.offer(i, &event);
                    assert(self.tasks.record().take(start as int) =~= old(self).tasks.record()) by {
                        assert(self.tasks.record().take(start as int) =~= rec_before.take(start as int));
                    }
                    assert forall|j: int| 0 <= j < i + 1 implies {
                        let o = #[trigger] self.tasks.record()[start + j];
                        &&& o.0 == j
                        &&& o.1 == event
                        &&& (!o.2 && self.tasks.tasks()[j] == old(self).tasks.tasks()[j] && accepts(old(self).tasks.tasks()[j], event, false))
                            || (o.2 && accepts(old(self).tasks.tasks()[j], event, true) && exists|m: &mut T|
                                *m == old(self).tasks.tasks()[j] && *final(m) == self.tasks.tasks()[j] && call_ensures(T::handle_event, (m, &event), ()))
                    } by {
                        if j < i {
                            assert(self.tasks.record()[start + j] == rec_before[start + j]);
                        }
                    }
                    i += 1;
                }
                proof {
                    let rec = self.tasks.record();
                    let old_rec = old(self).tasks.record();
                    assert(asked(rec) =~= asked(old_rec) + offer_round(n as nat, event)) by {
                        assert forall|k: int| 0 <= k < asked(rec).len() implies asked(rec)[k] == (asked(old_rec) + offer_round(n as nat, event))[k] by {
                            if k < start {
                                assert(rec[k] == rec.take(start as int)[k]);
                            } else {
                                let o = rec[start + (k - start)];
                                assert(o.0 == k - start);
                            }
                        }
                    }
                    assert forall|k: int| 0 <= k < n implies
                        (self.tasks.tasks()[k] == old(self).tasks.tasks()[k] && accepts(old(self).tasks.tasks()[k], event, false))
                        || (accepts(old(self).tasks.tasks()[k], event, true) && exists|m: &mut T|
                            *m == old(self).tasks.tasks()[k] && *final(m) == self.tasks.tasks()[k] && call_ensures(T::handle_event, (m, &event), ())) by {
                        let o = rec[start + k];
                    }
                }
                true
            },
            None => false,
        }
    }

    /// Dispatches queued events, most recent first, until none is left: each
    /// event in turn is offered to every task, in registration order, and
    /// handled by each task that accepts it.
    ///
    /// `stages[j]` is the task list once events `j` and up have been
    /// dispatched: `stages[n]` is the task list before, `stages[0]` the one
    /// after, and `stages[j]` is `stages[j + 1]` once event `j` has been
    /// offered to every task, each task staying in its place.
    pub fn dispatch(&mut self)
        ensures
            final(self).events() == Seq::<Event>::empty(),
            final(self).tasks().len() == old(self).tasks().len(),
            final(self).offers() == old(self).offers() + offers_for_queue(old(self).events(), old(self).tasks().len()),
            final(self).record().take(old(self).record().len() as int) == old(self).record(),
            exists|stages: Seq<Seq<T>>| #![trigger stages[0]]
                {
                    &&& stages.len() == old(self).events().len() + 1
                    &&& stages[old(self).events().len() as int] == old(self).tasks()
                    &&& stages[0] == final(self).tasks()
                    &&& forall|j: int| 0 <= j < old(self).events().len() ==> #[trigger] stages[j].len() == stages[j + 1].len()
                    &&& forall|j: int, i: int| #![trigger stages[j][i]] 0 <= j < old(self).events().len() && 0 <= i < stages[j].len() ==>
                        (stages[j][i] == stages[j + 1][i] && accepts(stages[j + 1][i], old(self).events()[j], false))
                        || (accepts(stages[j + 1][i], old(self).events()[j], true) && exists|m: &mut T|
                            *m == stages[j + 1][i] && *final(m) == stages[j][i] && call_ensures(T::handle_event, (m, &old(self).events()[j]), ()))
                },
    {
        let stages = self.dispatch_queued();
        assert(stages@[0] == self.tasks.tasks());
    }

    /// Dispatches every queued event, most recent first; returns the task
    /// lists it went through, as `dispatch` describes them.
    #[verifier::rlimit(50)]
    fn dispatch_queued(&mut self) -> (stages: Ghost<Seq<Seq<T>>>)
        ensures
            final(self).events() == Seq::<Event>::empty(),
            final(self).tasks().len() == old(self).tasks().len(),
            final(self).offers() == old(self).offers() + offers_for_queue(old(self).events(), old(self).tasks().len()),
            final(self).record().take(old(self).record().len() as int) == old(self).record(),
            stages@.len() == old(self).events().len() + 1,
            stages@[old(self).events().len() as int] == old(self).tasks(),
            stages@[0] == final(self).tasks(),
            forall|j: int| 0 <= j < old(self).events().len() ==> #[trigger] stages@[j].len() == stages@[j + 1].len(),
            forall|j: int, i: int| #![trigger stages@[j][i]] 0 <= j < old(self).events().len() && 0 <= i < stages@[j].len() ==>
                (stages@[j][i] == stages@[j + 1][i] && accepts(stages@[j + 1][i], old(self).events()[j], false))
                || (accepts(stages@[j + 1][i], old(self).events()[j], true) && exists|m: &mut T|
                    *m == stages@[j + 1][i] && *final(m) == stages@[j][i] && call_ensures(T::handle_event, (m, &old(self).events()[j]), ())),
        decreases old(self).events().len(),
    {
        let ghost events = self.event_queue@;
        let ghost before = self.tasks.tasks();
        let ghost asked_before = self.offers();
        let ghost rec0 = self.record();
        if self.event_queue.len() == 0 {
            assert(self.offers() =~= asked_before + offers_for_queue(events, before.len()));
            assert(self.record().take(rec0.len() as int) =~= rec0);
            let done: Ghost<Seq<Seq<T>>> = Ghost(Seq::empty().push(before));
            return done;
        }
        self.dispatch_next();
        let ghost middle = self.tasks.tasks();
        let ghost rec1 = self.record();
        let ghost rest = self.event_queue@;
        assert(rest == events.drop_last());
        let inner = self.dispatch_queued();
        let ghost stages = inner@.push(before);
        proof {
            assert(events == old(self).events());
            assert(self.offers() =~= asked_before + offers_for_queue(events, before.len()));
            assert(self.record().take(rec0.len() as int) =~= rec0) by {
                assert(self.record().take(rec0.len() as int) =~= self.record().take(rec1.len() as int).take(rec0.len() as int));
            }
            let n = events.len() as int;
            assert forall|j: int| 0 <= j < n implies #[trigger] stages[j].len() == stages[j + 1].len() by {
                if j == n - 1 {
                    assert(stages[j] == middle);
                } else {
                    assert(stages[j] == inner@[j] && stages[j + 1] == inner@[j + 1]);
                }
            }
            assert forall|j: int, i: int| #![trigger stages[j][i]] 0 <= j < n && 0 <= i < stages[j].len() implies
                (stages[j][i] == stages[j + 1][i] && accepts(stages[j + 1][i], old(self).events()[j], false))
                || (accepts(stages[j + 1][i], old(self).events()[j], true) && exists|m: &mut T|
                    *m == stages[j + 1][i] && *final(m) == stages[j][i] && call_ensures(T::handle_event, (m, &old(self).events()[j]), ())) by {
                if j == n - 1 {
                    assert(stages[j][i] == middle[i]);
                    assert(stages[j + 1][i] == before[i]);
                    assert(old(self).events()[j] == events.last());
                } else {
                    assert(stages[j][i] == inner@[j][i]);
                    assert(stages[j + 1][i] == inner@[j + 1][i]);
                    assert(old(self).events()[j] == rest[j]);
                }
            }
        }
        Ghost(stages)
    }

    /// Whether a dispatch is under way. A scheduler runs only inside its own
    /// `dispatch`, where no caller and no task can reach it, so every
    /// scheduler a caller holds is idle.
    pub fn is_running(&self) -> (r: bool)
        ensures
            !r,
    {
        false
    }

    pub fn pending_events(&self) -> (r: usize)
        ensures
            r == self.events().len(),
    {
        self.event_queue.len()
    }

    pub fn registered_tasks(&self) -> (r: usize)
        ensures
            r == self.tasks().len(),
    {
        self.tasks.len()
    }

    /// Drops every queued event.
    pub fn clear_queue(&mut self)
        ensures
            final(self).events() == Seq::<Event>::empty(),
            final(self).tasks() == old(self).tasks(),
            final(self).offers() == old(self).offers(),
            final(self).record() == old(self).record(),
    {
        self.event_queue.clear();
    }
}

} // verus!
