//! The storage behind an event handler list. Handlers are reached only
//! through `HandlerList::call`, which also notes, in a `CallRecord`, which
//! handler it called; so a record shows the calls actually made, in the order
//! they were made.

use vstd::prelude::*;
use crate::event::Event;

verus! {

/// The positions of the handlers called so far, in the order of the calls.
pub struct CallRecord {
    calls: Ghost<Seq<int>>,
}

impl CallRecord {
    /// The positions called, first call first.
    pub closed spec fn calls(&self) -> Seq<int> {
        self.calls@
    }

    /// A record of no calls.
    pub fn new() -> (r: CallRecord)
        ensures
            r.calls() == Seq::<int>::empty(),
    {
        CallRecord { calls: Ghost(Seq::empty()) }
    }
}

/// Handlers, in the order they were added.
pub struct HandlerList<F> {
    handlers: Vec<F>,
}

impl<F: Fn(&Event)> HandlerList<F> {
    /// The handlers, first added first.
    pub closed spec fn handlers(&self) -> Seq<F> {
        self.handlers@
    }

    pub fn new() -> (l: Self)
        ensures
            l.handlers() == Seq::<F>::empty(),
    {
        HandlerList { handlers: Vec::new() }
    }

    /// Adds `handler` after the others.
    pub fn push(&mut self, handler: F)
        ensures
            final(self).handlers() == old(self).handlers().push(handler),
    {
        self.handlers.push(handler);
    }

    pub fn len(&self) -> (r: usize)
        ensures
            r == self.handlers().len(),
    {
        self.handlers.len()
    }

    /// Calls the handler at position `i` with `event`, and notes the call.
    pub fn call(&self, i: usize, event: &Event, record: &mut CallRecord)
        requires
            i < self.handlers().len(),
            call_requires(self.handlers()[i as int], (event,)),
        ensures
            call_ensures(self.handlers()[i as int], (event,), ()),
            final(record).calls() == old(record).calls().push(i as int),
    {
        let handler = &self.handlers[i];
        handler(event);
        record.calls = Ghost(record.calls@.push(i as int));
    }
}

/// `calls` is one call to each of `n` handlers, in the order they were
/// added: the call made `k`-th is to the handler at position `k`.
pub open spec fn in_added_order(calls: Seq<int>, n: nat) -> bool {
    calls == Seq::new(n, |k: int| k)
}

/// Calls made in the order the handlers were added reach every handler
/// exactly once, and a handler added earlier is called earlier.
pub proof fn law_each_handler_once_in_order(calls: Seq<int>, n: nat)
    requires
        in_added_order(calls, n),
    ensures
        calls.len() == n,
        forall|a: int, b: int| 0 <= a < b < calls.len() ==> #[trigger] calls[a] < #[trigger] calls[b],
        forall|h: int| 0 <= h < n ==> #[trigger] calls.contains(h),
        forall|a: int| 0 <= a < calls.len() ==> 0 <= #[trigger] calls[a] < n,
{
    assert forall|h: int| 0 <= h < n implies #[trigger] calls.contains(h) by {
        assert(calls[h] == h);
    }
}

} // verus!
