//! Events, their types, and a list of handlers that an event is emitted to.

use vstd::prelude::*;
use crate::handlers::{in_added_order, CallRecord, HandlerList};

verus! {

/// What an [`EventType`] denotes: the custom name taken as characters.
pub enum EventKind {
    Scheduled,
    Manual,
    Custom(Seq<char>),
}

/// The type of an event; tasks subscribe to one type.
#[derive(Debug, Clone)]
pub enum EventType {
    Scheduled,
    Manual,
    Custom(String),
}

impl View for EventType {
    type V = EventKind;

    open spec fn view(&self) -> EventKind {
        match self {
            EventType::Scheduled => EventKind::Scheduled,
            EventType::Manual => EventKind::Manual,
            EventType::Custom(s) => EventKind::Custom(s@),
        }
    }
}

impl PartialEq for EventType {
    fn eq(&self, other: &Self) -> (r: bool) {
        self.same_as(other)
    }
}

impl EventType {
    /// Whether both denote the same type.
    pub fn same_as(&self, other: &EventType) -> (r: bool)
        ensures
            r == (self@ == other@),
    {
        match (self, other) {
            (EventType::Scheduled, EventType::Scheduled) => true,
            (EventType::Manual, EventType::Manual) => true,
            (EventType::Custom(a), EventType::Custom(b)) => String::eq(a, b),
            _ => false,
        }
    }
}

impl Eq for EventType {}

impl vstd::std_specs::cmp::PartialEqSpecImpl for EventType {
    open spec fn obeys_eq_spec() -> bool {
        true
    }

    open spec fn eq_spec(&self, other: &Self) -> bool {
        self@ == other@
    }
}

/// What an [`Event`] holds.
pub struct EventView {
    pub kind: EventKind,
    pub payload: Seq<char>,
    pub timestamp: u64,
}

/// An event: a type, a payload, and the Unix time (in seconds) it was made at.
#[derive(Debug, Clone)]
pub struct Event {
    event_type: EventType,
    payload: String,
    timestamp: u64,
}

impl View for Event {
    type V = EventView;

    closed spec fn view(&self) -> EventView {
        EventView { kind: self.event_type@, payload: self.payload@, timestamp: self.timestamp }
    }
}

/// std's `SystemTime`, a reading of the system clock.
#[verifier::external_type_specification]
#[verifier::external_body]
pub struct ExSystemTime(std::time::SystemTime);

/// Reads the system clock with std's `SystemTime::now`. Nothing is claimed of
/// the reading: it is whatever the clock says.
#[verifier::external_body]
fn clock_now() -> std::time::SystemTime {
    std::time::SystemTime::now()
}

/// How long after the Unix epoch `t` lies, with std's
/// `SystemTime::duration_since(UNIX_EPOCH)`; `None` where `t` is earlier than
/// the epoch (std's error). Nothing more is claimed: a `SystemTime` is opaque
/// here, so there is nothing to tie the result to.
#[verifier::external_body]
fn since_unix_epoch(t: &std::time::SystemTime) -> Option<std::time::Duration> {
    t.duration_since(std::time::UNIX_EPOCH).ok()
}

/// The whole seconds of `d`, with std's `Duration::as_secs`. Nothing is
/// claimed of the value: a `Duration` is opaque here.
#[verifier::external_body]
fn whole_seconds(d: &std::time::Duration) -> u64 {
    d.as_secs()
}

/// Whole seconds since the Unix epoch for a clock reading taken as its time
/// after the epoch (`since`): zero where the reading lies before the epoch
/// (`None`), otherwise the whole seconds of the duration, from
/// `Duration::as_secs`.
pub fn seconds_since_epoch(since: Option<std::time::Duration>) -> (r: u64)
    ensures
        since is None ==> r == 0,
{
    match since {
        Some(d) => whole_seconds(&d),
        None => 0,
    }
}

impl Event {
    /// Makes an event stamped with the current time.
    pub fn new(event_type: EventType, payload: String) -> (e: Event)
        ensures
            e@.kind == event_type@,
            e@.payload == payload@,
            exists|since: Option<std::time::Duration>| call_ensures(seconds_since_epoch, (since,), e@.timestamp),
    {
        let since = since_unix_epoch(&clock_now());
        let timestamp = seconds_since_epoch(since);
        let e = Event::with_timestamp(event_type, payload, timestamp);
        assert(call_ensures(seconds_since_epoch, (since,), e@.timestamp));
        e
    }

    /// Makes an event stamped with the given time.
    pub fn with_timestamp(event_type: EventType, payload: String, timestamp: u64) -> (e: Event)
        ensures
            e@ == (EventView { kind: event_type@, payload: payload@, timestamp }),
    {
        Event { event_type, payload, timestamp }
    }

    pub fn event_type(&self) -> (r: &EventType)
        ensures
            r@ == self@.kind,
    {
        &self.event_type
    }

    pub fn payload(&self) -> (r: &str)
        ensures
            r@ == self@.payload,
    {
        self.payload.as_str()
    }

    pub fn timestamp(&self) -> (r: u64)
        ensures
            r == self@.timestamp,
    {
        self.timestamp
    }
}

/// A list of handlers; emitting an event calls each of them, in the order in
/// which they subscribed.
pub struct EventHandler<F> {
    handlers: HandlerList<F>,
}

impl<F: Fn(&Event)> EventHandler<F> {
    /// The subscribed handlers, oldest first.
    pub closed spec fn handlers(&self) -> Seq<F> {
        self.handlers.handlers()
    }

    pub fn new() -> (h: Self)
        ensures
            h.handlers() == Seq::<F>::empty(),
    {
        EventHandler { handlers: HandlerList::new() }
    }

    pub fn subscribe(&mut self, handler: F)
        ensures
            final(self).handlers() == old(self).handlers().push(handler),
    {
        self.handlers.push(handler);
    }

    /// Calls every handler with `event`, oldest subscription first, once
    /// each; the record it returns lists the calls made, in order.
    pub fn emit(&self, event: &Event) -> (record: CallRecord)
        requires
            forall|i: int| 0 <= i < self.handlers().len() ==> call_requires(self.handlers()[i], (event,)),
        ensures
            forall|i: int| 0 <= i < self.handlers().len() ==> call_ensures(self.handlers()[i], (event,), ()),
            in_added_order(record.calls(), self.handlers().len()),
    {
        let n = self.handlers.len();
        let mut record = CallRecord::new();
        let mut i: usize = 0;
        while i < n
            invariant
                n == self.handlers().len(),
                i <= n,
                forall|k: int| 0 <= k < self.handlers().len() ==> call_requires(self.handlers()[k], (event,)),
                forall|k: int| 0 <= k < i ==> call_ensures(self.handlers()[k], (event,), ()),
                record.calls() == Seq::new(i as nat, |k: int| k),
            decreases n - i,
        {
            self.handlers.call(i, event, &mut record);
            assert(record.calls() =~= Seq::new((i + 1) as nat, |k: int| k));
            i += 1;
        }
        record
    }
}

} // verus!
