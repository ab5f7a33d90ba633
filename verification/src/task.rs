//! Tasks: the state a task keeps (its name, the event type it listens to, its
//! lifecycle state, retry counters and string properties), the traits through
//! which concrete tasks plug into the scheduler, and a small factory.

use vstd::prelude::*;
use vstd::string::*;
use crate::event::{Event, EventKind, EventType};
use crate::text::str_eq;

verus! {

/// Where a task is in its lifecycle.
#[derive(Debug, Clone, Copy, PartialEq, Eq, Structural)]
pub enum TaskState {
    Initialized,
    Running,
    Paused,
    Stopped,
    Failed,
}

/// The name of a state, as Debug formatting writes it.
pub open spec fn state_label(state: TaskState) -> Seq<char> {
    match state {
        TaskState::Initialized => "Initialized"@,
        TaskState::Running => "Running"@,
        TaskState::Paused => "Paused"@,
        TaskState::Stopped => "Stopped"@,
        TaskState::Failed => "Failed"@,
    }
}

impl TaskState {
    /// The name of the state, as Debug formatting writes it.
    pub fn label(&self) -> (r: &'static str)
        ensures
            r@ == state_label(*self),
    {
        match self {
            TaskState::Initialized => "Initialized",
            TaskState::Running => "Running",
            TaskState::Paused => "Paused",
            TaskState::Stopped => "Stopped",
            TaskState::Failed => "Failed",
        }
    }
}

/// The pairs of a property list, each string taken as characters.
pub open spec fn pair_views(v: Seq<(String, String)>) -> Seq<(Seq<char>, Seq<char>)> {
    v.map_values(|p: (String, String)| (p.0@, p.1@))
}

/// No key occurs twice.
pub open spec fn keys_unique(s: Seq<(Seq<char>, Seq<char>)>) -> bool {
    forall|i: int, j: int| 0 <= i < s.len() && 0 <= j < s.len() && i != j ==> s[i].0 != s[j].0
}

/// The map built by inserting the pairs one after another, first to last; a
/// later pair overrides an earlier one with the same key.
pub open spec fn pairs_to_map(s: Seq<(Seq<char>, Seq<char>)>) -> Map<Seq<char>, Seq<char>>
    decreases s.len(),
{
    if s.len() == 0 {
        Map::empty()
    } else {
        pairs_to_map(s.drop_last()).insert(s.last().0, s.last().1)
    }
}

/// A key is in the built map exactly when some pair has it.
pub proof fn lemma_pairs_to_map_dom(s: Seq<(Seq<char>, Seq<char>)>, k: Seq<char>)
    ensures
        pairs_to_map(s).dom().contains(k) <==> exists|i: int| 0 <= i < s.len() && s[i].0 == k,
    decreases s.len(),
{
    if s.len() > 0 {
        lemma_pairs_to_map_dom(s.drop_last(), k);
        if pairs_to_map(s.drop_last()).dom().contains(k) {
            let i = choose|i: int| 0 <= i < s.drop_last().len() && s.drop_last()[i].0 == k;
            assert(s[i].0 == k);
        }
        if exists|i: int| 0 <= i < s.len() && s[i].0 == k {
            let i = choose|i: int| 0 <= i < s.len() && s[i].0 == k;
            if i < s.len() - 1 {
                assert(s.drop_last()[i].0 == k);
            }
        }
    }
}

/// With unique keys, the value stored under the key of pair `i` is its value.
pub proof fn lemma_pairs_to_map_at(s: Seq<(Seq<char>, Seq<char>)>, i: int)
    requires
        keys_unique(s),
        0 <= i < s.len(),
    ensures
        pairs_to_map(s).dom().contains(s[i].0),
        pairs_to_map(s)[s[i].0] == s[i].1,
    decreases s.len(),
{
    if i < s.len() - 1 {
        let d = s.drop_last();
        assert(keys_unique(d)) by {
            assert forall|a: int, b: int| 0 <= a < d.len() && 0 <= b < d.len() && a != b implies d[a].0 != d[b].0 by {
                assert(d[a] == s[a] && d[b] == s[b]);
            }
        }
        lemma_pairs_to_map_at(d, i);
        assert(s.last().0 != s[i].0);
    }
}

/// With unique keys, giving pair `i` a new value is inserting that value
/// under its key.
pub proof fn lemma_pairs_to_map_update(s: Seq<(Seq<char>, Seq<char>)>, i: int, v: Seq<char>)
    requires
        keys_unique(s),
        0 <= i < s.len(),
    ensures
        pairs_to_map(s.update(i, (s[i].0, v))) == pairs_to_map(s).insert(s[i].0, v),
    decreases s.len(),
{
    let t = s.update(i, (s[i].0, v));
    let d = s.drop_last();
    if i == s.len() - 1 {
        assert(t.drop_last() == d);
        assert(pairs_to_map(t) =~= pairs_to_map(s).insert(s[i].0, v));
    } else {
        assert(keys_unique(d)) by {
            assert forall|a: int, b: int| 0 <= a < d.len() && 0 <= b < d.len() && a != b implies d[a].0 != d[b].0 by {
                assert(d[a] == s[a] && d[b] == s[b]);
            }
        }
        lemma_pairs_to_map_update(d, i, v);
        assert(t.drop_last() == d.update(i, (d[i].0, v)));
        assert(s.last().0 != s[i].0);
        assert(pairs_to_map(t) =~= pairs_to_map(s).insert(s[i].0, v));
    }
}

/// Properties given as pairs with distinct keys are exactly the properties
/// the task holds: each key reads as its value, and no other key is present.
pub proof fn law_distinct_pairs_are_the_properties(pairs: Seq<(Seq<char>, Seq<char>)>, key: Seq<char>)
    requires
        keys_unique(pairs),
    ensures
        forall|i: int| #![trigger pairs[i]] 0 <= i < pairs.len() ==> pairs_to_map(pairs).dom().contains(pairs[i].0)
            && pairs_to_map(pairs)[pairs[i].0] == pairs[i].1,
        pairs_to_map(pairs).dom().contains(key) <==> exists|i: int| 0 <= i < pairs.len() && pairs[i].0 == key,
{
    assert forall|i: int| #![trigger pairs[i]] 0 <= i < pairs.len() implies pairs_to_map(pairs).dom().contains(pairs[i].0)
        && pairs_to_map(pairs)[pairs[i].0] == pairs[i].1 by {
        lemma_pairs_to_map_at(pairs, i);
    }
    lemma_pairs_to_map_dom(pairs, key);
}

/// What a [`Task`] holds.
pub struct TaskView {
    pub name: Seq<char>,
    pub kind: EventKind,
    pub state: TaskState,
    pub retry_count: u32,
    pub max_retries: u32,
    pub properties: Map<Seq<char>, Seq<char>>,
}

/// A task just made: initialized, no retries so far, at most three retries,
/// no properties.
pub open spec fn fresh_task(name: Seq<char>, kind: EventKind) -> TaskView {
    TaskView {
        name,
        kind,
        state: TaskState::Initialized,
        retry_count: 0,
        max_retries: 3,
        properties: Map::empty(),
    }
}

/// `task` with `value` stored under `key`, replacing what was stored there.
pub open spec fn with_property(task: TaskView, key: Seq<char>, value: Seq<char>) -> TaskView {
    TaskView { properties: task.properties.insert(key, value), ..task }
}

/// The value `task` stores under `key`, if any.
pub open spec fn property_of(task: TaskView, key: Seq<char>) -> Option<Seq<char>> {
    if task.properties.dom().contains(key) {
        Some(task.properties[key])
    } else {
        None
    }
}

/// `task` after the writes `writes`, made first to last, each storing its
/// value under its key.
pub open spec fn with_properties(task: TaskView, writes: Seq<(Seq<char>, Seq<char>)>) -> TaskView
    decreases writes.len(),
{
    if writes.len() == 0 {
        task
    } else {
        with_property(with_properties(task, writes.drop_last()), writes.last().0, writes.last().1)
    }
}

/// After a property is set, reading it gives the value set, and every other
/// property reads as before; nothing else about the task changes.
pub proof fn law_property_set_then_get(task: TaskView, key: Seq<char>, value: Seq<char>, other: Seq<char>)
    ensures
        property_of(with_property(task, key, value), key) == Some(value),
        other != key ==> property_of(with_property(task, key, value), other) == property_of(task, other),
        with_property(task, key, value).name == task.name,
        with_property(task, key, value).kind == task.kind,
        with_property(task, key, value).state == task.state,
        with_property(task, key, value).retry_count == task.retry_count,
        with_property(task, key, value).max_retries == task.max_retries,
{
    if other != key {
        assert(with_property(task, key, value).properties.dom().contains(other) == task.properties.dom().contains(other));
    }
}

/// After a sequence of writes, the properties are those the task started
/// with, updated by the writes in order: a later write to a key wins over an
/// earlier one, and keys nobody wrote keep their values. Nothing else about
/// the task changes.
pub proof fn law_properties_after_writes(task: TaskView, writes: Seq<(Seq<char>, Seq<char>)>)
    ensures
        with_properties(task, writes).properties == task.properties.union_prefer_right(pairs_to_map(writes)),
        with_properties(task, writes).name == task.name,
        with_properties(task, writes).kind == task.kind,
        with_properties(task, writes).state == task.state,
        with_properties(task, writes).retry_count == task.retry_count,
        with_properties(task, writes).max_retries == task.max_retries,
    decreases writes.len(),
{
    if writes.len() > 0 {
        law_properties_after_writes(task, writes.drop_last());
        assert(with_properties(task, writes).properties =~= task.properties.union_prefer_right(pairs_to_map(writes)));
    } else {
        assert(task.properties.union_prefer_right(pairs_to_map(writes)) =~= task.properties);
    }
}

/// The state every concrete task is built on.
#[derive(Debug)]
pub struct Task {
    name: String,
    event_type: EventType,
    state: TaskState,
    retry_count: u32,
    max_retries: u32,
    properties: Vec<(String, String)>,
}

impl View for Task {
    type V = TaskView;

    closed spec fn view(&self) -> TaskView {
        TaskView {
            name: self.name@,
            kind: self.event_type@,
            state: self.state,
            retry_count: self.retry_count,
            max_retries: self.max_retries,
            properties: pairs_to_map(pair_views(self.properties@)),
        }
    }
}

impl Task {
    #[verifier::type_invariant]
    spec fn wf(&self) -> bool {
        keys_unique(pair_views(self.properties@))
    }

    pub fn new(name: &str, event_type: EventType) -> (t: Task)
        ensures
            t@ == fresh_task(name@, event_type@),
    {
        let t = Task {
            name: String::from_str(name),
            event_type,
            state: TaskState::Initialized,
            retry_count: 0,
            max_retries: 3,
            properties: Vec::new(),
        };
        assert(pair_views(t.properties@) =~= Seq::empty());
        t
    }

    pub fn name(&self) -> (r: &str)
        ensures
            r@ == self@.name,
    {
        self.name.as_str()
    }

    pub fn event_type(&self) -> (r: &EventType)
        ensures
            r@ == self@.kind,
    {
        &self.event_type
    }

    pub fn state(&self) -> (r: TaskState)
        ensures
            r == self@.state,
    {
        self.state
    }

    pub fn set_state(&mut self, state: TaskState)
        ensures
            final(self)@ == (TaskView { state, ..old(self)@ }),
    {
        proof {
            use_type_invariant(&*self);
        }
        self.state = state;
    }

    pub fn retry_count(&self) -> (r: u32)
        ensures
            r == self@.retry_count,
    {
        self.retry_count
    }

    pub fn increment_retry(&mut self)
        requires
            old(self)@.retry_count < u32::MAX,
        ensures
            final(self)@ == (TaskView { retry_count: (old(self)@.retry_count + 1) as u32, ..old(self)@ }),
    {
        proof {
            use_type_invariant(&*self);
        }
        self.retry_count = self.retry_count + 1;
    }

    pub fn reset_retry(&mut self)
        ensures
            final(self)@ == (TaskView { retry_count: 0, ..old(self)@ }),
    {
        proof {
            use_type_invariant(&*self);
        }
        self.retry_count = 0;
    }

    pub fn max_retries(&self) -> (r: u32)
        ensures
            r == self@.max_retries,
    {
        self.max_retries
    }

    pub fn set_max_retries(&mut self, max: u32)
        ensures
            final(self)@ == (TaskView { max_retries: max, ..old(self)@ }),
    {
        proof {
            use_type_invariant(&*self);
        }
        self.max_retries = max;
    }

    /// The position of the property named `key`, if there is one.
    fn property_index(&self, key: &str) -> (r: Option<usize>)
        ensures
            match r {
                Some(i) => i < self.properties@.len() && pair_views(self.properties@)[i as int].0 == key@,
                None => forall|i: int| 0 <= i < self.properties@.len() ==> pair_views(self.properties@)[i].0 != key@,
            },
    {
        let n = self.properties.len();
        let mut i: usize = 0;
        while i < n
            invariant
                n == self.properties@.len(),
                i <= n,
                forall|j: int| 0 <= j < i ==> pair_views(self.properties@)[j].0 != key@,
            decreases n - i,
        {
            if str_eq(self.properties[i].0.as_str(), key) {
                return Some(i);
            }
            i += 1;
        }
        None
    }

    /// Stores `value` under `key`, replacing what was stored there.
    pub fn set_property(&mut self, key: &str, value: &str)
        ensures
            final(self)@ == with_property(old(self)@, key@, value@),
    {
        proof {
            use_type_invariant(&*self);
        }
        let ghost before = pair_views(self.properties@);
        let found = self.property_index(key);
        let mut props: Vec<(String, String)> = Vec::new();
        std::mem::swap(&mut props, &mut self.properties);
        match found {
            Some(i) => {
                proof {
                    lemma_pairs_to_map_update(before, i as int, value@);
                }
                props.set(i, (String::from_str(key), String::from_str(value)));
                assert(pair_views(props@) =~= before.update(i as int, (before[i as int].0, value@)));
                assert(keys_unique(pair_views(props@))) by {
                    let pv = pair_views(props@);
                    assert forall|a: int, b: int| 0 <= a < pv.len() && 0 <= b < pv.len() && a != b implies pv[a].0 != pv[b].0 by {
                        assert(pv[a].0 == before[a].0 && pv[b].0 == before[b].0);
                    }
                }
            },
            None => {
                props.push((String::from_str(key), String::from_str(value)));
                assert(pair_views(props@).drop_last() =~= before);
                assert(keys_unique(pair_views(props@))) by {
                    let pv = pair_views(props@);
                    assert forall|a: int, b: int| 0 <= a < pv.len() && 0 <= b < pv.len() && a != b implies pv[a].0 != pv[b].0 by {
                        if a < before.len() {
                            assert(pv[a] == before[a]);
                        }
                        if b < before.len() {
                            assert(pv[b] == before[b]);
                        }
                    }
                }
            },
        }
        self.properties = props;
    }

    /// The value stored under `key`, if any.
    pub fn get_property(&self, key: &str) -> (r: Option<&str>)
        ensures
            match r {
                Some(v) => property_of(self@, key@) == Some(v@),
                None => property_of(self@, key@) is None,
            },
    {
        proof {
            use_type_invariant(self);
        }
        let ghost pv = pair_views(self.properties@);
        match self.property_index(key) {
            Some(i) => {
                proof {
                    lemma_pairs_to_map_at(pv, i as int);
                }
                Some(self.properties[i].1.as_str())
            },
            None => {
                proof {
                    lemma_pairs_to_map_dom(pv, key@);
                }
                None
            },
        }
    }

    /// The stored properties as key/value pairs; no key occurs twice.
    pub fn properties(&self) -> (r: &Vec<(String, String)>)
        ensures
            pairs_to_map(pair_views(r@)) == self@.properties,
            keys_unique(pair_views(r@)),
    {
        proof {
            use_type_invariant(self);
        }
        &self.properties
    }
}

/// Runs when a task starts.
pub trait TaskStartup {
    fn on_startup(&mut self) -> Result<(), String>;
}

/// Runs when a task shuts down.
pub trait TaskShutdown {
    fn on_shutdown(&mut self) -> Result<(), String>;
}

/// Retry hooks for a task that failed.
pub trait TaskRetry {
    fn on_retry(&mut self) -> Result<(), String>;

    fn should_retry(&self) -> bool;
}

/// Pause and resume hooks.
pub trait TaskPausable {
    fn on_pause(&mut self) -> Result<(), String>;

    fn on_resume(&mut self) -> Result<(), String>;

    fn is_paused(&self) -> bool;
}

/// What the scheduler needs of a task: its base state, and what it does with
/// an event routed to it.
pub trait TaskBehavior {
    fn base(&self) -> &Task;

    fn base_mut(&mut self) -> &mut Task;

    fn handle_event(&mut self, event: &Event);

    /// Whether the task accepts `event`: by default, whether the event's type
    /// is the type the task listens to.
    fn matches(&self, event: &Event) -> (r: bool)
        default_ensures
            exists|b: &Task| call_ensures(Self::base, (self,), b) && r == (b@.kind == event@.kind),
    {
        let b = self.base();
        let r = b.event_type().same_as(event.event_type());
        assert(call_ensures(Self::base, (self,), b) && r == (b@.kind == event@.kind));
        r
    }

    /// The task's name: by default, the name of its base task.
    fn name(&self) -> (r: &str)
        default_ensures
            exists|b: &Task| call_ensures(Self::base, (self,), b) && r@ == b@.name,
    {
        let b = self.base();
        let r = b.name();
        assert(call_ensures(Self::base, (self,), b) && r@ == b@.name);
        r
    }
}

/// A boxed task behaves as the task in the box, so that tasks of different
/// types can share one scheduler as `Box<dyn TaskBehavior>`.
impl<B: TaskBehavior + ?Sized> TaskBehavior for Box<B> {
    fn base(&self) -> (r: &Task)
        ensures
            call_ensures(B::base, (&**self,), r),
    {
        (**self).base()
    }

    fn base_mut(&mut self) -> (r: &mut Task)
        ensures
            exists|m: &mut B, t: &mut Task|
                &*m == &**old(self) && &*final(m) == &**final(self) && call_ensures(B::base_mut, (m,), t)
                    && *t == *r && *final(t) == *final(r),
    {
        let inner: &mut B = &mut **self;
        let r = inner.base_mut();
        assert(exists|m: &mut B| &*m == &**old(self) && call_ensures(B::base_mut, (m,), r));
        r
    }

    fn handle_event(&mut self, event: &Event)
        ensures
            exists|m: &mut B|
                &*m == &**old(self) && &*final(m) == &**final(self)
                    && call_ensures(B::handle_event, (m, event), ()),
    {
        let inner: &mut B = &mut **self;
        inner.handle_event(event);
        assert(exists|m: &mut B| call_ensures(B::handle_event, (m, event), ()));
    }

    fn matches(&self, event: &Event) -> (r: bool)
        ensures
            call_ensures(B::matches, (&**self, event), r),
    {
        (**self).matches(event)
    }

    fn name(&self) -> (r: &str)
        ensures
            call_ensures(B::name, (&**self,), r),
    {
        (**self).name()
    }
}

/// Builds tasks in a few common configurations.
pub struct TaskFactory;

impl TaskFactory {
    pub fn create_task(name: &str, event_type: EventType) -> (t: Task)
        ensures
            t@ == fresh_task(name@, event_type@),
    {
        Task::new(name, event_type)
    }

    pub fn create_task_with_retries(name: &str, event_type: EventType, max_retries: u32) -> (t: Task)
        ensures
            t@ == (TaskView { max_retries, ..fresh_task(name@, event_type@) }),
    {
        let mut task = Task::new(name, event_type);
        task.set_max_retries(max_retries);
        task
    }

    /// A fresh task holding the given properties; where a key occurs more
    /// than once, the later pair wins.
    pub fn create_task_with_properties(
        name: &str,
        event_type: EventType,
        properties: Vec<(String, String)>,
    ) -> (t: Task)
        ensures
            t@ == (TaskView {
                properties: pairs_to_map(pair_views(properties@)),
                ..fresh_task(name@, event_type@)
            }),
    {
        let ghost kind = event_type@;
        let mut task = Task::new(name, event_type);
        let n = properties.len();
        let mut i: usize = 0;
        while i < n
            invariant
                n == properties@.len(),
                i <= n,
                task@ == (TaskView {
                    properties: pairs_to_map(pair_views(properties@).take(i as int)),
                    ..fresh_task(name@, kind)
                }),
            decreases n - i,
        {
            let ghost pv = pair_views(properties@);
            assert(pv.take(i + 1).drop_last() =~= pv.take(i as int));
            task.set_property(properties[i].0.as_str(), properties[i].1.as_str());
            i += 1;
        }
        assert(pair_views(properties@).take(n as int) =~= pair_views(properties@));
        task
    }
}

} // verus!
