use std::cell::RefCell;
use std::rc::Rc;
use task_scheduler::event::{Event, EventType};
use task_scheduler::logger::{LogLevel, Logger, LoggerTask};
use task_scheduler::scheduler::EventScheduler;
use task_scheduler::task::{Task, TaskBehavior};

struct Recorder {
    base: Task,
    log: Rc<RefCell<Vec<String>>>,
}

impl Recorder {
    fn new(name: &str, kind: &str, log: Rc<RefCell<Vec<String>>>) -> Self {
        Recorder { base: Task::new(name, EventType::Custom(kind.to_string())), log }
    }
}

impl TaskBehavior for Recorder {
    fn base(&self) -> &Task {
        &self.base
    }

    fn base_mut(&mut self) -> &mut Task {
        &mut self.base
    }

    fn handle_event(&mut self, event: &Event) {
        self.log.borrow_mut().push(format!("{}:{}", self.base.name(), event.payload()));
    }
}

fn ev(kind: &str, payload: &str) -> Event {
    Event::with_timestamp(EventType::Custom(kind.to_string()), payload.to_string(), 0)
}

#[test]
fn new_scheduler_is_empty_and_idle() {
    let s: EventScheduler<Box<dyn TaskBehavior>> = EventScheduler::new();
    assert_eq!(s.registered_tasks(), 0);
    assert_eq!(s.pending_events(), 0);
    assert!(!s.is_running());
}

#[test]
fn dispatch_routes_most_recent_first_in_registration_order() {
    let log = Rc::new(RefCell::new(Vec::new()));
    let mut s: EventScheduler<Box<dyn TaskBehavior>> = EventScheduler::new();
    s.register_task(Box::new(Recorder::new("a", "print", log.clone())));
    s.register_task(Box::new(Recorder::new("b", "other", log.clone())));
    s.register_task(Box::new(Recorder::new("c", "print", log.clone())));
    assert_eq!(s.registered_tasks(), 3);
    s.schedule(ev("print", "first"));
    s.schedule(ev("other", "second"));
    s.schedule(ev("print", "third"));
    assert_eq!(s.pending_events(), 3);
    s.dispatch();
    assert_eq!(s.pending_events(), 0);
    assert!(!s.is_running());
    assert_eq!(
        *log.borrow(),
        vec!["a:third", "c:third", "b:second", "a:first", "c:first"]
    );
}

#[test]
fn dispatch_next_takes_one_event() {
    let log = Rc::new(RefCell::new(Vec::new()));
    let mut s: EventScheduler<Recorder> = EventScheduler::new();
    s.register_task(Recorder::new("a", "x", log.clone()));
    assert!(!s.dispatch_next());
    s.schedule(ev("x", "1"));
    s.schedule(ev("x", "2"));
    assert!(s.dispatch_next());
    assert_eq!(s.pending_events(), 1);
    assert_eq!(*log.borrow(), vec!["a:2"]);
    assert!(s.dispatch_next());
    assert!(!s.dispatch_next());
    assert_eq!(*log.borrow(), vec!["a:2", "a:1"]);
}

#[test]
fn unmatched_events_are_dropped() {
    let log = Rc::new(RefCell::new(Vec::new()));
    let mut s: EventScheduler<Recorder> = EventScheduler::new();
    s.register_task(Recorder::new("a", "x", log.clone()));
    s.schedule(ev("y", "lost"));
    s.dispatch();
    assert_eq!(s.pending_events(), 0);
    assert!(log.borrow().is_empty());
}

#[test]
fn unregister_removes_every_task_with_the_name() {
    let log = Rc::new(RefCell::new(Vec::new()));
    let mut s: EventScheduler<Recorder> = EventScheduler::new();
    s.register_task(Recorder::new("a", "x", log.clone()));
    s.register_task(Recorder::new("b", "x", log.clone()));
    s.register_task(Recorder::new("a", "x", log.clone()));
    s.register_task(Recorder::new("c", "x", log.clone()));
    s.unregister_task("a");
    assert_eq!(s.registered_tasks(), 2);
    s.unregister_task("missing");
    assert_eq!(s.registered_tasks(), 2);
    s.schedule(ev("x", "m"));
    s.dispatch();
    assert_eq!(*log.borrow(), vec!["b:m", "c:m"]);
}

#[test]
fn clear_queue_drops_pending_events() {
    let mut s: EventScheduler<Recorder> = EventScheduler::new();
    s.schedule(ev("x", "1"));
    s.schedule(ev("x", "2"));
    s.clear_queue();
    assert_eq!(s.pending_events(), 0);
}

#[test]
fn new_with_queue_starts_with_the_given_events() {
    let log = Rc::new(RefCell::new(Vec::new()));
    let mut s: EventScheduler<Recorder> = EventScheduler::new_with_queue(vec![ev("x", "1"), ev("x", "2")]);
    assert_eq!(s.pending_events(), 2);
    s.register_task(Recorder::new("a", "x", log.clone()));
    s.dispatch();
    assert_eq!(*log.borrow(), vec!["a:2", "a:1"]);
}

#[test]
fn log_events_reach_the_logger_task() {
    let logger = Logger::new(LogLevel::Info);
    let mut s: EventScheduler<Box<dyn TaskBehavior>> = EventScheduler::new();
    s.register_task(Box::new(LoggerTask::new("logger", logger.clone())));
    s.schedule(LoggerTask::log_event(LogLevel::Info, "one"));
    s.schedule(LoggerTask::log_event(LogLevel::Debug, "two"));
    s.schedule(LoggerTask::log_event(LogLevel::Error, "three"));
    s.dispatch();
    let lines: Vec<String> = logger.take_records().iter().map(|r| r.line()).collect();
    assert_eq!(lines, vec!["[ERROR] three", "[INFO] one"]);
}

#[test]
fn last_scheduled_event_is_dispatched_first() {
    let log = Rc::new(RefCell::new(Vec::new()));
    let mut s: EventScheduler<Recorder> = EventScheduler::new();
    s.register_task(Recorder::new("r", "k", log.clone()));
    s.schedule(ev("k", "older"));
    s.schedule(ev("k", "newest"));
    assert!(s.dispatch_next());
    assert_eq!(*log.borrow(), vec!["r:newest".to_string()]);
    assert_eq!(s.pending_events(), 1);
}

#[test]
fn scheduler_is_idle_after_every_call() {
    let log = Rc::new(RefCell::new(Vec::new()));
    let mut s: EventScheduler<Recorder> = EventScheduler::new();
    assert!(!s.is_running());
    s.register_task(Recorder::new("r", "k", log.clone()));
    assert!(!s.is_running());
    s.schedule(ev("k", "a"));
    assert!(!s.is_running());
    s.dispatch_next();
    assert!(!s.is_running());
    s.schedule(ev("k", "b"));
    s.dispatch();
    assert!(!s.is_running());
    s.unregister_task("r");
    assert!(!s.is_running());
    s.clear_queue();
    assert!(!s.is_running());
}
