use task_scheduler::event::{Event, EventType};
use task_scheduler::task::{Task, TaskBehavior, TaskFactory, TaskState};

#[test]
fn new_task_defaults() {
    let t = Task::new("worker", EventType::Custom("job".to_string()));
    assert_eq!(t.name(), "worker");
    assert_eq!(t.event_type(), &EventType::Custom("job".to_string()));
    assert_eq!(t.state(), TaskState::Initialized);
    assert_eq!(t.retry_count(), 0);
    assert_eq!(t.max_retries(), 3);
    assert!(t.properties().is_empty());
    assert_eq!(t.get_property("anything"), None);
}

#[test]
fn state_and_retry_counters() {
    let mut t = Task::new("worker", EventType::Manual);
    t.set_state(TaskState::Running);
    assert_eq!(t.state(), TaskState::Running);
    t.set_state(TaskState::Failed);
    assert_eq!(t.state(), TaskState::Failed);
    t.increment_retry();
    t.increment_retry();
    assert_eq!(t.retry_count(), 2);
    t.reset_retry();
    assert_eq!(t.retry_count(), 0);
    t.set_max_retries(7);
    assert_eq!(t.max_retries(), 7);
}

#[test]
fn properties_set_get_and_override() {
    let mut t = Task::new("worker", EventType::Manual);
    t.set_property("level", "info");
    t.set_property("tag", "system");
    assert_eq!(t.get_property("level"), Some("info"));
    assert_eq!(t.get_property("tag"), Some("system"));
    t.set_property("level", "debug");
    assert_eq!(t.get_property("level"), Some("debug"));
    assert_eq!(t.get_property("tag"), Some("system"));
    assert_eq!(t.get_property("missing"), None);
    assert_eq!(t.properties().len(), 2);
}

#[test]
fn factory_builds_configured_tasks() {
    let t = TaskFactory::create_task("a", EventType::Scheduled);
    assert_eq!(t.name(), "a");
    assert_eq!(t.max_retries(), 3);

    let t = TaskFactory::create_task_with_retries("b", EventType::Manual, 5);
    assert_eq!(t.name(), "b");
    assert_eq!(t.max_retries(), 5);
    assert_eq!(t.state(), TaskState::Initialized);

    let props = vec![
        ("level".to_string(), "info".to_string()),
        ("tag".to_string(), "system".to_string()),
        ("level".to_string(), "warn".to_string()),
    ];
    let t = TaskFactory::create_task_with_properties("c", EventType::Custom("print".to_string()), props);
    assert_eq!(t.get_property("level"), Some("warn"));
    assert_eq!(t.get_property("tag"), Some("system"));
    assert_eq!(t.properties().len(), 2);
    assert_eq!(t.max_retries(), 3);
}

struct Echo {
    base: Task,
    seen: Vec<String>,
}

impl TaskBehavior for Echo {
    fn base(&self) -> &Task {
        &self.base
    }

    fn base_mut(&mut self) -> &mut Task {
        &mut self.base
    }

    fn handle_event(&mut self, event: &Event) {
        self.seen.push(event.payload().to_string());
    }
}

#[test]
fn default_matching_compares_event_types() {
    let mut echo = Echo { base: Task::new("echo", EventType::Custom("ping".to_string())), seen: Vec::new() };
    let ping = Event::with_timestamp(EventType::Custom("ping".to_string()), "p".to_string(), 0);
    let pong = Event::with_timestamp(EventType::Custom("pong".to_string()), "q".to_string(), 0);
    assert!(echo.matches(&ping));
    assert!(!echo.matches(&pong));
    assert_eq!(TaskBehavior::name(&echo), "echo");
    echo.handle_event(&ping);
    assert_eq!(echo.seen, vec!["p".to_string()]);
    echo.base_mut().set_state(TaskState::Paused);
    assert_eq!(echo.base().state(), TaskState::Paused);
}

#[test]
fn properties_after_a_sequence_of_writes() {
    let mut t = Task::new("t", EventType::Manual);
    t.set_property("a", "1");
    t.set_property("b", "2");
    t.set_state(TaskState::Running);
    t.set_property("a", "3");
    t.increment_retry();
    t.set_max_retries(7);
    assert_eq!(t.get_property("a"), Some("3"));
    assert_eq!(t.get_property("b"), Some("2"));
    assert_eq!(t.get_property("c"), None);
    assert_eq!(t.properties().len(), 2);
}
