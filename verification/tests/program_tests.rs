use task_scheduler::demo::run_default_scheduler;
use task_scheduler::event::{Event, EventType};
use task_scheduler::logger::{LogLevel, Logger};
use task_scheduler::messaging::{conversation_reply, Reply};
use task_scheduler::printer::PrintTask;
use task_scheduler::task::{TaskBehavior, TaskPausable, TaskShutdown, TaskStartup, TaskState};
use task_scheduler::text::{bool_string, decimal_string, find_char, str_eq};

fn lines(logger: &Logger) -> Vec<String> {
    logger.take_records().iter().map(|r| r.line()).collect()
}

fn print_event(payload: &str) -> Event {
    Event::with_timestamp(EventType::Custom("print".to_string()), payload.to_string(), 0)
}

#[test]
fn default_scheduler_run_logs_every_step() {
    let logger = Logger::new(LogLevel::Debug);
    run_default_scheduler(logger.clone());
    assert_eq!(
        lines(&logger),
        vec![
            "[INFO] Scheduler initialized with 3 registered tasks",
            "[INFO] Queued 2 events for dispatch",
            "[INFO] Printer task [printer] -> Second event (state: Initialized)",
            "[INFO] System Logger [system_logger] -> Second event (state: Initialized)",
            "[INFO] Printer task [printer] -> Hello from the scheduler (state: Initialized)",
            "[INFO] System Logger [system_logger] -> Hello from the scheduler (state: Initialized)",
            "[INFO] Dispatch complete. Scheduler running: false",
        ]
    );
}

#[test]
fn default_scheduler_run_respects_the_level() {
    let logger = Logger::new(LogLevel::Warn);
    run_default_scheduler(logger.clone());
    assert!(lines(&logger).is_empty());
}

#[test]
fn print_task_describes_events() {
    let logger = Logger::new(LogLevel::Debug);
    let mut task = PrintTask::new("p1", "Prefix", logger.clone());
    assert_eq!(task.base().name(), "p1");
    assert_eq!(task.base().event_type(), &EventType::Custom("print".to_string()));
    assert_eq!(task.describe(&print_event("hi")), "Prefix [p1] -> hi (state: Initialized)");
    task.handle_event(&print_event("hi"));
    assert_eq!(lines(&logger), vec!["[INFO] Prefix [p1] -> hi (state: Initialized)"]);
}

#[test]
fn print_task_lifecycle() {
    let logger = Logger::new(LogLevel::Debug);
    let mut task = PrintTask::from_factory("P", logger.clone());
    assert_eq!(task.base().name(), "printer");
    assert!(task.on_startup().is_ok());
    assert_eq!(task.base().state(), TaskState::Running);
    assert!(!task.is_paused());
    assert!(task.on_pause().is_ok());
    assert!(task.is_paused());
    assert_eq!(task.describe(&print_event("x")), "P [printer] -> x (state: Paused)");
    assert!(task.on_resume().is_ok());
    assert_eq!(task.base().state(), TaskState::Running);
    assert!(task.on_shutdown().is_ok());
    assert_eq!(task.base().state(), TaskState::Stopped);
    assert_eq!(
        lines(&logger),
        vec![
            "Starting task: printer",
            "Pausing task: printer",
            "Resuming task: printer",
            "[INFO] Shutting down task: printer",
        ]
    );
}

#[test]
fn print_task_with_properties() {
    let logger = Logger::new(LogLevel::Debug);
    let props = vec![("level".to_string(), "info".to_string()), ("tag".to_string(), "system".to_string())];
    let task = PrintTask::with_properties("system_logger", "System Logger", props, logger);
    assert_eq!(task.base().name(), "system_logger");
    assert_eq!(task.base().get_property("level"), Some("info"));
    assert_eq!(task.base().get_property("tag"), Some("system"));
}

#[test]
fn conversation_rule() {
    match conversation_reply("task_a", "start") {
        Reply::Send { recipient, payload } => {
            assert_eq!(recipient, "task_b");
            assert_eq!(payload, "ping");
        }
        _ => panic!("task_a should answer start"),
    }
    match conversation_reply("task_b", "ping") {
        Reply::Send { recipient, payload } => {
            assert_eq!(recipient, "task_a");
            assert_eq!(payload, "pong");
        }
        _ => panic!("task_b should answer ping"),
    }
    assert!(matches!(conversation_reply("task_a", "pong"), Reply::Complete));
    assert!(matches!(conversation_reply("task_b", "pong"), Reply::Nothing));
    assert!(matches!(conversation_reply("task_a", "ping"), Reply::Nothing));
    assert!(matches!(conversation_reply("task_c", "start"), Reply::Nothing));
}

#[test]
fn text_helpers() {
    assert_eq!(decimal_string(0), "0");
    assert_eq!(decimal_string(7), "7");
    assert_eq!(decimal_string(10), "10");
    assert_eq!(decimal_string(1234), "1234");
    assert_eq!(decimal_string(u64::MAX), u64::MAX.to_string());
    assert_eq!(bool_string(true), "true");
    assert_eq!(bool_string(false), "false");
    assert!(str_eq("abc", "abc"));
    assert!(!str_eq("abc", "abd"));
    assert_eq!(find_char("ab|c|", '|'), Some(2));
    assert_eq!(find_char("é|", '|'), Some(1));
    assert_eq!(find_char("abc", '|'), None);
    assert_eq!(find_char("", '|'), None);
}

#[test]
fn state_labels() {
    assert_eq!(TaskState::Initialized.label(), "Initialized");
    assert_eq!(TaskState::Running.label(), "Running");
    assert_eq!(TaskState::Paused.label(), "Paused");
    assert_eq!(TaskState::Stopped.label(), "Stopped");
    assert_eq!(TaskState::Failed.label(), "Failed");
    assert_eq!(format!("{:?}", TaskState::Failed), TaskState::Failed.label());
}
