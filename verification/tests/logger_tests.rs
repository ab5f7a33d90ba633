use task_scheduler::event::EventType;
use task_scheduler::logger::{LogLevel, LogRecord, Logger, LoggerTask};
use task_scheduler::task::{TaskBehavior, TaskShutdown, TaskStartup, TaskState};

fn lines(logger: &Logger) -> Vec<String> {
    logger.take_records().iter().map(|r| r.line()).collect()
}

#[test]
fn level_names() {
    assert_eq!(LogLevel::Debug.as_str(), "DEBUG");
    assert_eq!(LogLevel::Info.as_str(), "INFO");
    assert_eq!(LogLevel::Warn.as_str(), "WARN");
    assert_eq!(LogLevel::Error.as_str(), "ERROR");
}

#[test]
fn level_order() {
    assert!(LogLevel::Debug < LogLevel::Info && LogLevel::Info < LogLevel::Warn && LogLevel::Warn < LogLevel::Error);
    assert!(LogLevel::Warn.at_least(LogLevel::Info));
    assert!(LogLevel::Info.at_least(LogLevel::Info));
    assert!(!LogLevel::Debug.at_least(LogLevel::Info));
    assert!(LogLevel::Error.to_error_stream());
    assert!(LogLevel::Warn.to_error_stream());
    assert!(!LogLevel::Info.to_error_stream());
    assert!(!LogLevel::Debug.to_error_stream());
}

#[test]
fn record_filtering_and_line() {
    assert!(LogRecord::keep(LogLevel::Debug, LogLevel::Info, "x").is_none());
    let r = LogRecord::keep(LogLevel::Warn, LogLevel::Info, "disk low").unwrap();
    assert_eq!(r.level(), LogLevel::Warn);
    assert_eq!(r.message(), "disk low");
    assert_eq!(r.line(), "[WARN] disk low");
    assert!(r.to_error_stream());
}

#[test]
fn plain_record_is_written_as_it_is() {
    let r = LogRecord::plain("Starting task: printer");
    assert_eq!(r.message(), "Starting task: printer");
    assert_eq!(r.line(), "Starting task: printer");
    assert!(!r.to_error_stream());
}

#[test]
fn print_ignores_the_minimum_level() {
    let logger = Logger::new(LogLevel::Error);
    logger.info("hidden");
    logger.print("plain line");
    logger.error("broken");
    assert_eq!(lines(&logger), vec!["plain line", "[ERROR] broken"]);
}

#[test]
fn logger_keeps_records_at_or_above_its_level() {
    let logger = Logger::new(LogLevel::Info);
    assert_eq!(logger.level(), LogLevel::Info);
    logger.debug("hidden");
    logger.info("shown");
    logger.warn("careful");
    logger.error("broken");
    assert_eq!(lines(&logger), vec!["[INFO] shown", "[WARN] careful", "[ERROR] broken"]);
    assert!(lines(&logger).is_empty());
}

#[test]
fn clones_share_level_and_records() {
    let logger = Logger::new(LogLevel::Debug);
    let other = logger.clone();
    other.set_level(LogLevel::Error);
    assert_eq!(logger.level(), LogLevel::Error);
    logger.warn("dropped");
    other.error("kept");
    assert_eq!(lines(&logger), vec!["[ERROR] kept"]);
}

#[test]
fn parse_level_names() {
    assert_eq!(LoggerTask::parse_level("DEBUG"), LogLevel::Debug);
    assert_eq!(LoggerTask::parse_level("INFO"), LogLevel::Info);
    assert_eq!(LoggerTask::parse_level("WARN"), LogLevel::Warn);
    assert_eq!(LoggerTask::parse_level("ERROR"), LogLevel::Error);
    assert_eq!(LoggerTask::parse_level("warn"), LogLevel::Info);
    assert_eq!(LoggerTask::parse_level(""), LogLevel::Info);
}

#[test]
fn parse_payload_splits_at_first_bar() {
    assert_eq!(LoggerTask::parse_payload("WARN|disk low"), (LogLevel::Warn, "disk low"));
    assert_eq!(LoggerTask::parse_payload("ERROR|a|b"), (LogLevel::Error, "a|b"));
    assert_eq!(LoggerTask::parse_payload("no bar here"), (LogLevel::Info, "no bar here"));
    assert_eq!(LoggerTask::parse_payload("|empty level"), (LogLevel::Info, "empty level"));
    assert_eq!(LoggerTask::parse_payload("DEBUG|"), (LogLevel::Debug, ""));
    assert_eq!(LoggerTask::parse_payload("ünï|cödé|x"), (LogLevel::Info, "cödé|x"));
}

#[test]
fn log_event_round_trips() {
    let e = LoggerTask::log_event(LogLevel::Error, "a|b");
    assert_eq!(e.event_type(), &EventType::Custom("log".to_string()));
    assert_eq!(e.payload(), "ERROR|a|b");
    assert_eq!(LoggerTask::parse_payload(e.payload()), (LogLevel::Error, "a|b"));
}

#[test]
fn logger_task_records_routed_events() {
    let logger = Logger::new(LogLevel::Info);
    let mut task = LoggerTask::new("logger", logger.clone());
    assert_eq!(task.base().name(), "logger");
    assert_eq!(task.base().event_type(), &EventType::Custom("log".to_string()));
    assert_eq!(task.base().state(), TaskState::Initialized);
    let e = LoggerTask::log_event(LogLevel::Warn, "disk low");
    assert!(task.matches(&e));
    task.handle_event(&e);
    task.handle_event(&LoggerTask::log_event(LogLevel::Debug, "noise"));
    assert_eq!(lines(&logger), vec!["[WARN] disk low"]);
    task.logger().set_level(LogLevel::Debug);
    assert_eq!(logger.level(), LogLevel::Debug);
}

#[test]
fn logger_task_lifecycle() {
    let logger = Logger::new(LogLevel::Debug);
    let mut task = LoggerTask::new("audit", logger.clone());
    assert!(task.on_startup().is_ok());
    assert_eq!(task.base().state(), TaskState::Running);
    assert!(task.on_shutdown().is_ok());
    assert_eq!(task.base().state(), TaskState::Stopped);
    assert_eq!(
        lines(&logger),
        vec!["[DEBUG] logger task 'audit' started", "[DEBUG] logger task 'audit' stopped"]
    );
}

#[test]
fn logger_task_lifecycle_above_debug_writes_nothing() {
    let logger = Logger::new(LogLevel::Info);
    let mut task = LoggerTask::new("audit", logger.clone());
    assert!(task.on_startup().is_ok());
    assert!(task.on_shutdown().is_ok());
    assert_eq!(task.base().state(), TaskState::Stopped);
    assert!(lines(&logger).is_empty());
}
