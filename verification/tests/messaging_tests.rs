use task_scheduler::event::{Event, EventType};
use task_scheduler::logger::{LogLevel, Logger};
use task_scheduler::messaging::{
    message_to, no_follow_up_line, received_line, send_failed_line, sent_line, MessageTask,
};

fn lines(logger: &Logger) -> Vec<String> {
    logger.take_records().iter().map(|r| r.line()).collect()
}

fn addressed_to(event: &Event, name: &str) -> bool {
    matches!(event.event_type(), EventType::Custom(n) if n == name)
}

#[test]
fn message_lines() {
    assert_eq!(sent_line("task_a", "task_b", "ping"), "task_a -> task_b: ping");
    assert_eq!(send_failed_line("task_a"), "[task_a] Failed to send message: message queue is unavailable");
    assert_eq!(received_line("task_b", "ping"), "[task_b] received: ping");
    assert_eq!(no_follow_up_line("task_b", "pong"), "[task_b] no follow-up action for payload 'pong'.");
}

#[test]
fn message_is_addressed_by_event_type() {
    let e = message_to("task_b", "ping");
    assert!(addressed_to(&e, "task_b"));
    assert_eq!(e.payload(), "ping");
}

#[test]
fn new_message_task_listens_to_its_name() {
    let logger = Logger::new(LogLevel::Debug);
    let task = MessageTask::new("task_a", logger);
    assert_eq!(task.base().name(), "task_a");
    assert!(matches!(task.base().event_type(), EventType::Custom(n) if n == "task_a"));
}

#[test]
fn send_message_with_and_without_queue() {
    let logger = Logger::new(LogLevel::Debug);
    let task = MessageTask::new("task_a", logger.clone());
    let sent = task.send_message("task_b", "ping", true).unwrap();
    assert!(addressed_to(&sent, "task_b"));
    assert_eq!(sent.payload(), "ping");
    assert!(task.send_message("task_b", "ping", false).is_none());
    assert_eq!(
        lines(&logger),
        vec![
            "[INFO] task_a -> task_b: ping",
            "[ERROR] [task_a] Failed to send message: message queue is unavailable",
        ]
    );
}

#[test]
fn a_full_conversation() {
    let logger = Logger::new(LogLevel::Debug);
    let a = MessageTask::new("task_a", logger.clone());
    let b = MessageTask::new("task_b", logger.clone());
    let ping = a.handle_message(&message_to("task_a", "start"), true).unwrap();
    assert!(addressed_to(&ping, "task_b"));
    let pong = b.handle_message(&ping, true).unwrap();
    assert!(addressed_to(&pong, "task_a"));
    assert_eq!(pong.payload(), "pong");
    assert!(a.handle_message(&pong, true).is_none());
    assert_eq!(
        lines(&logger),
        vec![
            "[INFO] [task_a] received: start",
            "[INFO] task_a -> task_b: ping",
            "[INFO] [task_b] received: ping",
            "[INFO] task_b -> task_a: pong",
            "[INFO] [task_a] received: pong",
            "[INFO] [task_a] conversation complete.",
        ]
    );
}

#[test]
fn unexpected_message_gets_no_reply() {
    let logger = Logger::new(LogLevel::Debug);
    let b = MessageTask::new("task_b", logger.clone());
    assert!(b.handle_message(&message_to("task_b", "pong"), true).is_none());
    assert_eq!(
        lines(&logger),
        vec!["[INFO] [task_b] received: pong", "[DEBUG] [task_b] no follow-up action for payload 'pong'."]
    );
}

#[test]
fn reply_without_queue_logs_the_failure() {
    let logger = Logger::new(LogLevel::Debug);
    let a = MessageTask::new("task_a", logger.clone());
    assert!(a.handle_message(&message_to("task_a", "start"), false).is_none());
    assert_eq!(
        lines(&logger),
        vec![
            "[INFO] [task_a] received: start",
            "[ERROR] [task_a] Failed to send message: message queue is unavailable",
        ]
    );
}
