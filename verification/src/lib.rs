//! An event-driven task scheduler: events carry a type and a payload, tasks
//! subscribe to one event type, and the scheduler routes each queued event to
//! the tasks that accept it. A shared logger and a logging task built on the
//! same machinery round it off.

pub mod text;
pub mod event;
pub mod handlers;
pub mod task;
pub mod logger;
pub mod task_list;
pub mod scheduler;
pub mod printer;
pub mod messaging;
pub mod demo;
