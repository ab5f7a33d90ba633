//! Task-to-task message passing: a task sends a message to another by
//! scheduling an event whose type is `Custom(<recipient name>)`. In the
//! example two tasks, `task_a` and `task_b`, play ping-pong once.
//!
//! A message task here decides and logs; the queue the messages go to is
//! held by whoever runs the tasks, which tells the task whether the queue is
//! still there and pushes the message the task hands back.

use vstd::prelude::*;
use vstd::string::*;
use crate::event::{Event, EventKind, EventType};
use crate::logger::Logger;
use crate::task::{fresh_task, Task, TaskView};
use crate::text::str_eq;

verus! {

/// What a message task does with a message.
pub enum ReplyView {
    Send { recipient: Seq<char>, payload: Seq<char> },
    Complete,
    Nothing,
}

/// What a message task does with a message.
pub enum Reply {
    /// Send `payload` to the task named `recipient`.
    Send { recipient: String, payload: String },
    /// The conversation is over.
    Complete,
    /// Nothing follows from the message.
    Nothing,
}

impl View for Reply {
    type V = ReplyView;

    open spec fn view(&self) -> ReplyView {
        match self {
            Reply::Send { recipient, payload } => ReplyView::Send { recipient: recipient@, payload: payload@ },
            Reply::Complete => ReplyView::Complete,
            Reply::Nothing => ReplyView::Nothing,
        }
    }
}

/// `task_a` answers `start` by sending `ping` to `task_b`; `task_b` answers
/// `ping` by sending `pong` to `task_a`; `task_a` takes `pong` as the end of
/// the conversation. Anything else gets no reply.
pub open spec fn reply_for(name: Seq<char>, payload: Seq<char>) -> ReplyView {
    if name == "task_a"@ && payload == "start"@ {
        ReplyView::Send { recipient: "task_b"@, payload: "ping"@ }
    } else if name == "task_b"@ && payload == "ping"@ {
        ReplyView::Send { recipient: "task_a"@, payload: "pong"@ }
    } else if name == "task_a"@ && payload == "pong"@ {
        ReplyView::Complete
    } else {
        ReplyView::Nothing
    }
}

/// The conversation has exactly three steps: `task_a` answers `start` with
/// `ping` to `task_b`, `task_b` answers `ping` with `pong` to `task_a`, and
/// `task_a` ends the conversation on `pong`. Every other message, to either
/// task or to any other, gets no reply at all.
pub proof fn law_conversation_steps(name: Seq<char>, payload: Seq<char>)
    ensures
        name == "task_a"@ && payload == "start"@ ==> reply_for(name, payload) == (ReplyView::Send { recipient: "task_b"@, payload: "ping"@ }),
        name == "task_b"@ && payload == "ping"@ ==> reply_for(name, payload) == (ReplyView::Send { recipient: "task_a"@, payload: "pong"@ }),
        name == "task_a"@ && payload == "pong"@ ==> reply_for(name, payload) == ReplyView::Complete,
        !(name == "task_a"@ && payload == "start"@) && !(name == "task_b"@ && payload == "ping"@)
            && !(name == "task_a"@ && payload == "pong"@) ==> reply_for(name, payload) == ReplyView::Nothing,
{
    reveal_strlit("task_a");
    reveal_strlit("task_b");
    reveal_strlit("start");
    reveal_strlit("ping");
    reveal_strlit("pong");
    assert("task_a"@ != "task_b"@) by {
        assert("task_a"@[5] != "task_b"@[5]);
    }
    assert("start"@ != "pong"@) by {
        assert("start"@.len() != "pong"@.len());
    }
}

/// What the task named `name` does with the message `payload`.
pub fn conversation_reply(name: &str, payload: &str) -> (r: Reply)
    ensures
        r@ == reply_for(name@, payload@),
{
    if str_eq(name, "task_a") && str_eq(payload, "start") {
        Reply::Send { recipient: String::from_str("task_b"), payload: String::from_str("ping") }
    } else if str_eq(name, "task_b") && str_eq(payload, "ping") {
        Reply::Send { recipient: String::from_str("task_a"), payload: String::from_str("pong") }
    } else if str_eq(name, "task_a") && str_eq(payload, "pong") {
        Reply::Complete
    } else {
        Reply::Nothing
    }
}

/// A message to the task named `recipient`: an event of type
/// `Custom(<recipient>)` carrying `payload`, stamped with the current time.
pub fn message_to(recipient: &str, payload: &str) -> (e: Event)
    ensures
        e@.kind == EventKind::Custom(recipient@),
        e@.payload == payload@,
{
    Event::new(EventType::Custom(String::from_str(recipient)), String::from_str(payload))
}

/// `"<sender> -> <recipient>: <payload>"`.
pub open spec fn sent_text(sender: Seq<char>, recipient: Seq<char>, payload: Seq<char>) -> Seq<char> {
    sender + " -> "@ + recipient + ": "@ + payload
}

/// `"[<sender>] Failed to send message: message queue is unavailable"`.
pub open spec fn send_failed_text(sender: Seq<char>) -> Seq<char> {
    "["@ + sender + "] Failed to send message: message queue is unavailable"@
}

/// `"[<name>] received: <payload>"`.
pub open spec fn received_text(name: Seq<char>, payload: Seq<char>) -> Seq<char> {
    "["@ + name + "] received: "@ + payload
}

/// `"[<name>] no follow-up action for payload '<payload>'."`.
pub open spec fn no_follow_up_text(name: Seq<char>, payload: Seq<char>) -> Seq<char> {
    "["@ + name + "] no follow-up action for payload '"@ + payload + "'."@
}

/// The line logged when `sender` sends `payload` to `recipient`.
pub fn sent_line(sender: &str, recipient: &str, payload: &str) -> (r: String)
    ensures
        r@ == sent_text(sender@, recipient@, payload@),
{
    let mut line = String::from_str(sender);
    line.append(" -> ");
    line.append(recipient);
    line.append(": ");
    line.append(payload);
    line
}

/// The line logged when `sender` finds the message queue gone.
pub fn send_failed_line(sender: &str) -> (r: String)
    ensures
        r@ == send_failed_text(sender@),
{
    let mut line = String::from_str("[");
    line.append(sender);
    line.append("] Failed to send message: message queue is unavailable");
    line
}

/// The line logged when the task `name` receives `payload`.
pub fn received_line(name: &str, payload: &str) -> (r: String)
    ensures
        r@ == received_text(name@, payload@),
{
    let mut line = String::from_str("[");
    line.append(name);
    line.append("] received: ");
    line.append(payload);
    line
}

/// The line logged when nothing follows from `payload` for the task `name`.
pub fn no_follow_up_line(name: &str, payload: &str) -> (r: String)
    ensures
        r@ == no_follow_up_text(name@, payload@),
{
    let mut line = String::from_str("[");
    line.append(name);
    line.append("] no follow-up action for payload '");
    line.append(payload);
    line.append("'.");
    line
}

/// A task of the message-passing example. It listens to `Custom(<its name>)`
/// and logs through its logger what it receives, sends and concludes.
pub struct MessageTask {
    base: Task,
    logger: Logger,
}

impl MessageTask {
    /// The task state.
    pub closed spec fn task(&self) -> TaskView {
        self.base@
    }

    /// The logger handle the task logs with.
    pub closed spec fn logger_handle(&self) -> Logger {
        self.logger
    }

    /// A message task named `name`, listening to `Custom(<name>)`.
    pub fn new(name: &str, logger: Logger) -> (t: MessageTask)
        ensures
            t.task() == fresh_task(name@, EventKind::Custom(name@)),
            t.logger_handle() == logger,
    {
        MessageTask { base: Task::new(name, EventType::Custom(String::from_str(name))), logger }
    }

    pub fn base(&self) -> (r: &Task)
        ensures
            r@ == self.task(),
    {
        &self.base
    }

    pub fn base_mut(&mut self) -> (r: &mut Task)
        ensures
            r@ == old(self).task(),
            final(self).task() == final(r)@,
            final(self).logger_handle() == old(self).logger_handle(),
    {
        &mut self.base
    }

    /// Sends `payload` to `recipient`. When the queue is there
    /// (`queue_open`), it logs at Info that the message is sent and hands the
    /// message back to be pushed onto the queue; otherwise it logs the
    /// failure at Error and hands back nothing.
    pub fn send_message(&self, recipient: &str, payload: &str, queue_open: bool) -> (r: Option<Event>)
        ensures
            r is Some <==> queue_open,
            r matches Some(e) ==> e@.kind == EventKind::Custom(recipient@) && e@.payload == payload@,
            queue_open ==> exists|line: &str|
                line@ == sent_text(self.task().name, recipient@, payload@)
                    && call_ensures(Logger::info, (&self.logger_handle(), line), ()),
            !queue_open ==> exists|line: &str|
                line@ == send_failed_text(self.task().name)
                    && call_ensures(Logger::error, (&self.logger_handle(), line), ()),
    {
        if queue_open {
            let event = message_to(recipient, payload);
            let line = sent_line(self.base.name(), recipient, event.payload());
            let text = line.as_str();
            self.logger.info(text);
            assert(text@ == sent_text(self.task().name, recipient@, payload@)
                && call_ensures(Logger::info, (&self.logger_handle(), text), ()));
            Some(event)
        } else {
            let line = send_failed_line(self.base.name());
            let text = line.as_str();
            self.logger.error(text);
            assert(text@ == send_failed_text(self.task().name)
                && call_ensures(Logger::error, (&self.logger_handle(), text), ()));
            None
        }
    }

    /// Takes a message: logs at Info that it was received, then does what
    /// `conversation_reply` says. A reply is sent with `send_message` and the
    /// message it hands back is returned; the end of the conversation is
    /// logged at Info; a message nothing follows from is logged at Debug.
    pub fn handle_message(&self, event: &Event, queue_open: bool) -> (r: Option<Event>)
        ensures
            exists|line: &str|
                line@ == received_text(self.task().name, event@.payload)
                    && call_ensures(Logger::info, (&self.logger_handle(), line), ()),
            match reply_for(self.task().name, event@.payload) {
                ReplyView::Send { recipient, payload } => exists|to: &str, what: &str|
                    to@ == recipient && what@ == payload
                        && call_ensures(MessageTask::send_message, (self, to, what, queue_open), r),
                ReplyView::Complete => r is None && exists|line: &str|
                    line@ == "[task_a] conversation complete."@
                        && call_ensures(Logger::info, (&self.logger_handle(), line), ()),
                ReplyView::Nothing => r is None && exists|line: &str|
                    line@ == no_follow_up_text(self.task().name, event@.payload)
                        && call_ensures(Logger::debug, (&self.logger_handle(), line), ()),
            },
    {
        let received = received_line(self.base.name(), event.payload());
        let received_text = received.as_str();
        self.logger.info(received_text);
        assert(call_ensures(Logger::info, (&self.logger_handle(), received_text), ()));
        match conversation_reply(self.base.name(), event.payload()) {
            Reply::Send { recipient, payload } => {
                let to = recipient.as_str();
                let what = payload.as_str();
                let r = self.send_message(to, what, queue_open);
                assert(call_ensures(MessageTask::send_message, (self, to, what, queue_open), r));
                r
            },
            Reply::Complete => {
                let done = "[task_a] conversation complete.";
                self.logger.info(done);
                assert(call_ensures(Logger::info, (&self.logger_handle(), done), ()));
                None
            },
            Reply::Nothing => {
                let line = no_follow_up_line(self.base.name(), event.payload());
                let text = line.as_str();
                self.logger.debug(text);
                assert(call_ensures(Logger::debug, (&self.logger_handle(), text), ()));
                None
            },
        }
    }
}

} // verus!
