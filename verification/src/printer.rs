//! A task that reports every print event it receives through a logger.

use vstd::prelude::*;
use vstd::string::*;
use crate::event::{Event, EventKind, EventType};
use crate::logger::Logger;
use crate::task::{
    fresh_task, pair_views, pairs_to_map, state_label, Task, TaskBehavior, TaskFactory,
    TaskPausable, TaskShutdown, TaskStartup, TaskState, TaskView,
};

verus! {

/// The line a print task logs for an event:
/// `"<prefix> [<name>] -> <payload> (state: <state>)"`.
pub open spec fn print_line(prefix: Seq<char>, task: TaskView, payload: Seq<char>) -> Seq<char> {
    prefix + " ["@ + task.name + "] -> "@ + payload + " (state: "@ + state_label(task.state) + ")"@
}

/// The line a print task logs ends with the task's current state, written as
/// Debug formatting writes it, whatever that state is.
pub proof fn law_print_line_shows_state(prefix: Seq<char>, task: TaskView, payload: Seq<char>)
    ensures
        print_line(prefix, task, payload).take(prefix.len() as int) == prefix,
        task.state == TaskState::Initialized ==> print_line(prefix, task, payload) == prefix + " ["@ + task.name + "] -> "@ + payload + " (state: Initialized)"@,
        task.state == TaskState::Running ==> print_line(prefix, task, payload) == prefix + " ["@ + task.name + "] -> "@ + payload + " (state: Running)"@,
        task.state == TaskState::Paused ==> print_line(prefix, task, payload) == prefix + " ["@ + task.name + "] -> "@ + payload + " (state: Paused)"@,
        task.state == TaskState::Stopped ==> print_line(prefix, task, payload) == prefix + " ["@ + task.name + "] -> "@ + payload + " (state: Stopped)"@,
        task.state == TaskState::Failed ==> print_line(prefix, task, payload) == prefix + " ["@ + task.name + "] -> "@ + payload + " (state: Failed)"@,
{
    reveal_strlit(" (state: ");
    reveal_strlit(")");
    reveal_strlit(" (state: Initialized)");
    reveal_strlit(" (state: Running)");
    reveal_strlit(" (state: Paused)");
    reveal_strlit(" (state: Stopped)");
    reveal_strlit(" (state: Failed)");
    reveal_strlit("Initialized");
    reveal_strlit("Running");
    reveal_strlit("Paused");
    reveal_strlit("Stopped");
    reveal_strlit("Failed");
    let head = prefix + " ["@ + task.name + "] -> "@ + payload;
    let label = state_label(task.state);
    assert(print_line(prefix, task, payload) =~= head + (" (state: "@ + label + ")"@));
    assert(print_line(prefix, task, payload).take(prefix.len() as int) =~= prefix);
    match task.state {
        TaskState::Initialized => assert(" (state: "@ + label + ")"@ =~= " (state: Initialized)"@),
        TaskState::Running => assert(" (state: "@ + label + ")"@ =~= " (state: Running)"@),
        TaskState::Paused => assert(" (state: "@ + label + ")"@ =~= " (state: Paused)"@),
        TaskState::Stopped => assert(" (state: "@ + label + ")"@ =~= " (state: Stopped)"@),
        TaskState::Failed => assert(" (state: "@ + label + ")"@ =~= " (state: Failed)"@),
    }
}

/// A task listening to `Custom("print")` events that logs, at Info, a line
/// naming itself and the event's payload.
pub struct PrintTask {
    base: Task,
    prefix: String,
    logger: Logger,
}

impl PrintTask {
    /// The task state.
    pub closed spec fn task(&self) -> TaskView {
        self.base@
    }

    /// The text each logged line starts with.
    pub closed spec fn prefix(&self) -> Seq<char> {
        self.prefix@
    }

    /// The logger handle the task logs with.
    pub closed spec fn logger_handle(&self) -> Logger {
        self.logger
    }

    pub fn new(name: &str, prefix: &str, logger: Logger) -> (t: PrintTask)
        ensures
            t.task() == fresh_task(name@, EventKind::Custom("print"@)),
            t.prefix() == prefix@,
            t.logger_handle() == logger,
    {
        PrintTask {
            base: Task::new(name, EventType::Custom(String::from_str("print"))),
            prefix: String::from_str(prefix),
            logger,
        }
    }

    /// A print task named `printer`, made by the task factory.
    pub fn from_factory(prefix: &str, logger: Logger) -> (t: PrintTask)
        ensures
            t.task() == fresh_task("printer"@, EventKind::Custom("print"@)),
            t.prefix() == prefix@,
            t.logger_handle() == logger,
    {
        let task = TaskFactory::create_task("printer", EventType::Custom(String::from_str("print")));
        PrintTask { base: task, prefix: String::from_str(prefix), logger }
    }

    /// A print task holding the given properties (a later pair wins over an
    /// earlier one with the same key).
    pub fn with_properties(
        name: &str,
        prefix: &str,
        properties: Vec<(String, String)>,
        logger: Logger,
    ) -> (t: PrintTask)
        ensures
            t.task() == (TaskView {
                properties: pairs_to_map(pair_views(properties@)),
                ..fresh_task(name@, EventKind::Custom("print"@))
            }),
            t.prefix() == prefix@,
            t.logger_handle() == logger,
    {
        let base = TaskFactory::create_task_with_properties(
            name,
            EventType::Custom(String::from_str("print")),
            properties,
        );
        PrintTask { base, prefix: String::from_str(prefix), logger }
    }

    /// The line logged for `event`.
    pub fn describe(&self, event: &Event) -> (r: String)
        ensures
            r@ == print_line(self.prefix(), self.task(), event@.payload),
    {
        let mut line = String::from_str(self.prefix.as_str());
        line.append(" [");
        line.append(self.base.name());
        line.append("] -> ");
        line.append(event.payload());
        line.append(" (state: ");
        line.append(self.base.state().label());
        line.append(")");
        line
    }

    /// The line `<text>: <name>`.
    fn announcement(&self, text: &str) -> (r: String)
        ensures
            r@ == text@ + ": "@ + self.task().name,
    {
        let mut line = String::from_str(text);
        line.append(": ");
        line.append(self.base.name());
        line
    }

    /// Prints, untagged, `<text>: <name>`.
    fn announce(&self, text: &str)
        ensures
            exists|line: &str| line@ == text@ + ": "@ + self.task().name && call_ensures(Logger::print, (&self.logger_handle(), line), ()),
    {
        let line = self.announcement(text);
        let out = line.as_str();
        self.logger.print(out);
        assert(out@ == text@ + ": "@ + self.task().name && call_ensures(Logger::print, (&self.logger_handle(), out), ()));
    }

    /// Logs, at Info, `<text>: <name>`.
    fn announce_info(&self, text: &str)
        ensures
            exists|line: &str| line@ == text@ + ": "@ + self.task().name && call_ensures(Logger::info, (&self.logger_handle(), line), ()),
    {
        let line = self.announcement(text);
        let out = line.as_str();
        self.logger.info(out);
        assert(out@ == text@ + ": "@ + self.task().name && call_ensures(Logger::info, (&self.logger_handle(), out), ()));
    }
}

impl TaskBehavior for PrintTask {
    fn base(&self) -> (r: &Task)
        ensures
            r@ == self.task(),
    {
        &self.base
    }

    fn base_mut(&mut self) -> (r: &mut Task)
        ensures
            r@ == old(self).task(),
            final(self).task() == final(r)@,
            final(self).prefix() == old(self).prefix(),
            final(self).logger_handle() == old(self).logger_handle(),
    {
        &mut self.base
    }

    /// Logs the line `describe` gives for the event.
    fn handle_event(&mut self, event: &Event)
        ensures
            *final(self) == *old(self),
            exists|line: &str|
                line@ == print_line(old(self).prefix(), old(self).task(), event@.payload)
                    && call_ensures(Logger::info, (&old(self).logger_handle(), line), ()),
    {
        let line = self.describe(event);
        let text = line.as_str();
        self.logger.info(text);
        assert(call_ensures(Logger::info, (&self.logger, text), ()));
    }
}

impl TaskStartup for PrintTask {
    /// Prints `Starting task: <name>` and marks the task running.
    fn on_startup(&mut self) -> (r: Result<(), String>)
        ensures
            r is Ok,
            final(self).task() == (TaskView { state: TaskState::Running, ..old(self).task() }),
            final(self).prefix() == old(self).prefix(),
            final(self).logger_handle() == old(self).logger_handle(),
            exists|line: &str| line@ == "Starting task: "@ + old(self).task().name
                && call_ensures(Logger::print, (&old(self).logger_handle(), line), ()),
    {
        proof {
            reveal_strlit("Starting task");
            reveal_strlit(": ");
            reveal_strlit("Starting task: ");
            assert("Starting task"@ + ": "@ =~= "Starting task: "@);
        }
        self.announce("Starting task");
        self.base.set_state(TaskState::Running);
        Ok(())
    }
}

impl TaskShutdown for PrintTask {
    /// Logs, at Info, `Shutting down task: <name>` and marks the task stopped.
    fn on_shutdown(&mut self) -> (r: Result<(), String>)
        ensures
            r is Ok,
            final(self).task() == (TaskView { state: TaskState::Stopped, ..old(self).task() }),
            final(self).prefix() == old(self).prefix(),
            final(self).logger_handle() == old(self).logger_handle(),
            exists|line: &str| line@ == "Shutting down task: "@ + old(self).task().name
                && call_ensures(Logger::info, (&old(self).logger_handle(), line), ()),
    {
        proof {
            reveal_strlit("Shutting down task");
            reveal_strlit(": ");
            reveal_strlit("Shutting down task: ");
            assert("Shutting down task"@ + ": "@ =~= "Shutting down task: "@);
        }
        self.announce_info("Shutting down task");
        self.base.set_state(TaskState::Stopped);
        Ok(())
    }
}

impl TaskPausable for PrintTask {
    /// Prints `Pausing task: <name>` and marks the task paused.
    fn on_pause(&mut self) -> (r: Result<(), String>)
        ensures
            r is Ok,
            final(self).task() == (TaskView { state: TaskState::Paused, ..old(self).task() }),
            final(self).prefix() == old(self).prefix(),
            final(self).logger_handle() == old(self).logger_handle(),
            exists|line: &str| line@ == "Pausing task: "@ + old(self).task().name
                && call_ensures(Logger::print, (&old(self).logger_handle(), line), ()),
    {
        proof {
            reveal_strlit("Pausing task");
            reveal_strlit(": ");
            reveal_strlit("Pausing task: ");
            assert("Pausing task"@ + ": "@ =~= "Pausing task: "@);
        }
        self.announce("Pausing task");
        self.base.set_state(TaskState::Paused);
        Ok(())
    }

    /// Prints `Resuming task: <name>` and marks the task running.
    fn on_resume(&mut self) -> (r: Result<(), String>)
        ensures
            r is Ok,
            final(self).task() == (TaskView { state: TaskState::Running, ..old(self).task() }),
            final(self).prefix() == old(self).prefix(),
            final(self).logger_handle() == old(self).logger_handle(),
            exists|line: &str| line@ == "Resuming task: "@ + old(self).task().name
                && call_ensures(Logger::print, (&old(self).logger_handle(), line), ()),
    {
        proof {
            reveal_strlit("Resuming task");
            reveal_strlit(": ");
            reveal_strlit("Resuming task: ");
            assert("Resuming task"@ + ": "@ =~= "Resuming task: "@);
        }
        self.announce("Resuming task");
        self.base.set_state(TaskState::Running);
        Ok(())
    }

    fn is_paused(&self) -> (r: bool)
        ensures
            r == (self.task().state == TaskState::Paused),
    {
        self.base.state() == TaskState::Paused
    }
}

} // verus!
