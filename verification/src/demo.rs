//! The default demonstration: a logger task and two print tasks share one
//! scheduler, which dispatches two print events.

use vstd::prelude::*;
use vstd::string::*;
use crate::event::{Event, EventKind, EventType};
use crate::logger::{payload_parts, Logger, LoggerTask};
use crate::printer::{print_line, PrintTask};
use crate::scheduler::{accepts, EventScheduler};
use crate::task::{fresh_task, Task, TaskBehavior, TaskView};
use crate::text::{bool_string, decimal, decimal_string};

verus! {

/// The tasks the demonstration registers: a logger task or a print task.
pub enum DemoTask {
    Log(LoggerTask),
    Print(PrintTask),
}

impl DemoTask {
    /// The state of the task inside.
    pub open spec fn task_view(self) -> TaskView {
        match self {
            DemoTask::Log(t) => t.task(),
            DemoTask::Print(p) => p.task(),
        }
    }
}

impl TaskBehavior for DemoTask {
    fn base(&self) -> (r: &Task)
        ensures
            r@ == self.task_view(),
    {
        match self {
            DemoTask::Log(t) => t.base(),
            DemoTask::Print(p) => p.base(),
        }
    }

    fn base_mut(&mut self) -> (r: &mut Task) {
        match self {
            DemoTask::Log(t) => t.base_mut(),
            DemoTask::Print(p) => p.base_mut(),
        }
    }

    /// What the task inside does with the event.
    fn handle_event(&mut self, event: &Event)
        ensures
            *final(self) == *old(self),
            match *old(self) {
                DemoTask::Log(t) => exists|message: &str|
                    message@ == payload_parts(event@.payload).1 && call_ensures(
                        Logger::log,
                        (&t.logger_handle(), payload_parts(event@.payload).0, message),
                        (),
                    ),
                DemoTask::Print(p) => exists|line: &str|
                    line@ == print_line(p.prefix(), p.task(), event@.payload)
                        && call_ensures(Logger::info, (&p.logger_handle(), line), ()),
            },
    {
        match self {
            DemoTask::Log(t) => t.handle_event(event),
            DemoTask::Print(p) => p.handle_event(event),
        }
    }

    /// Whether the event's type is the type the task inside listens to.
    fn matches(&self, event: &Event) -> (r: bool)
        ensures
            r == (self.task_view().kind == event@.kind),
    {
        self.base().event_type().same_as(event.event_type())
    }
}

/// Logs, at Info, `<before><n><after>`.
fn log_count(logger: &Logger, before: &str, n: usize, after: &str)
    ensures
        exists|line: &str| line@ == before@ + decimal(n as nat) + after@ && call_ensures(Logger::info, (logger, line), ()),
{
    let mut line = String::from_str(before);
    let count = decimal_string(n as u64);
    line.append(count.as_str());
    line.append(after);
    let text = line.as_str();
    logger.info(text);
    assert(call_ensures(Logger::info, (logger, text), ()));
}

/// A print task offered a print event accepts it, handles it by logging its
/// line, and stays as it was.
proof fn lemma_print_task_step(before: DemoTask, after: DemoTask, event: Event, p: PrintTask)
    requires
        before == DemoTask::Print(p),
        p.task().kind == EventKind::Custom("print"@),
        event@.kind == EventKind::Custom("print"@),
        (after == before && accepts(before, event, false))
            || (accepts(before, event, true) && exists|m: &mut DemoTask|
                *m == before && *final(m) == after && call_ensures(DemoTask::handle_event, (m, &event), ())),
    ensures
        after == before,
        exists|line: &str|
            line@ == print_line(p.prefix(), p.task(), event@.payload) && call_ensures(Logger::info, (&p.logger_handle(), line), ()),
{
    let m = choose|m: &mut DemoTask| *m == before && *final(m) == after && call_ensures(DemoTask::handle_event, (m, &event), ());
    assert(*m == before && *final(m) == after && call_ensures(DemoTask::handle_event, (m, &event), ()));
}

/// Registers a logger task, a print task made by the factory and a print task
/// with properties; queues two print events, dispatches them, and logs the
/// scheduler's state along the way. Everything goes through `logger`: each
/// print task logs, at Info, its line for each of the two events, and the
/// three lines on the scheduler's state are logged at Info too.
pub fn run_default_scheduler(logger: Logger)
    ensures
        exists|line: &str| line@ == "Scheduler initialized with 3 registered tasks"@ && call_ensures(Logger::info, (&logger, line), ()),
        exists|line: &str| line@ == "Queued 2 events for dispatch"@ && call_ensures(Logger::info, (&logger, line), ()),
        exists|line: &str| line@ == "Dispatch complete. Scheduler running: false"@ && call_ensures(Logger::info, (&logger, line), ()),
        exists|line: &str| line@ == print_line("Printer task"@, fresh_task("printer"@, EventKind::Custom("print"@)), "Second event"@)
            && call_ensures(Logger::info, (&logger, line), ()),
        exists|line: &str| line@ == print_line("Printer task"@, fresh_task("printer"@, EventKind::Custom("print"@)), "Hello from the scheduler"@)
            && call_ensures(Logger::info, (&logger, line), ()),
        exists|line: &str| line@ == print_line("System Logger"@, fresh_task("system_logger"@, EventKind::Custom("print"@)), "Second event"@)
            && call_ensures(Logger::info, (&logger, line), ()),
        exists|line: &str| line@ == print_line("System Logger"@, fresh_task("system_logger"@, EventKind::Custom("print"@)), "Hello from the scheduler"@)
            && call_ensures(Logger::info, (&logger, line), ()),
{
    let mut scheduler: EventScheduler<DemoTask> = EventScheduler::new();

    let logger_task = LoggerTask::new("logger", logger.clone());
    scheduler.register_task(DemoTask::Log(logger_task));

    let print_task = PrintTask::from_factory("Printer task", logger.clone());
    let ghost first = print_task;
    scheduler.register_task(DemoTask::Print(print_task));

    let mut properties: Vec<(String, String)> = Vec::new();
    properties.push((String::from_str("level"), String::from_str("info")));
    properties.push((String::from_str("tag"), String::from_str("system")));
    let print_task_with_props = PrintTask::with_properties("system_logger", "System Logger", properties, logger.clone());
    let ghost second = print_task_with_props;
    scheduler.register_task(DemoTask::Print(print_task_with_props));

    log_count(&logger, "Scheduler initialized with ", scheduler.registered_tasks(), " registered tasks");
    proof {
        reveal_strlit("Scheduler initialized with ");
        reveal_strlit(" registered tasks");
        reveal_strlit("Scheduler initialized with 3 registered tasks");
        assert("Scheduler initialized with "@ + decimal(3) + " registered tasks"@ =~= "Scheduler initialized with 3 registered tasks"@);
    }

    let hello = Event::new(EventType::Custom(String::from_str("print")), String::from_str("Hello from the scheduler"));
    let ghost hello_g = hello;
    scheduler.schedule(hello);
    let second_event = Event::new(EventType::Custom(String::from_str("print")), String::from_str("Second event"));
    let ghost second_g = second_event;
    scheduler.schedule(second_event);

    log_count(&logger, "Queued ", scheduler.pending_events(), " events for dispatch");
    proof {
        reveal_strlit("Queued ");
        reveal_strlit(" events for dispatch");
        reveal_strlit("Queued 2 events for dispatch");
        assert("Queued "@ + decimal(2) + " events for dispatch"@ =~= "Queued 2 events for dispatch"@);
    }

    let ghost tasks_before = scheduler.tasks();
    let ghost events = scheduler.events();
    assert(tasks_before[1] == DemoTask::Print(first) && tasks_before[2] == DemoTask::Print(second));
    assert(events[0] == hello_g && events[1] == second_g);
    scheduler.dispatch();
    proof {
        let tasks_after = scheduler.tasks();
        let stages = choose|stages: Seq<Seq<DemoTask>>|
            {
                &&& stages.len() == events.len() + 1
                &&& stages[events.len() as int] == tasks_before
                &&& stages[0] == tasks_after
                &&& forall|j: int| 0 <= j < events.len() ==> #[trigger] stages[j].len() == stages[j + 1].len()
                &&& forall|j: int, i: int| #![trigger stages[j][i]] 0 <= j < events.len() && 0 <= i < stages[j].len() ==>
                    (stages[j][i] == stages[j + 1][i] && accepts(stages[j + 1][i], events[j], false))
                    || (accepts(stages[j + 1][i], events[j], true) && exists|m: &mut DemoTask|
                        *m == stages[j + 1][i] && *final(m) == stages[j][i] && call_ensures(DemoTask::handle_event, (m, &events[j]), ()))
            };
        assert(stages[1].len() == stages[2].len());
        assert(stages[0].len() == stages[1].len());
        lemma_print_task_step(stages[2][1], stages[1][1], events[1], first);
        lemma_print_task_step(stages[1][1], stages[0][1], events[0], first);
        lemma_print_task_step(stages[2][2], stages[1][2], events[1], second);
        lemma_print_task_step(stages[1][2], stages[0][2], events[0], second);
    }

    let mut line = String::from_str("Dispatch complete. Scheduler running: ");
    line.append(bool_string(scheduler.is_running()));
    let text = line.as_str();
    logger.info(text);
    proof {
        reveal_strlit("Dispatch complete. Scheduler running: ");
        reveal_strlit("false");
        reveal_strlit("Dispatch complete. Scheduler running: false");
        assert(text@ =~= "Dispatch complete. Scheduler running: false"@);
    }
}

} // verus!
