//! Log levels, a logger whose handles share one minimum level and one list of
//! records waiting to be written, and a task that turns log events routed by
//! the scheduler into records.
//!
//! A log event has the type `Custom("log")` and a payload `"<LEVEL>|<message>"`.

use std::rc::Rc;
use vstd::cell::invcell::InvCell;
use vstd::prelude::*;
use vstd::string::*;
use crate::event::{Event, EventKind, EventType};
use crate::task::{fresh_task, Task, TaskBehavior, TaskShutdown, TaskStartup, TaskState, TaskView};
use crate::text::{find_char, first_index, is_first_index, lemma_first_index_is, str_eq};

verus! {

/// Log levels, from most to least verbose.
#[derive(Debug, Clone, Copy, PartialEq, Eq, Structural, PartialOrd, Ord, Hash)]
pub enum LogLevel {
    Debug,
    Info,
    Warn,
    Error,
}

/// The position of a level in the order Debug < Info < Warn < Error.
pub open spec fn level_rank(level: LogLevel) -> int {
    match level {
        LogLevel::Debug => 0,
        LogLevel::Info => 1,
        LogLevel::Warn => 2,
        LogLevel::Error => 3,
    }
}

/// The name a level is written with.
pub open spec fn level_name(level: LogLevel) -> Seq<char> {
    match level {
        LogLevel::Debug => "DEBUG"@,
        LogLevel::Info => "INFO"@,
        LogLevel::Warn => "WARN"@,
        LogLevel::Error => "ERROR"@,
    }
}

/// The level a name stands for; any name but DEBUG, WARN and ERROR reads as Info.
pub open spec fn level_from_name(name: Seq<char>) -> LogLevel {
    if name == "DEBUG"@ {
        LogLevel::Debug
    } else if name == "WARN"@ {
        LogLevel::Warn
    } else if name == "ERROR"@ {
        LogLevel::Error
    } else {
        LogLevel::Info
    }
}

impl LogLevel {
    pub fn as_str(&self) -> (r: &'static str)
        ensures
            r@ == level_name(*self),
    {
        match self {
            LogLevel::Debug => "DEBUG",
            LogLevel::Info => "INFO",
            LogLevel::Warn => "WARN",
            LogLevel::Error => "ERROR",
        }
    }

    /// Whether this level is `min` or less verbose than it.
    pub fn at_least(&self, min: LogLevel) -> (r: bool)
        ensures
            r == (level_rank(*self) >= level_rank(min)),
    {
        let a: u8 = match self {
            LogLevel::Debug => 0,
            LogLevel::Info => 1,
            LogLevel::Warn => 2,
            LogLevel::Error => 3,
        };
        let b: u8 = match min {
            LogLevel::Debug => 0,
            LogLevel::Info => 1,
            LogLevel::Warn => 2,
            LogLevel::Error => 3,
        };
        a >= b
    }

    /// Warnings and errors go to the error stream, the rest to the output stream.
    pub fn to_error_stream(&self) -> (r: bool)
        ensures
            r == (*self == LogLevel::Warn || *self == LogLevel::Error),
    {
        match self {
            LogLevel::Warn | LogLevel::Error => true,
            _ => false,
        }
    }
}

/// The line a record is written as: `"[<LEVEL>] <message>"`.
pub open spec fn record_line(level: LogLevel, message: Seq<char>) -> Seq<char> {
    "["@ + level_name(level) + "] "@ + message
}

/// A message accepted by a logger, waiting to be written. A tagged record is
/// written with its level in front; an untagged one is written as it is.
pub struct LogRecord {
    level: LogLevel,
    message: String,
    tagged: bool,
}

impl View for LogRecord {
    type V = (LogLevel, Seq<char>, bool);

    closed spec fn view(&self) -> (LogLevel, Seq<char>, bool) {
        (self.level, self.message@, self.tagged)
    }
}

/// The line a record is written as: `"[<LEVEL>] <message>"` when it is
/// tagged, the message alone when it is not.
pub open spec fn written_line(record: (LogLevel, Seq<char>, bool)) -> Seq<char> {
    if record.2 {
        record_line(record.0, record.1)
    } else {
        record.1
    }
}

impl LogRecord {
    /// The record a logger set to `min_level` keeps for `message` at `level`:
    /// none when `level` is more verbose than `min_level`.
    pub fn keep(level: LogLevel, min_level: LogLevel, message: &str) -> (r: Option<LogRecord>)
        ensures
            r is Some <==> level_rank(level) >= level_rank(min_level),
            r matches Some(rec) ==> rec@ == (level, message@, true),
    {
        if level.at_least(min_level) {
            Some(LogRecord { level, message: String::from_str(message), tagged: true })
        } else {
            None
        }
    }

    /// An untagged record of `message`, written to the output stream as it is.
    pub fn plain(message: &str) -> (r: LogRecord)
        ensures
            r@ == (LogLevel::Info, message@, false),
    {
        LogRecord { level: LogLevel::Info, message: String::from_str(message), tagged: false }
    }

    pub fn level(&self) -> (r: LogLevel)
        ensures
            r == self@.0,
    {
        self.level
    }

    pub fn message(&self) -> (r: &str)
        ensures
            r@ == self@.1,
    {
        self.message.as_str()
    }

    /// The line to write: `"[<LEVEL>] <message>"` for a tagged record, the
    /// message alone for an untagged one.
    pub fn line(&self) -> (r: String)
        ensures
            r@ == written_line(self@),
    {
        if !self.tagged {
            return String::from_str(self.message.as_str());
        }
        let mut line = String::from_str("[");
        line.append(self.level.as_str());
        line.append("] ");
        line.append(self.message.as_str());
        line
    }

    /// Whether the line goes to the error stream rather than the output
    /// stream: tagged warnings and errors do.
    pub fn to_error_stream(&self) -> (r: bool)
        ensures
            r == (self@.2 && (self@.0 == LogLevel::Warn || self@.0 == LogLevel::Error)),
    {
        self.tagged && self.level.to_error_stream()
    }
}

/// A logger handle. Clones share the minimum level and the list of records
/// waiting to be written: a level set through one handle is the level of all.
pub struct Logger {
    min_level: Rc<LevelCell>,
    records: Rc<RecordCell>,
}

/// Clones a reference-counted pointer with std's `Rc::clone`. Claimed of it:
/// the clone points to the same allocation, so it equals the pointer it was
/// cloned from.
#[verifier::external_body]
fn share<T>(rc: &Rc<T>) -> (r: Rc<T>)
    ensures
        r == *rc,
{
    Rc::clone(rc)
}

impl Clone for Logger {
    /// Another handle on the same logger.
    fn clone(&self) -> (r: Logger)
        ensures
            r == *self,
    {
        proof {
            use_type_invariant(self);
        }
        Logger { min_level: share(&self.min_level), records: share(&self.records) }
    }
}

/// The cell type holding a logger's minimum level.
pub type LevelCell = InvCell<LogLevel, spec_fn(LogLevel) -> bool>;

/// The cell type holding a logger's records waiting to be written.
pub type RecordCell = InvCell<Vec<LogRecord>, spec_fn(Vec<LogRecord>) -> bool>;

impl Logger {
    /// The cell, shared by all clones of this handle, that holds the minimum level.
    pub closed spec fn level_cell(&self) -> LevelCell {
        *self.min_level
    }

    /// The cell, shared by all clones of this handle, that holds the records
    /// waiting to be written.
    pub closed spec fn records_cell(&self) -> RecordCell {
        *self.records
    }

    #[verifier::type_invariant]
    spec fn wf(&self) -> bool {
        &&& forall|l: LogLevel| (*self.min_level).inv(l)
        &&& forall|v: Vec<LogRecord>| (*self.records).inv(v)
    }

    /// A logger that keeps records at `min_level` or above.
    pub fn new(min_level: LogLevel) -> (r: Logger)
        ensures
            exists|p: spec_fn(LogLevel) -> bool| call_ensures(LevelCell::new, (min_level, Ghost(p)), r.level_cell()),
            exists|p: spec_fn(Vec<LogRecord>) -> bool, v: Vec<LogRecord>|
                v@ == Seq::<LogRecord>::empty() && call_ensures(RecordCell::new, (v, Ghost(p)), r.records_cell()),
    {
        let any_level = Ghost(|l: LogLevel| true);
        let any_records = Ghost(|v: Vec<LogRecord>| true);
        let level_cell = InvCell::new(min_level, any_level);
        let no_records: Vec<LogRecord> = Vec::new();
        let ghost empty = no_records;
        let record_cell = InvCell::new(no_records, any_records);
        assert(call_ensures(LevelCell::new, (min_level, Ghost(any_level@)), level_cell));
        assert(call_ensures(RecordCell::new, (empty, Ghost(any_records@)), record_cell));
        let r = Logger { min_level: Rc::new(level_cell), records: Rc::new(record_cell) };
        assert(r.level_cell() == level_cell && r.records_cell() == record_cell);
        assert(empty@ == Seq::<LogRecord>::empty());
        r
    }

    /// Sets the minimum level held in the shared level cell.
    pub fn set_level(&self, level: LogLevel)
        ensures
            call_ensures(LevelCell::set, (&self.level_cell(), level), ()),
    {
        proof {
            use_type_invariant(self);
        }
        self.min_level.set(level);
    }

    /// The level now held in the shared level cell.
    pub fn level(&self) -> (r: LogLevel)
        ensures
            call_ensures(LevelCell::get, (&self.level_cell(),), r),
    {
        self.min_level.get()
    }

    /// Keeps a record of `message` when `level` is at or above the current
    /// minimum level: it reads the minimum level from the shared level cell
    /// and, when the record is kept, takes the pending records out of the
    /// shared record cell and puts them back with the record appended.
    pub fn log(&self, level: LogLevel, message: &str)
        ensures
            exists|min: LogLevel| {
                &&& call_ensures(LevelCell::get, (&self.level_cell(),), min)
                &&& level_rank(level) >= level_rank(min) ==> exists|none: Vec<LogRecord>, pending: Vec<LogRecord>, rec: LogRecord, after: Vec<LogRecord>| {
                    &&& none@ == Seq::<LogRecord>::empty()
                    &&& call_ensures(RecordCell::replace, (&self.records_cell(), none), pending)
                    &&& rec@ == (level, message@, true)
                    &&& after@ == pending@.push(rec)
                    &&& call_ensures(RecordCell::set, (&self.records_cell(), after), ())
                }
            },
    {
        proof {
            use_type_invariant(self);
        }
        let min = self.level();
        match LogRecord::keep(level, min, message) {
            Some(record) => {
                let none: Vec<LogRecord> = Vec::new();
                let ghost none_g = none;
                let mut pending = self.records.replace(none);
                let ghost pending_g = pending;
                let ghost rec = record;
                pending.push(record);
                let ghost after = pending;
                self.records.set(pending);
                assert(call_ensures(RecordCell::replace, (&self.records_cell(), none_g), pending_g));
                assert(call_ensures(RecordCell::set, (&self.records_cell(), after), ()));
                assert(after@ == pending_g@.push(rec));
            },
            None => {},
        }
    }

    pub fn debug(&self, message: &str)
        ensures
            call_ensures(Logger::log, (self, LogLevel::Debug, message), ()),
    {
        self.log(LogLevel::Debug, message);
    }

    pub fn info(&self, message: &str)
        ensures
            call_ensures(Logger::log, (self, LogLevel::Info, message), ()),
    {
        self.log(LogLevel::Info, message);
    }

    pub fn warn(&self, message: &str)
        ensures
            call_ensures(Logger::log, (self, LogLevel::Warn, message), ()),
    {
        self.log(LogLevel::Warn, message);
    }

    pub fn error(&self, message: &str)
        ensures
            call_ensures(Logger::log, (self, LogLevel::Error, message), ()),
    {
        self.log(LogLevel::Error, message);
    }

    /// Keeps an untagged record of `message`, whatever the minimum level: it
    /// takes the pending records out of the shared record cell and puts them
    /// back with the record appended.
    pub fn print(&self, message: &str)
        ensures
            exists|none: Vec<LogRecord>, pending: Vec<LogRecord>, rec: LogRecord, after: Vec<LogRecord>| {
                &&& none@ == Seq::<LogRecord>::empty()
                &&& call_ensures(RecordCell::replace, (&self.records_cell(), none), pending)
                &&& rec@ == (LogLevel::Info, message@, false)
                &&& after@ == pending@.push(rec)
                &&& call_ensures(RecordCell::set, (&self.records_cell(), after), ())
            },
    {
        proof {
            use_type_invariant(self);
        }
        let record = LogRecord::plain(message);
        let none: Vec<LogRecord> = Vec::new();
        let ghost none_g = none;
        let mut pending = self.records.replace(none);
        let ghost pending_g = pending;
        let ghost rec = record;
        pending.push(record);
        let ghost after = pending;
        self.records.set(pending);
        assert(call_ensures(RecordCell::replace, (&self.records_cell(), none_g), pending_g));
        assert(call_ensures(RecordCell::set, (&self.records_cell(), after), ()));
        assert(after@ == pending_g@.push(rec));
    }

    /// Hands out the records waiting to be written, oldest first, and leaves
    /// none behind.
    pub fn take_records(&self) -> (r: Vec<LogRecord>)
        ensures
            exists|v: Vec<LogRecord>|
                v@ == Seq::<LogRecord>::empty() && call_ensures(RecordCell::replace, (&self.records_cell(), v), r),
    {
        proof {
            use_type_invariant(self);
        }
        self.records.replace(Vec::new())
    }
}

/// The payload of a log event for `message` at `level`: `"<LEVEL>|<message>"`.
pub open spec fn log_payload(level: LogLevel, message: Seq<char>) -> Seq<char> {
    level_name(level) + "|"@ + message
}

/// How a log payload is read: the text before the first `|` names the level
/// and the rest is the message; without a `|`, the whole payload is an Info
/// message.
pub open spec fn payload_parts(payload: Seq<char>) -> (LogLevel, Seq<char>) {
    match first_index(payload, '|') {
        Some(i) => (level_from_name(payload.take(i)), payload.skip(i + 1)),
        None => (LogLevel::Info, payload),
    }
}

/// A task that takes the log events routed to it and records their messages
/// with its logger.
pub struct LoggerTask {
    base: Task,
    logger: Logger,
}

impl LoggerTask {
    /// The task state.
    pub closed spec fn task(&self) -> TaskView {
        self.base@
    }

    /// The logger handle the task records with.
    pub closed spec fn logger_handle(&self) -> Logger {
        self.logger
    }

    /// A task listening to log events.
    pub fn new(name: &str, logger: Logger) -> (t: LoggerTask)
        ensures
            t.task() == fresh_task(name@, EventKind::Custom("log"@)),
            t.logger_handle() == logger,
    {
        let base = Task::new(name, EventType::Custom(String::from_str("log")));
        LoggerTask { base, logger }
    }

    /// Another handle on the task's logger.
    pub fn logger(&self) -> (r: Logger)
        ensures
            r == self.logger_handle(),
    {
        self.logger.clone()
    }

    /// A log event for `message` at `level`, stamped with the current time.
    pub fn log_event(level: LogLevel, message: &str) -> (e: Event)
        ensures
            e@.kind == EventKind::Custom("log"@),
            e@.payload == log_payload(level, message@),
    {
        let mut payload = String::from_str(level.as_str());
        payload.append("|");
        payload.append(message);
        Event::new(EventType::Custom(String::from_str("log")), payload)
    }

    /// Splits a log payload into its level and its message.
    pub fn parse_payload(payload: &str) -> (r: (LogLevel, &str))
        ensures
            (r.0, r.1@) == payload_parts(payload@),
    {
        match find_char(payload, '|') {
            Some(i) => {
                let n = payload.unicode_len();
                let level = payload.substring_char(0, i);
                let message = payload.substring_char(i + 1, n);
                assert(level@ =~= payload@.take(i as int));
                assert(message@ =~= payload@.skip(i + 1));
                (Self::parse_level(level), message)
            },
            None => (LogLevel::Info, payload),
        }
    }

    /// The level a name stands for; unknown names read as Info.
    pub fn parse_level(level: &str) -> (r: LogLevel)
        ensures
            r == level_from_name(level@),
    {
        if str_eq(level, "DEBUG") {
            LogLevel::Debug
        } else if str_eq(level, "WARN") {
            LogLevel::Warn
        } else if str_eq(level, "ERROR") {
            LogLevel::Error
        } else {
            LogLevel::Info
        }
    }
}

impl TaskBehavior for LoggerTask {
    fn base(&self) -> (r: &Task)
        ensures
            r@ == self.task(),
    {
        &self.base
    }

    fn base_mut(&mut self) -> (r: &mut Task)
        ensures
            r@ == old(self).task(),
            final(self).task() == final(r)@,
            final(self).logger_handle() == old(self).logger_handle(),
    {
        &mut self.base
    }

    /// Records the event's message, at the level its payload names.
    fn handle_event(&mut self, event: &Event)
        ensures
            *final(self) == *old(self),
            exists|message: &str|
                message@ == payload_parts(event@.payload).1 && call_ensures(
                    Logger::log,
                    (&old(self).logger_handle(), payload_parts(event@.payload).0, message),
                    (),
                ),
    {
        let (level, message) = Self::parse_payload(event.payload());
        self.logger.log(level, message);
        assert(call_ensures(Logger::log, (&self.logger, level, message), ()));
    }
}

impl TaskStartup for LoggerTask {
    /// Marks the task running and records a debug message saying so.
    fn on_startup(&mut self) -> (r: Result<(), String>)
        ensures
            r is Ok,
            final(self).task() == (TaskView { state: TaskState::Running, ..old(self).task() }),
            final(self).logger_handle() == old(self).logger_handle(),
            exists|line: &str| line@ == "logger task '"@ + old(self).task().name + "' started"@
                && call_ensures(Logger::debug, (&old(self).logger_handle(), line), ()),
    {
        self.base.set_state(TaskState::Running);
        let mut message = String::from_str("logger task '");
        message.append(self.base.name());
        message.append("' started");
        let text = message.as_str();
        self.logger.debug(text);
        assert(text@ == "logger task '"@ + old(self).task().name + "' started"@
            && call_ensures(Logger::debug, (&old(self).logger_handle(), text), ()));
        Ok(())
    }
}

impl TaskShutdown for LoggerTask {
    /// Records a debug message saying the task stops, then marks it stopped.
    fn on_shutdown(&mut self) -> (r: Result<(), String>)
        ensures
            r is Ok,
            final(self).task() == (TaskView { state: TaskState::Stopped, ..old(self).task() }),
            final(self).logger_handle() == old(self).logger_handle(),
            exists|line: &str| line@ == "logger task '"@ + old(self).task().name + "' stopped"@
                && call_ensures(Logger::debug, (&old(self).logger_handle(), line), ()),
    {
        let mut message = String::from_str("logger task '");
        message.append(self.base.name());
        message.append("' stopped");
        let text = message.as_str();
        self.logger.debug(text);
        assert(text@ == "logger task '"@ + old(self).task().name + "' stopped"@
            && call_ensures(Logger::debug, (&old(self).logger_handle(), text), ()));
        self.base.set_state(TaskState::Stopped);
        Ok(())
    }
}

/// Levels run from most to least verbose: Debug, Info, Warn, Error; a logger
/// keeps a message exactly when its level is at or past the logger's level
/// in that order.
pub proof fn law_levels_ordered(level: LogLevel, min: LogLevel)
    ensures
        level_rank(LogLevel::Debug) < level_rank(LogLevel::Info) < level_rank(LogLevel::Warn)
            < level_rank(LogLevel::Error),
        level_rank(level) >= level_rank(min) <==> (level == min || (min == LogLevel::Debug)
            || (min == LogLevel::Info && level != LogLevel::Debug)
            || (min == LogLevel::Warn && level == LogLevel::Error)),
{
}

/// Reading a level's name gives the level back.
pub proof fn lemma_level_name_round_trip(level: LogLevel)
    ensures
        level_from_name(level_name(level)) == level,
{
    reveal_strlit("DEBUG");
    reveal_strlit("INFO");
    reveal_strlit("WARN");
    reveal_strlit("ERROR");
    match level {
        LogLevel::Debug => {},
        LogLevel::Info => {
            assert("INFO"@ != "DEBUG"@ && "INFO"@ != "WARN"@ && "INFO"@ != "ERROR"@) by {
                assert("INFO"@[0] != "DEBUG"@[0]);
                assert("INFO"@.len() != "ERROR"@.len());
                assert("INFO"@[0] != "WARN"@[0]);
            }
        },
        LogLevel::Warn => {
            assert("WARN"@ != "DEBUG"@) by {
                assert("WARN"@.len() != "DEBUG"@.len());
            }
        },
        LogLevel::Error => {
            assert("ERROR"@ != "DEBUG"@ && "ERROR"@ != "WARN"@) by {
                assert("ERROR"@[0] != "DEBUG"@[0]);
                assert("ERROR"@.len() != "WARN"@.len());
            }
        },
    }
}

/// Reading the payload of a log event gives back its level and its whole
/// message, whatever the message holds (a `|` in it included).
pub proof fn lemma_log_payload_round_trip(level: LogLevel, message: Seq<char>)
    ensures
        payload_parts(log_payload(level, message)) == (level, message),
{
    reveal_strlit("DEBUG");
    reveal_strlit("INFO");
    reveal_strlit("WARN");
    reveal_strlit("ERROR");
    reveal_strlit("|");
    let name = level_name(level);
    let p = log_payload(level, message);
    let i = name.len() as int;
    assert(forall|j: int| 0 <= j < i ==> name[j] != '|');
    assert(is_first_index(p, '|', i)) by {
        assert(p[i] == '|');
        assert forall|j: int| 0 <= j < i implies p[j] != '|' by {
            assert(p[j] == name[j]);
        }
    }
    lemma_first_index_is(p, '|', i);
    assert(p.take(i) =~= name);
    assert(p.skip(i + 1) =~= message);
    lemma_level_name_round_trip(level);
}

} // verus!
