//! A per-invocation log sink.  Messages accumulated during a transform
//! are returned to the caller together with the transform's result.

use vstd::prelude::*;

verus! {

/// Severity of a log entry.
#[derive(Clone, Copy, PartialEq, Eq, Structural, Debug)]
pub enum LogLevel {
    Error,
    Warn,
    Info,
}

/// The string form a level takes in a [`LogEntry`].
pub open spec fn spec_level_str(level: LogLevel) -> Seq<char> {
    match level {
        LogLevel::Error => "error"@,
        LogLevel::Warn => "warn"@,
        LogLevel::Info => "info"@,
    }
}

/// One log entry: a message and its severity, the latter kept as a
/// lower-case string for the host's convenience.
#[derive(Debug)]
pub struct LogEntry {
    pub message: String,
    pub level: String,
}

impl LogEntry {
    pub fn new(message: String, level: LogLevel) -> (r: LogEntry)
        ensures
            r.message@ == message@,
            r.level@ == spec_level_str(level),
    {
        let level_str = match level {
            LogLevel::Error => String::from_str("error"),
            LogLevel::Warn => String::from_str("warn"),
            LogLevel::Info => String::from_str("info"),
        };
        LogEntry { message, level: level_str }
    }

    /// A field-for-field copy of the entry.
    pub fn duplicate(&self) -> (r: LogEntry)
        ensures
            r.message@ == self.message@,
            r.level@ == self.level@,
    {
        LogEntry { message: self.message.clone(), level: self.level.clone() }
    }
}

/// The view of a log entry: its message and level as character sequences.
pub open spec fn entry_v(e: LogEntry) -> (Seq<char>, Seq<char>) {
    (e.message@, e.level@)
}

/// The view of a whole log: entries in order.
pub open spec fn log_v(s: Seq<LogEntry>) -> Seq<(Seq<char>, Seq<char>)> {
    s.map_values(|e: LogEntry| entry_v(e))
}

/// Collects log entries for one transform invocation.
pub struct Logger {
    logs: Vec<LogEntry>,
}

impl Logger {
    pub closed spec fn view(&self) -> Seq<(Seq<char>, Seq<char>)> {
        log_v(self.logs@)
    }

    pub fn new() -> (r: Logger)
        ensures
            r@ == Seq::<(Seq<char>, Seq<char>)>::empty(),
    {
        let r = Logger { logs: Vec::new() };
        proof {
            assert(r@ =~= Seq::<(Seq<char>, Seq<char>)>::empty());
        }
        r
    }

    /// Appends one entry.
    pub fn log(&mut self, message: String, level: LogLevel)
        ensures
            final(self)@ == old(self)@.push((message@, spec_level_str(level))),
    {
        let ghost m = message@;
        let entry = LogEntry::new(message, level);
        self.logs.push(entry);
        proof {
            assert(self@ =~= old(self)@.push((m, spec_level_str(level))));
        }
    }

    /// Returns all collected entries and clears the collection.
    pub fn drain_logs(&mut self) -> (r: Vec<LogEntry>)
        ensures
            log_v(r@) == old(self)@,
            final(self)@ == Seq::<(Seq<char>, Seq<char>)>::empty(),
    {
        let mut out: Vec<LogEntry> = Vec::new();
        std::mem::swap(&mut out, &mut self.logs);
        proof {
            assert(self@ =~= Seq::<(Seq<char>, Seq<char>)>::empty());
        }
        out
    }

    /// Returns a copy of all collected entries.
    pub fn get_logs(&self) -> (r: Vec<LogEntry>)
        ensures
            log_v(r@) == self@,
    {
        let mut out: Vec<LogEntry> = Vec::new();
        let mut i: usize = 0;
        while i < self.logs.len()
            invariant
                i <= self.logs.len(),
                log_v(out@) == log_v(self.logs@.subrange(0, i as int)),
            decreases self.logs.len() - i,
        {
            let ghost prev = out@;
            out.push(self.logs[i].duplicate());
            i = i + 1;
            proof {
                assert(self.logs@.subrange(0, i as int) =~= self.logs@.subrange(
                    0,
                    i as int - 1,
                ).push(self.logs@[i as int - 1]));
                assert(log_v(out@) =~= log_v(prev).push(entry_v(out@.last())));
                assert(log_v(self.logs@.subrange(0, i as int)) =~= log_v(
                    self.logs@.subrange(0, i as int - 1),
                ).push(entry_v(self.logs@[i as int - 1])));
                assert(log_v(out@) =~= log_v(self.logs@.subrange(0, i as int)));
            }
        }
        proof {
            assert(self.logs@.subrange(0, self.logs@.len() as int) =~= self.logs@);
        }
        out
    }

    /// Removes every collected entry.
    pub fn clear_logs(&mut self)
        ensures
            final(self)@ == Seq::<(Seq<char>, Seq<char>)>::empty(),
    {
        self.logs.clear();
        proof {
            assert(self@ =~= Seq::<(Seq<char>, Seq<char>)>::empty());
        }
    }
}

/// Appends an error entry to the given sink.
pub fn log_error(logger: &mut Logger, message: String)
    ensures
        final(logger)@ == old(logger)@.push((message@, spec_level_str(LogLevel::Error))),
{
    logger.log(message, LogLevel::Error);
}

/// Appends a warning entry to the given sink.
pub fn log_warn(logger: &mut Logger, message: String)
    ensures
        final(logger)@ == old(logger)@.push((message@, spec_level_str(LogLevel::Warn))),
{
    logger.log(message, LogLevel::Warn);
}

/// Appends an informational entry to the given sink.
pub fn log_info(logger: &mut Logger, message: String)
    ensures
        final(logger)@ == old(logger)@.push((message@, spec_level_str(LogLevel::Info))),
{
    logger.log(message, LogLevel::Info);
}

} // verus!
