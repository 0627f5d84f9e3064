//! The log: the most recent lines, kept in memory.
use vstd::prelude::*;

use crate::localtime::{is_timestamp, local_timestamp};
use crate::text::{chars_of, contains, contains_spec, push_str, string_of};

verus! {

/// The severity of a log line.
#[derive(Debug, Clone, Copy, PartialEq, Eq, Structural)]
pub enum LogLevel {
    Info,
    Warn,
    Error,
}

impl LogLevel {
    pub open spec fn name(self) -> Seq<char> {
        match self {
            LogLevel::Info => "INFO"@,
            LogLevel::Warn => "WARN"@,
            LogLevel::Error => "ERROR"@,
        }
    }

    /// The level's name as it appears in a log line.
    pub fn as_str(&self) -> (r: &'static str)
        ensures
            r@ == self.name(),
    {
        match self {
            LogLevel::Info => "INFO",
            LogLevel::Warn => "WARN",
            LogLevel::Error => "ERROR",
        }
    }

    /// The terminal colour code for the level: none for any level.
    pub fn color_code(&self) -> (r: &'static str)
        ensures
            r@ == ""@,
    {
        match self {
            LogLevel::Info => "",
            LogLevel::Warn => "",
            LogLevel::Error => "",
        }
    }
}

/// A log line: `[timestamp] [LEVEL] message`.
pub open spec fn line_spec(timestamp: Seq<char>, level: LogLevel, message: Seq<char>) -> Seq<char> {
    "["@ + timestamp + "] ["@ + level.name() + "] "@ + message
}

/// The level a line is shown with: error when it holds `[ERROR]`, else
/// warning when it holds `[WARN]`, else information.
pub open spec fn classify_spec(line: Seq<char>) -> LogLevel {
    if contains_spec(line, "[ERROR]"@) {
        LogLevel::Error
    } else if contains_spec(line, "[WARN]"@) {
        LogLevel::Warn
    } else {
        LogLevel::Info
    }
}

/// The last `max_entries` lines logged.
pub struct Logger {
    buffer: Vec<String>,
    max_entries: usize,
}

impl Logger {
    /// The lines kept, oldest first.
    pub closed spec fn lines(&self) -> Seq<Seq<char>> {
        self.buffer@.map_values(|s: String| s@)
    }

    /// How many lines are kept at most.
    pub closed spec fn max(&self) -> nat {
        self.max_entries as nat
    }

    pub open spec fn wf(&self) -> bool {
        self.lines().len() <= self.max()
    }

    /// The lines after logging `line`: the oldest goes when the log is full.
    pub open spec fn after_log(&self, line: Seq<char>) -> Seq<Seq<char>> {
        (if self.lines().len() >= self.max() {
            self.lines().drop_first()
        } else {
            self.lines()
        }).push(line)
    }

    pub fn new(max_entries: usize) -> (r: Self)
        ensures
            r.wf(),
            r.lines() == Seq::<Seq<char>>::empty(),
            r.max() == max_entries,
    {
        let r = Logger { buffer: Vec::new(), max_entries };
        assert(r.lines() =~= Seq::<Seq<char>>::empty());
        r
    }

    /// How many lines are kept at most.
    pub fn max_entries(&self) -> (r: usize)
        ensures
            r == self.max(),
    {
        self.max_entries
    }

    /// Logs `message` with the given timestamp; returns the line.
    pub fn log_at(&mut self, level: LogLevel, message: &str, timestamp: &str) -> (r: String)
        requires
            old(self).wf(),
            old(self).max() > 0,
        ensures
            final(self).wf(),
            final(self).max() == old(self).max(),
            r@ == line_spec(timestamp@, level, message@),
            final(self).lines() == old(self).after_log(r@),
    {
        let mut line: Vec<char> = Vec::new();
        push_str(&mut line, "[");
        push_str(&mut line, timestamp);
        push_str(&mut line, "] [");
        push_str(&mut line, level.as_str());
        push_str(&mut line, "] ");
        push_str(&mut line, message);
        let line = string_of(&line);
        let ghost pre = self.lines();
        if self.buffer.len() >= self.max_entries {
            self.buffer.remove(0);
            assert(self.lines() =~= pre.drop_first());
        }
        let ghost mid = self.lines();
        self.buffer.push(line.clone());
        assert(self.lines() =~= mid.push(line@));
        assert(line@ =~= line_spec(timestamp@, level, message@));
        line
    }

    /// Logs `message` at the current local time; returns the line.
    pub fn log(&mut self, level: LogLevel, message: &str) -> (r: String)
        requires
            old(self).wf(),
            old(self).max() > 0,
        ensures
            final(self).wf(),
            final(self).max() == old(self).max(),
            exists|ts: Seq<char>| is_timestamp(ts) && r@ == #[trigger] line_spec(ts, level, message@),
            final(self).lines() == old(self).after_log(r@),
    {
        let ts = local_timestamp();
        self.log_at(level, message, ts.as_str())
    }

    pub fn info(&mut self, message: &str) -> (r: String)
        requires
            old(self).wf(),
            old(self).max() > 0,
        ensures
            final(self).wf(),
            final(self).max() == old(self).max(),
            exists|ts: Seq<char>| is_timestamp(ts) && r@ == #[trigger] line_spec(ts, LogLevel::Info, message@),
            final(self).lines() == old(self).after_log(r@),
    {
        self.log(LogLevel::Info, message)
    }

    pub fn warn(&mut self, message: &str) -> (r: String)
        requires
            old(self).wf(),
            old(self).max() > 0,
        ensures
            final(self).wf(),
            final(self).max() == old(self).max(),
            exists|ts: Seq<char>| is_timestamp(ts) && r@ == #[trigger] line_spec(ts, LogLevel::Warn, message@),
            final(self).lines() == old(self).after_log(r@),
    {
        self.log(LogLevel::Warn, message)
    }

    pub fn error(&mut self, message: &str) -> (r: String)
        requires
            old(self).wf(),
            old(self).max() > 0,
        ensures
            final(self).wf(),
            final(self).max() == old(self).max(),
            exists|ts: Seq<char>| is_timestamp(ts) && r@ == #[trigger] line_spec(ts, LogLevel::Error, message@),
            final(self).lines() == old(self).after_log(r@),
    {
        self.log(LogLevel::Error, message)
    }

    /// The `n` most recent lines, newest first, each with the level it shows.
    pub fn recent(&self, n: usize) -> (r: Vec<(&str, LogLevel)>)
        ensures
            r@.len() == (if n < self.lines().len() { n as int } else { self.lines().len() as int }),
            forall|i: int|
                0 <= i < r@.len() ==> (#[trigger] r@[i]).0@ == self.lines()[self.lines().len() - 1 - i]
                    && r@[i].1 == classify_spec(self.lines()[self.lines().len() - 1 - i]),
    {
        let err = chars_of("[ERROR]");
        let warn = chars_of("[WARN]");
        let len = self.buffer.len();
        let mut r: Vec<(&str, LogLevel)> = Vec::new();
        let mut i: usize = 0;
        while i < n && i < len
            invariant
                len == self.buffer.len(),
                len == self.lines().len(),
                i <= len,
                i <= n,
                err@ == "[ERROR]"@,
                warn@ == "[WARN]"@,
                r@.len() == i,
                forall|k: int|
                    0 <= k < i ==> (#[trigger] r@[k]).0@ == self.lines()[len - 1 - k] && r@[k].1
                        == classify_spec(self.lines()[len - 1 - k]),
            decreases len - i,
        {
            let s = self.buffer[len - 1 - i].as_str();
            let c = chars_of(s);
            let level = if contains(&c, &err) {
                LogLevel::Error
            } else if contains(&c, &warn) {
                LogLevel::Warn
            } else {
                LogLevel::Info
            };
            r.push((s, level));
            i = i + 1;
        }
        r
    }
}

/// The log never holds more lines than its limit, and a line just logged is
/// the newest line.
pub proof fn law_log_bounded(pre: &Logger, post_lines: Seq<Seq<char>>, line: Seq<char>)
    requires
        pre.wf(),
        pre.max() > 0,
        post_lines == pre.after_log(line),
    ensures
        post_lines.len() <= pre.max(),
        post_lines.last() == line,
        post_lines.len() == (if pre.lines().len() < pre.max() {
            pre.lines().len() + 1int
        } else {
            pre.max() as int
        }),
{
}

} // verus!
