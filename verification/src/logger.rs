//! Log lines and log file names; the program writes them to the console and
//! to one file per day.
use vstd::prelude::*;
use crate::config::{path_join, spec_path_join};
use crate::text::push_str;

verus! {

broadcast use vstd::string::group_string_axioms;

pub struct Logger {
    pub log_dir: String,
}

/// `[<timestamp>] [<level>] <message>` and a line break.
pub open spec fn log_line(timestamp: Seq<char>, level: Seq<char>, msg: Seq<char>) -> Seq<char> {
    "["@ + timestamp + "] ["@ + level + "] "@ + msg + "\n"@
}

/// `backup-<date>.log`.
pub open spec fn log_file_name(date: Seq<char>) -> Seq<char> {
    "backup-"@ + date + ".log"@
}

impl Logger {
    pub fn new(log_dir: &str) -> (r: Logger)
        ensures
            r.log_dir@ == log_dir@,
    {
        Logger { log_dir: log_dir.to_string() }
    }

    fn line(timestamp: &str, level: &str, msg: &str) -> (s: String)
        ensures
            s@ == log_line(timestamp@, level@, msg@),
    {
        let mut s = "[".to_string();
        push_str(&mut s, timestamp);
        push_str(&mut s, "] [");
        push_str(&mut s, level);
        push_str(&mut s, "] ");
        push_str(&mut s, msg);
        push_str(&mut s, "\n");
        s
    }

    /// The line that logs an informational message.
    pub fn info(&self, timestamp: &str, msg: &str) -> (s: String)
        ensures
            s@ == log_line(timestamp@, "INFO"@, msg@),
    {
        Self::line(timestamp, "INFO", msg)
    }

    /// The line that logs a warning.
    pub fn warn(&self, timestamp: &str, msg: &str) -> (s: String)
        ensures
            s@ == log_line(timestamp@, "WARN"@, msg@),
    {
        Self::line(timestamp, "WARN", msg)
    }

    /// The line that logs an error.
    pub fn error(&self, timestamp: &str, msg: &str) -> (s: String)
        ensures
            s@ == log_line(timestamp@, "ERROR"@, msg@),
    {
        Self::line(timestamp, "ERROR", msg)
    }

    /// The log file of a day (`date` as `YYYYMMDD`).
    pub fn log_file_for(&self, date: &str) -> (s: String)
        ensures
            s@ == spec_path_join(self.log_dir@, log_file_name(date@)),
    {
        let mut name = "backup-".to_string();
        push_str(&mut name, date);
        push_str(&mut name, ".log");
        path_join(self.log_dir.as_str(), name.as_str())
    }

    /// What is shown when today has no log.
    pub fn no_log_today() -> (s: String)
        ensures
            s@ == "今日暂无日志"@,
    {
        "今日暂无日志".to_string()
    }

    /// What is shown when a day has no log.
    pub fn no_log_for(date: &str) -> (s: String)
        ensures
            s@ == "无日志: "@ + date@,
    {
        let mut s = "无日志: ".to_string();
        push_str(&mut s, date);
        s
    }
}

} // verus!
