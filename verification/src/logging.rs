//! The log's vocabulary and the text of each log line. Writing the lines
//! out, the global logger and its worker thread live with the application.
use vstd::prelude::*;
use vstd::string::{StrSliceExecFns, StringExecFns};

verus! {

/// The severity of a log entry.
#[derive(Clone, Copy, Debug, PartialEq, Eq, Structural)]
pub enum LogType {
    Info,
    Warning,
    Error,
    Panic,
}

impl LogType {
    /// The word that a log line shows for the severity.
    pub open spec fn message_spec(self) -> Seq<char> {
        match self {
            LogType::Info => "Info"@,
            LogType::Warning => "Warning"@,
            LogType::Error => "Error"@,
            LogType::Panic => "Panic!"@,
        }
    }

    /// The ANSI escape sequence that colours a console line of the
    /// severity: white, yellow, red, and underlined red.
    pub open spec fn ansi_code_spec(self) -> Seq<char> {
        match self {
            LogType::Info => "\x1b[0;37m"@,
            LogType::Warning => "\x1b[1;33m"@,
            LogType::Error => "\x1b[1;31m"@,
            LogType::Panic => "\x1b[1;4;31m"@,
        }
    }

    /// Returns the word that a log line shows for the severity.
    pub fn message(self) -> (text: &'static str)
        ensures
            text@ == self.message_spec(),
    {
        match self {
            LogType::Info => "Info",
            LogType::Warning => "Warning",
            LogType::Error => "Error",
            LogType::Panic => "Panic!",
        }
    }

    /// Returns the ANSI escape sequence that colours a console line of the
    /// severity.
    pub fn ansi_code(self) -> (code: &'static str)
        ensures
            code@ == self.ansi_code_spec(),
    {
        match self {
            LogType::Info => "\x1b[0;37m",
            LogType::Warning => "\x1b[1;33m",
            LogType::Error => "\x1b[1;31m",
            LogType::Panic => "\x1b[1;4;31m",
        }
    }
}

/// Where log lines go besides the log file.
#[derive(Clone, Copy, Debug, PartialEq, Eq, Structural)]
pub enum LogOutMode {
    /// The log file only.
    FileOnly,
    /// The log file and standard error.
    Print,
    /// The log file, and standard error with the severity's colour.
    PrintWithAnsiCodes,
}

/// How the logger writes.
#[derive(Clone, Debug)]
pub struct LoggerConfig {
    pub log_out_mode: LogOutMode,
    /// Whether newlines at the end of a message are dropped.
    pub trim_newlines: bool,
}

/// The escape sequence that ends a coloured console line.
pub open spec fn ansi_reset() -> Seq<char> {
    "\x1b[0m"@
}

/// The text without the newlines at its end.
pub open spec fn trim_trailing_newlines(text: Seq<char>) -> Seq<char>
    decreases text.len(),
{
    if text.len() > 0 && text.last() == '\n' {
        trim_trailing_newlines(text.drop_last())
    } else {
        text
    }
}

/// Trimming leaves a prefix of the text that does not end in a newline,
/// and trimming that again changes nothing.
pub proof fn lemma_trim_trailing_newlines(text: Seq<char>)
    ensures
        trim_trailing_newlines(text).len() <= text.len(),
        trim_trailing_newlines(text) == text.take(trim_trailing_newlines(text).len() as int),
        trim_trailing_newlines(text).len() == 0 || trim_trailing_newlines(text).last() != '\n',
        trim_trailing_newlines(trim_trailing_newlines(text)) == trim_trailing_newlines(text),
    decreases text.len(),
{
    if text.len() > 0 && text.last() == '\n' {
        lemma_trim_trailing_newlines(text.drop_last());
        let t = trim_trailing_newlines(text.drop_last());
        assert(text.drop_last().take(t.len() as int) =~= text.take(t.len() as int));
    } else {
        assert(text.take(text.len() as int) =~= text);
    }
}

/// A log line: `[time] "thread" [severity]: message`, with the thread shown
/// as `<unknown>` where it has no name.
pub open spec fn log_line_spec(
    time: Seq<char>,
    thread_name: Option<Seq<char>>,
    log_type: LogType,
    message: Seq<char>,
) -> Seq<char> {
    let thread = match thread_name {
        Some(name) => name,
        None => "<unknown>"@,
    };
    "["@ + time + "] \""@ + thread + "\" ["@ + log_type.message_spec() + "]: "@ + message
}

/// A log line shows the severity's own word in its brackets: it is
/// `[`, the time, `] "`, the thread, `" [`, the word, `]: ` and the
/// message, in that order; and lines that differ only in severity differ.
pub proof fn lemma_log_line_shows_severity(
    time: Seq<char>,
    thread_name: Seq<char>,
    log_type: LogType,
    other: LogType,
    message: Seq<char>,
)
    ensures
        log_line_spec(time, Some(thread_name), log_type, message) == "["@ + time + "] \""@ + thread_name
            + "\" ["@ + log_type.message_spec() + "]: "@ + message,
        log_line_spec(time, None, log_type, message) == "["@ + time + "] \""@ + "<unknown>"@ + "\" ["@
            + log_type.message_spec() + "]: "@ + message,
        log_line_spec(time, Some(thread_name), log_type, message) == log_line_spec(
            time,
            Some(thread_name),
            other,
            message,
        ) ==> log_type == other,
{
    reveal_strlit("Info");
    reveal_strlit("Warning");
    reveal_strlit("Error");
    reveal_strlit("Panic!");
    let a = log_line_spec(time, Some(thread_name), log_type, message);
    let b = log_line_spec(time, Some(thread_name), other, message);
    if a == b {
        assert(a.len() == b.len());
        assert(log_type.message_spec().len() == other.message_spec().len());
    }
}

/// The word that each severity shows.
pub proof fn lemma_severity_words(log_type: LogType)
    ensures
        log_type == LogType::Info ==> log_type.message_spec() == "Info"@,
        log_type == LogType::Warning ==> log_type.message_spec() == "Warning"@,
        log_type == LogType::Error ==> log_type.message_spec() == "Error"@,
        log_type == LogType::Panic ==> log_type.message_spec() == "Panic!"@,
{
}

/// Returns `text` without the newlines at its end.
pub fn trim_newlines_end(text: &str) -> (trimmed: &str)
    ensures
        trimmed@ == trim_trailing_newlines(text@),
{
    let mut end: usize = text.unicode_len();
    assert(text@.take(end as int) =~= text@);
    while end > 0 && text.get_char(end - 1) == '\n'
        invariant
            0 <= end <= text@.len(),
            trim_trailing_newlines(text@.take(end as int)) == trim_trailing_newlines(text@),
        decreases end,
    {
        assert(text@.take(end as int).drop_last() =~= text@.take(end - 1));
        end -= 1;
    }
    text.substring_char(0, end)
}

impl LoggerConfig {
    /// The line that the log file gets for an entry: the message, trimmed
    /// of its final newlines where the configuration says so, after the
    /// time, the thread's name and the severity.
    pub fn log_line(&self, time: &str, thread_name: Option<&str>, log_type: LogType, message: &str) -> (line: String)
        ensures
            line@ == log_line_spec(
                time@,
                match thread_name {
                    Some(name) => Some(name@),
                    None => None,
                },
                log_type,
                if self.trim_newlines {
                    trim_trailing_newlines(message@)
                } else {
                    message@
                },
            ),
    {
        let message = if self.trim_newlines {
            trim_newlines_end(message)
        } else {
            message
        };
        let thread = match thread_name {
            Some(name) => name,
            None => "<unknown>",
        };
        let mut line = String::new();
        line.append("[");
        line.append(time);
        line.append("] \"");
        line.append(thread);
        line.append("\" [");
        line.append(log_type.message());
        line.append("]: ");
        line.append(message);
        line
    }

    /// What standard error gets for a log line: nothing when only the file
    /// is written, the line itself, or the line wrapped in the severity's
    /// colour.
    pub fn console_line(&self, log_type: LogType, line: &str) -> (out: Option<String>)
        ensures
            match self.log_out_mode {
                LogOutMode::FileOnly => out is None,
                LogOutMode::Print => out is Some && out->0@ == line@,
                LogOutMode::PrintWithAnsiCodes => out is Some && out->0@ == log_type.ansi_code_spec()
                    + line@ + ansi_reset(),
            },
    {
        match self.log_out_mode {
            LogOutMode::FileOnly => None,
            LogOutMode::Print => Some(String::from_str(line)),
            LogOutMode::PrintWithAnsiCodes => {
                let mut out = String::from_str(log_type.ansi_code());
                out.append(line);
                out.append("\x1b[0m");
                Some(out)
            },
        }
    }
}

/// A log entry whose text is fixed.
#[derive(Clone, Copy, Debug)]
pub struct LogEntry {
    pub log_type: LogType,
    pub message: &'static str,
}

/// Stands for the global logger while it is initialised.
pub struct GlobalLoggerContext;

impl GlobalLoggerContext {
    /// Decides what initialising the global logger does, given whether it
    /// is initialised already: a second initialisation is refused with a
    /// panic-level entry (after which the caller panics); a first one gives
    /// the context and the info entry that announces it.
    pub fn init(already_initialised: bool) -> (r: Result<(GlobalLoggerContext, LogEntry), LogEntry>)
        ensures
            match r {
                Ok((_, entry)) => !already_initialised && entry.log_type == LogType::Info
                    && entry.message@ == "Initialised logging."@,
                Err(entry) => already_initialised && entry.log_type == LogType::Panic
                    && entry.message@
                    == "Attempted to initialise global logger when it is already initialised."@,
            },
    {
        if already_initialised {
            Err(
                LogEntry {
                    log_type: LogType::Panic,
                    message: "Attempted to initialise global logger when it is already initialised.",
                },
            )
        } else {
            Ok((GlobalLoggerContext, LogEntry { log_type: LogType::Info, message: "Initialised logging." }))
        }
    }
}

/// Whether creating the `latest.log` link is tried again after it failed:
/// only where the link already exists, and for at most three removals.
pub fn retry_latest_link(already_exists: bool, tries: u32) -> (retry: bool)
    ensures
        retry == (already_exists && tries < 3),
{
    already_exists && tries < 3
}

/// What logging through the global logger does, given whether its lock is
/// poisoned and whether it is initialised: `None` where the entry goes to
/// the logger, otherwise the complaint that standard error gets instead.
pub fn global_log_fallback(poisoned: bool, initialised: bool) -> (complaint: Option<&'static str>)
    ensures
        poisoned ==> (complaint matches Some(text) && text@ == "Attempted to log but global logger is poisoned."@),
        !poisoned && !initialised ==> (complaint matches Some(text) && text@
            == "Attempted to log while global logger not initialised."@),
        !poisoned && initialised ==> complaint is None,
{
    if poisoned {
        Some("Attempted to log but global logger is poisoned.")
    } else if !initialised {
        Some("Attempted to log while global logger not initialised.")
    } else {
        None
    }
}

} // verus!
