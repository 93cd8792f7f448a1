use crate::context::NwipeContext;
use vstd::prelude::*;

verus! {

/// How severe a log line is; `Fatal` is the most severe.
#[derive(Clone, Copy, Debug, PartialEq, Eq, Structural, PartialOrd, Ord, Hash)]
pub enum LogLevel {
    Fatal,
    Error,
    Warning,
    Notice,
    Info,
    Debug,
}

/// The word a log line shows for a level.
pub open spec fn level_label(l: LogLevel) -> Seq<char> {
    match l {
        LogLevel::Fatal => "FATAL"@,
        LogLevel::Error => "ERROR"@,
        LogLevel::Warning => "WARNING"@,
        LogLevel::Notice => "NOTICE"@,
        LogLevel::Info => "INFO"@,
        LogLevel::Debug => "DEBUG"@,
    }
}

/// The rank of a level; a lower rank is more severe.
pub open spec fn level_rank(l: LogLevel) -> nat {
    match l {
        LogLevel::Fatal => 0,
        LogLevel::Error => 1,
        LogLevel::Warning => 2,
        LogLevel::Notice => 3,
        LogLevel::Info => 4,
        LogLevel::Debug => 5,
    }
}

impl LogLevel {
    /// The word a log line shows for this level.
    pub fn label(&self) -> (r: &'static str)
        ensures
            r@ == level_label(*self),
    {
        match self {
            LogLevel::Fatal => "FATAL",
            LogLevel::Error => "ERROR",
            LogLevel::Warning => "WARNING",
            LogLevel::Notice => "NOTICE",
            LogLevel::Info => "INFO",
            LogLevel::Debug => "DEBUG",
        }
    }

    /// The rank of this level; a lower rank is more severe.
    pub fn rank(&self) -> (r: u8)
        ensures
            r == level_rank(*self),
    {
        match self {
            LogLevel::Fatal => 0,
            LogLevel::Error => 1,
            LogLevel::Warning => 2,
            LogLevel::Notice => 3,
            LogLevel::Info => 4,
            LogLevel::Debug => 5,
        }
    }

    /// Whether a line of this level is shown when lines up to `limit` are.
    pub fn enabled(&self, limit: LogLevel) -> (r: bool)
        ensures
            r == (level_rank(*self) <= level_rank(limit)),
    {
        self.rank() <= limit.rank()
    }
}

/// Splits `seconds` into whole hours, the minutes of the last hour and the
/// seconds of the last minute.
pub fn convert_seconds_to_hours_minutes_seconds(seconds: i64, hours: &mut i32, minutes: &mut i32, secs: &mut i32)
    requires
        0 <= seconds,
        seconds / 3600 <= i32::MAX,
    ensures
        *final(hours) == seconds / 3600,
        *final(minutes) == (seconds % 3600) / 60,
        *final(secs) == seconds % 60,
        0 <= *final(minutes) < 60,
        0 <= *final(secs) < 60,
        *final(hours) * 3600 + *final(minutes) * 60 + *final(secs) == seconds,
{
    *hours = (seconds / 3600) as i32;
    *minutes = ((seconds % 3600) / 60) as i32;
    *secs = (seconds % 60) as i32;
    assert((seconds / 3600) * 3600 + ((seconds % 3600) / 60) * 60 + seconds % 60 == seconds) by (nonlinear_arith)
        requires
            seconds >= 0,
    {
        assert(seconds == (seconds / 3600) * 3600 + seconds % 3600);
        assert(seconds % 3600 == ((seconds % 3600) / 60) * 60 + (seconds % 3600) % 60);
        assert((seconds % 3600) % 60 == seconds % 60) by {
            vstd::arithmetic::div_mod::lemma_mod_mod(seconds as int, 60, 60);
        }
    }
}

/// Relies on `std::io::Error::from_raw_os_error` and its `to_string`: the
/// operating system's text for the error number `errno`.
#[verifier::external_body]
fn os_error_text(errno: i32) -> (r: String) {
    std::io::Error::from_raw_os_error(errno).to_string()
}

/// The text of an error line: the function's name, the message, and the
/// operating system's text for the error.
pub open spec fn perror_text(function: Seq<char>, message: Seq<char>, error: Seq<char>) -> Seq<char> {
    function + "(): "@ + message + ": "@ + error
}

/// The text of an error line for `function`, `message` and the operating
/// system's text `error`.
pub fn perror_line(function: &str, message: &str, error: &str) -> (r: String)
    ensures
        r@ == perror_text(function@, message@, error@),
{
    let mut s = function.to_owned();
    s.append("(): ");
    s.append(message);
    s.append(": ");
    s.append(error);
    s
}

/// The error line for `function` and `message` after the operating system
/// reported the error number `errno`; the caller logs it at `Error` level.
pub fn nwipe_perror(errno: i32, function: &str, message: &str) -> (r: String)
    ensures
        exists|e: Seq<char>| r@ == perror_text(function@, message@, e),
{
    let e = os_error_text(errno);
    perror_line(function, message, e.as_str())
}

/// How a device's wipe ended, as the summary tells it.
#[derive(Clone, Copy, Debug, PartialEq, Eq, Structural)]
pub enum WipeOutcome {
    /// The wipe completed.
    Completed,
    /// A signal ended the wipe.
    Interrupted { signal: i32 },
    /// The wipe failed with this result code.
    Failed { code: i32 },
}

/// How a wipe with result code `result`, ended by `signal` when positive, is
/// told in the summary.
pub open spec fn outcome_spec(result: i32, signal: i32) -> WipeOutcome {
    if result == 0 {
        WipeOutcome::Completed
    } else if signal > 0 {
        WipeOutcome::Interrupted { signal }
    } else {
        WipeOutcome::Failed { code: result }
    }
}

/// How a wipe with result code `result`, ended by `signal` when positive, is
/// told in the summary.
pub fn wipe_outcome(result: i32, signal: i32) -> (r: WipeOutcome)
    ensures
        r == outcome_spec(result, signal),
{
    if result == 0 {
        WipeOutcome::Completed
    } else if signal > 0 {
        WipeOutcome::Interrupted { signal }
    } else {
        WipeOutcome::Failed { code: result }
    }
}

/// What the summary tells of one device.
#[derive(Clone, Copy, Debug)]
pub struct SummaryEntry {
    /// How the wipe ended.
    pub outcome: WipeOutcome,
    /// Whether a serial number is known and shown.
    pub show_serial: bool,
    /// Whether a model is known and shown.
    pub show_model: bool,
    /// How long the wipe took, as hours, minutes and seconds, when known.
    pub duration: Option<(i32, i32, i32)>,
    /// The bytes written and verified, in whole MiB, when any were.
    pub megabytes: Option<u64>,
}

/// Whether the duration from `start` to `end` is known and fits the summary.
pub open spec fn duration_known(start: u64, end: u64) -> bool {
    start > 0 && end >= start && (end - start) / 3600 <= i32::MAX
}

/// What the summary tells of the device of `c`.
pub fn summary_entry(c: &NwipeContext) -> (r: SummaryEntry)
    ensures
        r.outcome == outcome_spec(c.result, c.signal),
        r.show_serial == (c.identity.serial_no@.len() > 0),
        r.show_model == (c.identity.model_no@.len() > 0),
        r.duration == if duration_known(c.start_time, c.end_time) {
            let d = (c.end_time - c.start_time) as int;
            Some(((d / 3600) as i32, ((d % 3600) / 60) as i32, (d % 60) as i32))
        } else {
            None
        },
        r.megabytes == if c.progress.bytes_total > 0 {
            Some((c.progress.bytes_total / 1048576) as u64)
        } else {
            None
        },
{
    let duration = if c.start_time > 0 && c.end_time >= c.start_time && (c.end_time - c.start_time) / 3600
        <= i32::MAX as u64 {
        let d = (c.end_time - c.start_time) as i64;
        let mut h: i32 = 0;
        let mut m: i32 = 0;
        let mut s: i32 = 0;
        convert_seconds_to_hours_minutes_seconds(d, &mut h, &mut m, &mut s);
        Some((h, m, s))
    } else {
        None
    };
    let megabytes = if c.progress.bytes_total > 0 {
        Some(c.progress.bytes_total / 1048576)
    } else {
        None
    };
    SummaryEntry {
        outcome: wipe_outcome(c.result, c.signal),
        show_serial: !c.identity.serial_no.as_str().is_empty(),
        show_model: !c.identity.model_no.as_str().is_empty(),
        duration,
        megabytes,
    }
}

} // verus!
