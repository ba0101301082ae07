//! A simple line-oriented logger: a severity filter and the formatting of
//! one log line, `[timestamp] LEVEL - target: message`. The caller decides
//! where a produced line is written.

use vstd::prelude::*;

verus! {

/// Severity of one log message, most severe first.
#[derive(Clone, Copy, Debug, PartialEq, Eq, Structural)]
pub enum LogLevel {
    /// An unrecoverable problem.
    Error,
    /// A recoverable problem.
    Warn,
    /// Normal progress reporting.
    Info,
    /// Detail for diagnosing behaviour.
    Debug,
    /// The finest detail.
    Trace,
}

/// The most verbose severity a logger lets through; `Off` lets nothing
/// through.
#[derive(Clone, Copy, Debug, PartialEq, Eq, Structural)]
pub enum LogLevelFilter {
    /// Nothing is logged.
    Off,
    /// Only errors.
    Error,
    /// Errors and warnings.
    Warn,
    /// Errors, warnings and progress.
    Info,
    /// Everything but trace detail.
    Debug,
    /// Everything.
    Trace,
}

/// Numeric rank of a severity; smaller is more severe.
pub open spec fn level_rank(level: LogLevel) -> int {
    match level {
        LogLevel::Error => 1,
        LogLevel::Warn => 2,
        LogLevel::Info => 3,
        LogLevel::Debug => 4,
        LogLevel::Trace => 5,
    }
}

/// Numeric rank of a filter; a message passes when its rank is at most the
/// filter's.
pub open spec fn filter_rank(filter: LogLevelFilter) -> int {
    match filter {
        LogLevelFilter::Off => 0,
        LogLevelFilter::Error => 1,
        LogLevelFilter::Warn => 2,
        LogLevelFilter::Info => 3,
        LogLevelFilter::Debug => 4,
        LogLevelFilter::Trace => 5,
    }
}

/// The upper-case name a severity prints as.
pub open spec fn level_name(level: LogLevel) -> Seq<u8> {
    match level {
        LogLevel::Error => seq![69u8, 82u8, 82u8, 79u8, 82u8],
        LogLevel::Warn => seq![87u8, 65u8, 82u8, 78u8],
        LogLevel::Info => seq![73u8, 78u8, 70u8, 79u8],
        LogLevel::Debug => seq![68u8, 69u8, 66u8, 85u8, 71u8],
        LogLevel::Trace => seq![84u8, 82u8, 65u8, 67u8, 69u8],
    }
}

/// One formatted log line: `[timestamp] LEVEL - target: message` and a line
/// break.
pub open spec fn log_line(
    timestamp: Seq<u8>,
    level: LogLevel,
    target: Seq<u8>,
    message: Seq<u8>,
) -> Seq<u8> {
    seq![91u8] + timestamp + seq![93u8, 32u8] + level_name(level) + seq![32u8, 45u8, 32u8]
        + target + seq![58u8, 32u8] + message + seq![10u8]
}

/// Appends a byte string.
fn push_bytes(out: &mut Vec<u8>, bytes: &[u8])
    ensures
        final(out)@ == old(out)@ + bytes@,
{
    let mut i: usize = 0;
    while i < bytes.len()
        invariant
            0 <= i <= bytes@.len(),
            out@ == old(out)@ + bytes@.take(i as int),
        decreases bytes@.len() - i,
    {
        out.push(bytes[i]);
        proof {
            assert((old(out)@ + bytes@.take(i as int)).push(bytes@[i as int]) =~= old(out)@
                + bytes@.take(i + 1));
        }
        i += 1;
    }
    proof {
        assert(old(out)@ + bytes@.take(bytes@.len() as int) =~= old(out)@ + bytes@);
    }
}

/// Appends a severity's printed name.
fn push_level_name(out: &mut Vec<u8>, level: LogLevel)
    ensures
        final(out)@ == old(out)@ + level_name(level),
{
    match level {
        LogLevel::Error => {
            out.push(69);
            out.push(82);
            out.push(82);
            out.push(79);
            out.push(82);
        },
        LogLevel::Warn => {
            out.push(87);
            out.push(65);
            out.push(82);
            out.push(78);
        },
        LogLevel::Info => {
            out.push(73);
            out.push(78);
            out.push(70);
            out.push(79);
        },
        LogLevel::Debug => {
            out.push(68);
            out.push(69);
            out.push(66);
            out.push(85);
            out.push(71);
        },
        LogLevel::Trace => {
            out.push(84);
            out.push(82);
            out.push(65);
            out.push(67);
            out.push(69);
        },
    }
    proof {
        assert(out@ =~= old(out)@ + level_name(level));
    }
}

/// Relies on chrono's `Local::now` for the current wall-clock time,
/// rendered in its default textual form. The text depends on the moment of
/// the call, the machine's clock and its time zone, so nothing is stated
/// of it.
#[verifier::external_body]
fn now_timestamp() -> Vec<u8> {
    chrono::Local::now().to_string().into_bytes()
}

/// The logger: a severity filter, applied by the caller before formatting.
pub struct SimpleLogger {
    log_filter: LogLevelFilter,
}

impl SimpleLogger {
    /// The configured filter.
    pub closed spec fn filter(self) -> LogLevelFilter {
        self.log_filter
    }

    /// A logger letting through everything at most as verbose as the given
    /// filter.
    pub fn init(log_filter: LogLevelFilter) -> (r: SimpleLogger)
        ensures
            r.filter() == log_filter,
    {
        SimpleLogger { log_filter }
    }

    /// Whether a message of the given severity passes the filter.
    pub fn enabled(&self, level: LogLevel) -> (r: bool)
        ensures
            r == (level_rank(level) <= filter_rank(self.filter())),
    {
        let level_value: u8 = match level {
            LogLevel::Error => 1,
            LogLevel::Warn => 2,
            LogLevel::Info => 3,
            LogLevel::Debug => 4,
            LogLevel::Trace => 5,
        };
        let filter_value: u8 = match self.log_filter {
            LogLevelFilter::Off => 0,
            LogLevelFilter::Error => 1,
            LogLevelFilter::Warn => 2,
            LogLevelFilter::Info => 3,
            LogLevelFilter::Debug => 4,
            LogLevelFilter::Trace => 5,
        };
        level_value <= filter_value
    }

    /// Formats one log line from the given timestamp text.
    pub fn format_log_line(
        &self,
        timestamp: &[u8],
        level: LogLevel,
        target: &[u8],
        message: &[u8],
    ) -> (r: Vec<u8>)
        ensures
            r@ == log_line(timestamp@, level, target@, message@),
    {
        let mut out: Vec<u8> = Vec::new();
        out.push(91);
        push_bytes(&mut out, timestamp);
        out.push(93);
        out.push(32);
        push_level_name(&mut out, level);
        out.push(32);
        out.push(45);
        out.push(32);
        push_bytes(&mut out, target);
        out.push(58);
        out.push(32);
        push_bytes(&mut out, message);
        out.push(10);
        proof {
            assert(out@ =~= log_line(timestamp@, level, target@, message@));
        }
        out
    }

    /// Formats one log line, stamped with the current wall-clock time.
    pub fn create_log_line(&self, level: LogLevel, target: &[u8], message: &[u8]) -> (r: Vec<
        u8,
    >)
        ensures
            exists|ts: Seq<u8>| r@ == log_line(ts, level, target@, message@),
    {
        let timestamp = now_timestamp();
        let r = self.format_log_line(timestamp.as_slice(), level, target, message);
        proof {
            assert(r@ == log_line(timestamp@, level, target@, message@));
        }
        r
    }
}

} // verus!
