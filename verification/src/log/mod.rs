//! Levelled log output.
//!
//! Where the text goes is the user's choice: an implementation of
//! [`LogOutput`] receives every string the logger emits. Which messages are
//! emitted is decided here, by comparing a message's level with the configured
//! maximum level.
use vstd::prelude::*;

verus! {

/// The error type of a write, as `core::fmt` defines it.
#[verifier::external_type_specification]
#[verifier::external_body]
pub struct ExFmtError(core::fmt::Error);

/// Severity of a log message; `Error` is the most severe and `Trace` the least.
#[derive(Debug, Clone, Copy, PartialEq, Eq, PartialOrd, Ord, Structural)]
pub enum LogLevel {
    /// Errors.
    Error,
    /// Warnings.
    Warn,
    /// Informational messages.
    Info,
    /// Debugging output.
    Debug,
    /// Tracing output.
    Trace,
}

impl LogLevel {
    /// The rank of a level: Error 0, Warn 1, Info 2, Debug 3, Trace 4.
    pub open spec fn rank(self) -> nat {
        match self {
            LogLevel::Error => 0,
            LogLevel::Warn => 1,
            LogLevel::Info => 2,
            LogLevel::Debug => 3,
            LogLevel::Trace => 4,
        }
    }

    /// The level's rank as a number.
    pub fn as_usize(self) -> (r: usize)
        ensures
            r == self.rank(),
    {
        match self {
            LogLevel::Error => 0,
            LogLevel::Warn => 1,
            LogLevel::Info => 2,
            LogLevel::Debug => 3,
            LogLevel::Trace => 4,
        }
    }

    /// The tag written in front of a message of this level.
    pub open spec fn spec_tag(self) -> &'static str {
        match self {
            LogLevel::Error => "[ERROR] ",
            LogLevel::Warn => "[WARN] ",
            LogLevel::Info => "[INFO] ",
            LogLevel::Debug => "[DEBUG] ",
            LogLevel::Trace => "[TRACE] ",
        }
    }

    /// The tag written in front of a message of this level.
    pub fn tag(self) -> (r: &'static str)
        ensures
            r == self.spec_tag(),
    {
        match self {
            LogLevel::Error => "[ERROR] ",
            LogLevel::Warn => "[WARN] ",
            LogLevel::Info => "[INFO] ",
            LogLevel::Debug => "[DEBUG] ",
            LogLevel::Trace => "[TRACE] ",
        }
    }
}

/// Whether a message of level `level` passes the filter `max`: it does when
/// it is at least as severe as `max`.
pub open spec fn spec_enabled(level: LogLevel, max: LogLevel) -> bool {
    level.rank() <= max.rank()
}

/// Whether a message of level `level` passes the filter `max`.
pub fn level_enabled(level: LogLevel, max: LogLevel) -> (r: bool)
    ensures
        r == spec_enabled(level, max),
{
    level.as_usize() <= max.as_usize()
}

/// The logger's settings: the least severe level that is still emitted.
pub struct LogConfig {
    pub level: LogLevel,
}

impl LogConfig {
    /// Settings with the default level, `Info`.
    pub fn new() -> (r: LogConfig)
        ensures
            r.level == LogLevel::Info,
    {
        LogConfig { level: LogLevel::Info }
    }
}

/// Sets the least severe level that is emitted.
pub fn set_log_level(config: &mut LogConfig, level: LogLevel)
    ensures
        final(config).level == level,
{
    config.level = level;
}

/// The least severe level that is emitted.
pub fn get_log_level(config: &LogConfig) -> (r: LogLevel)
    ensures
        r == config.level,
{
    config.level
}

/// A device that receives log text; implemented by the user for a UART, a
/// debug probe or anything else.
pub trait LogOutput {
    /// Writes `s` to the device.
    fn write_str(&self, s: &str);

    /// Flushes the device; does nothing unless the device buffers.
    fn flush(&self) {
    }
}

/// An output that drops everything written to it.
pub struct NullOutput;

impl LogOutput for NullOutput {
    fn write_str(&self, s: &str) {
    }
}

/// An output whose data register lies at address `BASE_ADDR`.
pub struct UartOutput<const BASE_ADDR: usize>;

impl<const BASE_ADDR: usize> UartOutput<BASE_ADDR> {
    /// The output for the register at `BASE_ADDR`.
    pub fn new() -> (r: Self) {
        UartOutput
    }

    /// The address of the data register the bytes are written to.
    pub fn base_addr(&self) -> (r: usize)
        ensures
            r == BASE_ADDR,
    {
        BASE_ADDR
    }
}

/// Writes `s` to `output`; a write to a log output never fails.
pub fn log_write<O: LogOutput>(output: &O, s: &str) -> (r: core::fmt::Result)
    ensures
        r is Ok,
        call_ensures(O::write_str, (output, s), ()),
{
    output.write_str(s);
    Ok(())
}

/// A writer that sends its text to a log output.
pub struct LogWriter<'a, O: LogOutput> {
    pub output: &'a O,
}

impl<'a, O: LogOutput> LogWriter<'a, O> {
    /// A writer for `output`.
    pub fn new(output: &'a O) -> (r: Self)
        ensures
            r.output == output,
    {
        LogWriter { output }
    }

    /// Writes `s` to the output; never fails.
    pub fn write_str(&mut self, s: &str) -> (r: core::fmt::Result)
        ensures
            r is Ok,
            final(self).output == old(self).output,
            call_ensures(O::write_str, (old(self).output, s), ()),
    {
        log_write(self.output, s)
    }
}

/// Writes `message` to `output` when `level` passes the configured filter,
/// and says whether it did.
pub fn log<O: LogOutput>(config: &LogConfig, output: &O, level: LogLevel, message: &str) -> (written: bool)
    ensures
        written == spec_enabled(level, config.level),
        written ==> call_ensures(O::write_str, (output, message), ()),
{
    if level_enabled(level, config.level) {
        let _ = log_write(output, message);
        true
    } else {
        false
    }
}

/// Writes one log line, the level's tag, `message` and a line break, when
/// `level` passes the configured filter, and says whether it did.
pub fn log_line<O: LogOutput>(config: &LogConfig, output: &O, level: LogLevel, message: &str) -> (written: bool)
    ensures
        written == spec_enabled(level, config.level),
        written ==> call_ensures(O::write_str, (output, level.spec_tag()), ()),
        written ==> call_ensures(O::write_str, (output, message), ()),
        written ==> call_ensures(O::write_str, (output, "\n"), ()),
{
    let tagged = log(config, output, level, level.tag());
    log(config, output, level, message);
    log(config, output, level, "\n");
    tagged
}

/// The level filter is monotone: when a message passes, every message at
/// least as severe passes too, and a higher filter lets through everything a
/// lower one does.
pub proof fn law_level_filter_monotone(level: LogLevel, severer: LogLevel, max: LogLevel, higher: LogLevel)
    requires
        spec_enabled(level, max),
        severer.rank() <= level.rank(),
        max.rank() <= higher.rank(),
    ensures
        spec_enabled(severer, max),
        spec_enabled(level, higher),
{
}

} // verus!
