use neon_rtos2::log::{
    get_log_level, level_enabled, log, log_line, log_write, set_log_level, LogConfig, LogLevel,
    LogOutput, LogWriter, NullOutput, UartOutput,
};
use std::cell::RefCell;

/// An output that keeps what was written to it.
struct Recorder {
    text: RefCell<String>,
}

impl Recorder {
    fn new() -> Self {
        Recorder { text: RefCell::new(String::new()) }
    }
}

impl LogOutput for Recorder {
    fn write_str(&self, s: &str) {
        self.text.borrow_mut().push_str(s);
    }
}

#[test]
fn test_log_level_setting() {
    let mut config = LogConfig::new();
    assert_eq!(get_log_level(&config), LogLevel::Info);

    set_log_level(&mut config, LogLevel::Debug);
    assert_eq!(get_log_level(&config), LogLevel::Debug);

    set_log_level(&mut config, LogLevel::Error);
    assert_eq!(get_log_level(&config), LogLevel::Error);
}

#[test]
fn test_log_writer() {
    let output = NullOutput;
    let mut writer = LogWriter::new(&output);
    let result = writer.write_str("测试日志");
    assert!(result.is_ok());
}

#[test]
fn test_log_level_comparison() {
    assert!(LogLevel::Error < LogLevel::Warn);
    assert!(LogLevel::Warn < LogLevel::Info);
    assert!(LogLevel::Info < LogLevel::Debug);
    assert!(LogLevel::Debug < LogLevel::Trace);
}

#[test]
fn test_log_macros() {
    let config = LogConfig::new();
    let output = NullOutput;
    log_line(&config, &output, LogLevel::Error, "这是一个错误");
    log_line(&config, &output, LogLevel::Warn, "这是一个警告");
    log_line(&config, &output, LogLevel::Info, "这是一条信息");
    log_line(&config, &output, LogLevel::Debug, "这是一条调试信息");
    log_line(&config, &output, LogLevel::Trace, "这是一条跟踪信息");
}

#[test]
fn log_line_writes_tag_message_and_newline() {
    let config = LogConfig::new();
    let out = Recorder::new();
    assert!(log_line(&config, &out, LogLevel::Warn, "disk low"));
    assert_eq!(out.text.borrow().as_str(), "[WARN] disk low\n");
}

#[test]
fn messages_below_the_level_are_dropped() {
    let mut config = LogConfig::new();
    let out = Recorder::new();
    assert!(!log_line(&config, &out, LogLevel::Debug, "hidden"));
    assert!(!log(&config, &out, LogLevel::Trace, "hidden"));
    assert_eq!(out.text.borrow().as_str(), "");
    set_log_level(&mut config, LogLevel::Trace);
    assert!(log(&config, &out, LogLevel::Trace, "shown"));
    assert_eq!(out.text.borrow().as_str(), "shown");
}

#[test]
fn level_filter_follows_the_ranks() {
    assert!(level_enabled(LogLevel::Error, LogLevel::Error));
    assert!(level_enabled(LogLevel::Info, LogLevel::Debug));
    assert!(!level_enabled(LogLevel::Debug, LogLevel::Info));
    assert_eq!(LogLevel::Trace.as_usize(), 4);
    assert_eq!(LogLevel::Error.tag(), "[ERROR] ");
}

#[test]
fn log_write_forwards_the_text() {
    let out = Recorder::new();
    assert!(log_write(&out, "abc").is_ok());
    assert_eq!(out.text.borrow().as_str(), "abc");
    let uart: UartOutput<0x4001_1004> = UartOutput::new();
    assert_eq!(uart.base_addr(), 0x4001_1004);
}
