use txodump::logger::{LogLevel, LogLevelFilter, SimpleLogger};

#[test]
fn off_filter_lets_nothing_through() {
    let logger = SimpleLogger::init(LogLevelFilter::Off);
    assert!(!logger.enabled(LogLevel::Error));
    assert!(!logger.enabled(LogLevel::Trace));
}

#[test]
fn info_filter_passes_up_to_info() {
    let logger = SimpleLogger::init(LogLevelFilter::Info);
    assert!(logger.enabled(LogLevel::Error));
    assert!(logger.enabled(LogLevel::Warn));
    assert!(logger.enabled(LogLevel::Info));
    assert!(!logger.enabled(LogLevel::Debug));
    assert!(!logger.enabled(LogLevel::Trace));
}

#[test]
fn trace_filter_passes_everything() {
    let logger = SimpleLogger::init(LogLevelFilter::Trace);
    assert!(logger.enabled(LogLevel::Error));
    assert!(logger.enabled(LogLevel::Trace));
}

#[test]
fn format_log_line_exact() {
    let logger = SimpleLogger::init(LogLevelFilter::Info);
    let line = logger.format_log_line(b"2009-01-03 18:15:05", LogLevel::Info, b"dump", b"done");
    assert_eq!(line, b"[2009-01-03 18:15:05] INFO - dump: done\n".to_vec());
}

#[test]
fn format_log_line_level_names() {
    let logger = SimpleLogger::init(LogLevelFilter::Trace);
    let warn = logger.format_log_line(b"t", LogLevel::Warn, b"a", b"b");
    assert_eq!(warn, b"[t] WARN - a: b\n".to_vec());
    let error = logger.format_log_line(b"t", LogLevel::Error, b"a", b"b");
    assert_eq!(error, b"[t] ERROR - a: b\n".to_vec());
}

#[test]
fn create_log_line_carries_level_target_and_message() {
    let logger = SimpleLogger::init(LogLevelFilter::Debug);
    let line = logger.create_log_line(LogLevel::Debug, b"store", b"loaded");
    assert_eq!(line.first(), Some(&b'['));
    let tail = b"] DEBUG - store: loaded\n";
    assert!(line.len() > tail.len());
    assert_eq!(&line[line.len() - tail.len()..], tail);
}
