use dns::logger::{LogLevel, Logger};

#[test]
fn test_log() {
    let logger = Logger::new("MyLogger", LogLevel::Debug);
    assert_eq!(logger.get_name(), "MyLogger");
    assert_eq!(logger.get_log_level(), LogLevel::Debug);
    // At the Debug threshold every message renders.
    assert!(logger.render_line(LogLevel::Warning, "MyLogger").is_some());
    assert!(logger.render_line(LogLevel::Fatal, "Debug").is_some());
    assert!(logger
        .render_line(LogLevel::Info, "This is an info message.")
        .is_some());
    assert!(logger
        .render_line(LogLevel::Debug, "This is a debug message.")
        .is_some());
    assert!(logger
        .render_line(LogLevel::Error, "This is an error message.")
        .is_some());
}

#[test]
fn threshold_filters_lower_levels() {
    let logger = Logger::new("MyLogger", LogLevel::Error);
    assert!(!logger.should_emit(LogLevel::Debug));
    assert!(!logger.should_emit(LogLevel::Info));
    assert!(!logger.should_emit(LogLevel::Warning));
    assert!(logger.should_emit(LogLevel::Error));
    assert!(logger.should_emit(LogLevel::Status));
    assert!(logger.should_emit(LogLevel::Fatal));
    assert_eq!(logger.render_line(LogLevel::Info, "dropped"), None);
}

#[test]
fn rendered_line_has_prefix_and_reset() {
    let logger = Logger::new("MyLogger", LogLevel::Debug);
    assert_eq!(
        logger.render_line(LogLevel::Info, "hello"),
        Some("\x1B[32m[Info] hello\x1B[0m".to_string())
    );
    assert_eq!(
        logger.render_line(LogLevel::Error, "boom"),
        Some("\x1B[31m[Error] boom\x1B[0m".to_string())
    );
}

#[test]
fn level_prefixes_are_exact() {
    assert_eq!(LogLevel::Debug.prefix_str(), "\x1B[36m[Debug] ");
    assert_eq!(LogLevel::Info.prefix_str(), "\x1B[32m[Info] ");
    assert_eq!(LogLevel::Warning.prefix_str(), "\x1B[33m[Warning] ");
    assert_eq!(LogLevel::Error.prefix_str(), "\x1B[31m[Error] ");
    assert_eq!(LogLevel::Status.prefix_str(), "\x1B[33m[Status] ");
    assert_eq!(LogLevel::Fatal.prefix_str(), "\x1B[31m[Fatal] ");
}

#[test]
fn severity_orders_levels() {
    let levels = [
        LogLevel::Debug,
        LogLevel::Info,
        LogLevel::Warning,
        LogLevel::Error,
        LogLevel::Status,
        LogLevel::Fatal,
    ];
    for w in levels.windows(2) {
        assert!(w[0].severity() < w[1].severity());
    }
}
