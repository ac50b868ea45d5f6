use fern::logging::{GlobalLoggerContext, LogOutMode, LogType, LoggerConfig, trim_newlines_end};

fn config(mode: LogOutMode, trim: bool) -> LoggerConfig {
    LoggerConfig { log_out_mode: mode, trim_newlines: trim }
}

#[test]
fn log_type_words() {
    assert_eq!(LogType::Info.message(), "Info");
    assert_eq!(LogType::Warning.message(), "Warning");
    assert_eq!(LogType::Error.message(), "Error");
    assert_eq!(LogType::Panic.message(), "Panic!");
}

#[test]
fn log_type_colours() {
    assert_eq!(LogType::Info.ansi_code(), "\x1b[0;37m");
    assert_eq!(LogType::Warning.ansi_code(), "\x1b[1;33m");
    assert_eq!(LogType::Error.ansi_code(), "\x1b[1;31m");
    assert_eq!(LogType::Panic.ansi_code(), "\x1b[1;4;31m");
}

#[test]
fn trims_only_final_newlines() {
    assert_eq!(trim_newlines_end("a\nb\n\n"), "a\nb");
    assert_eq!(trim_newlines_end("\n\n"), "");
    assert_eq!(trim_newlines_end("x \n"), "x ");
    assert_eq!(trim_newlines_end("keep"), "keep");
    assert_eq!(trim_newlines_end("é\n"), "é");
}

#[test]
fn log_line_layout() {
    let line = config(LogOutMode::FileOnly, true).log_line("12:00:00:000", Some("main"), LogType::Warning, "careful\n");
    assert_eq!(line, "[12:00:00:000] \"main\" [Warning]: careful");
}

#[test]
fn log_line_keeps_newlines_unless_trimming() {
    let line = config(LogOutMode::Print, false).log_line("t", None, LogType::Info, "hello\n");
    assert_eq!(line, "[t] \"<unknown>\" [Info]: hello\n");
}

#[test]
fn console_line_by_mode() {
    assert_eq!(config(LogOutMode::FileOnly, true).console_line(LogType::Error, "x"), None);
    assert_eq!(config(LogOutMode::Print, true).console_line(LogType::Error, "x"), Some(String::from("x")));
    assert_eq!(
        config(LogOutMode::PrintWithAnsiCodes, true).console_line(LogType::Error, "x"),
        Some(String::from("\x1b[1;31mx\x1b[0m"))
    );
}

#[test]
fn logger_initialises_once() {
    match GlobalLoggerContext::init(false) {
        Ok((_, entry)) => {
            assert_eq!(entry.log_type, LogType::Info);
            assert_eq!(entry.message, "Initialised logging.");
        }
        Err(_) => panic!("first initialisation refused"),
    }
    match GlobalLoggerContext::init(true) {
        Ok(_) => panic!("second initialisation accepted"),
        Err(entry) => {
            assert_eq!(entry.log_type, LogType::Panic);
            assert_eq!(entry.message, "Attempted to initialise global logger when it is already initialised.");
        }
    }
}

#[test]
fn latest_link_retries_three_times_when_it_exists() {
    assert!(fern::logging::retry_latest_link(true, 0));
    assert!(fern::logging::retry_latest_link(true, 2));
    assert!(!fern::logging::retry_latest_link(true, 3));
    assert!(!fern::logging::retry_latest_link(false, 0));
}

#[test]
fn global_log_complaints() {
    assert_eq!(fern::logging::global_log_fallback(true, true), Some("Attempted to log but global logger is poisoned."));
    assert_eq!(fern::logging::global_log_fallback(false, false), Some("Attempted to log while global logger not initialised."));
    assert_eq!(fern::logging::global_log_fallback(false, true), None);
}
