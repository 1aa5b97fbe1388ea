use unity_dlp::cli::{grown_capacity, init_succeeded, parse_command, CliCommand};
use unity_dlp::ffi::{UNITY_DLP_ERR_INIT, UNITY_DLP_OK, UNITY_DLP_OK_DEGRADED};
use unity_dlp::loadcheck::{
    init_verdict, last_error_length, parse_args, plugin_file_name, InitVerdict, TargetOs,
};
use unity_dlp::logging::{enabled, init, log_line, LogLevel};
use unity_dlp::text::{joined, joined3, decimal};

fn args(list: &[&str]) -> Vec<String> {
    list.iter().map(|s| s.to_string()).collect()
}

#[test]
fn decimal_rendering() {
    assert_eq!(decimal(0), "0");
    assert_eq!(decimal(7), "7");
    assert_eq!(decimal(10), "10");
    assert_eq!(decimal(67108864), "67108864");
    assert_eq!(decimal(u64::MAX), u64::MAX.to_string());
    assert_eq!(joined("ab", "cd"), "abcd");
    assert_eq!(joined3("a", "", "c"), "ac");
}

#[test]
fn plugin_names() {
    assert_eq!(plugin_file_name(TargetOs::Windows), "unity_dlp.dll");
    assert_eq!(plugin_file_name(TargetOs::MacOs), "unity_dlp.dylib");
    assert_eq!(plugin_file_name(TargetOs::Other), "libunity_dlp.so");
}

#[test]
fn loadcheck_arguments() {
    let a = parse_args(&args(&["--package-root", "/p", "--python-home", "/h", "--strict"]))
        .ok()
        .unwrap();
    assert_eq!(a.package_root, "/p");
    assert_eq!(a.python_home, "/h");
    assert!(a.strict);
    let a = parse_args(&args(&["--python-home", "/h", "--package-root", "/q", "--package-root", "/r"]))
        .ok()
        .unwrap();
    assert_eq!(a.package_root, "/r");
    assert!(!a.strict);
    assert_eq!(parse_args(&args(&["--bogus"])).err(), Some("unknown argument: --bogus".to_string()));
    assert_eq!(parse_args(&args(&[])).err(), Some("missing --package-root".to_string()));
    assert_eq!(
        parse_args(&args(&["--package-root", "/p"])).err(),
        Some("missing --python-home".to_string())
    );
    assert_eq!(
        parse_args(&args(&["--python-home", "/h", "--package-root"])).err(),
        Some("missing --package-root".to_string())
    );
}

#[test]
fn loadcheck_verdicts() {
    assert_eq!(init_verdict(UNITY_DLP_OK, true), InitVerdict::Ready);
    assert_eq!(init_verdict(UNITY_DLP_OK_DEGRADED, false), InitVerdict::Degraded);
    assert_eq!(init_verdict(UNITY_DLP_OK_DEGRADED, true), InitVerdict::DegradedFatal);
    assert_eq!(init_verdict(UNITY_DLP_ERR_INIT, false), InitVerdict::Failed);
    assert_eq!(last_error_length(UNITY_DLP_OK, 12, 4096), Some(12));
    assert_eq!(last_error_length(UNITY_DLP_OK, 5000, 4096), Some(4096));
    assert_eq!(last_error_length(UNITY_DLP_OK, -3, 4096), Some(0));
    assert_eq!(last_error_length(-5, 12, 4096), None);
}

#[test]
fn cli_commands() {
    assert!(matches!(parse_command(&args(&["cli"])), CliCommand::Version));
    assert!(matches!(parse_command(&args(&["cli", "version"])), CliCommand::Version));
    assert!(matches!(parse_command(&args(&["cli", "extract"])), CliCommand::MissingUrl));
    match parse_command(&args(&["cli", "extract", "https://v"])) {
        CliCommand::Extract(u) => assert_eq!(u, "https://v"),
        _ => panic!("expected extract"),
    }
    match parse_command(&args(&["cli", "frob"])) {
        CliCommand::Unknown(c) => assert_eq!(c, "frob"),
        _ => panic!("expected unknown"),
    }
    assert!(init_succeeded(UNITY_DLP_OK) && init_succeeded(UNITY_DLP_OK_DEGRADED));
    assert!(!init_succeeded(UNITY_DLP_ERR_INIT));
    assert_eq!(grown_capacity(100, 8), 100);
    assert_eq!(grown_capacity(10, 8), 16);
}

#[test]
fn logging_levels_and_lines() {
    assert!(enabled(LogLevel::Error) && enabled(LogLevel::Debug));
    assert!(!enabled(LogLevel::Trace));
    assert_eq!(log_line(LogLevel::Warn, "hello"), "[unity_dlp][WARN] hello");
    assert_eq!(log_line(LogLevel::Debug, ""), "[unity_dlp][DEBUG] ");
}

#[test]
fn logging_init_raises_the_level_only_for_our_logger() {
    let logger: &'static Quiet = Box::leak(Box::new(Quiet));
    assert!(init(log::set_logger(logger)));
    assert_eq!(log::max_level(), log::LevelFilter::Debug);
    // A logger is installed now, so a second install is refused and the level
    // is left alone.
    log::set_max_level(log::LevelFilter::Warn);
    assert!(!init(log::set_logger(logger)));
    assert_eq!(log::max_level(), log::LevelFilter::Warn);
}

struct Quiet;

impl log::Log for Quiet {
    fn enabled(&self, _: &log::Metadata) -> bool {
        false
    }
    fn log(&self, _: &log::Record) {}
    fn flush(&self) {}
}
