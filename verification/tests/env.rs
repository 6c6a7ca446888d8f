use minimal_logger::config::{
    DEFAULT_LOG_FORMAT, MAX_BUF_CAPACITY, MAX_FLUSH_MS, MAX_FORMAT_TEMPLATE_LEN,
};
use minimal_logger::env::{config_from_env, EnvVars, SkippedDirective};
use minimal_logger::{LevelFilter, MinimalLoggerConfig};

fn nothing_set() -> EnvVars {
    EnvVars {
        rust_log: None,
        rust_log_file: None,
        rust_log_buffer_size: None,
        rust_log_flush_ms: None,
        rust_log_format: None,
    }
}

fn with_rust_log(value: &str) -> MinimalLoggerConfig {
    config_from_env(&EnvVars { rust_log: Some(value.to_string()), ..nothing_set() }).0
}

fn skipped_in(value: &str) -> Vec<SkippedDirective> {
    config_from_env(&EnvVars { rust_log: Some(value.to_string()), ..nothing_set() }).1
}

fn with_buffer_size(value: &str) -> MinimalLoggerConfig {
    config_from_env(&EnvVars { rust_log_buffer_size: Some(value.to_string()), ..nothing_set() }).0
}

fn with_flush_ms(value: &str) -> MinimalLoggerConfig {
    config_from_env(&EnvVars { rust_log_flush_ms: Some(value.to_string()), ..nothing_set() }).0
}

#[test]
fn rust_log_sets_global_level_debug() {
    let cfg = with_rust_log("debug");
    assert_eq!(cfg.get_level(), Some(LevelFilter::Debug));
    assert!(cfg.get_filters().is_empty());
}

#[test]
fn rust_log_sets_global_level_warn() {
    let cfg = with_rust_log("warn");
    assert_eq!(cfg.get_level(), Some(LevelFilter::Warn));
}

#[test]
fn rust_log_sets_global_level_error() {
    let cfg = with_rust_log("error");
    assert_eq!(cfg.get_level(), Some(LevelFilter::Error));
}

#[test]
fn rust_log_sets_global_level_trace() {
    let cfg = with_rust_log("trace");
    assert_eq!(cfg.get_level(), Some(LevelFilter::Trace));
}

#[test]
fn rust_log_sets_global_level_off() {
    let cfg = with_rust_log("off");
    assert_eq!(cfg.get_level(), Some(LevelFilter::Off));
}

#[test]
fn rust_log_absent_defaults_to_info() {
    let (cfg, skipped) = config_from_env(&nothing_set());
    assert_eq!(cfg.get_level(), Some(LevelFilter::Info));
    assert!(cfg.get_filters().is_empty());
    assert!(skipped.is_empty());
}

#[test]
fn rust_log_parses_single_target_filter() {
    let cfg = with_rust_log("myapp=debug");
    let filters = cfg.get_filters();
    assert_eq!(filters.len(), 1);
    assert_eq!(filters[0].0, "myapp");
    assert_eq!(filters[0].1, LevelFilter::Debug);
}

#[test]
fn rust_log_parses_global_level_and_target_filter() {
    let cfg = with_rust_log("warn,myapp::db=trace");
    assert_eq!(cfg.get_level(), Some(LevelFilter::Warn));

    let filters = cfg.get_filters();
    assert_eq!(filters.len(), 1);
    assert_eq!(filters[0].0, "myapp::db");
    assert_eq!(filters[0].1, LevelFilter::Trace);
}

#[test]
fn rust_log_parses_multiple_target_filters() {
    let cfg = with_rust_log("info,myapp=warn,myapp::net=debug");
    assert_eq!(cfg.get_level(), Some(LevelFilter::Info));

    let filters = cfg.get_filters();
    assert_eq!(filters.len(), 2);

    let map: std::collections::HashMap<&str, LevelFilter> =
        filters.iter().map(|(t, l)| (t.as_str(), *l)).collect();
    assert_eq!(map["myapp"], LevelFilter::Warn);
    assert_eq!(map["myapp::net"], LevelFilter::Debug);
}

#[test]
fn rust_log_file_sets_file_path() {
    let cfg = config_from_env(&EnvVars {
        rust_log_file: Some("/tmp/myapp.log".to_string()),
        ..nothing_set()
    })
    .0;
    assert_eq!(cfg.get_file_path(), Some("/tmp/myapp.log"));
}

#[test]
fn rust_log_file_absent_leaves_path_none() {
    let cfg = config_from_env(&nothing_set()).0;
    assert!(cfg.get_file_path().is_none());
}

#[test]
fn rust_log_buffer_size_sets_capacity() {
    let cfg = with_buffer_size("8192");
    assert_eq!(cfg.get_buf_capacity(), Some(8192));
}

#[test]
fn rust_log_buffer_size_absent_leaves_capacity_none() {
    let cfg = config_from_env(&nothing_set()).0;
    assert!(cfg.get_buf_capacity().is_none());
}

#[test]
fn rust_log_buffer_size_invalid_leaves_capacity_none() {
    let cfg = with_buffer_size("not_a_number");
    assert!(cfg.get_buf_capacity().is_none());
}

#[test]
fn rust_log_flush_ms_sets_interval() {
    let cfg = with_flush_ms("500");
    assert_eq!(cfg.get_flush_ms(), Some(500));
}

#[test]
fn rust_log_flush_ms_absent_leaves_interval_none() {
    let cfg = config_from_env(&nothing_set()).0;
    assert!(cfg.get_flush_ms().is_none());
}

#[test]
fn rust_log_flush_ms_invalid_leaves_interval_none() {
    let cfg = with_flush_ms("forever");
    assert!(cfg.get_flush_ms().is_none());
}

#[test]
fn rust_log_format_sets_template() {
    let cfg = config_from_env(&EnvVars {
        rust_log_format: Some("{level} {args}".to_string()),
        ..nothing_set()
    })
    .0;
    assert_eq!(cfg.get_format(), Some("{level} {args}"));
}

#[test]
fn rust_log_format_absent_leaves_template_none() {
    let cfg = config_from_env(&nothing_set()).0;
    assert!(cfg.get_format().is_none());
}

#[test]
fn all_env_vars_set_populates_all_fields() {
    let (cfg, skipped) = config_from_env(&EnvVars {
        rust_log: Some("debug,myapp=trace".to_string()),
        rust_log_file: Some("/tmp/all_fields.log".to_string()),
        rust_log_buffer_size: Some("16384".to_string()),
        rust_log_flush_ms: Some("250".to_string()),
        rust_log_format: Some("{timestamp} {level} {args}".to_string()),
    });
    assert!(skipped.is_empty());

    assert_eq!(cfg.get_level(), Some(LevelFilter::Debug));

    let filters = cfg.get_filters();
    assert_eq!(filters.len(), 1);
    assert_eq!(filters[0].0, "myapp");
    assert_eq!(filters[0].1, LevelFilter::Trace);

    assert_eq!(cfg.get_file_path(), Some("/tmp/all_fields.log"));
    assert_eq!(cfg.get_buf_capacity(), Some(16384));
    assert_eq!(cfg.get_flush_ms(), Some(250));
    assert_eq!(cfg.get_format(), Some("{timestamp} {level} {args}"));
}

#[test]
fn unreadable_directives_are_skipped_in_order() {
    let cfg = with_rust_log("verbose,app=loud,warn,db=trace");
    assert_eq!(cfg.get_level(), Some(LevelFilter::Warn));
    assert_eq!(cfg.get_filters(), [("db".to_string(), LevelFilter::Trace)]);
    assert_eq!(
        skipped_in("verbose,app= loud ,warn,db=trace,x=debug=y"),
        vec![
            SkippedDirective::UnknownDirective("verbose".to_string()),
            SkippedDirective::UnknownLevel(" loud".to_string()),
            SkippedDirective::UnknownLevel("debug=y".to_string()),
        ]
    );
}

#[test]
fn white_space_around_directives_does_not_count() {
    let cfg = with_rust_log(" \t warn , app :: x =\u{a0}debug\u{3000},  ,");
    assert_eq!(cfg.get_level(), Some(LevelFilter::Warn));
    assert_eq!(cfg.get_filters(), [("app :: x".to_string(), LevelFilter::Debug)]);
}

#[test]
fn level_names_ignore_case() {
    for (text, level) in [
        ("OFF", LevelFilter::Off),
        ("Error", LevelFilter::Error),
        ("wArN", LevelFilter::Warn),
        ("iNFO", LevelFilter::Info),
        ("DeBuG", LevelFilter::Debug),
        ("TRACE", LevelFilter::Trace),
    ] {
        assert_eq!(with_rust_log(text).get_level(), Some(level));
        assert_eq!(LevelFilter::from_name(text), Some(level));
    }
    assert_eq!(LevelFilter::from_name("warning"), None);
    assert_eq!(LevelFilter::from_name(""), None);
    assert_eq!(LevelFilter::from_name(" warn"), None);
    assert_eq!(LevelFilter::from_name("ınfo"), None);
}

#[test]
fn last_level_holds() {
    let cfg = with_rust_log("trace,app=off,error,nonsense");
    assert_eq!(cfg.get_level(), Some(LevelFilter::Error));
    assert_eq!(cfg.get_filters(), [("app".to_string(), LevelFilter::Off)]);
}

#[test]
fn empty_rust_log_sets_no_level() {
    assert_eq!(with_rust_log("").get_level(), None);
    assert_eq!(with_rust_log(" , ,").get_level(), None);
    assert!(skipped_in("").is_empty());
}

#[test]
fn filter_with_empty_target_is_kept() {
    let cfg = with_rust_log("=debug");
    assert_eq!(cfg.get_filters(), [(String::new(), LevelFilter::Debug)]);
}

#[test]
fn numbers_are_read_as_unsigned_decimals() {
    assert_eq!(with_flush_ms("+7").get_flush_ms(), Some(7));
    assert_eq!(with_flush_ms("007").get_flush_ms(), Some(7));
    assert_eq!(with_flush_ms("0").get_flush_ms(), Some(0));
    assert_eq!(with_flush_ms("-1").get_flush_ms(), None);
    assert_eq!(with_flush_ms(" 7").get_flush_ms(), None);
    assert_eq!(with_flush_ms("").get_flush_ms(), None);
    assert_eq!(with_flush_ms("+").get_flush_ms(), None);
    assert_eq!(with_flush_ms("18446744073709551615").get_flush_ms(), Some(MAX_FLUSH_MS));
    assert_eq!(with_flush_ms("18446744073709551616").get_flush_ms(), None);
    assert_eq!(with_buffer_size("99999999999").get_buf_capacity(), Some(MAX_BUF_CAPACITY));
}

#[test]
fn oversized_template_gives_the_default_one() {
    let long = "x".repeat(MAX_FORMAT_TEMPLATE_LEN + 1);
    let cfg = config_from_env(&EnvVars { rust_log_format: Some(long), ..nothing_set() }).0;
    assert_eq!(cfg.get_format(), Some(DEFAULT_LOG_FORMAT));
    let fits = "x".repeat(MAX_FORMAT_TEMPLATE_LEN);
    let cfg = config_from_env(&EnvVars { rust_log_format: Some(fits.clone()), ..nothing_set() }).0;
    assert_eq!(cfg.get_format(), Some(fits.as_str()));
}

#[test]
fn builder_overrides_the_environment() {
    let cfg = with_rust_log("warn,app=off").level(LevelFilter::Debug);
    assert_eq!(cfg.get_level(), Some(LevelFilter::Debug));
    assert_eq!(cfg.get_filters().len(), 1);
}
