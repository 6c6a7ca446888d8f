use minimal_logger::clock::{timestamp_or_unknown, timestamp_text, UtcTime};
use minimal_logger::env::{config_from_env, EnvVars};
use minimal_logger::format::{apply_format_spec, Align, FormatSpec, LogField, LogFormat};
use minimal_logger::logger::{write_record, FlushWorker, MinimalLogger, Output, ReloadPlan};
use minimal_logger::{ActiveConfig, Level, LevelFilter, MinimalLoggerConfig, Record};

fn record() -> Record {
    Record {
        level: Level::Warn,
        target: "app::db".to_string(),
        args: "message".to_string(),
        module: None,
        file: None,
        line: Some(12),
        thread_name: None,
    }
}

fn env(rust_log: &str) -> EnvVars {
    EnvVars {
        rust_log: Some(rust_log.to_string()),
        rust_log_file: None,
        rust_log_buffer_size: None,
        rust_log_flush_ms: None,
        rust_log_format: None,
    }
}

#[test]
fn literal_placeholder_and_rest_follow_each_other() {
    assert_eq!(LogFormat::parse("a{{}}{level:>6}{{b").render(&record()), "a{}  WARN{b\n");
}

#[test]
fn escaped_text_comes_out_unchanged() {
    let text = "x{y}}z{";
    let template = text.replace('{', "{{").replace('}', "}}");
    assert_eq!(LogFormat::parse(&template).render(&record()), format!("{text}\n"));
}

#[test]
fn padding_adds_spaces_on_one_side() {
    for width in 0..8 {
        let left = apply_format_spec("abc", FormatSpec { align: Align::Left, width: Some(width) });
        assert_eq!(left, format!("{:<width$}", "abc"));
        let right = apply_format_spec("abc", FormatSpec { align: Align::Right, width: Some(width) });
        assert_eq!(right, format!("{:>width$}", "abc"));
    }
}

#[test]
fn lines_without_a_timestamp_do_not_depend_on_the_time() {
    let format = LogFormat::parse("{level} {target} {args}");
    let other = UtcTime { year: 2026, ..UtcTime::unix_epoch() };
    let line = format.render_at(&record(), &UtcTime::unix_epoch());
    assert_eq!(line, format.render_at(&record(), &other));
    assert_eq!(line, format.render(&record()));
    let timed = LogFormat::parse("{timestamp}");
    assert_ne!(timed.render_at(&record(), &UtcTime::unix_epoch()), timed.render_at(&record(), &other));
}

#[test]
fn message_counts_only_where_it_is_shown() {
    let other = Record { args: "other".to_string(), ..record() };
    let without = LogFormat::parse("{level} {{args}} {line}");
    assert!(!without.shows(LogField::Args));
    assert!(without.shows(LogField::Level));
    assert_eq!(without.render(&record()), "WARN {args} 12\n");
    assert_eq!(without.render(&record()), without.render(&other));
    for template in ["{args}", "{level} {message:>20}", "x{target}{args"] {
        let format = LogFormat::parse(template);
        assert!(format.shows(LogField::Args));
        assert_ne!(format.render(&record()), format.render(&other));
    }
    assert!(!LogFormat::parse("").shows(LogField::Timestamp));
}

#[test]
fn most_specific_filter_holds_in_any_order_of_addition() {
    let filters = [
        ("app", LevelFilter::Error),
        ("app::db", LevelFilter::Trace),
        ("app::", LevelFilter::Warn),
        ("other", LevelFilter::Off),
    ];
    for shift in 0..filters.len() {
        let mut config = MinimalLoggerConfig::new();
        for i in 0..filters.len() {
            let (target, level) = filters[(i + shift) % filters.len()];
            config = config.filter(target, level);
        }
        let active = ActiveConfig::from_reload(config.into_reload(None));
        assert_eq!(active.level_for("app::db::pool"), LevelFilter::Trace);
        assert_eq!(active.level_for("app::net"), LevelFilter::Warn);
        assert_eq!(active.level_for("apps"), LevelFilter::Error);
        assert_eq!(active.level_for("others"), LevelFilter::Off);
        assert_eq!(active.level_for("none"), LevelFilter::Info);
        assert_eq!(active.max_level, LevelFilter::Trace);
    }
}

#[test]
fn no_enabled_record_is_more_verbose_than_the_maximum() {
    let active = ActiveConfig::from_reload(
        MinimalLoggerConfig::new()
            .level(LevelFilter::Error)
            .filter("app", LevelFilter::Info)
            .into_reload(None),
    );
    for level in [Level::Error, Level::Warn, Level::Info, Level::Debug, Level::Trace] {
        for target in ["app", "application", "other", ""] {
            assert!(!active.enabled(level, target) || level.passes(active.max_level));
        }
    }
}

#[test]
fn applying_settings_again_changes_nothing() {
    let settings = || {
        MinimalLoggerConfig::new()
            .level(LevelFilter::Debug)
            .filter("b", LevelFilter::Off)
            .filter("app", LevelFilter::Trace)
            .file("app.log")
            .flush_ms(3)
    };
    let once = settings().into_reload(None);
    let twice = settings().into_reload(Some(&once));
    assert!(once == twice);

    let mut logger = MinimalLogger::from_config(&MinimalLoggerConfig::new().into_reload(None), true, true);
    assert!(logger.apply_reload(once, true, true).is_some());
    assert!(logger.has_file());
    assert!(matches!(logger.plan_reload(&twice), ReloadPlan::Unchanged));
}

#[test]
fn written_filters_are_read_back() {
    let pairs = [
        ("app", LevelFilter::Off, "OFF"),
        ("app::db", LevelFilter::Error, "ERROR"),
        ("", LevelFilter::Warn, "WARN"),
        ("x y", LevelFilter::Info, "INFO"),
        ("ä", LevelFilter::Debug, "DEBUG"),
        ("t", LevelFilter::Trace, "TRACE"),
    ];
    for (target, level, name) in pairs {
        let config = config_from_env(&env(&format!("{target}={name}"))).0;
        assert_eq!(config.get_filters(), [(target.to_string(), level)]);
    }
    let all: Vec<String> = pairs.iter().map(|(target, _, name)| format!("{target}={name}")).collect();
    let config = config_from_env(&env(&all.join(","))).0;
    let expected: Vec<(String, LevelFilter)> =
        pairs.iter().map(|(target, level, _)| (target.to_string(), *level)).collect();
    assert_eq!(config.get_filters(), expected);
}

#[test]
fn spaces_around_a_directive_change_nothing() {
    for directive in ["warn", "app=debug", "app = debug", "loud", "app=loud", ""] {
        let (bare, bare_skipped) = config_from_env(&env(directive));
        let (spaced, spaced_skipped) = config_from_env(&env(&format!(" \t{directive}\n ")));
        assert_eq!(bare.get_level(), spaced.get_level());
        assert_eq!(bare.get_filters(), spaced.get_filters());
        assert_eq!(bare_skipped, spaced_skipped);
    }
}

#[test]
fn either_records_or_the_thread_flush() {
    for ms in [0, 1, 1000] {
        let settings = MinimalLoggerConfig::new().flush_ms(ms).into_reload(None);
        let active = ActiveConfig::from_reload(settings);
        let plan = write_record(&active, &record(), true);
        assert_eq!(plan.flush, FlushWorker::thread_interval(ms).is_none());
    }
}

#[test]
fn file_that_cannot_be_opened_leaves_stderr() {
    let settings = MinimalLoggerConfig::new().file("a").resolve(None, Some("/a".to_string()));
    let logger = MinimalLogger::from_config(&settings, false, true);
    let active = ActiveConfig::from_reload(settings);
    assert_eq!(write_record(&active, &record(), logger.has_file()).output, Output::Stderr);
}

#[test]
fn timestamps_all_have_one_length() {
    for at in [
        UtcTime::unix_epoch(),
        UtcTime { year: 0, ..UtcTime::unix_epoch() },
        UtcTime { year: 9999, month: 12, day: 31, hour: 23, minute: 59, second: 59, nanosecond: 1 },
    ] {
        let text = timestamp_text(&at);
        assert_eq!(text.len(), 27);
        assert_eq!(&text[10..11], "T");
        assert_eq!(&text[19..20], ".");
        assert!(text.ends_with('Z'));
    }
}

#[test]
fn failed_formatting_shows_unknown_time() {
    assert_eq!(timestamp_or_unknown(Ok("now".to_string())), "now");
    assert_eq!(
        timestamp_or_unknown(Err(time::error::Format::InvalidComponent("year"))),
        "unknown-time"
    );
}
