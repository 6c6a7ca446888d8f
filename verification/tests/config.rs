use minimal_logger::builder::{bound_capacity, bound_interval, bound_template};
use minimal_logger::config::{
    ActiveConfig, DEFAULT_BUF_CAPACITY, DEFAULT_FLUSH_MS, DEFAULT_LOG_FORMAT, MAX_BUF_CAPACITY,
    MAX_FLUSH_MS, MAX_FORMAT_TEMPLATE_LEN,
};
use minimal_logger::format::{LogFormat, MAX_FORMAT_FIELD_WIDTH};
use minimal_logger::{Level, LevelFilter, MinimalLoggerConfig, Record, ReloadConfig};

fn record(level: Level, target: &str) -> Record {
    Record {
        level,
        target: target.to_string(),
        args: "ok".to_string(),
        module: Some("minimal_logger::tests".to_string()),
        file: Some("lib.rs".to_string()),
        line: Some(1),
        thread_name: Some("main".to_string()),
    }
}

fn targets(reload: &ReloadConfig) -> Vec<&str> {
    reload.filters.iter().map(|filter| filter.target.as_str()).collect()
}

#[test]
fn level_for_prefers_more_specific_target_filter() {
    let cfg = ActiveConfig::from_reload(
        MinimalLoggerConfig::new()
            .level(LevelFilter::Info)
            .filter("app", LevelFilter::Warn)
            .filter("app::sub", LevelFilter::Debug)
            .into_reload(None),
    );

    assert_eq!(cfg.level_for("app::sub::worker"), LevelFilter::Debug);
    assert_eq!(cfg.level_for("app::other"), LevelFilter::Warn);
    assert_eq!(cfg.level_for("other"), LevelFilter::Info);
}

#[test]
fn enabled_respects_target_filter_levels() {
    let cfg = ActiveConfig::from_reload(
        MinimalLoggerConfig::new()
            .level(LevelFilter::Info)
            .filter("app::sub", LevelFilter::Debug)
            .into_reload(None),
    );

    let inside = record(Level::Debug, "app::sub::worker");
    assert!(inside.level.passes(cfg.level_for(&inside.target)));
    assert!(cfg.enabled(inside.level, &inside.target));

    let outside = record(Level::Debug, "app::other");
    assert!(!outside.level.passes(cfg.level_for(&outside.target)));
    assert!(!cfg.enabled(outside.level, &outside.target));
}

#[test]
fn oversized_config_values_are_bounded() {
    let cfg = MinimalLoggerConfig::new()
        .buf_capacity(MAX_BUF_CAPACITY + 1)
        .flush_ms(MAX_FLUSH_MS + 1)
        .format(&"x".repeat(MAX_FORMAT_TEMPLATE_LEN + 1));

    assert_eq!(cfg.get_buf_capacity(), Some(MAX_BUF_CAPACITY));
    assert_eq!(cfg.get_flush_ms(), Some(MAX_FLUSH_MS));
    assert_eq!(cfg.get_format(), Some(DEFAULT_LOG_FORMAT));

    let format = LogFormat::parse(&format!("{{level:<{}}}", MAX_FORMAT_FIELD_WIDTH + 1));
    let rendered = format.render(&record(Level::Info, "t"));
    assert!(rendered.starts_with("INFO"));
    assert_eq!(rendered.trim_end_matches('\n').len(), MAX_FORMAT_FIELD_WIDTH);
}

#[test]
fn reinit_unset_fields_inherit_current_value() {
    let base = MinimalLoggerConfig::new()
        .level(LevelFilter::Debug)
        .filter("app", LevelFilter::Trace)
        .flush_ms(2000)
        .buf_capacity(8192)
        .format("{level} {args}")
        .into_reload(None);

    let delta = MinimalLoggerConfig::new().level(LevelFilter::Warn).into_reload(Some(&base));

    assert_eq!(delta.default_level, LevelFilter::Warn, "level should update");
    assert_eq!(delta.flush_ms, 2000, "flush_ms should inherit");
    assert_eq!(delta.buf_capacity, 8192, "buf_capacity should inherit");
    assert_eq!(delta.format_template, "{level} {args}", "format should inherit");
    assert_eq!(delta.filters, base.filters, "filters should inherit");
}

#[test]
fn unset_fields_fall_back_to_defaults() {
    for config in [MinimalLoggerConfig::new(), MinimalLoggerConfig::default()] {
        assert_eq!(config.get_level(), None);
        assert!(config.get_filters().is_empty());
        assert_eq!(config.get_file_path(), None);
        assert_eq!(config.get_buf_capacity(), None);
        assert_eq!(config.get_flush_ms(), None);
        assert_eq!(config.get_format(), None);
        let reload = config.into_reload(None);
        assert_eq!(reload.default_level, LevelFilter::Info);
        assert!(reload.filters.is_empty());
        assert_eq!(reload.file_path, None);
        assert_eq!(reload.buf_capacity, DEFAULT_BUF_CAPACITY);
        assert_eq!(reload.buf_capacity, 4096);
        assert_eq!(reload.flush_ms, DEFAULT_FLUSH_MS);
        assert_eq!(reload.flush_ms, 1000);
        assert_eq!(
            reload.format_template,
            "{timestamp} [{level:<5}] T[{thread_name}] [{file}:{line}] {args}"
        );
    }
}

#[test]
fn values_at_the_bounds_are_kept() {
    assert_eq!(bound_capacity(MAX_BUF_CAPACITY), MAX_BUF_CAPACITY);
    assert_eq!(bound_capacity(0), 0);
    assert_eq!(bound_capacity(usize::MAX), MAX_BUF_CAPACITY);
    assert_eq!(bound_interval(MAX_FLUSH_MS), MAX_FLUSH_MS);
    assert_eq!(bound_interval(MAX_FLUSH_MS - 1), MAX_FLUSH_MS - 1);
    assert_eq!(bound_interval(u64::MAX), MAX_FLUSH_MS);
    let fits = "ä".repeat(MAX_FORMAT_TEMPLATE_LEN / 2);
    assert_eq!(bound_template(&fits), fits);
    assert_eq!(bound_template(&format!("{fits}x")), DEFAULT_LOG_FORMAT);
}

#[test]
fn filters_are_kept_in_the_order_of_addition_and_tried_longest_first() {
    let config = MinimalLoggerConfig::new()
        .filter("a", LevelFilter::Warn)
        .filter("bb", LevelFilter::Info)
        .filter("ccc", LevelFilter::Debug)
        .filter("dd", LevelFilter::Trace);
    let added: Vec<&str> = config.get_filters().iter().map(|pair| pair.0.as_str()).collect();
    assert_eq!(added, ["a", "bb", "ccc", "dd"]);
    assert_eq!(targets(&config.into_reload(None)), ["ccc", "bb", "dd", "a"]);
}

#[test]
fn length_of_a_target_counts_bytes() {
    let reload = MinimalLoggerConfig::new()
        .filter("abc", LevelFilter::Warn)
        .filter("ää", LevelFilter::Info)
        .into_reload(None);
    assert_eq!(targets(&reload), ["ää", "abc"]);
}

#[test]
fn max_level_is_the_most_verbose_one() {
    let active = ActiveConfig::from_reload(
        MinimalLoggerConfig::new()
            .level(LevelFilter::Warn)
            .filter("a", LevelFilter::Off)
            .filter("b", LevelFilter::Debug)
            .filter("c", LevelFilter::Info)
            .into_reload(None),
    );
    assert_eq!(active.max_level, LevelFilter::Debug);
    let active =
        ActiveConfig::from_reload(MinimalLoggerConfig::new().level(LevelFilter::Off).into_reload(None));
    assert_eq!(active.max_level, LevelFilter::Off);
    assert!(!active.enabled(Level::Error, "x"));
}

#[test]
fn filters_match_prefixes() {
    let active = ActiveConfig::from_reload(
        MinimalLoggerConfig::new()
            .level(LevelFilter::Error)
            .filter("app", LevelFilter::Trace)
            .into_reload(None),
    );
    assert_eq!(active.level_for("app"), LevelFilter::Trace);
    assert_eq!(active.level_for("application"), LevelFilter::Trace);
    assert_eq!(active.level_for("ap"), LevelFilter::Error);
    assert_eq!(active.level_for("my::app"), LevelFilter::Error);
    assert_eq!(active.level_for(""), LevelFilter::Error);
}

#[test]
fn relative_path_becomes_absolute() {
    let reload = MinimalLoggerConfig::new().file("some_dir/app.log").into_reload(None);
    let path = reload.file_path.unwrap();
    assert_ne!(path, "some_dir/app.log");
    assert!(path.ends_with("app.log"));
    assert!(std::path::Path::new(&path).is_absolute());
}

#[test]
fn empty_path_stays_as_it_is() {
    let reload = MinimalLoggerConfig::new().file("").into_reload(None);
    assert_eq!(reload.file_path.as_deref(), Some(""));
}

#[test]
fn absolute_form_is_taken_where_there_is_one() {
    let config = || MinimalLoggerConfig::new().file("app.log");
    let found = config().resolve(None, Some("/srv/app.log".to_string()));
    assert_eq!(found.file_path.as_deref(), Some("/srv/app.log"));
    let not_found = config().resolve(None, None);
    assert_eq!(not_found.file_path.as_deref(), Some("app.log"));
    let unused = MinimalLoggerConfig::new().resolve(Some(&found), Some("/other".to_string()));
    assert_eq!(unused.file_path.as_deref(), Some("/srv/app.log"));
    let stderr = MinimalLoggerConfig::new().stderr().resolve(Some(&found), None);
    assert_eq!(stderr.file_path, None);
}

#[test]
fn last_destination_holds() {
    assert_eq!(MinimalLoggerConfig::new().file("a").file("b").get_file_path(), Some("b"));
    assert_eq!(MinimalLoggerConfig::new().file("a").stderr().get_file_path(), None);
    assert_eq!(MinimalLoggerConfig::new().stderr().file("a").get_file_path(), Some("a"));
}

#[test]
fn resolved_settings_compare_by_value() {
    let build = || {
        MinimalLoggerConfig::new()
            .level(LevelFilter::Debug)
            .filter("app", LevelFilter::Trace)
            .file("app.log")
            .resolve(None, Some("/app.log".to_string()))
    };
    let base = build();
    assert!(base == build());
    assert!(base == base.clone());
    assert!(base != MinimalLoggerConfig::new().level(LevelFilter::Info).resolve(Some(&base), None));
    assert!(base != MinimalLoggerConfig::new().stderr().resolve(Some(&base), None));
    assert!(base != MinimalLoggerConfig::new().buf_capacity(1).resolve(Some(&base), None));
    assert!(base != MinimalLoggerConfig::new().flush_ms(1).resolve(Some(&base), None));
    assert!(base != MinimalLoggerConfig::new().format("x").resolve(Some(&base), None));
    let other = MinimalLoggerConfig::new().filter("app", LevelFilter::Off).resolve(Some(&base), None);
    assert!(base != other);
    let more = MinimalLoggerConfig::new()
        .filter("app", LevelFilter::Trace)
        .filter("b", LevelFilter::Trace)
        .resolve(Some(&base), None);
    assert!(base != more);
}

#[test]
fn levels_are_ordered_by_verbosity() {
    let levels = [Level::Error, Level::Warn, Level::Info, Level::Debug, Level::Trace];
    let filters = [
        LevelFilter::Off,
        LevelFilter::Error,
        LevelFilter::Warn,
        LevelFilter::Info,
        LevelFilter::Debug,
        LevelFilter::Trace,
    ];
    for (i, level) in levels.iter().enumerate() {
        assert_eq!(level.to_level_filter(), filters[i + 1]);
        for (j, filter) in filters.iter().enumerate() {
            assert_eq!(level.passes(*filter), i + 1 <= j);
            assert_eq!(filters[i].more_verbose(*filter), filters[i.max(j)]);
        }
    }
}
