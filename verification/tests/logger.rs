use minimal_logger::clock::UtcTime;
use minimal_logger::config::{
    ActiveConfig, DEFAULT_LOG_FORMAT, MAX_BUF_CAPACITY, MAX_FLUSH_MS, MAX_FORMAT_TEMPLATE_LEN,
};
use minimal_logger::logger::{
    finish_init, init, load_file_for_config, on_record, reinit, route, shutdown, write_record,
    write_record_at, FlushWorker, InitPlan, MinimalLogger, Output, OutputChange, RecordStep,
    Registration, ReinitPlan, ReloadPlan, ReopenOutcome, ShutdownPlan, Startup, WorkerAction,
    WorkerChange, WorkerEvent,
};
use minimal_logger::{Level, LevelFilter, MinimalLoggerConfig, Record, ReloadConfig};

fn record(args: &str) -> Record {
    Record {
        level: Level::Info,
        target: "t".to_string(),
        args: args.to_string(),
        module: None,
        file: Some("f".to_string()),
        line: Some(1),
        thread_name: None,
    }
}

fn to_file(path: &str) -> ReloadConfig {
    MinimalLoggerConfig::new().file(path).resolve(None, Some(path.to_string()))
}

fn to_stderr() -> ReloadConfig {
    MinimalLoggerConfig::new().resolve(None, None)
}

#[test]
fn flush_ms_zero_does_not_spawn_background_thread() {
    let worker = FlushWorker::spawn(0, true);
    assert!(!worker.has_handle(), "flush_ms=0 must not spawn a background thread");
    assert_eq!(FlushWorker::thread_interval(0), None);
}

#[test]
fn flush_thread_runs_where_it_could_be_started() {
    assert_eq!(FlushWorker::thread_interval(250), Some(250));
    assert!(FlushWorker::spawn(250, true).has_handle());
    assert!(!FlushWorker::spawn(250, false).has_handle());
}

#[test]
fn flush_thread_flushes_until_it_is_stopped() {
    assert_eq!(FlushWorker::on_wake(WorkerEvent::TimedOut), WorkerAction::FlushFile);
    assert_eq!(FlushWorker::on_wake(WorkerEvent::StopRequested), WorkerAction::Exit);
    assert_eq!(FlushWorker::on_wake(WorkerEvent::Disconnected), WorkerAction::Exit);
}

#[test]
fn log_file_is_asked_for_with_its_buffer() {
    let settings = MinimalLoggerConfig::new().buf_capacity(77).resolve(Some(&to_file("/a.log")), None);
    let request = load_file_for_config(&settings).unwrap();
    assert_eq!(request.path, "/a.log");
    assert_eq!(request.buf_capacity, 77);
    assert!(load_file_for_config(&to_stderr()).is_none());
}

#[test]
fn startup_asks_for_what_the_settings_name() {
    let startup = Startup::plan(to_file("/a.log"));
    assert_eq!(startup.open.unwrap().path, "/a.log");
    assert_eq!(startup.thread, Some(1000));
    assert_eq!(startup.active.max_level, LevelFilter::Info);
    let quiet = MinimalLoggerConfig::new().flush_ms(0).resolve(None, None);
    let startup = Startup::plan(quiet);
    assert!(startup.open.is_none());
    assert_eq!(startup.thread, None);
}

#[test]
fn logger_starts_as_far_as_possible() {
    let logger = MinimalLogger::from_config(&to_file("/a.log"), true, true);
    assert!(logger.has_file());
    assert!(logger.has_flush_worker());
    assert_eq!(logger.settings().file_path.as_deref(), Some("/a.log"));
    let logger = MinimalLogger::from_config(&to_file("/a.log"), false, false);
    assert!(!logger.has_file());
    assert!(!logger.has_flush_worker());
    let logger = MinimalLogger::from_config(&to_stderr(), true, true);
    assert!(!logger.has_file());
}

#[test]
fn equal_settings_change_nothing() {
    let mut logger = MinimalLogger::from_config(&to_file("/a.log"), true, true);
    assert!(matches!(logger.plan_reload(&to_file("/a.log")), ReloadPlan::Unchanged));
    assert!(logger.apply_reload(to_file("/a.log"), false, false).is_none());
    assert!(logger.has_file());
    assert!(logger.has_flush_worker());
}

#[test]
fn new_level_touches_neither_file_nor_thread() {
    let mut logger = MinimalLogger::from_config(&to_file("/a.log"), true, true);
    let next = MinimalLoggerConfig::new()
        .level(LevelFilter::Trace)
        .filter("x", LevelFilter::Off)
        .format("{args}")
        .buf_capacity(1)
        .resolve(Some(logger.settings()), None);
    match logger.plan_reload(&next) {
        ReloadPlan::Change { output, worker } => {
            assert!(matches!(output, OutputChange::Keep));
            assert_eq!(worker, WorkerChange::Keep);
        }
        ReloadPlan::Unchanged => panic!("nothing to do"),
    }
    let active = logger.apply_reload(next, false, false).unwrap();
    assert_eq!(active.max_level, LevelFilter::Trace);
    assert_eq!(active.level_for("xyz"), LevelFilter::Off);
    assert!(logger.has_file());
    assert!(logger.has_flush_worker());
    assert_eq!(logger.reopen_request().unwrap().buf_capacity, 1);
}

#[test]
fn new_file_replaces_the_old_one() {
    let mut logger = MinimalLogger::from_config(&to_file("/a.log"), true, true);
    let next = to_file("/b.log");
    match logger.plan_reload(&next) {
        ReloadPlan::Change { output: OutputChange::File(request), worker } => {
            assert_eq!(request.path, "/b.log");
            assert_eq!(request.buf_capacity, 4096);
            assert_eq!(worker, WorkerChange::Keep);
        }
        plan => panic!("{plan:?}"),
    }
    assert!(logger.apply_reload(next, false, true).is_some());
    assert!(!logger.has_file());
    assert_eq!(logger.settings().file_path.as_deref(), Some("/b.log"));
}

#[test]
fn stderr_replaces_the_file() {
    let mut logger = MinimalLogger::from_config(&to_file("/a.log"), true, true);
    let next = MinimalLoggerConfig::new().stderr().resolve(Some(logger.settings()), None);
    assert!(matches!(
        logger.plan_reload(&next),
        ReloadPlan::Change { output: OutputChange::Stderr, worker: WorkerChange::Keep }
    ));
    assert!(logger.apply_reload(next, true, true).is_some());
    assert!(!logger.has_file());
}

#[test]
fn new_interval_replaces_the_thread() {
    let mut logger = MinimalLogger::from_config(&to_stderr(), false, true);
    let next = MinimalLoggerConfig::new().flush_ms(5).resolve(Some(logger.settings()), None);
    assert!(matches!(
        logger.plan_reload(&next),
        ReloadPlan::Change { output: OutputChange::Keep, worker: WorkerChange::Replace(Some(5)) }
    ));
    assert!(logger.apply_reload(next, false, true).is_some());
    assert!(logger.has_flush_worker());
    let none = MinimalLoggerConfig::new().flush_ms(0).resolve(Some(logger.settings()), None);
    assert!(matches!(
        logger.plan_reload(&none),
        ReloadPlan::Change { output: OutputChange::Keep, worker: WorkerChange::Replace(None) }
    ));
    assert!(logger.apply_reload(none, false, true).is_some());
    assert!(!logger.has_flush_worker());
}

#[test]
fn rotation_keeps_the_old_file_until_there_is_a_new_one() {
    let mut logger = MinimalLogger::from_config(&to_file("/a.log"), true, true);
    assert_eq!(logger.reopen_request().unwrap().path, "/a.log");
    assert_eq!(logger.reopen(false), ReopenOutcome::KeepOld);
    assert!(logger.has_file());
    assert_eq!(logger.reopen(true), ReopenOutcome::Swap);
    assert!(logger.has_file());

    let mut logger = MinimalLogger::from_config(&to_file("/a.log"), false, true);
    assert_eq!(logger.reopen(true), ReopenOutcome::Swap);
    assert!(logger.has_file());

    let mut logger = MinimalLogger::from_config(&to_stderr(), false, true);
    assert!(logger.reopen_request().is_none());
    assert_eq!(logger.reopen(true), ReopenOutcome::NotAFile);
    assert!(!logger.has_file());
}

#[test]
fn flush_thread_is_stopped_once() {
    let mut logger = MinimalLogger::from_config(&to_stderr(), false, true);
    assert!(logger.stop_flush_worker());
    assert!(!logger.has_flush_worker());
    assert!(!logger.stop_flush_worker());
}

#[test]
fn init_starts_one_logger() {
    assert!(matches!(init(true, MinimalLoggerConfig::new()), InitPlan::AlreadyRunning));
    match init(false, MinimalLoggerConfig::new().level(LevelFilter::Debug).flush_ms(20)) {
        InitPlan::Start(startup) => {
            assert_eq!(startup.active.reload.default_level, LevelFilter::Debug);
            assert_eq!(startup.thread, Some(20));
            assert!(startup.open.is_none());
            assert_eq!(
                finish_init(&startup.active, true),
                Registration::Run(LevelFilter::Debug)
            );
            assert_eq!(finish_init(&startup.active, false), Registration::Discard);
        }
        InitPlan::AlreadyRunning => panic!("running"),
    }
}

#[test]
fn init_opens_the_file_at_its_absolute_path() {
    match init(false, MinimalLoggerConfig::new().file("x.log").buf_capacity(9)) {
        InitPlan::Start(startup) => {
            let request = startup.open.unwrap();
            assert!(std::path::Path::new(&request.path).is_absolute());
            assert!(request.path.ends_with("x.log"));
            assert_eq!(request.buf_capacity, 9);
            assert_eq!(startup.active.reload.file_path.as_deref(), Some(request.path.as_str()));
        }
        InitPlan::AlreadyRunning => panic!("running"),
    }
}

#[test]
fn reinit_starts_a_logger_where_none_is_running() {
    match reinit(None, MinimalLoggerConfig::new().level(LevelFilter::Warn)) {
        ReinitPlan::Init(config) => assert_eq!(config.get_level(), Some(LevelFilter::Warn)),
        ReinitPlan::Reload { .. } => panic!("running"),
    }
}

#[test]
fn reinit_keeps_what_is_unset() {
    let logger = MinimalLogger::from_config(&to_file("/a.log"), true, true);
    match reinit(Some(&logger), MinimalLoggerConfig::new()) {
        ReinitPlan::Reload { next, plan } => {
            assert!(next == *logger.settings());
            assert!(matches!(plan, ReloadPlan::Unchanged));
        }
        ReinitPlan::Init(_) => panic!("not running"),
    }
    match reinit(Some(&logger), MinimalLoggerConfig::new().level(LevelFilter::Debug)) {
        ReinitPlan::Reload { next, plan } => {
            assert_eq!(next.default_level, LevelFilter::Debug);
            assert_eq!(next.file_path.as_deref(), Some("/a.log"));
            assert!(matches!(
                plan,
                ReloadPlan::Change { output: OutputChange::Keep, worker: WorkerChange::Keep }
            ));
        }
        ReinitPlan::Init(_) => panic!("not running"),
    }
}

#[test]
fn oversized_values_are_bounded_on_init_and_reinit() {
    let oversized = || {
        MinimalLoggerConfig::new()
            .buf_capacity(usize::MAX)
            .flush_ms(u64::MAX)
            .format(&"x".repeat(MAX_FORMAT_TEMPLATE_LEN + 1))
    };
    let bounded = |settings: &ReloadConfig| {
        assert_eq!(settings.buf_capacity, MAX_BUF_CAPACITY);
        assert_eq!(settings.flush_ms, MAX_FLUSH_MS);
        assert_eq!(settings.format_template, DEFAULT_LOG_FORMAT);
    };
    match init(false, oversized()) {
        InitPlan::Start(startup) => bounded(&startup.active.reload),
        InitPlan::AlreadyRunning => panic!("running"),
    }
    let logger = MinimalLogger::from_config(&to_stderr(), false, true);
    match reinit(Some(&logger), oversized()) {
        ReinitPlan::Reload { next, .. } => bounded(&next),
        ReinitPlan::Init(_) => panic!("not running"),
    }
}

#[test]
fn shutdown_flushes_a_running_logger() {
    assert_eq!(shutdown(true), ShutdownPlan { flush: true, stop_worker: true });
    assert_eq!(shutdown(false), ShutdownPlan { flush: false, stop_worker: false });
}

#[test]
fn records_are_filtered_before_the_file_is_reopened() {
    let active = ActiveConfig::from_reload(to_stderr());
    assert_eq!(on_record(&active, Level::Debug, "t", true), RecordStep::Ignore);
    assert_eq!(on_record(&active, Level::Debug, "t", false), RecordStep::Ignore);
    assert_eq!(on_record(&active, Level::Info, "t", false), RecordStep::Write);
    assert_eq!(on_record(&active, Level::Error, "t", true), RecordStep::ReopenThenWrite);
}

#[test]
fn records_go_to_the_open_file_and_else_to_stderr() {
    let settings = MinimalLoggerConfig::new().format("{args}").resolve(None, None);
    let active = ActiveConfig::from_reload(settings);
    let plan = write_record(&active, &record("hello"), true);
    assert_eq!(plan.output, Output::File);
    assert_eq!(plan.line, "hello\n");
    assert!(!plan.flush);
    let plan = write_record(&active, &record("hello"), false);
    assert_eq!(plan.output, Output::Stderr);
    assert_eq!(plan.line, "hello\n");
    assert!(!plan.flush);
}

#[test]
fn every_record_is_flushed_where_the_interval_is_zero() {
    let settings = MinimalLoggerConfig::new().format("{timestamp} {args}").flush_ms(0).resolve(None, None);
    let active = ActiveConfig::from_reload(settings);
    let plan = write_record_at(&active, &record("flushed"), true, &UtcTime::unix_epoch());
    assert_eq!(plan.line, "1970-01-01T00:00:00.000000Z flushed\n");
    assert!(plan.flush);
    let plan = route(&active, "line\n".to_string(), false);
    assert_eq!(plan.output, Output::Stderr);
    assert_eq!(plan.line, "line\n");
    assert!(plan.flush);
}
