//! What a running logger does: on records, on rotation and on new settings.
//!
//! Everything here decides; opening files, running threads and writing bytes is left to
//! the caller, who reports back what came of it.

use vstd::prelude::*;

use crate::builder::{lemma_default_template_is_short, resolves, MinimalLoggerConfig};
use crate::clock::UtcTime;
use crate::config::{defaults, lets_through, same_text, ActiveConfig, ReloadConfig, Resolved};
use crate::format::{clock_for, line_text};
use crate::level::{Level, LevelFilter};
use crate::record::Record;

verus! {

/// The interval of the flush thread that settings ask for: none where every record is
/// flushed.
pub open spec fn wanted_interval(flush_ms: u64) -> Option<u64> {
    if flush_ms == 0 {
        None
    } else {
        Some(flush_ms)
    }
}

/// The thread that flushes the log file periodically.
#[derive(Debug)]
pub struct FlushWorker {
    /// Its interval in milliseconds; `None` where no thread is running.
    interval: Option<u64>,
}

impl View for FlushWorker {
    type V = Option<u64>;

    closed spec fn view(&self) -> Option<u64> {
        self.interval
    }
}

/// Why the flush thread woke up.
#[derive(Clone, Copy, Debug, PartialEq, Eq, Structural)]
pub enum WorkerEvent {
    /// It was told to stop.
    StopRequested,
    /// Nobody can tell it to stop any more.
    Disconnected,
    /// Its interval has passed.
    TimedOut,
}

/// What the flush thread does next.
#[derive(Clone, Copy, Debug, PartialEq, Eq, Structural)]
pub enum WorkerAction {
    /// It ends.
    Exit,
    /// It flushes the log file and waits again.
    FlushFile,
}

impl FlushWorker {
    /// The interval of the thread that is to be started for `flush_ms`; none for 0.
    pub fn thread_interval(flush_ms: u64) -> (interval: Option<u64>)
        ensures
            interval == wanted_interval(flush_ms),
    {
        if flush_ms == 0 {
            None
        } else {
            Some(flush_ms)
        }
    }

    /// The worker for `flush_ms`, where `started` tells whether its thread could be
    /// started. For 0 there is no thread.
    pub fn spawn(flush_ms: u64, started: bool) -> (worker: Self)
        ensures
            worker@ == (if started {
                wanted_interval(flush_ms)
            } else {
                None
            }),
    {
        FlushWorker {
            interval: if started {
                Self::thread_interval(flush_ms)
            } else {
                None
            },
        }
    }

    /// Whether a thread is running.
    pub fn has_handle(&self) -> (yes: bool)
        ensures
            yes == (self@ is Some),
    {
        self.interval.is_some()
    }

    /// What the thread does when it wakes up.
    pub fn on_wake(event: WorkerEvent) -> (action: WorkerAction)
        ensures
            action == WorkerAction::FlushFile <==> event == WorkerEvent::TimedOut,
            action == WorkerAction::Exit <==> event != WorkerEvent::TimedOut,
    {
        match event {
            WorkerEvent::StopRequested | WorkerEvent::Disconnected => WorkerAction::Exit,
            WorkerEvent::TimedOut => WorkerAction::FlushFile,
        }
    }
}

/// A log file that is to be opened for appending.
#[derive(Debug)]
pub struct OpenRequest {
    pub path: String,
    /// Capacity of its output buffer, in bytes.
    pub buf_capacity: usize,
}

impl View for OpenRequest {
    type V = (Seq<char>, usize);

    open spec fn view(&self) -> (Seq<char>, usize) {
        (self.path@, self.buf_capacity)
    }
}

/// An optional request, as a mathematical value.
pub open spec fn request_view(request: Option<OpenRequest>) -> Option<(Seq<char>, usize)> {
    match request {
        Some(request) => Some(request@),
        None => None,
    }
}

/// The log file that settings ask for.
pub open spec fn wanted_file(settings: Resolved) -> Option<(Seq<char>, usize)> {
    match settings.file_path {
        Some(path) => Some((path, settings.buf_capacity)),
        None => None,
    }
}

/// The log file that settings ask for; none where lines go to standard error.
pub fn load_file_for_config(settings: &ReloadConfig) -> (request: Option<OpenRequest>)
    ensures
        request_view(request) == wanted_file(settings@),
{
    match &settings.file_path {
        Some(path) => Some(
            OpenRequest { path: path.clone(), buf_capacity: settings.buf_capacity },
        ),
        None => None,
    }
}

/// What becomes of the place that log lines go to.
#[derive(Debug)]
pub enum OutputChange {
    /// It stays.
    Keep,
    /// The log file, if one is open, is flushed and closed.
    Stderr,
    /// A log file is opened and takes the place of the one that is open.
    File(OpenRequest),
}

/// What becomes of the flush thread.
#[derive(Clone, Copy, Debug, PartialEq, Eq)]
pub enum WorkerChange {
    /// It stays.
    Keep,
    /// It is stopped and joined, and one with the given interval is started.
    Replace(Option<u64>),
}

/// What has to be done for new settings.
#[derive(Debug)]
pub enum ReloadPlan {
    /// Nothing: the settings are those in force.
    Unchanged,
    /// This, and then the new settings take force.
    Change { output: OutputChange, worker: WorkerChange },
}

/// What becomes of the place that log lines go to: it changes only with the path.
pub open spec fn output_change(change: OutputChange, current: Resolved, next: Resolved) -> bool {
    match change {
        OutputChange::Keep => current.file_path == next.file_path,
        OutputChange::Stderr => current.file_path != next.file_path && next.file_path is None,
        OutputChange::File(request) => current.file_path != next.file_path && wanted_file(next)
            == Some(request@),
    }
}

/// What becomes of the flush thread: it changes only with the interval.
pub open spec fn worker_change(current: Resolved, next: Resolved) -> WorkerChange {
    if current.flush_ms == next.flush_ms {
        WorkerChange::Keep
    } else {
        WorkerChange::Replace(wanted_interval(next.flush_ms))
    }
}

/// Whether `plan` is what has to be done to get from `current` to `next`.
pub open spec fn leads(plan: ReloadPlan, current: Resolved, next: Resolved) -> bool {
    match plan {
        ReloadPlan::Unchanged => current == next,
        ReloadPlan::Change { output, worker } => {
            &&& current != next
            &&& output_change(output, current, next)
            &&& worker == worker_change(current, next)
        },
    }
}

/// The state of a running logger, as a mathematical value.
#[verifier::ext_equal]
pub struct Runtime {
    /// The settings in force.
    pub settings: Resolved,
    /// Whether a log file is open.
    pub file_open: bool,
    /// The interval of the flush thread, where one is running.
    pub worker: Option<u64>,
}

impl Runtime {
    /// A log file is open only where the settings name one, and a flush thread runs only
    /// with the interval of the settings.
    pub open spec fn consistent(self) -> bool {
        &&& self.file_open ==> self.settings.file_path is Some
        &&& self.worker is Some ==> self.worker == wanted_interval(self.settings.flush_ms)
    }

    /// The state in which a logger with these settings starts: `opened` and `started`
    /// tell whether the file could be opened and the thread could be started.
    pub open spec fn start(settings: Resolved, opened: bool, started: bool) -> Runtime {
        Runtime {
            settings,
            file_open: settings.file_path is Some && opened,
            worker: if started {
                wanted_interval(settings.flush_ms)
            } else {
                None
            },
        }
    }

    /// The state after new settings have taken force. What they do not change stays.
    pub open spec fn reload(self, next: Resolved, opened: bool, started: bool) -> Runtime {
        Runtime {
            settings: next,
            file_open: if self.settings.file_path == next.file_path {
                self.file_open
            } else {
                next.file_path is Some && opened
            },
            worker: if self.settings.flush_ms == next.flush_ms {
                self.worker
            } else if started {
                wanted_interval(next.flush_ms)
            } else {
                None
            },
        }
    }
}

/// What has to be done to start a logger.
pub struct Startup {
    /// The settings to put in force.
    pub active: ActiveConfig,
    /// The log file to open.
    pub open: Option<OpenRequest>,
    /// The interval of the flush thread to start.
    pub thread: Option<u64>,
}

impl Startup {
    /// Whether this starts a logger with the given settings.
    pub open spec fn starts(self, settings: Resolved) -> bool {
        &&& self.active.reload@ == settings
        &&& self.active.well_formed()
        &&& request_view(self.open) == wanted_file(settings)
        &&& self.thread == wanted_interval(settings.flush_ms)
    }

    /// What has to be done to start a logger with the given settings.
    pub fn plan(reload: ReloadConfig) -> (startup: Self)
        ensures
            startup.starts(reload@),
    {
        let open = load_file_for_config(&reload);
        let thread = FlushWorker::thread_interval(reload.flush_ms);
        Startup { active: ActiveConfig::from_reload(reload), open, thread }
    }
}

/// What became of the request to reopen the log file.
#[derive(Clone, Copy, Debug, PartialEq, Eq, Structural)]
pub enum ReopenOutcome {
    /// Lines go to standard error; there is nothing to reopen.
    NotAFile,
    /// The file could not be opened; the old one stays in use.
    KeepOld,
    /// The new file takes the place of the old one, which is flushed and closed.
    Swap,
}

/// The state of a running logger.
#[derive(Debug)]
pub struct MinimalLogger {
    settings: ReloadConfig,
    file_open: bool,
    flush_worker: FlushWorker,
}

impl View for MinimalLogger {
    type V = Runtime;

    closed spec fn view(&self) -> Runtime {
        Runtime {
            settings: self.settings@,
            file_open: self.file_open,
            worker: self.flush_worker@,
        }
    }
}

impl MinimalLogger {
    #[verifier::type_invariant]
    spec fn consistent(self) -> bool {
        self@.consistent()
    }

    /// A logger that has been started with `reload`: `opened` and `started` tell whether
    /// the log file could be opened and the flush thread could be started.
    pub fn from_config(reload: &ReloadConfig, opened: bool, started: bool) -> (logger: Self)
        ensures
            logger@ == Runtime::start(reload@, opened, started),
            logger@.consistent(),
    {
        MinimalLogger {
            settings: reload.clone(),
            file_open: reload.file_path.is_some() && opened,
            flush_worker: FlushWorker::spawn(reload.flush_ms, started),
        }
    }

    /// The settings in force.
    pub fn settings(&self) -> (settings: &ReloadConfig)
        ensures
            settings@ == self@.settings,
    {
        &self.settings
    }

    /// Whether a log file is open.
    pub fn has_file(&self) -> (yes: bool)
        ensures
            yes == self@.file_open,
            yes ==> self@.settings.file_path is Some,
    {
        proof {
            use_type_invariant(self);
        }
        self.file_open
    }

    /// Whether a flush thread is running.
    pub fn has_flush_worker(&self) -> (yes: bool)
        ensures
            yes == (self@.worker is Some),
            yes ==> self@.worker == wanted_interval(self@.settings.flush_ms),
    {
        proof {
            use_type_invariant(self);
        }
        self.flush_worker.has_handle()
    }

    /// What has to be done for new settings. Only what they change is touched.
    pub fn plan_reload(&self, next: &ReloadConfig) -> (plan: ReloadPlan)
        ensures
            leads(plan, self@.settings, next@),
    {
        if self.settings == *next {
            return ReloadPlan::Unchanged;
        }
        let output = if same_text(&self.settings.file_path, &next.file_path) {
            OutputChange::Keep
        } else {
            match load_file_for_config(next) {
                Some(request) => OutputChange::File(request),
                None => OutputChange::Stderr,
            }
        };
        let worker = if self.settings.flush_ms == next.flush_ms {
            WorkerChange::Keep
        } else {
            WorkerChange::Replace(FlushWorker::thread_interval(next.flush_ms))
        };
        ReloadPlan::Change { output, worker }
    }

    /// Puts new settings in force, after what [`Self::plan_reload`] asks for has been
    /// done: `opened` and `started` tell whether a log file could be opened and a flush
    /// thread could be started. Settings that are in force already change nothing.
    pub fn apply_reload(&mut self, next: ReloadConfig, opened: bool, started: bool) -> (active:
        Option<ActiveConfig>)
        ensures
            active is None <==> old(self)@.settings == next@,
            active is None ==> final(self)@ == old(self)@,
            active matches Some(active) ==> active.reload@ == next@ && active.well_formed(),
            active is Some ==> final(self)@ == old(self)@.reload(next@, opened, started),
            final(self)@.consistent(),
    {
        proof {
            use_type_invariant(&*self);
        }
        if self.settings == next {
            return None;
        }
        let file_open = if same_text(&self.settings.file_path, &next.file_path) {
            self.file_open
        } else {
            next.file_path.is_some() && opened
        };
        let flush_worker = if self.settings.flush_ms == next.flush_ms {
            FlushWorker { interval: self.flush_worker.interval }
        } else {
            FlushWorker::spawn(next.flush_ms, started)
        };
        let settings = next.clone();
        *self = MinimalLogger { settings, file_open, flush_worker };
        Some(ActiveConfig::from_reload(next))
    }

    /// The log file that is to be opened anew on rotation; none where lines go to
    /// standard error.
    pub fn reopen_request(&self) -> (request: Option<OpenRequest>)
        ensures
            request_view(request) == wanted_file(self@.settings),
    {
        load_file_for_config(&self.settings)
    }

    /// What becomes of the log file on rotation, where `opened` tells whether it could be
    /// opened anew. The new file is opened before the old one is given up, so that a log
    /// file that was open stays open whatever comes.
    pub fn reopen(&mut self, opened: bool) -> (outcome: ReopenOutcome)
        ensures
            outcome == ReopenOutcome::NotAFile <==> old(self)@.settings.file_path is None,
            outcome == ReopenOutcome::Swap <==> old(self)@.settings.file_path is Some && opened,
            final(self)@ == (Runtime {
                file_open: old(self)@.file_open || outcome == ReopenOutcome::Swap,
                ..old(self)@
            }),
            final(self)@.consistent(),
    {
        proof {
            use_type_invariant(&*self);
        }
        if self.settings.file_path.is_none() {
            return ReopenOutcome::NotAFile;
        }
        if opened {
            self.file_open = true;
            ReopenOutcome::Swap
        } else {
            ReopenOutcome::KeepOld
        }
    }

    /// Gives up the flush thread, and tells whether there is one to be stopped and joined.
    pub fn stop_flush_worker(&mut self) -> (running: bool)
        ensures
            running == (old(self)@.worker is Some),
            final(self)@ == (Runtime { worker: None, ..old(self)@ }),
            final(self)@.consistent(),
    {
        proof {
            use_type_invariant(&*self);
        }
        let running = self.flush_worker.has_handle();
        self.flush_worker = FlushWorker { interval: None };
        running
    }
}

/// What happens on a call of `init`.
pub enum InitPlan {
    /// The logger is running already; it is offered to the `log` facade once more.
    AlreadyRunning,
    /// A logger is started and offered to the `log` facade.
    Start(Startup),
}

/// What happens after a new logger has been offered to the `log` facade.
#[derive(Clone, Copy, Debug, PartialEq, Eq, Structural)]
pub enum Registration {
    /// It was refused: the logger is stopped and dropped.
    Discard,
    /// It was accepted: the logger stays, and the facade gets this most verbose level.
    Run(LevelFilter),
}

/// What happens on a call of `reinit`.
pub enum ReinitPlan {
    /// No logger is running: one is started with these settings.
    Init(MinimalLoggerConfig),
    /// The plan is carried out, and then `next` takes force.
    Reload { next: ReloadConfig, plan: ReloadPlan },
}

/// What happens on a call of `shutdown`.
#[derive(Clone, Copy, Debug, PartialEq, Eq, Structural)]
pub struct ShutdownPlan {
    /// Buffered output is flushed.
    pub flush: bool,
    /// The flush thread is stopped and joined.
    pub stop_worker: bool,
}

/// Starts a logger, unless one is running. In that case the settings are ignored. No value
/// of the settings that are put in force exceeds its bound.
pub fn init(running: bool, config: MinimalLoggerConfig) -> (plan: InitPlan)
    ensures
        plan is AlreadyRunning <==> running,
        plan matches InitPlan::Start(startup) ==> {
            &&& resolves(config@, defaults(), startup.active.reload@)
            &&& startup.starts(startup.active.reload@)
            &&& startup.active.reload@.within_limits()
        },
{
    proof {
        lemma_default_template_is_short();
    }
    if running {
        InitPlan::AlreadyRunning
    } else {
        InitPlan::Start(Startup::plan(config.into_reload(None)))
    }
}

/// What happens after a new logger has been offered to the `log` facade.
pub fn finish_init(active: &ActiveConfig, accepted: bool) -> (registration: Registration)
    ensures
        registration == (if accepted {
            Registration::Run(active.max_level)
        } else {
            Registration::Discard
        }),
{
    if accepted {
        Registration::Run(active.max_level)
    } else {
        Registration::Discard
    }
}

/// Applies settings to the running logger, or starts one where none is running. What the
/// settings leave unset keeps its current value, and values within their bounds stay there.
pub fn reinit(logger: Option<&MinimalLogger>, config: MinimalLoggerConfig) -> (plan: ReinitPlan)
    ensures
        plan is Init <==> logger is None,
        plan matches ReinitPlan::Init(settings) ==> settings@ == config@,
        plan matches ReinitPlan::Reload { next, plan } ==> {
            &&& leads(plan, logger->Some_0@.settings, next@)
            &&& resolves(config@, logger->Some_0@.settings, next@)
            &&& logger->Some_0@.settings.within_limits() ==> next@.within_limits()
        },
{
    match logger {
        None => ReinitPlan::Init(config),
        Some(logger) => {
            let next = config.into_reload(Some(logger.settings()));
            let plan = logger.plan_reload(&next);
            ReinitPlan::Reload { next, plan }
        },
    }
}

/// Flushes buffered output and stops the flush thread, where a logger is running.
pub fn shutdown(running: bool) -> (plan: ShutdownPlan)
    ensures
        plan.flush == running,
        plan.stop_worker == running,
{
    ShutdownPlan { flush: running, stop_worker: running }
}

/// What happens first on a record.
#[derive(Clone, Copy, Debug, PartialEq, Eq, Structural)]
pub enum RecordStep {
    /// Nothing: it is not let through. A request to reopen the log file stays pending.
    Ignore,
    /// It is written.
    Write,
    /// The log file is opened anew, and then the record is written.
    ReopenThenWrite,
}

/// What happens first on a record, where `reopen_requested` tells whether the log file
/// is to be opened anew.
pub fn on_record(active: &ActiveConfig, level: Level, target: &str, reopen_requested: bool) -> (step:
    RecordStep)
    ensures
        step == (if !lets_through(active.reload@, level, target@) {
            RecordStep::Ignore
        } else if reopen_requested {
            RecordStep::ReopenThenWrite
        } else {
            RecordStep::Write
        }),
{
    if !active.enabled(level, target) {
        RecordStep::Ignore
    } else if reopen_requested {
        RecordStep::ReopenThenWrite
    } else {
        RecordStep::Write
    }
}

/// Where a log line goes.
#[derive(Clone, Copy, Debug, PartialEq, Eq, Structural)]
pub enum Output {
    File,
    Stderr,
}

/// How a record is written.
#[derive(Debug)]
pub struct WritePlan {
    pub output: Output,
    pub line: String,
    /// Whether the output is flushed after the line.
    pub flush: bool,
}

impl WritePlan {
    /// Where the line goes and whether it is flushed: to the log file where one is open,
    /// and else to standard error; at once where the flush interval is 0.
    pub open spec fn routed(self, settings: Resolved, file_open: bool) -> bool {
        &&& self.output == (if file_open {
            Output::File
        } else {
            Output::Stderr
        })
        &&& self.flush == (settings.flush_ms == 0)
    }
}

/// How a line is written.
pub fn route(active: &ActiveConfig, line: String, file_open: bool) -> (plan: WritePlan)
    ensures
        plan.line@ == line@,
        plan.routed(active.reload@, file_open),
{
    let output = if file_open {
        Output::File
    } else {
        Output::Stderr
    };
    WritePlan { output, line, flush: active.reload.flush_ms == 0 }
}

/// How a record is written that is rendered at the time `now`.
pub fn write_record_at(active: &ActiveConfig, record: &Record, file_open: bool, now: &UtcTime)
    -> (plan: WritePlan)
    requires
        now.valid(),
    ensures
        plan.line@ == line_text(
            active.format@,
            *record,
            Seq::new(active.format@.len(), |i: int| *now),
        ),
        plan.routed(active.reload@, file_open),
{
    route(active, active.format.render_at(record, now), file_open)
}

/// How a record is written that is rendered now.
pub fn write_record(active: &ActiveConfig, record: &Record, file_open: bool) -> (plan: WritePlan)
    ensures
        exists|clock: Seq<UtcTime>|
            clock_for(clock, active.format@) && plan.line@ == #[trigger] line_text(
                active.format@,
                *record,
                clock,
            ),
        plan.routed(active.reload@, file_open),
{
    route(active, active.format.render(record), file_open)
}

} // verus!
