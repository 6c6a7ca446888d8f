//! What a logger does when it starts, when its settings change and when it writes.

use vstd::prelude::*;

use crate::config::Resolved;
use crate::format::compiled;
use crate::logger::{
    leads, request_view, wanted_file, wanted_interval, OpenRequest, Output, OutputChange,
    ReloadPlan, Runtime, Startup, WorkerChange, WritePlan,
};

verus! {

/// The output is kept exactly where the path is the same. Where the paths differ, lines go
/// to standard error if the new settings name no file, and else the file that they name is
/// opened with their buffer capacity, also where lines went to standard error before.
pub proof fn the_output_follows_the_path(plan: ReloadPlan, current: Resolved, next: Resolved)
    requires
        leads(plan, current, next),
    ensures
        plan matches ReloadPlan::Change { output, .. } ==> {
            &&& output is Keep <==> current.file_path == next.file_path
            &&& output is Stderr <==> current.file_path is Some && next.file_path is None
            &&& output is File <==> next.file_path is Some && current.file_path != next.file_path
            &&& output matches OutputChange::File(request) ==> next.file_path == Some(request.path@)
                && request.buf_capacity == next.buf_capacity
        },
{
}

/// The flush thread is kept exactly where the interval is the same. Where the intervals
/// differ it is replaced by one with the new interval, and by none where that is 0.
pub proof fn the_thread_follows_the_interval(plan: ReloadPlan, current: Resolved, next: Resolved)
    requires
        leads(plan, current, next),
    ensures
        plan matches ReloadPlan::Change { worker, .. } ==> {
            &&& worker == WorkerChange::Keep <==> current.flush_ms == next.flush_ms
            &&& current.flush_ms != next.flush_ms && next.flush_ms == 0 ==> worker
                == WorkerChange::Replace(None)
            &&& current.flush_ms != next.flush_ms && next.flush_ms != 0 ==> worker
                == WorkerChange::Replace(Some(next.flush_ms))
        },
{
}

/// Something has to be done exactly where some field of the settings changes.
pub proof fn a_plan_is_made_where_a_field_changes(
    plan: ReloadPlan,
    current: Resolved,
    next: Resolved,
)
    requires
        leads(plan, current, next),
    ensures
        plan is Unchanged <==> {
            &&& current.default_level == next.default_level
            &&& current.filters == next.filters
            &&& current.file_path == next.file_path
            &&& current.buf_capacity == next.buf_capacity
            &&& current.flush_ms == next.flush_ms
            &&& current.format_template == next.format_template
        },
{
}

/// The state after a start: the settings are in force, the file is open where one is named
/// and could be opened, and a thread runs where an interval is wanted and it could be
/// started.
pub proof fn a_start_gives_what_is_asked_for(settings: Resolved, opened: bool, started: bool)
    ensures
        ({
            let logger = Runtime::start(settings, opened, started);
            &&& logger.settings == settings
            &&& logger.file_open <==> settings.file_path is Some && opened
            &&& logger.worker == (if started && settings.flush_ms != 0 {
                Some(settings.flush_ms)
            } else {
                None
            })
            &&& logger.consistent()
        }),
{
}

/// The state after a reload: the new settings are in force. Where the path changes, a file
/// is open exactly where the new settings name one and it could be opened; where it does
/// not, the file stays as it was. The same goes for the thread and the interval.
pub proof fn a_reload_gives_what_is_asked_for(
    logger: Runtime,
    next: Resolved,
    opened: bool,
    started: bool,
)
    ensures
        ({
            let after = logger.reload(next, opened, started);
            &&& after.settings == next
            &&& after.file_open <==> if logger.settings.file_path == next.file_path {
                logger.file_open
            } else {
                next.file_path is Some && opened
            }
            &&& logger.settings.flush_ms == next.flush_ms ==> after.worker == logger.worker
            &&& logger.settings.flush_ms != next.flush_ms ==> after.worker == (if started
                && next.flush_ms != 0 {
                Some(next.flush_ms)
            } else {
                None
            })
        }),
{
}

/// A reload of a logger and a start with the new settings give the same state, where path
/// and interval both change.
pub proof fn a_full_reload_is_a_start(
    logger: Runtime,
    next: Resolved,
    opened: bool,
    started: bool,
)
    requires
        logger.settings.file_path != next.file_path,
        logger.settings.flush_ms != next.flush_ms,
    ensures
        logger.reload(next, opened, started) == Runtime::start(next, opened, started),
{
}

/// A logger is consistent where an open file is one that the settings name, and a thread
/// that runs has the interval of the settings.
pub proof fn consistency_ties_state_to_settings(logger: Runtime)
    requires
        logger.consistent(),
    ensures
        logger.file_open ==> logger.settings.file_path is Some,
        logger.worker matches Some(ms) ==> ms == logger.settings.flush_ms && ms != 0,
{
}

/// A start puts the settings in force, compiles their template, opens the file that they
/// name with their buffer capacity, and starts a thread with their interval unless it is 0.
pub proof fn a_startup_asks_for_what_the_settings_name(startup: Startup, settings: Resolved)
    requires
        startup.starts(settings),
    ensures
        startup.active.reload@ == settings,
        startup.active.well_formed(),
        startup.active.format@ == compiled(settings.format_template, Seq::empty()),
        startup.open is Some <==> settings.file_path is Some,
        startup.open matches Some(request) ==> settings.file_path == Some(request.path@)
            && request.buf_capacity == settings.buf_capacity,
        startup.thread is Some <==> settings.flush_ms != 0,
        startup.thread matches Some(ms) ==> ms == settings.flush_ms,
{
}

/// The file and the interval that settings ask for.
pub proof fn settings_ask_for_their_file_and_interval(
    settings: Resolved,
    request: OpenRequest,
    flush_ms: u64,
)
    ensures
        settings.file_path is None ==> wanted_file(settings) is None,
        settings.file_path matches Some(path) ==> wanted_file(settings) == Some(
            (path, settings.buf_capacity),
        ),
        wanted_interval(flush_ms) == (if flush_ms == 0 {
            None
        } else {
            Some(flush_ms)
        }),
        request@ == (request.path@, request.buf_capacity),
        request_view(Some(request)) == Some((request.path@, request.buf_capacity)),
        request_view(None) is None,
{
}

/// A line goes to the file exactly where one is open, and is flushed exactly where the
/// interval is 0.
pub proof fn a_line_goes_to_the_open_file(plan: WritePlan, settings: Resolved, file_open: bool)
    requires
        plan.routed(settings, file_open),
    ensures
        plan.output == Output::File <==> file_open,
        plan.output == Output::Stderr <==> !file_open,
        plan.flush <==> settings.flush_ms == 0,
{
}

} // verus!
