//! What settings say and how they combine.

use vstd::prelude::*;

use crate::builder::{absolute_forms, base_of, pair_rules, resolves};
use crate::config::{
    bounded_capacity, bounded_interval, bounded_template, by_specificity, byte_len, defaults,
    opt_text, rules, unset, Destination, FileTarget, ReloadConfig, Resolved, Settings,
    DEFAULT_BUF_CAPACITY, DEFAULT_FLUSH_MS, DEFAULT_LOG_FORMAT, MAX_BUF_CAPACITY, MAX_FLUSH_MS,
    MAX_FORMAT_TEMPLATE_LEN,
};
use crate::level::LevelFilter;

verus! {

/// A logger starts with level `Info`, without filters, on standard error, with the default
/// buffer, interval and template, as far as nothing else is set.
pub proof fn defaults_are_as_documented()
    ensures
        defaults().default_level == LevelFilter::Info,
        defaults().filters.len() == 0,
        defaults().file_path is None,
        defaults().buf_capacity == DEFAULT_BUF_CAPACITY,
        defaults().flush_ms == DEFAULT_FLUSH_MS,
        defaults().format_template == DEFAULT_LOG_FORMAT@,
        base_of(None) == defaults(),
        unset().level is None,
        unset().filters is None,
        unset().file is None,
        unset().buf_capacity is None,
        unset().flush_ms is None,
        unset().format is None,
{
}

/// While a logger is running, what is unset is taken from its settings.
pub proof fn running_settings_are_the_base(current: ReloadConfig)
    ensures
        base_of(Some(&current)) == current@,
{
}

/// Values up to their bounds are kept, and larger ones are set to the bound; a template that
/// is too long gives way to the default one.
pub proof fn only_oversized_values_are_changed(bytes: nat, ms: nat, template: Seq<char>)
    ensures
        bytes <= MAX_BUF_CAPACITY ==> bounded_capacity(bytes) == bytes,
        bytes > MAX_BUF_CAPACITY ==> bounded_capacity(bytes) == MAX_BUF_CAPACITY,
        ms <= MAX_FLUSH_MS ==> bounded_interval(ms) == ms,
        ms > MAX_FLUSH_MS ==> bounded_interval(ms) == MAX_FLUSH_MS,
        byte_len(template) <= MAX_FORMAT_TEMPLATE_LEN ==> bounded_template(template) == template,
        byte_len(template) > MAX_FORMAT_TEMPLATE_LEN ==> bounded_template(template)
            == DEFAULT_LOG_FORMAT@,
{
}

/// Settings are within their limits exactly where no value exceeds its bound.
pub proof fn limits_are_the_bounds(settings: Settings, resolved: Resolved)
    ensures
        settings.within_limits() <==> {
            &&& settings.buf_capacity is Some ==> settings.buf_capacity->Some_0
                <= MAX_BUF_CAPACITY
            &&& settings.flush_ms is Some ==> settings.flush_ms->Some_0 <= MAX_FLUSH_MS
            &&& settings.format is Some ==> byte_len(settings.format->Some_0)
                <= MAX_FORMAT_TEMPLATE_LEN
        },
        resolved.within_limits() <==> {
            &&& resolved.buf_capacity <= MAX_BUF_CAPACITY
            &&& resolved.flush_ms <= MAX_FLUSH_MS
            &&& byte_len(resolved.format_template) <= MAX_FORMAT_TEMPLATE_LEN
        },
{
}

/// What settings resolve to: each field that is set takes its value, each other field keeps
/// that of the base, and a path becomes one of its absolute forms or stays as it is where
/// it has none.
pub proof fn settings_resolve_field_by_field(settings: Settings, base: Resolved, next: Resolved)
    ensures
        resolves(settings, base, next) ==> {
            &&& next.default_level == (if settings.level is Some {
                settings.level->Some_0
            } else {
                base.default_level
            })
            &&& next.filters == (if settings.filters is Some {
                by_specificity(settings.filters->Some_0)
            } else {
                base.filters
            })
            &&& next.buf_capacity == (if settings.buf_capacity is Some {
                settings.buf_capacity->Some_0
            } else {
                base.buf_capacity
            })
            &&& next.flush_ms == (if settings.flush_ms is Some {
                settings.flush_ms->Some_0
            } else {
                base.flush_ms
            })
            &&& next.format_template == (if settings.format is Some {
                settings.format->Some_0
            } else {
                base.format_template
            })
            &&& settings.file is None ==> next.file_path == base.file_path
            &&& settings.file == Some(Destination::Stderr) ==> next.file_path is None
            &&& settings.file matches Some(Destination::Path(path)) ==> {
                ||| path.len() == 0 && next.file_path == Some(path)
                ||| absolute_forms(path).contains(None) && next.file_path == Some(path)
                ||| next.file_path is Some && absolute_forms(path).contains(next.file_path)
            }
        },
{
}

/// Resolved settings are what their fields hold.
pub proof fn resolved_settings_are_their_fields(config: ReloadConfig)
    ensures
        config@.default_level == config.default_level,
        config@.filters == rules(config.filters@),
        config.file_path matches Some(path) ==> config@.file_path == Some(path@),
        config.file_path is None ==> config@.file_path is None,
        config@.buf_capacity == config.buf_capacity,
        config@.flush_ms == config.flush_ms,
        config@.format_template == config.format_template@,
{
}

/// Texts, destinations and pairs are what they hold.
pub proof fn parts_of_settings_are_what_they_hold(
    text: String,
    pairs: Seq<(String, LevelFilter)>,
    i: int,
)
    requires
        0 <= i < pairs.len(),
    ensures
        opt_text(Some(text)) == Some(text@),
        opt_text(None) == None::<Seq<char>>,
        FileTarget::Stderr@ == Destination::Stderr,
        FileTarget::Path(text)@ == Destination::Path(text@),
        pair_rules(pairs).len() == pairs.len(),
        pair_rules(pairs)[i] == (pairs[i].0@, pairs[i].1),
{
}

} // verus!
