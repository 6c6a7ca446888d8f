//! The builder for logger settings.

use vstd::prelude::*;

use crate::config::{
    bounded_capacity, bounded_interval, bounded_template, by_specificity, byte_len, bytes_in,
    copy_filters, copy_text, defaults, insert_filter, opt_text, rules, unset, Destination,
    FileTarget, ReloadConfig, Resolved, Rule, Settings, TargetFilter, DEFAULT_BUF_CAPACITY,
    DEFAULT_FLUSH_MS, DEFAULT_LOG_FORMAT, MAX_BUF_CAPACITY, MAX_FLUSH_MS, MAX_FORMAT_TEMPLATE_LEN,
};
use crate::level::LevelFilter;

verus! {

/// The pairs of a list, as mathematical values.
pub open spec fn pair_rules(pairs: Seq<(String, LevelFilter)>) -> Seq<Rule> {
    pairs.map_values(|pair: (String, LevelFilter)| (pair.0@, pair.1))
}

/// Builder for logger settings.
///
/// On `init` a field that is not set falls back to its default: level `Info`, standard
/// error, a buffer of 4 KiB, a flush every second, and the default template. On `reinit`
/// such a field keeps its current value.
pub struct MinimalLoggerConfig {
    level: Option<LevelFilter>,
    filters: Option<Vec<(String, LevelFilter)>>,
    file: Option<FileTarget>,
    buf_capacity: Option<usize>,
    flush_ms: Option<u64>,
    format: Option<String>,
}

impl View for MinimalLoggerConfig {
    type V = Settings;

    closed spec fn view(&self) -> Settings {
        Settings {
            level: self.level,
            filters: match self.filters {
                Some(pairs) => Some(pair_rules(pairs@)),
                None => None,
            },
            file: match self.file {
                Some(target) => Some(target@),
                None => None,
            },
            buf_capacity: self.buf_capacity,
            flush_ms: self.flush_ms,
            format: opt_text(self.format),
        }
    }
}

/// `bytes`, bounded by [`MAX_BUF_CAPACITY`].
pub fn bound_capacity(bytes: usize) -> (bounded: usize)
    ensures
        bounded == bounded_capacity(bytes as nat),
{
    if bytes < MAX_BUF_CAPACITY {
        bytes
    } else {
        MAX_BUF_CAPACITY
    }
}

/// `ms`, bounded by [`MAX_FLUSH_MS`].
pub fn bound_interval(ms: u64) -> (bounded: u64)
    ensures
        bounded == bounded_interval(ms as nat),
{
    if ms < MAX_FLUSH_MS {
        ms
    } else {
        MAX_FLUSH_MS
    }
}

/// `template`, or [`DEFAULT_LOG_FORMAT`] where it is longer than
/// [`MAX_FORMAT_TEMPLATE_LEN`] bytes.
pub fn bound_template(template: &str) -> (bounded: String)
    ensures
        bounded@ == bounded_template(template@),
        byte_len(bounded@) <= MAX_FORMAT_TEMPLATE_LEN,
{
    proof {
        lemma_default_template_is_short();
    }
    if bytes_in(template) <= MAX_FORMAT_TEMPLATE_LEN {
        template.to_string()
    } else {
        DEFAULT_LOG_FORMAT.to_string()
    }
}

pub(crate) proof fn lemma_default_template_is_short()
    ensures
        byte_len(DEFAULT_LOG_FORMAT@) <= MAX_FORMAT_TEMPLATE_LEN,
{
    reveal_strlit("{timestamp} [{level:<5}] T[{thread_name}] [{file}:{line}] {args}");
    vstd::utf8::is_ascii_chars_encode_utf8(DEFAULT_LOG_FORMAT@);
}

/// The outcomes that `std::path::absolute` can have for a path, over all current
/// directories and platforms, shown as text; `None` is the outcome where it fails.
pub uninterp spec fn absolute_forms(path: Seq<char>) -> Set<Option<Seq<char>>>;

/// `std::path::absolute`, with the path shown as text; `None` stands for an error of the
/// call. What comes out is one of the outcomes for that path. An empty path is an error.
/// Which of the outcomes another path has is not said: it depends on the current directory
/// of the process and on the platform.
#[verifier::external_body]
fn absolute_path(path: &str) -> (absolute: Option<String>)
    ensures
        absolute_forms(path@).contains(opt_text(absolute)),
        path@.len() == 0 ==> absolute is None,
{
    match std::path::absolute(path) {
        Ok(absolute) => Some(absolute.display().to_string()),
        Err(_) => None,
    }
}

/// What unset fields stand for: the settings in force, or the defaults where the logger
/// is not running.
pub open spec fn base_of(current: Option<&ReloadConfig>) -> Resolved {
    match current {
        Some(current) => current@,
        None => defaults(),
    }
}

/// Whether `next` is what settings can give on top of `base`. Where they name a path, that
/// depends on the absolute form of the path.
pub open spec fn resolves(settings: Settings, base: Resolved, next: Resolved) -> bool {
    match settings.file {
        Some(Destination::Path(path)) if path.len() > 0 => exists|absolute: Option<Seq<char>>|
            absolute_forms(path).contains(absolute) && next == #[trigger] settings.over(
                base,
                absolute,
            ),
        _ => next == settings.over(base, None),
    }
}

impl Default for MinimalLoggerConfig {
    fn default() -> (config: Self)
        ensures
            config@ == unset(),
    {
        Self::new()
    }
}

impl MinimalLoggerConfig {
    /// No value exceeds its bound.
    #[verifier::type_invariant]
    spec fn within_limits(self) -> bool {
        self@.within_limits()
    }

    /// A builder in which nothing is set.
    pub fn new() -> (config: Self)
        ensures
            config@ == unset(),
    {
        MinimalLoggerConfig {
            level: None,
            filters: None,
            file: None,
            buf_capacity: None,
            flush_ms: None,
            format: None,
        }
    }

    /// Sets the level for records that no filter is for.
    pub fn level(self, level: LevelFilter) -> (config: Self)
        ensures
            config@ == (Settings { level: Some(level), ..self@ }),
    {
        proof {
            use_type_invariant(&self);
        }
        MinimalLoggerConfig { level: Some(level), ..self }
    }

    /// Adds a filter for the records whose target begins with `target`. Where several
    /// filters match, the one with the longest target holds.
    pub fn filter(self, target: &str, level: LevelFilter) -> (config: Self)
        ensures
            config@ == (Settings {
                filters: match self@.filters {
                    Some(filters) => Some(filters.push((target@, level))),
                    None => Some(seq![(target@, level)]),
                },
                ..self@
            }),
    {
        proof {
            use_type_invariant(&self);
        }
        let ghost before = self@;
        let mut pairs = match self.filters {
            Some(pairs) => pairs,
            None => Vec::new(),
        };
        let ghost list = pair_rules(pairs@);
        pairs.push((target.to_string(), level));
        assert(pair_rules(pairs@) =~= list.push((target@, level)));
        assert(before.filters is None ==> list.push((target@, level)) =~= seq![(target@, level)]);
        MinimalLoggerConfig { filters: Some(pairs), ..self }
    }

    /// Sends log lines to the file at `path`, which is created where it does not exist.
    pub fn file(self, path: &str) -> (config: Self)
        ensures
            config@ == (Settings { file: Some(Destination::Path(path@)), ..self@ }),
    {
        proof {
            use_type_invariant(&self);
        }
        MinimalLoggerConfig { file: Some(FileTarget::Path(path.to_string())), ..self }
    }

    /// Sends log lines to standard error.
    pub fn stderr(self) -> (config: Self)
        ensures
            config@ == (Settings { file: Some(Destination::Stderr), ..self@ }),
    {
        proof {
            use_type_invariant(&self);
        }
        MinimalLoggerConfig { file: Some(FileTarget::Stderr), ..self }
    }

    /// Sets the capacity of the output buffer in bytes, at most [`MAX_BUF_CAPACITY`].
    pub fn buf_capacity(self, bytes: usize) -> (config: Self)
        ensures
            config@ == (Settings {
                buf_capacity: Some(bounded_capacity(bytes as nat)),
                ..self@
            }),
    {
        proof {
            use_type_invariant(&self);
        }
        MinimalLoggerConfig { buf_capacity: Some(bound_capacity(bytes)), ..self }
    }

    /// Sets the interval between two periodic flushes in milliseconds, at most
    /// [`MAX_FLUSH_MS`]. With 0 every record is flushed.
    pub fn flush_ms(self, ms: u64) -> (config: Self)
        ensures
            config@ == (Settings { flush_ms: Some(bounded_interval(ms as nat)), ..self@ }),
    {
        proof {
            use_type_invariant(&self);
        }
        MinimalLoggerConfig { flush_ms: Some(bound_interval(ms)), ..self }
    }

    /// Sets the log-line template. One that is longer than [`MAX_FORMAT_TEMPLATE_LEN`]
    /// bytes is replaced by [`DEFAULT_LOG_FORMAT`].
    pub fn format(self, template: &str) -> (config: Self)
        ensures
            config@ == (Settings { format: Some(bounded_template(template@)), ..self@ }),
    {
        proof {
            use_type_invariant(&self);
        }
        MinimalLoggerConfig { format: Some(bound_template(template)), ..self }
    }

    /// The level for records that no filter is for, if set.
    pub fn get_level(&self) -> (level: Option<LevelFilter>)
        ensures
            level == self@.level,
    {
        self.level
    }

    /// The filters, in the order in which they were added.
    pub fn get_filters(&self) -> (filters: &[(String, LevelFilter)])
        ensures
            self@.filters matches Some(list) ==> pair_rules(filters@) == list,
            self@.filters is None ==> filters@.len() == 0,
    {
        match &self.filters {
            Some(pairs) => pairs.as_slice(),
            None => &[],
        }
    }

    /// The path of the log file, if set.
    pub fn get_file_path(&self) -> (path: Option<&str>)
        ensures
            path is Some <==> self@.file matches Some(Destination::Path(_)),
            path matches Some(path) ==> self@.file == Some(Destination::Path(path@)),
    {
        match &self.file {
            Some(FileTarget::Path(path)) => Some(path.as_str()),
            _ => None,
        }
    }

    /// The capacity of the output buffer in bytes, if set.
    pub fn get_buf_capacity(&self) -> (bytes: Option<usize>)
        ensures
            bytes == self@.buf_capacity,
            bytes matches Some(bytes) ==> bytes <= MAX_BUF_CAPACITY,
    {
        proof {
            use_type_invariant(self);
        }
        self.buf_capacity
    }

    /// The interval between two periodic flushes in milliseconds, if set.
    pub fn get_flush_ms(&self) -> (ms: Option<u64>)
        ensures
            ms == self@.flush_ms,
            ms matches Some(ms) ==> ms <= MAX_FLUSH_MS,
    {
        proof {
            use_type_invariant(self);
        }
        self.flush_ms
    }

    /// The log-line template, if set.
    pub fn get_format(&self) -> (template: Option<&str>)
        ensures
            template is Some <==> self@.format is Some,
            template matches Some(template) ==> self@.format == Some(template@) && byte_len(
                template@,
            ) <= MAX_FORMAT_TEMPLATE_LEN,
    {
        proof {
            use_type_invariant(self);
        }
        match &self.format {
            Some(template) => Some(template.as_str()),
            None => None,
        }
    }

    /// The resolved settings, where `absolute` is the absolute form of the path that is
    /// set, if that could be found.
    ///
    /// What is unset is taken from `current`, or from the defaults where the logger is
    /// not running.
    pub fn resolve(self, current: Option<&ReloadConfig>, absolute: Option<String>) -> (reload:
        ReloadConfig)
        ensures
            reload@ == self@.over(base_of(current), opt_text(absolute)),
            base_of(current).within_limits() ==> reload@.within_limits(),
    {
        proof {
            use_type_invariant(&self);
        }
        let ghost settings = self@;
        let default_level = match self.level {
            Some(level) => level,
            None => match current {
                Some(current) => current.default_level,
                None => LevelFilter::Info,
            },
        };
        let filters = match self.filters {
            Some(pairs) => sort_filters(&pairs),
            None => match current {
                Some(current) => copy_filters(&current.filters),
                None => Vec::new(),
            },
        };
        assert(current is None ==> rules(Seq::<TargetFilter>::empty()) =~= Seq::<Rule>::empty());
        let file_path = match self.file {
            Some(FileTarget::Path(path)) => match absolute {
                Some(absolute) => Some(absolute),
                None => Some(path),
            },
            Some(FileTarget::Stderr) => None,
            None => match current {
                Some(current) => copy_text(&current.file_path),
                None => None,
            },
        };
        let buf_capacity: usize = match self.buf_capacity {
            Some(bytes) => bytes,
            None => match current {
                Some(current) => current.buf_capacity,
                None => DEFAULT_BUF_CAPACITY,
            },
        };
        let flush_ms: u64 = match self.flush_ms {
            Some(ms) => ms,
            None => match current {
                Some(current) => current.flush_ms,
                None => DEFAULT_FLUSH_MS,
            },
        };
        let format_template = match self.format {
            Some(template) => template,
            None => match current {
                Some(current) => current.format_template.clone(),
                None => DEFAULT_LOG_FORMAT.to_string(),
            },
        };
        ReloadConfig { default_level, filters, file_path, buf_capacity, flush_ms, format_template }
    }

    /// The resolved settings. A path is made absolute, as far as that is possible.
    ///
    /// What is unset is taken from `current`, or from the defaults where the logger is
    /// not running.
    pub fn into_reload(self, current: Option<&ReloadConfig>) -> (reload: ReloadConfig)
        ensures
            resolves(self@, base_of(current), reload@),
            base_of(current).within_limits() ==> reload@.within_limits(),
    {
        let absolute = match &self.file {
            Some(FileTarget::Path(path)) => absolute_path(path.as_str()),
            _ => None,
        };
        self.resolve(current, absolute)
    }
}

/// The pairs as filters, in the order in which they are tried.
fn sort_filters(pairs: &Vec<(String, LevelFilter)>) -> (filters: Vec<TargetFilter>)
    ensures
        rules(filters@) == by_specificity(pair_rules(pairs@)),
{
    let mut filters: Vec<TargetFilter> = Vec::new();
    let ghost list = pair_rules(pairs@);
    assert(rules(filters@) =~= by_specificity(list.take(0)));
    for i in 0..pairs.len()
        invariant
            list == pair_rules(pairs@),
            rules(filters@) == by_specificity(list.take(i as int)),
    {
        let pair = &pairs[i];
        insert_filter(&mut filters, TargetFilter { target: pair.0.clone(), level: pair.1 });
        assert(list.take(i + 1).drop_last() =~= list.take(i as int));
        assert(list[i as int] == (pairs@[i as int].0@, pairs@[i as int].1));
    }
    assert(list.take(list.len() as int) =~= list);
    filters
}

} // verus!
