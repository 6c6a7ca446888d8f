//! Logger settings: bounds and defaults, resolved settings and the settings in force.

use vstd::prelude::*;
use vstd::utf8::encode_utf8;

use crate::format::{compiled, LogFormat};
use crate::level::{Level, LevelFilter};
use crate::text::starts_with;

verus! {

/// Capacity of the output buffer where none is set, in bytes.
pub const DEFAULT_BUF_CAPACITY: usize = 4 * 1024;

/// Interval between two periodic flushes where none is set, in milliseconds.
pub const DEFAULT_FLUSH_MS: u64 = 1_000;

/// Log-line template where none is set.
pub const DEFAULT_LOG_FORMAT: &'static str =
    "{timestamp} [{level:<5}] T[{thread_name}] [{file}:{line}] {args}";

/// Largest capacity of the output buffer, in bytes.
pub const MAX_BUF_CAPACITY: usize = 16 * 1024 * 1024;

/// Longest interval between two periodic flushes, in milliseconds.
pub const MAX_FLUSH_MS: u64 = 3_600_000;

/// Length of the longest log-line template, in bytes.
pub const MAX_FORMAT_TEMPLATE_LEN: usize = 4 * 1024;

/// The number of bytes of a text in UTF-8.
pub open spec fn byte_len(text: Seq<char>) -> nat {
    encode_utf8(text).len()
}

/// The number of bytes of a text in UTF-8.
pub(crate) fn bytes_in(text: &str) -> (n: usize)
    ensures
        n == byte_len(text@),
{
    text.as_bytes().len()
}

/// A target and the filter for it, as a mathematical value.
pub type Rule = (Seq<char>, LevelFilter);

/// The filter for the records of one target.
#[derive(Debug)]
pub struct TargetFilter {
    /// Prefix of the targets of these records.
    pub target: String,
    /// What is let through of them.
    pub level: LevelFilter,
}

impl View for TargetFilter {
    type V = Rule;

    open spec fn view(&self) -> Rule {
        (self.target@, self.level)
    }
}

impl Clone for TargetFilter {
    fn clone(&self) -> (copy: Self)
        ensures
            copy@ == self@,
    {
        TargetFilter { target: self.target.clone(), level: self.level }
    }
}

impl PartialEq for TargetFilter {
    fn eq(&self, other: &Self) -> (same: bool) {
        self.target == other.target && self.level == other.level
    }
}

impl vstd::std_specs::cmp::PartialEqSpecImpl for TargetFilter {
    open spec fn obeys_eq_spec() -> bool {
        true
    }

    open spec fn eq_spec(&self, other: &Self) -> bool {
        self@ == other@
    }
}

impl Eq for TargetFilter {

}

/// The filters of a list, as mathematical values.
pub open spec fn rules(filters: Seq<TargetFilter>) -> Seq<Rule> {
    filters.map_values(|filter: TargetFilter| filter@)
}

/// `rule` put into `list` behind all rules whose target is at least as long.
pub open spec fn insert_rule(list: Seq<Rule>, rule: Rule) -> Seq<Rule>
    decreases list.len(),
{
    if list.len() == 0 || byte_len(list.last().0) >= byte_len(rule.0) {
        list.push(rule)
    } else {
        insert_rule(list.drop_last(), rule).push(list.last())
    }
}

/// The rules in the order in which they are tried: longer targets first, and targets
/// of one length in the order of the list.
pub open spec fn by_specificity(list: Seq<Rule>) -> Seq<Rule>
    decreases list.len(),
{
    if list.len() == 0 {
        list
    } else {
        insert_rule(by_specificity(list.drop_last()), list.last())
    }
}

/// Puts `filter` into `list` behind all filters whose target is at least as long.
pub(crate) fn insert_filter(list: &mut Vec<TargetFilter>, filter: TargetFilter)
    ensures
        rules(final(list)@) == insert_rule(rules(old(list)@), filter@),
{
    let len = bytes_in(filter.target.as_str());
    let mut at: usize = list.len();
    let ghost before = rules(list@);
    assert(before.take(at as int) =~= before);
    assert(insert_rule(before, filter@) =~= insert_rule(before.take(at as int), filter@)
        + before.skip(at as int));
    while at > 0 && bytes_in(list[at - 1].target.as_str()) < len
        invariant
            at <= list@.len(),
            before == rules(list@),
            len == byte_len(filter@.0),
            insert_rule(before, filter@) == insert_rule(before.take(at as int), filter@)
                + before.skip(at as int),
        decreases at,
    {
        let ghost head = before.take(at as int);
        assert(head.last() == list@[at - 1]@);
        assert(head.drop_last() =~= before.take(at - 1));
        assert(insert_rule(head, filter@) == insert_rule(before.take(at - 1), filter@).push(
            before[at - 1],
        ));
        assert(insert_rule(before.take(at - 1), filter@).push(before[at - 1]) + before.skip(
            at as int,
        ) =~= insert_rule(before.take(at - 1), filter@) + before.skip(at - 1));
        at = at - 1;
    }
    assert(at > 0 ==> before.take(at as int).last() == list@[at - 1]@);
    list.insert(at, filter);
    assert(rules(list@) =~= before.take(at as int).push(filter@) + before.skip(at as int));
}

/// Where log lines go, as far as the builder says it.
#[derive(Debug)]
pub enum FileTarget {
    /// To standard error.
    Stderr,
    /// To the file with this path.
    Path(String),
}

/// Where log lines go, as a mathematical value.
pub enum Destination {
    Stderr,
    Path(Seq<char>),
}

impl View for FileTarget {
    type V = Destination;

    open spec fn view(&self) -> Destination {
        match self {
            FileTarget::Stderr => Destination::Stderr,
            FileTarget::Path(path) => Destination::Path(path@),
        }
    }
}

/// What the builder has been told; `None` stands for what has not been set.
#[verifier::ext_equal]
pub struct Settings {
    pub level: Option<LevelFilter>,
    pub filters: Option<Seq<Rule>>,
    pub file: Option<Destination>,
    pub buf_capacity: Option<usize>,
    pub flush_ms: Option<u64>,
    pub format: Option<Seq<char>>,
}

/// Resolved settings, as a mathematical value.
#[verifier::ext_equal]
pub struct Resolved {
    /// What is let through of records that no filter is for.
    pub default_level: LevelFilter,
    /// The filters, in the order in which they are tried.
    pub filters: Seq<Rule>,
    /// Path of the log file; `None` stands for standard error.
    pub file_path: Option<Seq<char>>,
    pub buf_capacity: usize,
    pub flush_ms: u64,
    pub format_template: Seq<char>,
}

/// Settings in which nothing has been set.
pub open spec fn unset() -> Settings {
    Settings {
        level: None,
        filters: None,
        file: None,
        buf_capacity: None,
        flush_ms: None,
        format: None,
    }
}

/// What unset fields stand for in a logger that is not running yet.
pub open spec fn defaults() -> Resolved {
    Resolved {
        default_level: LevelFilter::Info,
        filters: Seq::empty(),
        file_path: None,
        buf_capacity: DEFAULT_BUF_CAPACITY,
        flush_ms: DEFAULT_FLUSH_MS,
        format_template: DEFAULT_LOG_FORMAT@,
    }
}

/// A buffer capacity, bounded by the largest one.
pub open spec fn bounded_capacity(bytes: nat) -> usize {
    if bytes < MAX_BUF_CAPACITY {
        bytes as usize
    } else {
        MAX_BUF_CAPACITY
    }
}

/// A flush interval, bounded by the longest one.
pub open spec fn bounded_interval(ms: nat) -> u64 {
    if ms < MAX_FLUSH_MS {
        ms as u64
    } else {
        MAX_FLUSH_MS
    }
}

/// A template, or the default one in place of a template that is too long.
pub open spec fn bounded_template(template: Seq<char>) -> Seq<char> {
    if byte_len(template) <= MAX_FORMAT_TEMPLATE_LEN {
        template
    } else {
        DEFAULT_LOG_FORMAT@
    }
}

impl Settings {
    /// Whether no value exceeds its bound.
    pub open spec fn within_limits(self) -> bool {
        &&& self.buf_capacity matches Some(bytes) ==> bytes <= MAX_BUF_CAPACITY
        &&& self.flush_ms matches Some(ms) ==> ms <= MAX_FLUSH_MS
        &&& self.format matches Some(template) ==> byte_len(template) <= MAX_FORMAT_TEMPLATE_LEN
    }

    /// The resolved settings that these settings give on top of `base`: what is unset
    /// stays as it is in `base`. A path is replaced by its absolute form, where that
    /// could be found.
    pub open spec fn over(self, base: Resolved, absolute: Option<Seq<char>>) -> Resolved {
        Resolved {
            default_level: match self.level {
                Some(level) => level,
                None => base.default_level,
            },
            filters: match self.filters {
                Some(filters) => by_specificity(filters),
                None => base.filters,
            },
            file_path: match self.file {
                Some(Destination::Path(path)) => match absolute {
                    Some(absolute) => Some(absolute),
                    None => Some(path),
                },
                Some(Destination::Stderr) => None,
                None => base.file_path,
            },
            buf_capacity: match self.buf_capacity {
                Some(bytes) => bytes,
                None => base.buf_capacity,
            },
            flush_ms: match self.flush_ms {
                Some(ms) => ms,
                None => base.flush_ms,
            },
            format_template: match self.format {
                Some(template) => template,
                None => base.format_template,
            },
        }
    }
}

impl Resolved {
    /// Whether no value exceeds its bound.
    pub open spec fn within_limits(self) -> bool {
        &&& self.buf_capacity <= MAX_BUF_CAPACITY
        &&& self.flush_ms <= MAX_FLUSH_MS
        &&& byte_len(self.format_template) <= MAX_FORMAT_TEMPLATE_LEN
    }
}

/// Resolved logger settings.
///
/// Two equal values mean that nothing has to be reconfigured.
#[derive(Debug)]
pub struct ReloadConfig {
    /// What is let through of records that no filter is for.
    pub default_level: LevelFilter,
    /// The filters, in the order in which they are tried.
    pub filters: Vec<TargetFilter>,
    /// Absolute path of the log file; `None` stands for standard error.
    pub file_path: Option<String>,
    /// Capacity of the output buffer, in bytes.
    pub buf_capacity: usize,
    /// Interval between two periodic flushes, in milliseconds.
    pub flush_ms: u64,
    /// Log-line template.
    pub format_template: String,
}

/// The text of an optional string.
pub open spec fn opt_text(text: Option<String>) -> Option<Seq<char>> {
    match text {
        Some(text) => Some(text@),
        None => None,
    }
}

impl View for ReloadConfig {
    type V = Resolved;

    open spec fn view(&self) -> Resolved {
        Resolved {
            default_level: self.default_level,
            filters: rules(self.filters@),
            file_path: opt_text(self.file_path),
            buf_capacity: self.buf_capacity,
            flush_ms: self.flush_ms,
            format_template: self.format_template@,
        }
    }
}

pub(crate) fn copy_filters(filters: &Vec<TargetFilter>) -> (copy: Vec<TargetFilter>)
    ensures
        rules(copy@) == rules(filters@),
{
    let mut copy: Vec<TargetFilter> = Vec::new();
    for i in 0..filters.len()
        invariant
            rules(copy@) == rules(filters@).take(i as int),
    {
        let ghost before = copy@;
        copy.push(filters[i].clone());
        assert(rules(copy@) =~= rules(before).push(filters@[i as int]@));
        assert(rules(filters@).take(i + 1) =~= rules(filters@).take(i as int).push(
            filters@[i as int]@,
        ));
    }
    assert(rules(filters@).take(filters@.len() as int) =~= rules(filters@));
    copy
}

/// A copy of an optional text.
pub(crate) fn copy_text(text: &Option<String>) -> (copy: Option<String>)
    ensures
        opt_text(copy) == opt_text(*text),
{
    match text {
        Some(text) => Some(text.clone()),
        None => None,
    }
}

/// Whether two optional texts are equal.
pub(crate) fn same_text(a: &Option<String>, b: &Option<String>) -> (same: bool)
    ensures
        same == (opt_text(*a) == opt_text(*b)),
{
    match (a, b) {
        (Some(a), Some(b)) => *a == *b,
        (None, None) => true,
        _ => false,
    }
}

fn same_filters(a: &Vec<TargetFilter>, b: &Vec<TargetFilter>) -> (same: bool)
    ensures
        same == (rules(a@) == rules(b@)),
{
    if a.len() != b.len() {
        assert(rules(a@).len() != rules(b@).len());
        return false;
    }
    for i in 0..a.len()
        invariant
            a@.len() == b@.len(),
            forall|k: int| 0 <= k < i ==> #[trigger] a@[k]@ == b@[k]@,
    {
        if a[i] != b[i] {
            assert(rules(a@)[i as int] != rules(b@)[i as int]);
            return false;
        }
    }
    assert(rules(a@) =~= rules(b@));
    true
}

impl Clone for ReloadConfig {
    fn clone(&self) -> (copy: Self)
        ensures
            copy@ == self@,
    {
        ReloadConfig {
            default_level: self.default_level,
            filters: copy_filters(&self.filters),
            file_path: copy_text(&self.file_path),
            buf_capacity: self.buf_capacity,
            flush_ms: self.flush_ms,
            format_template: self.format_template.clone(),
        }
    }
}

impl PartialEq for ReloadConfig {
    fn eq(&self, other: &Self) -> (same: bool) {
        self.default_level == other.default_level && same_filters(&self.filters, &other.filters)
            && same_text(&self.file_path, &other.file_path) && self.buf_capacity
            == other.buf_capacity && self.flush_ms == other.flush_ms && self.format_template
            == other.format_template
    }
}

impl vstd::std_specs::cmp::PartialEqSpecImpl for ReloadConfig {
    open spec fn obeys_eq_spec() -> bool {
        true
    }

    open spec fn eq_spec(&self, other: &Self) -> bool {
        self@ == other@
    }
}

impl Eq for ReloadConfig {

}

/// The filter that holds for a target: that of the first rule whose target is a prefix
/// of it, or else `default_level`.
pub open spec fn level_of(list: Seq<Rule>, target: Seq<char>, default_level: LevelFilter)
    -> LevelFilter
    decreases list.len(),
{
    if list.len() == 0 {
        default_level
    } else if list[0].0.is_prefix_of(target) {
        list[0].1
    } else {
        level_of(list.drop_first(), target, default_level)
    }
}

/// The more verbose of two filters.
pub open spec fn more_verbose(a: LevelFilter, b: LevelFilter) -> LevelFilter {
    if a.rank() < b.rank() {
        b
    } else {
        a
    }
}

/// The most verbose filter of a list of rules and `default_level`.
pub open spec fn most_verbose(list: Seq<Rule>, default_level: LevelFilter) -> LevelFilter
    decreases list.len(),
{
    if list.len() == 0 {
        default_level
    } else {
        more_verbose(most_verbose(list.drop_last(), default_level), list.last().1)
    }
}

/// The settings in force, with what is computed from them once.
pub struct ActiveConfig {
    /// The settings themselves.
    pub reload: ReloadConfig,
    /// The compiled log-line template.
    pub format: LogFormat,
    /// The most verbose level that any filter lets through.
    pub max_level: LevelFilter,
}

impl ActiveConfig {
    /// Whether the computed parts belong to the settings.
    pub open spec fn well_formed(&self) -> bool {
        &&& self.format@ == compiled(self.reload@.format_template, Seq::empty())
        &&& self.max_level == most_verbose(self.reload@.filters, self.reload@.default_level)
    }

    /// Puts settings in force: compiles the template and finds the most verbose level.
    pub fn from_reload(reload: ReloadConfig) -> (active: Self)
        ensures
            active.reload@ == reload@,
            active.well_formed(),
    {
        let mut max_level = reload.default_level;
        let ghost list = rules(reload.filters@);
        for i in 0..reload.filters.len()
            invariant
                list == rules(reload.filters@),
                max_level == most_verbose(list.take(i as int), reload.default_level),
        {
            max_level = max_level.more_verbose(reload.filters[i].level);
            assert(list.take(i + 1).drop_last() =~= list.take(i as int));
            assert(list[i as int] == reload.filters@[i as int]@);
        }
        assert(list.take(list.len() as int) =~= list);
        ActiveConfig { format: LogFormat::parse(reload.format_template.as_str()), reload, max_level }
    }

    /// What is let through of the records of a target.
    pub fn level_for(&self, target: &str) -> (level: LevelFilter)
        ensures
            level == level_of(self.reload@.filters, target@, self.reload@.default_level),
    {
        let ghost list = self.reload@.filters;
        assert(list.skip(0) =~= list);
        for i in 0..self.reload.filters.len()
            invariant
                list == self.reload@.filters,
                list.len() == self.reload.filters@.len(),
                level_of(list, target@, self.reload.default_level) == level_of(
                    list.skip(i as int),
                    target@,
                    self.reload.default_level,
                ),
        {
            assert(list.skip(i as int)[0] == self.reload.filters@[i as int]@);
            if starts_with(target, self.reload.filters[i].target.as_str()) {
                return self.reload.filters[i].level;
            }
            assert(list.skip(i as int).drop_first() =~= list.skip(i + 1));
        }
        self.reload.default_level
    }

    /// Whether records of this level and target are let through.
    pub fn enabled(&self, level: Level, target: &str) -> (yes: bool)
        ensures
            yes == lets_through(self.reload@, level, target@),
    {
        level.passes(self.level_for(target))
    }
}

/// Whether settings let records of a level and a target through.
pub open spec fn lets_through(settings: Resolved, level: Level, target: Seq<char>) -> bool {
    level.rank() <= level_of(settings.filters, target, settings.default_level).rank()
}

} // verus!
