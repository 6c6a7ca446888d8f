//! Settings from the `RUST_LOG*` environment variables.

use vstd::prelude::*;

use crate::builder::MinimalLoggerConfig;
use crate::config::{
    bounded_capacity, bounded_interval, bounded_template, Destination, Rule, Settings,
};
use crate::level::{filter_named, LevelFilter};
use crate::text::{
    chars_of, decimal_value, find_from, parse_decimal, range_of, split, split_once, string_of, trim,
    trimmed,
};

verus! {

/// The values of the environment variables; `None` stands for one that is not set.
#[derive(Clone, Debug)]
pub struct EnvVars {
    /// `RUST_LOG`: directives, separated by commas.
    pub rust_log: Option<String>,
    /// `RUST_LOG_FILE`: path of the log file.
    pub rust_log_file: Option<String>,
    /// `RUST_LOG_BUFFER_SIZE`: capacity of the output buffer in bytes.
    pub rust_log_buffer_size: Option<String>,
    /// `RUST_LOG_FLUSH_MS`: interval between two periodic flushes in milliseconds.
    pub rust_log_flush_ms: Option<String>,
    /// `RUST_LOG_FORMAT`: log-line template.
    pub rust_log_format: Option<String>,
}

/// A directive that was skipped.
#[derive(Clone, Debug, PartialEq, Eq)]
pub enum SkippedDirective {
    /// What stands behind the `=` is no level.
    UnknownLevel(String),
    /// A directive without `=` that is no level.
    UnknownDirective(String),
}

/// A directive, as a mathematical value.
pub enum Directive {
    /// Nothing but white space.
    Blank,
    /// `level`: the level for records that no filter is for.
    Global(LevelFilter),
    /// `target=level`: a filter.
    Filter(Rule),
    /// `target=text`, where the text is no level.
    UnknownLevel(Seq<char>),
    /// A text without `=` that is no level.
    UnknownDirective(Seq<char>),
}

impl View for SkippedDirective {
    type V = Directive;

    open spec fn view(&self) -> Directive {
        match self {
            SkippedDirective::UnknownLevel(text) => Directive::UnknownLevel(text@),
            SkippedDirective::UnknownDirective(text) => Directive::UnknownDirective(text@),
        }
    }
}

/// The skipped directives of a list, as mathematical values.
pub open spec fn skipped_views(list: Seq<SkippedDirective>) -> Seq<Directive> {
    list.map_values(|skipped: SkippedDirective| skipped@)
}

/// What stands between two commas. White space around a directive, a target or a level
/// does not count.
pub open spec fn directive(part: Seq<char>) -> Directive {
    let text = trim(part);
    if text.len() == 0 {
        Directive::Blank
    } else {
        match split_once(text, '=') {
            Some((target, level)) => match filter_named(trim(level)) {
                Some(filter) => Directive::Filter((trim(target), filter)),
                None => Directive::UnknownLevel(level),
            },
            None => match filter_named(text) {
                Some(filter) => Directive::Global(filter),
                None => Directive::UnknownDirective(text),
            },
        }
    }
}

/// What a list of directives says.
#[verifier::ext_equal]
pub struct Directives {
    /// The last level for records that no filter is for.
    pub level: Option<LevelFilter>,
    /// The filters, in order.
    pub filters: Seq<Rule>,
    /// The skipped directives, in order.
    pub skipped: Seq<Directive>,
}

impl Directives {
    /// What the list says with one more directive at its end.
    pub open spec fn and(self, next: Directive) -> Directives {
        match next {
            Directive::Blank => self,
            Directive::Global(level) => Directives { level: Some(level), ..self },
            Directive::Filter(rule) => Directives { filters: self.filters.push(rule), ..self },
            _ => Directives { skipped: self.skipped.push(next), ..self },
        }
    }
}

/// What the parts between the commas say.
pub open spec fn directives(parts: Seq<Seq<char>>) -> Directives
    decreases parts.len(),
{
    if parts.len() == 0 {
        Directives { level: None, filters: Seq::empty(), skipped: Seq::empty() }
    } else {
        directives(parts.drop_last()).and(directive(parts.last()))
    }
}

/// What the value of `RUST_LOG` says; `info` stands for a variable that is not set.
pub open spec fn rust_log_directives(rust_log: Option<String>) -> Directives {
    match rust_log {
        Some(text) => directives(split(text@, ',')),
        None => directives(split("info"@, ',')),
    }
}

/// The number in the value of a variable, if there is one of at most `max`.
pub open spec fn number_in(value: Option<String>, max: nat) -> Option<nat> {
    match value {
        Some(text) => decimal_value(text@, max),
        None => None,
    }
}

/// The settings that the environment variables ask for. What a variable leaves open or
/// what cannot be read is not set.
pub open spec fn settings_of(env: EnvVars) -> Settings {
    let log = rust_log_directives(env.rust_log);
    Settings {
        level: log.level,
        filters: if log.filters.len() == 0 {
            None
        } else {
            Some(log.filters)
        },
        file: match env.rust_log_file {
            Some(path) => Some(Destination::Path(path@)),
            None => None,
        },
        buf_capacity: match number_in(env.rust_log_buffer_size, usize::MAX as nat) {
            Some(bytes) => Some(bounded_capacity(bytes)),
            None => None,
        },
        flush_ms: match number_in(env.rust_log_flush_ms, u64::MAX as nat) {
            Some(ms) => Some(bounded_interval(ms)),
            None => None,
        },
        format: match env.rust_log_format {
            Some(template) => Some(bounded_template(template@)),
            None => None,
        },
    }
}

/// The character sequences of a list.
pub open spec fn seqs(list: Seq<Vec<char>>) -> Seq<Seq<char>> {
    list.map_values(|part: Vec<char>| part@)
}

/// The parts of `chars` between the occurrences of `separator`.
fn split_chars(chars: &Vec<char>, separator: char) -> (parts: Vec<Vec<char>>)
    ensures
        seqs(parts@) == split(chars@, separator),
{
    let mut parts: Vec<Vec<char>> = Vec::new();
    let mut from: usize = 0;
    assert(chars@.skip(0) =~= chars@);
    assert(split(chars@, separator) =~= seqs(parts@) + split(chars@.skip(0), separator));
    loop
        invariant
            from <= chars@.len(),
            split(chars@, separator) == seqs(parts@) + split(chars@.skip(from as int), separator),
        decreases chars@.len() - from,
    {
        let ghost rest = chars@.skip(from as int);
        let ghost before = parts@;
        let at = find_from(chars, from, separator);
        parts.push(range_of(chars, from, at));
        assert(seqs(parts@) =~= seqs(before).push(rest.take(at - from))) by {
            assert(chars@.subrange(from as int, at as int) =~= rest.take(at - from));
        }
        if at == chars.len() {
            assert(rest.take(at - from) =~= rest);
            assert(seqs(parts@) =~= seqs(before) + split(rest, separator));
            return parts;
        }
        assert(rest.skip(at - from + 1) =~= chars@.skip(at + 1));
        assert(split(chars@, separator) =~= seqs(parts@) + split(
            chars@.skip(at + 1),
            separator,
        ));
        from = at + 1;
    }
}

/// What a directive asks for.
enum Parsed {
    Blank,
    Global(LevelFilter),
    Filter(String, LevelFilter),
    Skipped(SkippedDirective),
}

impl View for Parsed {
    type V = Directive;

    closed spec fn view(&self) -> Directive {
        match self {
            Parsed::Blank => Directive::Blank,
            Parsed::Global(level) => Directive::Global(*level),
            Parsed::Filter(target, level) => Directive::Filter((target@, *level)),
            Parsed::Skipped(skipped) => skipped@,
        }
    }
}

/// Reads what stands between two commas.
fn parse_directive(part: &Vec<char>) -> (parsed: Parsed)
    ensures
        parsed@ == directive(part@),
{
    let text = trimmed(part);
    if text.len() == 0 {
        return Parsed::Blank;
    }
    let at = find_from(&text, 0, '=');
    assert(text@.skip(0) =~= text@);
    if at < text.len() {
        let target = range_of(&text, 0, at);
        let level = range_of(&text, at + 1, text.len());
        assert(target@ =~= text@.take(at as int));
        assert(level@ =~= text@.skip(at + 1));
        match LevelFilter::from_name(string_of(&trimmed(&level)).as_str()) {
            Some(filter) => Parsed::Filter(string_of(&trimmed(&target)), filter),
            None => Parsed::Skipped(SkippedDirective::UnknownLevel(string_of(&level))),
        }
    } else {
        let name = string_of(&text);
        match LevelFilter::from_name(name.as_str()) {
            Some(filter) => Parsed::Global(filter),
            None => Parsed::Skipped(SkippedDirective::UnknownDirective(name)),
        }
    }
}

/// Reads the value of a variable as a number of at most `max`.
fn parse_number(value: &Option<String>, max: u64) -> (number: Option<u64>)
    ensures
        number is Some <==> number_in(*value, max as nat) is Some,
        number matches Some(n) ==> number_in(*value, max as nat) == Some(n as nat),
{
    match value {
        Some(text) => parse_decimal(&chars_of(text.as_str()), max),
        None => None,
    }
}

/// Builds settings from the values of the `RUST_LOG*` environment variables, and lists
/// the directives of `RUST_LOG` that were skipped.
///
/// Where `RUST_LOG` is not set it counts as `info`. Any other variable that is not set
/// or cannot be read leaves its setting unset.
pub fn config_from_env(env: &EnvVars) -> (result: (MinimalLoggerConfig, Vec<SkippedDirective>))
    ensures
        result.0@ == settings_of(*env),
        skipped_views(result.1@) == rust_log_directives(env.rust_log).skipped,
{
    let chars = match &env.rust_log {
        Some(text) => chars_of(text.as_str()),
        None => chars_of("info"),
    };
    let parts = split_chars(&chars, ',');
    let ghost list = seqs(parts@);
    let mut config = MinimalLoggerConfig::new();
    let mut skipped: Vec<SkippedDirective> = Vec::new();
    let ghost mut so_far = directives(list.take(0));
    assert(skipped_views(skipped@) =~= so_far.skipped);
    for i in 0..parts.len()
        invariant
            list == seqs(parts@),
            so_far == directives(list.take(i as int)),
            skipped_views(skipped@) == so_far.skipped,
            config@ == (Settings {
                level: so_far.level,
                filters: if so_far.filters.len() == 0 {
                    None
                } else {
                    Some(so_far.filters)
                },
                file: None,
                buf_capacity: None,
                flush_ms: None,
                format: None,
            }),
    {
        let ghost before = skipped@;
        assert(list.take(i + 1).drop_last() =~= list.take(i as int));
        assert(list[i as int] == parts@[i as int]@);
        let parsed = parse_directive(&parts[i]);
        match parsed {
            Parsed::Blank => {},
            Parsed::Global(level) => {
                config = config.level(level);
            },
            Parsed::Filter(target, level) => {
                config = config.filter(target.as_str(), level);
            },
            Parsed::Skipped(directive) => {
                skipped.push(directive);
                assert(skipped_views(skipped@) =~= skipped_views(before).push(directive@));
            },
        }
        proof {
            so_far = directives(list.take(i + 1));
            assert(so_far.filters.len() == 1 ==> so_far.filters =~= seq![so_far.filters[0]]);
        }
    }
    assert(list.take(list.len() as int) =~= list);
    if let Some(path) = &env.rust_log_file {
        config = config.file(path.as_str());
    }
    if let Some(bytes) = parse_number(&env.rust_log_buffer_size, usize::MAX as u64) {
        config = config.buf_capacity(bytes as usize);
    }
    if let Some(ms) = parse_number(&env.rust_log_flush_ms, u64::MAX) {
        config = config.flush_ms(ms);
    }
    if let Some(template) = &env.rust_log_format {
        config = config.format(template.as_str());
    }
    (config, skipped)
}

} // verus!
