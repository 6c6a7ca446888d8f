//! Levels of log records and the filters that let them pass.

use vstd::prelude::*;

verus! {

/// The severity of a log record.
#[derive(Clone, Copy, Debug, PartialEq, Eq, Structural)]
pub enum Level {
    Error,
    Warn,
    Info,
    Debug,
    Trace,
}

/// The most verbose level that is let through; `Off` lets nothing through.
#[derive(Clone, Copy, Debug, PartialEq, Eq, Structural)]
pub enum LevelFilter {
    Off,
    Error,
    Warn,
    Info,
    Debug,
    Trace,
}

/// The error of the `log` crate for a text that names no level.
#[verifier::external_type_specification]
#[verifier::external_body]
pub struct ExParseLevelError(log::ParseLevelError);

impl Level {
    /// The place of the level in the order of verbosity.
    pub open spec fn rank(self) -> int {
        match self {
            Level::Error => 1,
            Level::Warn => 2,
            Level::Info => 3,
            Level::Debug => 4,
            Level::Trace => 5,
        }
    }

    /// The name under which the level is shown.
    pub open spec fn name(self) -> Seq<char> {
        match self {
            Level::Error => "ERROR"@,
            Level::Warn => "WARN"@,
            Level::Info => "INFO"@,
            Level::Debug => "DEBUG"@,
            Level::Trace => "TRACE"@,
        }
    }

    /// The filter that lets this level and all less verbose ones through.
    pub open spec fn as_filter(self) -> LevelFilter {
        match self {
            Level::Error => LevelFilter::Error,
            Level::Warn => LevelFilter::Warn,
            Level::Info => LevelFilter::Info,
            Level::Debug => LevelFilter::Debug,
            Level::Trace => LevelFilter::Trace,
        }
    }

    /// The filter that lets this level and all less verbose ones through.
    pub fn to_level_filter(self) -> (filter: LevelFilter)
        ensures
            filter == self.as_filter(),
    {
        match self {
            Level::Error => LevelFilter::Error,
            Level::Warn => LevelFilter::Warn,
            Level::Info => LevelFilter::Info,
            Level::Debug => LevelFilter::Debug,
            Level::Trace => LevelFilter::Trace,
        }
    }

    /// Whether `filter` lets records of this level through.
    pub fn passes(self, filter: LevelFilter) -> (yes: bool)
        ensures
            yes == (self.rank() <= filter.rank()),
    {
        self.to_level_filter().verbosity() <= filter.verbosity()
    }
}

impl LevelFilter {
    /// The place of the filter in the order of verbosity.
    pub open spec fn rank(self) -> int {
        match self {
            LevelFilter::Off => 0,
            LevelFilter::Error => 1,
            LevelFilter::Warn => 2,
            LevelFilter::Info => 3,
            LevelFilter::Debug => 4,
            LevelFilter::Trace => 5,
        }
    }

    /// The name under which the filter is written in settings.
    pub open spec fn name(self) -> Seq<char> {
        match self {
            LevelFilter::Off => "OFF"@,
            LevelFilter::Error => "ERROR"@,
            LevelFilter::Warn => "WARN"@,
            LevelFilter::Info => "INFO"@,
            LevelFilter::Debug => "DEBUG"@,
            LevelFilter::Trace => "TRACE"@,
        }
    }

    /// The place of the filter in the order of verbosity.
    fn verbosity(self) -> (rank: u8)
        ensures
            rank == self.rank(),
    {
        match self {
            LevelFilter::Off => 0,
            LevelFilter::Error => 1,
            LevelFilter::Warn => 2,
            LevelFilter::Info => 3,
            LevelFilter::Debug => 4,
            LevelFilter::Trace => 5,
        }
    }

    /// The more verbose of two filters.
    pub fn more_verbose(self, other: LevelFilter) -> (filter: LevelFilter)
        ensures
            filter == (if self.rank() < other.rank() {
                other
            } else {
                self
            }),
    {
        if self.verbosity() < other.verbosity() {
            other
        } else {
            self
        }
    }

    /// The filter that `text` names, in upper or lower case.
    pub fn from_name(text: &str) -> (filter: Option<LevelFilter>)
        ensures
            filter == filter_named(text@),
    {
        match parse_level_filter(text) {
            Ok(filter) => Some(filter),
            Err(_) => None,
        }
    }
}

/// `c` in upper case, where it is one of the letters from `a` to `z`.
pub open spec fn ascii_upper(c: char) -> char {
    if 'a' <= c <= 'z' {
        (c as int - 32) as char
    } else {
        c
    }
}

/// Whether two texts differ at most in the case of the letters from `a` to `z`.
pub open spec fn same_ignoring_case(a: Seq<char>, b: Seq<char>) -> bool {
    &&& a.len() == b.len()
    &&& forall|i: int| 0 <= i < a.len() ==> ascii_upper(#[trigger] a[i]) == ascii_upper(b[i])
}

/// The filter that a text names, in upper or lower case.
pub open spec fn filter_named(text: Seq<char>) -> Option<LevelFilter> {
    if same_ignoring_case(text, LevelFilter::Off.name()) {
        Some(LevelFilter::Off)
    } else if same_ignoring_case(text, LevelFilter::Error.name()) {
        Some(LevelFilter::Error)
    } else if same_ignoring_case(text, LevelFilter::Warn.name()) {
        Some(LevelFilter::Warn)
    } else if same_ignoring_case(text, LevelFilter::Info.name()) {
        Some(LevelFilter::Info)
    } else if same_ignoring_case(text, LevelFilter::Debug.name()) {
        Some(LevelFilter::Debug)
    } else if same_ignoring_case(text, LevelFilter::Trace.name()) {
        Some(LevelFilter::Trace)
    } else {
        None
    }
}

/// `<log::LevelFilter as FromStr>::from_str`: it succeeds on the names `OFF`,
/// `ERROR`, `WARN`, `INFO`, `DEBUG` and `TRACE`, whatever the case of their letters,
/// gives the filter of that name, and fails on every other text.
#[verifier::external_body]
fn parse_level_filter(text: &str) -> (filter: Result<LevelFilter, log::ParseLevelError>)
    ensures
        filter is Ok <==> filter_named(text@) is Some,
        filter matches Ok(f) ==> filter_named(text@) == Some(f),
{
    match text.parse::<log::LevelFilter>() {
        Ok(log::LevelFilter::Off) => Ok(LevelFilter::Off),
        Ok(log::LevelFilter::Error) => Ok(LevelFilter::Error),
        Ok(log::LevelFilter::Warn) => Ok(LevelFilter::Warn),
        Ok(log::LevelFilter::Info) => Ok(LevelFilter::Info),
        Ok(log::LevelFilter::Debug) => Ok(LevelFilter::Debug),
        Ok(log::LevelFilter::Trace) => Ok(LevelFilter::Trace),
        Err(error) => Err(error),
    }
}

/// `<log::Level as Display>::fmt`, through `to_string`: the name of the level in
/// upper case.
#[verifier::external_body]
pub(crate) fn level_text(level: Level) -> (text: String)
    ensures
        text@ == level.name(),
{
    match level {
        Level::Error => log::Level::Error.to_string(),
        Level::Warn => log::Level::Warn.to_string(),
        Level::Info => log::Level::Info.to_string(),
        Level::Debug => log::Level::Debug.to_string(),
        Level::Trace => log::Level::Trace.to_string(),
    }
}

/// The name of every filter is read back as that filter.
pub proof fn filter_name_is_read_back(filter: LevelFilter)
    ensures
        filter_named(filter.name()) == Some(filter),
{
    reveal_strlit("OFF");
    reveal_strlit("ERROR");
    reveal_strlit("WARN");
    reveal_strlit("INFO");
    reveal_strlit("DEBUG");
    reveal_strlit("TRACE");
    assert("WARN"@[0] != "INFO"@[0]);
    assert("ERROR"@[0] != "DEBUG"@[0]);
    assert("ERROR"@[0] != "TRACE"@[0]);
    assert("DEBUG"@[0] != "TRACE"@[0]);
}

/// The case of the letters of a name makes no difference.
pub proof fn filter_names_ignore_case(a: Seq<char>, b: Seq<char>)
    requires
        same_ignoring_case(a, b),
    ensures
        filter_named(a) == filter_named(b),
{
    assert forall|name: Seq<char>| same_ignoring_case(a, name) == same_ignoring_case(b, name) by {
        if same_ignoring_case(a, name) {
            assert forall|i: int| 0 <= i < b.len() implies ascii_upper(#[trigger] b[i])
                == ascii_upper(name[i]) by {
                assert(ascii_upper(a[i]) == ascii_upper(b[i]));
            }
        }
        if same_ignoring_case(b, name) {
            assert forall|i: int| 0 <= i < a.len() implies ascii_upper(#[trigger] a[i])
                == ascii_upper(name[i]) by {
                assert(ascii_upper(b[i]) == ascii_upper(name[i]));
            }
        }
    }
}

/// `Off` lets nothing through, and `Trace` everything.
pub proof fn off_and_trace_are_the_extremes(level: Level)
    ensures
        !(level.rank() <= LevelFilter::Off.rank()),
        level.rank() <= LevelFilter::Trace.rank(),
        level.rank() == level.as_filter().rank(),
{
}

} // verus!
