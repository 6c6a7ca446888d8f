//! What the environment variables say.

use vstd::prelude::*;

use crate::config::{
    byte_len, Destination, DEFAULT_LOG_FORMAT, MAX_BUF_CAPACITY, MAX_FLUSH_MS,
    MAX_FORMAT_TEMPLATE_LEN,
};
use crate::env::{
    directive, directives, rust_log_directives, settings_of, skipped_views, Directive, EnvVars,
    SkippedDirective,
};
use crate::laws::template::text_is_split_at_the_first_separator;
use crate::laws::{directives_are_read_one_by_one, filter_directive_is_read_back, is_trimmed};
use crate::level::{filter_named, LevelFilter};
use crate::text::{
    all_digits, decimal_value, digits_value, index_of, is_digit, is_white_space, lemma_index_of,
    split, split_once, trim, trim_end, trim_start,
};

verus! {

proof fn lemma_trim_start(s: Seq<char>)
    ensures
        exists|n: int|
            0 <= n <= s.len() && trim_start(s) == #[trigger] s.skip(n) && forall|i: int|
                0 <= i < n ==> is_white_space(#[trigger] s[i]),
        trim_start(s).len() > 0 ==> !is_white_space(trim_start(s)[0]),
    decreases s.len(),
{
    if s.len() > 0 && is_white_space(s[0]) {
        let rest = s.drop_first();
        lemma_trim_start(rest);
        let n = choose|n: int|
            0 <= n <= rest.len() && trim_start(rest) == #[trigger] rest.skip(n) && forall|i: int|
                0 <= i < n ==> is_white_space(#[trigger] rest[i]);
        assert(rest.skip(n) =~= s.skip(n + 1));
        assert forall|i: int| 0 <= i < n + 1 implies is_white_space(#[trigger] s[i]) by {
            if i > 0 {
                assert(rest[i - 1] == s[i]);
            }
        }
    } else {
        assert(s.skip(0) =~= s);
    }
}

proof fn lemma_trim_end(s: Seq<char>)
    ensures
        exists|n: int|
            0 <= n <= s.len() && trim_end(s) == #[trigger] s.take(n) && forall|i: int|
                n <= i < s.len() ==> is_white_space(#[trigger] s[i]),
        trim_end(s).len() > 0 ==> !is_white_space(trim_end(s).last()),
    decreases s.len(),
{
    if s.len() > 0 && is_white_space(s.last()) {
        let rest = s.drop_last();
        lemma_trim_end(rest);
        let n = choose|n: int|
            0 <= n <= rest.len() && trim_end(rest) == #[trigger] rest.take(n) && forall|i: int|
                n <= i < rest.len() ==> is_white_space(#[trigger] rest[i]);
        assert(rest.take(n) =~= s.take(n));
        assert forall|i: int| n <= i < s.len() implies is_white_space(#[trigger] s[i]) by {
            if i < rest.len() {
                assert(rest[i] == s[i]);
            } else {
                assert(s[i] == s.last());
            }
        }
    } else {
        assert(s.take(s.len() as int) =~= s);
    }
}

/// Trimming takes white space from both ends of a text, all of it and nothing else.
pub proof fn trimming_takes_the_white_space_at_both_ends(s: Seq<char>)
    ensures
        is_trimmed(trim(s)),
        exists|from: int, to: int|
            0 <= from <= to <= s.len() && trim(s) == #[trigger] s.subrange(from, to) && (forall|
                i: int,
            |
                0 <= i < from || to <= i < s.len() ==> is_white_space(#[trigger] s[i])),
{
    lemma_trim_start(s);
    let start = trim_start(s);
    let from = choose|n: int|
        0 <= n <= s.len() && trim_start(s) == #[trigger] s.skip(n) && forall|i: int|
            0 <= i < n ==> is_white_space(#[trigger] s[i]);
    lemma_trim_end(start);
    let n = choose|n: int|
        0 <= n <= start.len() && trim_end(start) == #[trigger] start.take(n) && forall|i: int|
            n <= i < start.len() ==> is_white_space(#[trigger] start[i]);
    let to = from + n;
    assert(start.take(n) =~= s.subrange(from, to));
    assert forall|i: int| 0 <= i < from || to <= i < s.len() implies is_white_space(
        #[trigger] s[i],
    ) by {
        if i >= to {
            assert(start[i - from] == s[i]);
        }
    }
    if trim(s).len() > 0 {
        assert(trim(s)[0] == start[0]);
    }
}

/// What stands between two commas: nothing but white space says nothing; a text without `=`
/// is a level or is not known.
pub proof fn a_directive_without_equals_sign_is_a_level(part: Seq<char>)
    requires
        forall|i: int| 0 <= i < trim(part).len() ==> #[trigger] trim(part)[i] != '=',
    ensures
        trim(part).len() == 0 ==> directive(part) == Directive::Blank,
        trim(part).len() > 0 ==> directive(part) == match filter_named(trim(part)) {
            Some(level) => Directive::Global(level),
            None => Directive::UnknownDirective(trim(part)),
        },
{
    text_is_split_at_the_first_separator(trim(part), '=', Seq::empty());
}

/// What stands between two commas: a text with `=` is a filter for what stands before the
/// first `=`, or its level is not known.
pub proof fn a_directive_with_equals_sign_is_a_filter(
    part: Seq<char>,
    target: Seq<char>,
    level: Seq<char>,
)
    requires
        trim(part) == target + seq!['='] + level,
        forall|i: int| 0 <= i < target.len() ==> #[trigger] target[i] != '=',
    ensures
        directive(part) == match filter_named(trim(level)) {
            Some(filter) => Directive::Filter((trim(target), filter)),
            None => Directive::UnknownLevel(level),
        },
{
    text_is_split_at_the_first_separator(target, '=', level);
}

proof fn lemma_split_push(text: Seq<char>, part: Seq<char>)
    requires
        forall|i: int| 0 <= i < part.len() ==> #[trigger] part[i] != ',',
    ensures
        split(text + seq![','] + part, ',') == split(text, ',').push(part),
    decreases text.len(),
{
    lemma_index_of(text, ',');
    let at = index_of(text, ',');
    let all = text + seq![','] + part;
    directives_are_read_one_by_one(part, Seq::empty());
    if at >= text.len() {
        directives_are_read_one_by_one(text, part);
        assert(split(all, ',') =~= split(text, ',').push(part));
    } else {
        let first = text.take(at);
        let rest = text.skip(at + 1);
        assert forall|i: int| 0 <= i < first.len() implies #[trigger] first[i] != ',' by {
            assert(first[i] == text[i]);
        }
        directives_are_read_one_by_one(first, rest + seq![','] + part);
        assert(all =~= first + seq![','] + (rest + seq![','] + part));
        lemma_split_push(rest, part);
        assert(split(all, ',') =~= split(text, ',').push(part));
    }
}

/// How one more directive at the end of `RUST_LOG` changes the settings: a level takes the
/// place of the level before it, a filter is added to the filters before it, one that
/// cannot be read is added to the skipped ones, and a blank one changes nothing. Each of
/// them leaves everything else as it is.
pub proof fn one_more_directive_changes_only_its_part(
    env: EnvVars,
    text: String,
    more: String,
    part: Seq<char>,
)
    requires
        more@ == text@ + seq![','] + part,
        forall|i: int| 0 <= i < part.len() ==> #[trigger] part[i] != ',',
    ensures
        ({
            let before = settings_of(EnvVars { rust_log: Some(text), ..env });
            let after = settings_of(EnvVars { rust_log: Some(more), ..env });
            let skipped_before = rust_log_directives(Some(text)).skipped;
            let skipped_after = rust_log_directives(Some(more)).skipped;
            &&& after.level == match directive(part) {
                Directive::Global(level) => Some(level),
                _ => before.level,
            }
            &&& after.filters == match directive(part) {
                Directive::Filter(rule) => match before.filters {
                    Some(list) => Some(list.push(rule)),
                    None => Some(seq![rule]),
                },
                _ => before.filters,
            }
            &&& skipped_after == match directive(part) {
                Directive::UnknownLevel(_) | Directive::UnknownDirective(_) => skipped_before.push(
                    directive(part),
                ),
                _ => skipped_before,
            }
            &&& after.file == before.file
            &&& after.buf_capacity == before.buf_capacity
            &&& after.flush_ms == before.flush_ms
            &&& after.format == before.format
        }),
{
    lemma_split_push(text@, part);
    let parts = split(text@, ',');
    assert(parts.push(part).drop_last() =~= parts);
    if let Directive::Filter(rule) = directive(part) {
        let list = directives(parts).filters;
        assert(list.len() == 0 ==> list.push(rule) =~= seq![rule]);
    }
}

/// What a single directive in `RUST_LOG` sets: a level sets the level alone, and a filter
/// sets that filter alone, so that the level stays unset.
pub proof fn a_single_directive_sets_one_thing(env: EnvVars, text: String)
    requires
        env.rust_log == Some(text),
        forall|i: int| 0 <= i < text@.len() ==> #[trigger] text@[i] != ',',
    ensures
        settings_of(env).level == match directive(text@) {
            Directive::Global(level) => Some(level),
            _ => None,
        },
        settings_of(env).filters == match directive(text@) {
            Directive::Filter(rule) => Some(seq![rule]),
            _ => None,
        },
        rust_log_directives(env.rust_log).skipped == match directive(text@) {
            Directive::UnknownLevel(_) | Directive::UnknownDirective(_) => seq![directive(text@)],
            _ => Seq::empty(),
        },
{
    directives_are_read_one_by_one(text@, Seq::empty());
    let parts = split(text@, ',');
    let none = Seq::<Seq<char>>::empty();
    assert(parts =~= none.push(text@));
    assert(parts.drop_last() =~= none);
    assert(directives(parts) == directives(none).and(directive(text@)));
    if let Directive::Filter(rule) = directive(text@) {
        assert(settings_of(env).filters->Some_0 =~= seq![rule]);
    }
    assert(rust_log_directives(env.rust_log).skipped =~= match directive(text@) {
        Directive::UnknownLevel(_) | Directive::UnknownDirective(_) => seq![directive(text@)],
        _ => Seq::empty(),
    });
}

proof fn lemma_level_of_directives(parts: Seq<Seq<char>>, k: int)
    ensures
        (forall|i: int| 0 <= i < parts.len() ==> !(directive(#[trigger] parts[i]) is Global))
            ==> directives(parts).level is None,
        0 <= k < parts.len() && directive(parts[k]) is Global && (forall|i: int|
            k < i < parts.len() ==> !(directive(#[trigger] parts[i]) is Global)) ==> Directive::Global(
            directives(parts).level->Some_0,
        ) == directive(parts[k]) && directives(parts).level is Some,
    decreases parts.len(),
{
    if parts.len() > 0 {
        let head = parts.drop_last();
        lemma_level_of_directives(head, k);
        assert(parts[parts.len() - 1] == parts.last());
        assert forall|i: int| 0 <= i < head.len() implies #[trigger] head[i] == parts[i] by {}
        if forall|i: int| 0 <= i < parts.len() ==> !(directive(#[trigger] parts[i]) is Global) {
            assert forall|i: int| 0 <= i < head.len() implies !(directive(
                #[trigger] head[i],
            ) is Global) by {
                assert(head[i] == parts[i]);
            }
        }
        if 0 <= k < head.len() && (forall|i: int|
            k < i < parts.len() ==> !(directive(#[trigger] parts[i]) is Global)) {
            assert forall|i: int| k < i < head.len() implies !(directive(
                #[trigger] head[i],
            ) is Global) by {
                assert(head[i] == parts[i]);
            }
            assert(head[k] == parts[k]);
        }
    }
}

/// Whether what stands between two commas is a level and nothing else.
pub open spec fn is_bare_level(part: Seq<char>, level: LevelFilter) -> bool {
    &&& forall|i: int| 0 <= i < trim(part).len() ==> #[trigger] trim(part)[i] != '='
    &&& filter_named(trim(part)) == Some(level)
}

proof fn lemma_bare_level(part: Seq<char>, level: LevelFilter)
    ensures
        is_bare_level(part, level) <==> directive(part) == Directive::Global(level),
{
    let text = trim(part);
    lemma_index_of(text, '=');
    if forall|i: int| 0 <= i < text.len() ==> #[trigger] text[i] != '=' {
        a_directive_without_equals_sign_is_a_level(part);
        if text.len() == 0 {
            reveal_strlit("OFF");
            reveal_strlit("ERROR");
            reveal_strlit("WARN");
            reveal_strlit("INFO");
            reveal_strlit("DEBUG");
            reveal_strlit("TRACE");
        }
    } else {
        let i = choose|i: int| 0 <= i < text.len() && #[trigger] text[i] == '=';
        assert(text[i] == '=');
        assert(split_once(text, '=') is Some);
    }
}

/// The level that `RUST_LOG` sets is the last one that stands alone between commas; where
/// none does, no level is set, whatever filters there are.
pub proof fn the_last_bare_level_is_set(env: EnvVars, text: String, k: int, level: LevelFilter)
    requires
        env.rust_log == Some(text),
    ensures
        (forall|i: int, l: LevelFilter|
            0 <= i < split(text@, ',').len() ==> !#[trigger] is_bare_level(
                split(text@, ',')[i],
                l,
            )) ==> settings_of(env).level is None,
        0 <= k < split(text@, ',').len() && is_bare_level(split(text@, ',')[k], level) && (forall|
            i: int,
            l: LevelFilter,
        |
            k < i < split(text@, ',').len() ==> !#[trigger] is_bare_level(split(text@, ',')[i], l))
            ==> settings_of(env).level == Some(level),
{
    let parts = split(text@, ',');
    lemma_level_of_directives(parts, k);
    if forall|i: int, l: LevelFilter|
        0 <= i < parts.len() ==> !#[trigger] is_bare_level(parts[i], l) {
        assert forall|i: int| 0 <= i < parts.len() implies !(directive(
            #[trigger] parts[i],
        ) is Global) by {
            if let Directive::Global(l) = directive(parts[i]) {
                lemma_bare_level(parts[i], l);
            }
        }
    }
    if 0 <= k < parts.len() && is_bare_level(parts[k], level) && (forall|i: int, l: LevelFilter|
        k < i < parts.len() ==> !#[trigger] is_bare_level(parts[i], l)) {
        lemma_bare_level(parts[k], level);
        assert forall|i: int| k < i < parts.len() implies !(directive(
            #[trigger] parts[i],
        ) is Global) by {
            if let Directive::Global(l) = directive(parts[i]) {
                lemma_bare_level(parts[i], l);
            }
        }
    }
}

/// A filter alone sets no level.
pub proof fn a_filter_alone_sets_no_level(
    env: EnvVars,
    text: String,
    target: Seq<char>,
    level: LevelFilter,
)
    requires
        env.rust_log == Some(text),
        text@ == target + seq!['='] + level.name(),
        is_trimmed(target),
        forall|i: int|
            0 <= i < target.len() ==> #[trigger] target[i] != '=' && target[i] != ',',
    ensures
        settings_of(env).level is None,
        settings_of(env).filters == Some(seq![(target, level)]),
        rust_log_directives(env.rust_log).skipped.len() == 0,
{
    reveal_strlit("OFF");
    reveal_strlit("ERROR");
    reveal_strlit("WARN");
    reveal_strlit("INFO");
    reveal_strlit("DEBUG");
    reveal_strlit("TRACE");
    let name = level.name();
    assert forall|i: int| 0 <= i < text@.len() implies #[trigger] text@[i] != ',' by {
        if i < target.len() {
            assert(text@[i] == target[i]);
        } else if i > target.len() {
            assert(text@[i] == name[i - target.len() - 1]);
        }
    }
    filter_directive_is_read_back(target, level);
    a_single_directive_sets_one_thing(env, text);
}

/// Digits are read from the left: each one more multiplies by ten and adds its value.
pub proof fn digits_are_read_from_the_left(s: Seq<char>, c: char)
    requires
        is_digit(c),
    ensures
        digits_value(Seq::empty()) == 0,
        digits_value(s.push(c)) == 10 * digits_value(s) + (c as int - '0' as int),
        '0' <= c <= '9',
{
    assert(s.push(c).drop_last() =~= s);
}

/// A text is a number exactly where it is made of digits, at least one, with a `+` before
/// them or not, and the number is not too large.
pub proof fn only_decimal_numbers_are_read(digits: Seq<char>, max: nat)
    requires
        digits.len() > 0 ==> digits[0] != '+',
    ensures
        digits.len() > 0 && all_digits(digits) && digits_value(digits) <= max ==> {
            &&& decimal_value(digits, max) == Some(digits_value(digits))
            &&& decimal_value(seq!['+'] + digits, max) == Some(digits_value(digits))
        },
        !(digits.len() > 0 && all_digits(digits) && digits_value(digits) <= max) ==> {
            &&& decimal_value(digits, max) is None
            &&& decimal_value(seq!['+'] + digits, max) is None
        },
        decimal_value(seq!['+', '+'] + digits, max) is None,
{
    assert((seq!['+'] + digits).drop_first() =~= digits);
    let twice = seq!['+', '+'] + digits;
    assert(twice.drop_first()[0] == '+');
    assert(!is_digit(twice.drop_first()[0]));
}

/// The other variables set their own setting each: a path as it is, a number up to its
/// bound, a template that is not too long; one that is not set or cannot be read sets
/// nothing.
pub proof fn every_other_variable_sets_its_own_setting(env: EnvVars)
    ensures
        env.rust_log_file matches Some(path) ==> settings_of(env).file == Some(
            Destination::Path(path@),
        ),
        env.rust_log_file is None ==> settings_of(env).file is None,
        env.rust_log_buffer_size is None ==> settings_of(env).buf_capacity is None,
        env.rust_log_buffer_size matches Some(text) ==> match decimal_value(
            text@,
            usize::MAX as nat,
        ) {
            Some(n) => settings_of(env).buf_capacity == Some(
                if n <= MAX_BUF_CAPACITY {
                    n as usize
                } else {
                    MAX_BUF_CAPACITY
                },
            ),
            None => settings_of(env).buf_capacity is None,
        },
        env.rust_log_flush_ms is None ==> settings_of(env).flush_ms is None,
        env.rust_log_flush_ms matches Some(text) ==> match decimal_value(text@, u64::MAX as nat) {
            Some(n) => settings_of(env).flush_ms == Some(
                if n <= MAX_FLUSH_MS {
                    n as u64
                } else {
                    MAX_FLUSH_MS
                },
            ),
            None => settings_of(env).flush_ms is None,
        },
        env.rust_log_format is None ==> settings_of(env).format is None,
        env.rust_log_format matches Some(template) ==> settings_of(env).format == Some(
            if byte_len(template@) <= MAX_FORMAT_TEMPLATE_LEN {
                template@
            } else {
                DEFAULT_LOG_FORMAT@
            },
        ),
{
}

/// What is skipped is reported as it was written.
pub proof fn skipped_directives_are_reported(list: Seq<SkippedDirective>, i: int, text: String)
    requires
        0 <= i < list.len(),
    ensures
        SkippedDirective::UnknownLevel(text)@ == Directive::UnknownLevel(text@),
        SkippedDirective::UnknownDirective(text)@ == Directive::UnknownDirective(text@),
        skipped_views(list).len() == list.len(),
        skipped_views(list)[i] == list[i]@,
{
}

} // verus!
