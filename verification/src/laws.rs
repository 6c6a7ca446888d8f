//! What holds of templates, settings and running loggers as a whole.

pub mod env;
pub mod filters;
pub mod lines;
pub mod reload;
pub mod settings;
pub mod template;
pub mod time;

use vstd::prelude::*;
use vstd::utf8::encode_scalar;

use crate::builder::{lemma_default_template_is_short, resolves};
use crate::clock::UtcTime;
use crate::config::{
    by_specificity, byte_len, defaults, insert_rule, level_of, lets_through, most_verbose, unset,
    Destination, Resolved, Rule, Settings,
};
use crate::env::{
    directive, directives, number_in, rust_log_directives, settings_of, Directive, Directives,
    EnvVars,
};
use crate::format::{
    after_brace, compiled, line_text, literal_pieces, padded, pieces_text, placeholder, shows,
    spaces, with_line_feed, Align, FormatSpec, LogField, Piece, MAX_FORMAT_FIELD_WIDTH,
};
use crate::level::{
    filter_name_is_read_back, filter_names_ignore_case, same_ignoring_case, Level, LevelFilter,
};
use crate::logger::{leads, wanted_interval, Output, ReloadPlan, Runtime, WritePlan};
use crate::record::Record;
use crate::text::{
    all_digits, decimal, decimal_value, digits_value, index_of, is_digit, is_white_space,
    last_digit, lemma_index_of, split, split_once, trim_end, trim_start, without_plus,
};

verus! {

/// `text` as it is written in a template: with every brace doubled.
pub open spec fn escaped(text: Seq<char>) -> Seq<char>
    decreases text.len(),
{
    if text.len() == 0 {
        text
    } else if text[0] == '{' || text[0] == '}' {
        seq![text[0], text[0]] + escaped(text.drop_first())
    } else {
        seq![text[0]] + escaped(text.drop_first())
    }
}

pub(crate) proof fn lemma_escaped_prefix(text: Seq<char>, rest: Seq<char>, literal: Seq<char>)
    ensures
        compiled(escaped(text) + rest, literal) == compiled(rest, literal + text),
    decreases text.len(),
{
    let s = escaped(text) + rest;
    if text.len() == 0 {
        assert(s =~= rest);
        assert(literal + text =~= literal);
    } else {
        let c = text[0];
        let tail = text.drop_first();
        assert(literal.push(c) + tail =~= literal + text);
        lemma_escaped_prefix(tail, rest, literal.push(c));
        assert(s[0] == c);
        if c == '{' || c == '}' {
            assert(s[1] == c);
            assert(s.skip(2) =~= escaped(tail) + rest);
        } else {
            assert(s.skip(1) =~= escaped(tail) + rest);
        }
    }
}

/// A template reads as literal text, a placeholder, and the rest: literal text with its
/// braces doubled stands for itself, and the text between single braces is the
/// placeholder that it names, whatever follows.
pub proof fn template_is_read_piece_by_piece(text: Seq<char>, token: Seq<char>, rest: Seq<char>)
    requires
        forall|i: int| 0 <= i < token.len() ==> #[trigger] token[i] != '}',
        token.len() > 0 ==> token[0] != '{',
    ensures
        compiled(escaped(text) + seq!['{'] + token + seq!['}'] + rest, Seq::empty())
            == literal_pieces(text) + seq![placeholder(token)] + compiled(rest, Seq::empty()),
{
    let tail = seq!['{'] + token + seq!['}'] + rest;
    assert(escaped(text) + seq!['{'] + token + seq!['}'] + rest =~= escaped(text) + tail);
    lemma_escaped_prefix(text, tail, Seq::empty());
    assert(Seq::<char>::empty() + text =~= text);
    let body = tail.skip(1);
    assert(body =~= token + seq!['}'] + rest);
    lemma_index_of(body, '}');
    assert(body[token.len() as int] == '}');
    if index_of(body, '}') < token.len() {
        assert(body[index_of(body, '}')] == token[index_of(body, '}')]);
    }
    assert(index_of(body, '}') == token.len());
    assert(body.take(token.len() as int) =~= token);
    assert(body.skip(token.len() as int + 1) =~= rest);
    assert(after_brace(body) == rest);
    assert(tail[0] == '{');
    assert(tail.len() > 1 && tail[1] != '{') by {
        if token.len() > 0 {
            assert(tail[1] == token[0]);
        } else {
            assert(tail[1] == '}');
        }
    }
}

/// Text with its braces doubled is shown as it is, with a line feed at its end.
pub proof fn escaped_text_is_shown_as_it_is(text: Seq<char>, record: Record, clock: Seq<UtcTime>)
    ensures
        compiled(escaped(text), Seq::empty()) == literal_pieces(text),
        line_text(compiled(escaped(text), Seq::empty()), record, clock) == with_line_feed(text),
{
    lemma_escaped_prefix(text, Seq::empty(), Seq::empty());
    assert(escaped(text) + Seq::<char>::empty() =~= escaped(text));
    assert(Seq::<char>::empty() + text =~= text);
    let pieces = literal_pieces(text);
    if text.len() > 0 {
        assert(pieces.drop_last() =~= Seq::<Piece>::empty());
        assert(pieces_text(pieces.drop_last(), record, clock) =~= Seq::<char>::empty());
        assert(pieces_text(pieces, record, clock) =~= text);
    } else {
        assert(pieces_text(pieces, record, clock) =~= text);
    }
}

/// No template asks for a field that is wider than the bound.
pub proof fn field_widths_are_bounded(template: Seq<char>, literal: Seq<char>)
    ensures
        forall|i: int|
            #![trigger compiled(template, literal)[i]]
            0 <= i < compiled(template, literal).len() ==> (compiled(
                template,
                literal,
            )[i] matches Piece::Placeholder { spec, .. } ==> (spec.width matches Some(width)
                ==> width <= MAX_FORMAT_FIELD_WIDTH)),
    decreases template.len(),
{
    let s = template;
    if s.len() == 0 {
    } else if s[0] == '{' && s.len() > 1 && s[1] == '{' {
        field_widths_are_bounded(s.skip(2), literal.push('{'));
    } else if s[0] == '{' {
        let body = s.skip(1);
        lemma_index_of(body, '}');
        let rest = after_brace(body);
        field_widths_are_bounded(rest, Seq::empty());
        let token = body.take(index_of(body, '}'));
        let head = literal_pieces(literal) + seq![placeholder(token)];
        let tail = compiled(rest, Seq::empty());
        assert(compiled(s, literal) == head + tail);
        assert forall|i: int| 0 <= i < compiled(s, literal).len() implies (#[trigger] compiled(
            s,
            literal,
        )[i] matches Piece::Placeholder { spec, .. } ==> (spec.width matches Some(width) ==> width
            <= MAX_FORMAT_FIELD_WIDTH)) by {
            if i >= head.len() {
                assert(compiled(s, literal)[i] == tail[i - head.len()]);
            } else {
                assert(compiled(s, literal)[i] == head[i]);
            }
        }
    } else if s[0] == '}' && s.len() > 1 && s[1] == '}' {
        field_widths_are_bounded(s.skip(2), literal.push('}'));
    } else {
        field_widths_are_bounded(s.skip(1), literal.push(s[0]));
    }
}

/// Padding widens a value to the width that is asked for, never cuts it, and adds spaces
/// on one side only.
pub proof fn padding_keeps_the_value(value: Seq<char>, spec: FormatSpec)
    ensures
        spec.width is None ==> padded(value, spec) == value,
        spec.width matches Some(width) ==> padded(value, spec).len() == if value.len() < width {
            width as nat
        } else {
            value.len()
        },
        spec.align == Align::Left ==> padded(value, spec) == value + spaces(
            (padded(value, spec).len() - value.len()) as nat,
        ),
        spec.align == Align::Right ==> padded(value, spec) == spaces(
            (padded(value, spec).len() - value.len()) as nat,
        ) + value,
{
    assert(value + spaces(0) =~= value);
    assert(spaces(0) + value =~= value);
}

/// A field that a template does not show is shown neither by its last piece nor by the
/// pieces before it.
proof fn lemma_shows_drop_last(pieces: Seq<Piece>, shown: LogField)
    requires
        pieces.len() > 0,
        !shows(pieces, shown),
    ensures
        !shows(pieces.drop_last(), shown),
        pieces.last() matches Piece::Placeholder { field, .. } ==> field != shown,
{
    let head = pieces.drop_last();
    if shows(head, shown) {
        let i = choose|i: int|
            0 <= i < head.len() && (#[trigger] head[i] matches Piece::Placeholder { field, .. }
                && field == shown);
        assert(pieces[i] == head[i]);
    }
    assert(pieces[pieces.len() - 1] == pieces.last());
}

/// The time of rendering matters only where the template shows it.
pub proof fn time_matters_only_where_it_is_shown(
    pieces: Seq<Piece>,
    record: Record,
    clock: Seq<UtcTime>,
    other: Seq<UtcTime>,
)
    requires
        !shows(pieces, LogField::Timestamp),
    ensures
        line_text(pieces, record, clock) == line_text(pieces, record, other),
{
    lemma_time_matters(pieces, record, clock, other);
}

proof fn lemma_time_matters(
    pieces: Seq<Piece>,
    record: Record,
    clock: Seq<UtcTime>,
    other: Seq<UtcTime>,
)
    requires
        !shows(pieces, LogField::Timestamp),
    ensures
        pieces_text(pieces, record, clock) == pieces_text(pieces, record, other),
    decreases pieces.len(),
{
    if pieces.len() > 0 {
        lemma_shows_drop_last(pieces, LogField::Timestamp);
        lemma_time_matters(pieces.drop_last(), record, clock, other);
    }
}

/// The message of a record matters only where the template shows it.
pub proof fn message_matters_only_where_it_is_shown(
    pieces: Seq<Piece>,
    record: Record,
    args: String,
    clock: Seq<UtcTime>,
)
    requires
        !shows(pieces, LogField::Args),
    ensures
        line_text(pieces, (Record { args, ..record }), clock) == line_text(pieces, record, clock),
{
    lemma_message_matters(pieces, record, args, clock);
}

proof fn lemma_message_matters(
    pieces: Seq<Piece>,
    record: Record,
    args: String,
    clock: Seq<UtcTime>,
)
    requires
        !shows(pieces, LogField::Args),
    ensures
        pieces_text(pieces, (Record { args, ..record }), clock) == pieces_text(
            pieces,
            record,
            clock,
        ),
    decreases pieces.len(),
{
    if pieces.len() > 0 {
        lemma_shows_drop_last(pieces, LogField::Args);
        lemma_message_matters(pieces.drop_last(), record, args, clock);
    }
}

/// Whether rules stand in the order of decreasing length of their targets.
pub open spec fn longest_first(list: Seq<Rule>) -> bool {
    forall|i: int, j: int|
        0 <= i < j < list.len() ==> byte_len((#[trigger] list[i]).0) >= byte_len(
            (#[trigger] list[j]).0,
        )
}

proof fn lemma_insert_rule(list: Seq<Rule>, rule: Rule)
    ensures
        insert_rule(list, rule).len() == list.len() + 1,
        insert_rule(list, rule).to_multiset() == list.to_multiset().insert(rule),
        longest_first(list) ==> longest_first(insert_rule(list, rule)),
    decreases list.len(),
{
    broadcast use vstd::seq_lib::group_to_multiset_ensures;

    let new = insert_rule(list, rule);
    if list.len() == 0 || byte_len(list.last().0) >= byte_len(rule.0) {
    } else {
        let head = list.drop_last();
        let last = list.last();
        lemma_insert_rule(head, rule);
        assert(list =~= head.push(last));
        assert(new.to_multiset() =~= list.to_multiset().insert(rule));
        if longest_first(list) {
            assert(longest_first(head)) by {
                assert forall|i: int, j: int| 0 <= i < j < head.len() implies byte_len(
                    (#[trigger] head[i]).0,
                ) >= byte_len((#[trigger] head[j]).0) by {
                    assert(head[i] == list[i] && head[j] == list[j]);
                }
            }
            let front = insert_rule(head, rule);
            assert forall|i: int| 0 <= i < front.len() implies byte_len((#[trigger] front[i]).0)
                >= byte_len(last.0) by {
                assert(front.to_multiset().count(front[i]) > 0);
                if front[i] != rule {
                    assert(head.to_multiset().count(front[i]) > 0);
                    assert(head.contains(front[i]));
                    let k = choose|k: int| 0 <= k < head.len() && head[k] == front[i];
                    assert(list[k] == head[k]);
                    assert(list[list.len() - 1] == last);
                }
            }
        }
    }
}

/// The rules are tried from the longest target to the shortest, and no rule is lost or
/// made up on the way.
pub proof fn filters_are_tried_longest_first(list: Seq<Rule>)
    ensures
        longest_first(by_specificity(list)),
        by_specificity(list).to_multiset() == list.to_multiset(),
    decreases list.len(),
{
    broadcast use vstd::seq_lib::group_to_multiset_ensures;

    if list.len() > 0 {
        filters_are_tried_longest_first(list.drop_last());
        lemma_insert_rule(by_specificity(list.drop_last()), list.last());
        assert(list =~= list.drop_last().push(list.last()));
    }
}

pub(crate) proof fn lemma_same_members(list: Seq<Rule>, rule: Rule)
    ensures
        by_specificity(list).contains(rule) <==> list.contains(rule),
{
    broadcast use vstd::seq_lib::group_to_multiset_ensures;

    filters_are_tried_longest_first(list);
    assert(list.contains(rule) <==> list.to_multiset().count(rule) > 0);
    assert(by_specificity(list).contains(rule) <==> by_specificity(list).to_multiset().count(rule)
        > 0);
}

pub(crate) proof fn lemma_byte_len_concat(a: Seq<char>, b: Seq<char>)
    ensures
        byte_len(a + b) == byte_len(a) + byte_len(b),
    decreases a.len(),
{
    if a.len() == 0 {
        assert(a + b =~= b);
    } else {
        assert((a + b).drop_first() =~= a.drop_first() + b);
        lemma_byte_len_concat(a.drop_first(), b);
    }
}

proof fn lemma_shorter_prefix(a: Seq<char>, b: Seq<char>, text: Seq<char>)
    requires
        a.is_prefix_of(text),
        b.is_prefix_of(text),
        byte_len(a) <= byte_len(b),
    ensures
        a.is_prefix_of(b),
{
    if a.len() > b.len() {
        let rest = a.skip(b.len() as int);
        assert(a =~= b + rest);
        lemma_byte_len_concat(b, rest);
        assert(encode_scalar(rest[0] as u32).len() >= 1);
        assert(byte_len(rest) >= 1);
    } else {
        assert(a =~= b.take(a.len() as int));
    }
}

pub(crate) proof fn lemma_level_of(list: Seq<Rule>, target: Seq<char>, default_level: LevelFilter)
    ensures
        (forall|i: int| 0 <= i < list.len() ==> !(#[trigger] list[i]).0.is_prefix_of(target))
            ==> level_of(list, target, default_level) == default_level,
        (exists|i: int| 0 <= i < list.len() && (#[trigger] list[i]).0.is_prefix_of(target)) ==> (
        exists|k: int|
            #![trigger list[k]]
            0 <= k < list.len() && list[k].0.is_prefix_of(target) && level_of(
                list,
                target,
                default_level,
            ) == list[k].1 && forall|i: int|
                0 <= i < k ==> !(#[trigger] list[i]).0.is_prefix_of(target)),
    decreases list.len(),
{
    if list.len() > 0 && !list[0].0.is_prefix_of(target) {
        let rest = list.drop_first();
        lemma_level_of(rest, target, default_level);
        if exists|i: int| 0 <= i < list.len() && (#[trigger] list[i]).0.is_prefix_of(target) {
            let i = choose|i: int|
                0 <= i < list.len() && (#[trigger] list[i]).0.is_prefix_of(target);
            assert(rest[i - 1].0.is_prefix_of(target));
            let k = choose|k: int|
                #![trigger rest[k]]
                0 <= k < rest.len() && rest[k].0.is_prefix_of(target) && level_of(
                    rest,
                    target,
                    default_level,
                ) == rest[k].1 && forall|i: int|
                    0 <= i < k ==> !(#[trigger] rest[i]).0.is_prefix_of(target);
            assert(list[k + 1] == rest[k]);
            assert forall|i: int| 0 <= i < k + 1 implies !(#[trigger] list[i]).0.is_prefix_of(
                target,
            ) by {
                if i > 0 {
                    assert(rest[i - 1] == list[i]);
                }
            }
        } else {
            assert forall|i: int| 0 <= i < rest.len() implies !(#[trigger] rest[i]).0.is_prefix_of(
                target,
            ) by {
                assert(rest[i] == list[i + 1]);
            }
        }
    }
}

/// Where several filters match a target, the most specific one holds: every other filter
/// that matches is for a prefix of its target. Where none matches, the default holds.
pub proof fn most_specific_filter_wins(
    list: Seq<Rule>,
    target: Seq<char>,
    default_level: LevelFilter,
)
    ensures
        (forall|i: int| 0 <= i < list.len() ==> !(#[trigger] list[i]).0.is_prefix_of(target))
            ==> level_of(by_specificity(list), target, default_level) == default_level,
        (exists|i: int| 0 <= i < list.len() && (#[trigger] list[i]).0.is_prefix_of(target)) ==> (
        exists|k: int|
            #![trigger list[k]]
            0 <= k < list.len() && list[k].0.is_prefix_of(target) && level_of(
                by_specificity(list),
                target,
                default_level,
            ) == list[k].1 && forall|i: int|
                0 <= i < list.len() && (#[trigger] list[i]).0.is_prefix_of(target)
                    ==> list[i].0.is_prefix_of(list[k].0)),
{
    let sorted = by_specificity(list);
    filters_are_tried_longest_first(list);
    lemma_level_of(sorted, target, default_level);
    if exists|i: int| 0 <= i < list.len() && (#[trigger] list[i]).0.is_prefix_of(target) {
        let i = choose|i: int| 0 <= i < list.len() && (#[trigger] list[i]).0.is_prefix_of(target);
        assert(list.contains(list[i]));
        lemma_same_members(list, list[i]);
        let at = choose|at: int| 0 <= at < sorted.len() && sorted[at] == list[i];
        assert(sorted[at].0.is_prefix_of(target));
        let first = choose|k: int|
            #![trigger sorted[k]]
            0 <= k < sorted.len() && sorted[k].0.is_prefix_of(target) && level_of(
                sorted,
                target,
                default_level,
            ) == sorted[k].1 && forall|i: int|
                0 <= i < k ==> !(#[trigger] sorted[i]).0.is_prefix_of(target);
        assert(sorted.contains(sorted[first]));
        lemma_same_members(list, sorted[first]);
        let k = choose|k: int| 0 <= k < list.len() && list[k] == sorted[first];
        assert forall|i: int|
            0 <= i < list.len() && (#[trigger] list[i]).0.is_prefix_of(
                target,
            ) implies list[i].0.is_prefix_of(list[k].0) by {
            assert(list.contains(list[i]));
            lemma_same_members(list, list[i]);
            let at = choose|at: int| 0 <= at < sorted.len() && sorted[at] == list[i];
            assert(first <= at);
            lemma_shorter_prefix(list[i].0, list[k].0, target);
        }
        assert(list[k].0.is_prefix_of(target));
    } else {
        assert forall|i: int| 0 <= i < sorted.len() implies !(#[trigger] sorted[i]).0.is_prefix_of(
            target,
        ) by {
            assert(sorted.contains(sorted[i]));
            lemma_same_members(list, sorted[i]);
            let k = choose|k: int| 0 <= k < list.len() && list[k] == sorted[i];
            assert(!list[k].0.is_prefix_of(target));
        }
    }
}

pub(crate) proof fn lemma_most_verbose(list: Seq<Rule>, default_level: LevelFilter)
    ensures
        default_level.rank() <= most_verbose(list, default_level).rank(),
        forall|i: int|
            0 <= i < list.len() ==> (#[trigger] list[i]).1.rank() <= most_verbose(
                list,
                default_level,
            ).rank(),
        most_verbose(list, default_level) == default_level || exists|i: int|
            0 <= i < list.len() && (#[trigger] list[i]).1 == most_verbose(list, default_level),
    decreases list.len(),
{
    if list.len() > 0 {
        let head = list.drop_last();
        lemma_most_verbose(head, default_level);
        assert forall|i: int| 0 <= i < list.len() implies (#[trigger] list[i]).1.rank()
            <= most_verbose(list, default_level).rank() by {
            if i < head.len() {
                assert(head[i] == list[i]);
            }
        }
        assert(list[list.len() - 1] == list.last());
        if exists|i: int|
            0 <= i < head.len() && (#[trigger] head[i]).1 == most_verbose(head, default_level) {
            let i = choose|i: int|
                0 <= i < head.len() && (#[trigger] head[i]).1 == most_verbose(head, default_level);
            assert(list[i] == head[i]);
        }
    }
}

/// The most verbose level of the settings is that of the default or of one filter, and
/// no record that the settings let through is more verbose.
pub proof fn max_level_hides_no_record(settings: Resolved, level: Level, target: Seq<char>)
    ensures
        lets_through(settings, level, target) ==> level.rank() <= most_verbose(
            settings.filters,
            settings.default_level,
        ).rank(),
        most_verbose(settings.filters, settings.default_level) == settings.default_level || exists|
            i: int,
        |
            0 <= i < settings.filters.len() && (#[trigger] settings.filters[i]).1 == most_verbose(
                settings.filters,
                settings.default_level,
            ),
{
    lemma_most_verbose(settings.filters, settings.default_level);
    lemma_level_of(settings.filters, target, settings.default_level);
    let list = settings.filters;
    if exists|i: int| 0 <= i < list.len() && (#[trigger] list[i]).0.is_prefix_of(target) {
    } else {
        assert(level_of(list, target, settings.default_level) == settings.default_level);
    }
}

/// Settings in which nothing is set change nothing: they give `base` and nothing else.
pub proof fn unset_fields_keep_their_value(
    base: Resolved,
    absolute: Option<Seq<char>>,
    next: Resolved,
)
    ensures
        unset().over(base, absolute) == base,
        resolves(unset(), base, next) <==> next == base,
{
}

/// A setting changes its own field of the resolved settings and no other.
pub proof fn a_setting_changes_only_its_field(
    settings: Settings,
    base: Resolved,
    absolute: Option<Seq<char>>,
)
    ensures
        settings.level is None ==> settings.over(base, absolute).default_level
            == base.default_level,
        settings.filters is None ==> settings.over(base, absolute).filters == base.filters,
        settings.file is None ==> settings.over(base, absolute).file_path == base.file_path,
        settings.buf_capacity is None ==> settings.over(base, absolute).buf_capacity
            == base.buf_capacity,
        settings.flush_ms is None ==> settings.over(base, absolute).flush_ms == base.flush_ms,
        settings.format is None ==> settings.over(base, absolute).format_template
            == base.format_template,
        settings.level matches Some(level) ==> settings.over(base, absolute).default_level == level,
        settings.filters matches Some(list) ==> settings.over(base, absolute).filters
            == by_specificity(list),
        settings.file == Some(Destination::Stderr) ==> settings.over(base, absolute).file_path is None,
        settings.file matches Some(Destination::Path(path)) ==> settings.over(
            base,
            absolute,
        ).file_path == (if absolute is Some {
            absolute
        } else {
            Some(path)
        }),
        settings.buf_capacity matches Some(bytes) ==> settings.over(base, absolute).buf_capacity
            == bytes,
        settings.flush_ms matches Some(ms) ==> settings.over(base, absolute).flush_ms == ms,
        settings.format matches Some(template) ==> settings.over(base, absolute).format_template
            == template,
{
}

/// Settings that have been applied change nothing when they are applied again.
pub proof fn applying_settings_twice_changes_nothing(
    settings: Settings,
    base: Resolved,
    absolute: Option<Seq<char>>,
)
    ensures
        settings.over(settings.over(base, absolute), absolute) == settings.over(base, absolute),
{
}

/// Settings within their bounds stay within them, from the defaults on.
pub proof fn bounds_are_kept(settings: Settings, base: Resolved, absolute: Option<Seq<char>>)
    requires
        settings.within_limits(),
        base.within_limits(),
    ensures
        settings.over(base, absolute).within_limits(),
        defaults().within_limits(),
{
    lemma_default_template_is_short();
}

/// Whatever the environment variables hold, the settings are within their bounds.
pub proof fn environment_settings_are_bounded(env: EnvVars)
    ensures
        settings_of(env).within_limits(),
{
    lemma_default_template_is_short();
}

/// `RUST_LOG` counts as `info` where it is not set.
pub proof fn unset_rust_log_counts_as_info()
    ensures
        rust_log_directives(None) == (Directives {
            level: Some(LevelFilter::Info),
            filters: Seq::empty(),
            skipped: Seq::empty(),
        }),
{
    let text = "info"@;
    reveal_strlit("info");
    reveal_strlit("INFO");
    lemma_index_of(text, ',');
    lemma_index_of(text, '=');
    assert(split(text, ',') =~= seq![text]);
    assert(trim_start(text) == text);
    assert(trim_end(text) == text);
    assert(split_once(text, '=') is None);
    filter_name_is_read_back(LevelFilter::Info);
    assert(same_ignoring_case(text, LevelFilter::Info.name()));
    filter_names_ignore_case(text, LevelFilter::Info.name());
    assert(directive(text) == Directive::Global(LevelFilter::Info));
    let parts = split(text, ',');
    assert(parts.drop_last() =~= Seq::<Seq<char>>::empty());
    assert(directives(parts) == directives(parts.drop_last()).and(directive(parts.last())));
}

/// Whether a text neither begins nor ends with white space.
pub open spec fn is_trimmed(s: Seq<char>) -> bool {
    s.len() > 0 ==> !is_white_space(s[0]) && !is_white_space(s.last())
}

/// A filter that is written as `target=level` is read back.
pub proof fn filter_directive_is_read_back(target: Seq<char>, level: LevelFilter)
    requires
        is_trimmed(target),
        forall|i: int| 0 <= i < target.len() ==> #[trigger] target[i] != '=',
    ensures
        directive(target + seq!['='] + level.name()) == Directive::Filter((target, level)),
{
    reveal_strlit("OFF");
    reveal_strlit("ERROR");
    reveal_strlit("WARN");
    reveal_strlit("INFO");
    reveal_strlit("DEBUG");
    reveal_strlit("TRACE");
    let name = level.name();
    let text = target + seq!['='] + name;
    assert(text.last() == name.last());
    assert(text[0] == if target.len() > 0 {
        target[0]
    } else {
        '='
    });
    assert(trim_start(text) == text);
    assert(trim_end(text) == text);
    lemma_index_of(text, '=');
    let at = index_of(text, '=');
    assert(text[target.len() as int] == '=');
    if at < target.len() {
        assert(text[at] == target[at]);
    }
    assert(at == target.len());
    assert(text.take(at) =~= target);
    assert(text.skip(at + 1) =~= name);
    assert(trim_start(target) == target && trim_end(target) == target);
    assert(trim_start(name) == name && trim_end(name) == name);
    filter_name_is_read_back(level);
}

/// The directives of a list are read one by one: what stands before the first comma, and
/// then the rest.
pub proof fn directives_are_read_one_by_one(part: Seq<char>, rest: Seq<char>)
    requires
        forall|i: int| 0 <= i < part.len() ==> #[trigger] part[i] != ',',
    ensures
        split(part, ',') == seq![part],
        split(part + seq![','] + rest, ',') == seq![part] + split(rest, ','),
{
    lemma_index_of(part, ',');
    let text = part + seq![','] + rest;
    lemma_index_of(text, ',');
    let at = index_of(text, ',');
    assert(text[part.len() as int] == ',');
    if at < part.len() {
        assert(text[at] == part[at]);
    }
    assert(text.take(at) =~= part);
    assert(text.skip(at + 1) =~= rest);
}

pub(crate) proof fn lemma_decimal(n: nat)
    ensures
        decimal(n).len() > 0,
        all_digits(decimal(n)),
        digits_value(decimal(n)) == n,
    decreases n,
{
    let last = last_digit(n);
    assert(is_digit(last));
    if n < 10 {
        let digits = decimal(n);
        assert(digits.drop_last() =~= Seq::<char>::empty());
        assert(digits_value(digits.drop_last()) == 0);
    } else {
        lemma_decimal(n / 10);
        assert(decimal(n).drop_last() =~= decimal(n / 10));
    }
}

/// A number that is written in decimal is read back, where it is not too large.
pub proof fn decimal_number_is_read_back(n: nat, max: nat)
    ensures
        decimal_value(decimal(n), max) == (if n <= max {
            Some(n)
        } else {
            None
        }),
{
    lemma_decimal(n);
    assert(is_digit(decimal(n)[0]));
    assert(without_plus(decimal(n)) == decimal(n));
}

/// The last level among the directives holds, and directives that cannot be read or are
/// blank change neither level nor filters.
pub proof fn last_level_directive_wins(parts: Seq<Seq<char>>, part: Seq<char>)
    ensures
        directive(part) matches Directive::Global(level) ==> directives(parts.push(part)).level
            == Some(level) && directives(parts.push(part)).filters == directives(parts).filters,
        directive(part) matches Directive::Filter(rule) ==> directives(parts.push(part)).level
            == directives(parts).level && directives(parts.push(part)).filters == directives(
            parts,
        ).filters.push(rule),
        directive(part) is Blank ==> directives(parts.push(part)) == directives(parts),
        directive(part) is UnknownLevel || directive(part) is UnknownDirective ==> directives(
            parts.push(part),
        ) == (Directives {
            skipped: directives(parts).skipped.push(directive(part)),
            ..directives(parts)
        }),
{
    assert(parts.push(part).drop_last() =~= parts);
}

/// Nothing has to be done exactly where the settings are those in force.
pub proof fn equal_settings_need_no_reload(plan: ReloadPlan, current: Resolved, next: Resolved)
    requires
        leads(plan, current, next),
    ensures
        plan is Unchanged <==> current == next,
{
}

/// A reload touches the output only where a destination is set and the flush thread only
/// where an interval is set; level, filters, template and buffer capacity touch neither.
pub proof fn reload_touches_only_what_is_set(
    settings: Settings,
    current: Resolved,
    absolute: Option<Seq<char>>,
    plan: ReloadPlan,
)
    requires
        leads(plan, current, settings.over(current, absolute)),
    ensures
        settings == unset() ==> plan is Unchanged,
        settings.file is None ==> (plan matches ReloadPlan::Change { output, .. } ==> output
            is Keep),
        settings.flush_ms is None ==> (plan matches ReloadPlan::Change { worker, .. } ==> worker
            is Keep),
{
}

/// Settings that have been put in force need no reload when they are applied again.
pub proof fn reload_is_not_repeated(
    logger: Runtime,
    settings: Settings,
    absolute: Option<Seq<char>>,
    opened: bool,
    started: bool,
    again: ReloadPlan,
)
    requires
        ({
            let after = logger.reload(
                settings.over(logger.settings, absolute),
                opened,
                started,
            );
            leads(again, after.settings, settings.over(after.settings, absolute))
        }),
    ensures
        again is Unchanged,
{
    applying_settings_twice_changes_nothing(settings, logger.settings, absolute);
}

/// A running logger stays consistent, and what new settings do not change stays as it is.
pub proof fn reload_keeps_what_is_not_changed(
    logger: Runtime,
    next: Resolved,
    opened: bool,
    started: bool,
)
    requires
        logger.consistent(),
    ensures
        logger.reload(next, opened, started).consistent(),
        logger.settings.file_path == next.file_path ==> logger.reload(next, opened, started).file_open
            == logger.file_open,
        logger.settings.flush_ms == next.flush_ms ==> logger.reload(next, opened, started).worker
            == logger.worker,
        next.file_path is None ==> !logger.reload(next, opened, started).file_open,
        next.flush_ms == 0 ==> logger.reload(next, opened, started).worker is None,
{
}

/// Either every record is flushed or a flush thread is wanted, never both.
pub proof fn records_or_thread_flush(plan: WritePlan, settings: Resolved, file_open: bool)
    requires
        plan.routed(settings, file_open),
    ensures
        plan.flush <==> wanted_interval(settings.flush_ms) is None,
{
}

/// A log file that could not be opened leaves standard error as the output, at the start
/// and on a reload that asks for another file.
pub proof fn unopened_file_falls_back_to_stderr(
    logger: Runtime,
    settings: Resolved,
    started: bool,
    at_start: WritePlan,
    after_reload: WritePlan,
)
    requires
        logger.settings.file_path != settings.file_path,
        at_start.routed(settings, Runtime::start(settings, false, started).file_open),
        after_reload.routed(settings, logger.reload(settings, false, started).file_open),
    ensures
        at_start.output == Output::Stderr,
        after_reload.output == Output::Stderr,
{
}

proof fn lemma_trim_start_skips(pre: Seq<char>, s: Seq<char>)
    requires
        forall|i: int| 0 <= i < pre.len() ==> is_white_space(#[trigger] pre[i]),
    ensures
        trim_start(pre + s) == trim_start(s),
    decreases pre.len(),
{
    if pre.len() == 0 {
        assert(pre + s =~= s);
    } else {
        let rest = pre.drop_first();
        assert forall|i: int| 0 <= i < rest.len() implies is_white_space(#[trigger] rest[i]) by {
            assert(rest[i] == pre[i + 1]);
        }
        assert((pre + s).drop_first() =~= rest + s);
        assert((pre + s)[0] == pre[0]);
        lemma_trim_start_skips(rest, s);
    }
}

proof fn lemma_trim_end_skips(s: Seq<char>, post: Seq<char>)
    requires
        forall|i: int| 0 <= i < post.len() ==> is_white_space(#[trigger] post[i]),
    ensures
        trim_end(s + post) == trim_end(s),
    decreases post.len(),
{
    if post.len() == 0 {
        assert(s + post =~= s);
    } else {
        let rest = post.drop_last();
        assert forall|i: int| 0 <= i < rest.len() implies is_white_space(#[trigger] rest[i]) by {
            assert(rest[i] == post[i]);
        }
        assert((s + post).drop_last() =~= s + rest);
        assert((s + post).last() == post[post.len() - 1]);
        lemma_trim_end_skips(s, rest);
    }
}

proof fn lemma_trim_start_before(s: Seq<char>, post: Seq<char>)
    requires
        forall|i: int| 0 <= i < post.len() ==> is_white_space(#[trigger] post[i]),
    ensures
        trim_end(trim_start(s + post)) == trim_end(trim_start(s)),
    decreases s.len(),
{
    if s.len() == 0 {
        let empty = Seq::<char>::empty();
        assert(s + post =~= post + empty);
        lemma_trim_start_skips(post, empty);
        assert(s =~= empty);
    } else if is_white_space(s[0]) {
        assert((s + post).drop_first() =~= s.drop_first() + post);
        lemma_trim_start_before(s.drop_first(), post);
    } else {
        assert((s + post)[0] == s[0]);
        lemma_trim_end_skips(s, post);
    }
}

/// White space around a directive does not count.
pub proof fn white_space_around_a_directive_does_not_count(
    pre: Seq<char>,
    part: Seq<char>,
    post: Seq<char>,
)
    requires
        forall|i: int| 0 <= i < pre.len() ==> is_white_space(#[trigger] pre[i]),
        forall|i: int| 0 <= i < post.len() ==> is_white_space(#[trigger] post[i]),
    ensures
        directive(pre + part + post) == directive(part),
{
    assert(pre + part + post =~= pre + (part + post));
    lemma_trim_start_skips(pre, part + post);
    lemma_trim_start_before(part, post);
}

/// An environment in which no variable is set asks for the level `Info` and nothing else;
/// a number that cannot be read is not set.
pub proof fn missing_variables_set_nothing(env: EnvVars)
    ensures
        env.rust_log is None ==> settings_of(env).level == Some(LevelFilter::Info) && settings_of(
            env,
        ).filters is None,
        settings_of(env).file is None <==> env.rust_log_file is None,
        settings_of(env).buf_capacity is None <==> number_in(
            env.rust_log_buffer_size,
            usize::MAX as nat,
        ) is None,
        settings_of(env).flush_ms is None <==> number_in(
            env.rust_log_flush_ms,
            u64::MAX as nat,
        ) is None,
        settings_of(env).format is None <==> env.rust_log_format is None,
{
    unset_rust_log_counts_as_info();
}

} // verus!
