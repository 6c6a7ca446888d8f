//! Which records are let through.

use vstd::prelude::*;
use vstd::utf8::encode_scalar;

use crate::config::{
    by_specificity, byte_len, insert_rule, level_of, lets_through, most_verbose, rules,
    ActiveConfig, Resolved, Rule, TargetFilter,
};
use crate::format::compiled;
use crate::laws::{
    filters_are_tried_longest_first, lemma_byte_len_concat, lemma_level_of, lemma_most_verbose,
    lemma_same_members, longest_first,
};
use crate::level::{
    ascii_upper, filter_name_is_read_back, filter_named, filter_names_ignore_case,
    same_ignoring_case, Level, LevelFilter,
};

verus! {

/// Verbosity grows from `Error` over `Warn`, `Info` and `Debug` to `Trace`, for levels and
/// for filters, and `Off` comes before all of them.
pub proof fn verbosity_grows_from_error_to_trace(level: Level, filter: LevelFilter)
    ensures
        level.rank() <= filter.rank() <==> match filter {
            LevelFilter::Off => false,
            LevelFilter::Error => level == Level::Error,
            LevelFilter::Warn => level == Level::Error || level == Level::Warn,
            LevelFilter::Info => level != Level::Debug && level != Level::Trace,
            LevelFilter::Debug => level != Level::Trace,
            LevelFilter::Trace => true,
        },
        level.rank() == level.as_filter().rank(),
        filter.rank() == 0 <==> filter == LevelFilter::Off,
        0 <= filter.rank() <= 5,
{
}

/// Two filters are equally verbose only where they are the same.
pub proof fn equally_verbose_filters_are_the_same(a: LevelFilter, b: LevelFilter)
    ensures
        a.rank() == b.rank() <==> a == b,
{
}

/// A text names a filter exactly where it is the name of that filter, whatever the case of
/// its letters.
pub proof fn only_names_of_filters_are_read(text: Seq<char>, filter: LevelFilter)
    ensures
        filter_named(text) == Some(filter) <==> same_ignoring_case(text, filter.name()),
        filter.name() == match filter {
            LevelFilter::Off => "OFF"@,
            LevelFilter::Error => "ERROR"@,
            LevelFilter::Warn => "WARN"@,
            LevelFilter::Info => "INFO"@,
            LevelFilter::Debug => "DEBUG"@,
            LevelFilter::Trace => "TRACE"@,
        },
{
    if same_ignoring_case(text, filter.name()) {
        filter_names_ignore_case(text, filter.name());
        filter_name_is_read_back(filter);
    }
}

/// Two texts are the same but for case exactly where they have one length and differ at
/// most between a letter from `a` to `z` and that letter in upper case.
pub proof fn only_ascii_letters_have_case(a: Seq<char>, b: Seq<char>)
    ensures
        same_ignoring_case(a, b) <==> a.len() == b.len() && forall|i: int|
            0 <= i < a.len() ==> {
                ||| #[trigger] a[i] == b[i]
                ||| 'a' <= a[i] <= 'z' && b[i] as int == a[i] as int - 32
                ||| 'a' <= b[i] <= 'z' && a[i] as int == b[i] as int - 32
            },
{
    if same_ignoring_case(a, b) {
        assert forall|i: int| 0 <= i < a.len() implies {
            ||| #[trigger] a[i] == b[i]
            ||| 'a' <= a[i] <= 'z' && b[i] as int == a[i] as int - 32
            ||| 'a' <= b[i] <= 'z' && a[i] as int == b[i] as int - 32
        } by {
            assert(ascii_upper(a[i]) == ascii_upper(b[i]));
        }
    }
}

proof fn lemma_longer_prefix_has_more_bytes(a: Seq<char>, b: Seq<char>)
    requires
        a.is_prefix_of(b),
    ensures
        byte_len(a) <= byte_len(b),
        a.len() < b.len() ==> byte_len(a) < byte_len(b),
{
    let rest = b.skip(a.len() as int);
    assert(b =~= a + rest);
    lemma_byte_len_concat(a, rest);
    if rest.len() > 0 {
        assert(encode_scalar(rest[0] as u32).len() >= 1);
        assert(byte_len(rest) >= 1);
    }
}

proof fn lemma_insert_rule_at(list: Seq<Rule>, rule: Rule) -> (at: int)
    requires
        longest_first(list),
    ensures
        0 <= at <= list.len(),
        insert_rule(list, rule) == list.insert(at, rule),
        forall|i: int| 0 <= i < at ==> byte_len((#[trigger] list[i]).0) >= byte_len(rule.0),
        forall|i: int| at <= i < list.len() ==> byte_len((#[trigger] list[i]).0) < byte_len(rule.0),
    decreases list.len(),
{
    if list.len() == 0 {
        assert(list.push(rule) =~= list.insert(0, rule));
        0
    } else if byte_len(list.last().0) >= byte_len(rule.0) {
        assert(list.push(rule) =~= list.insert(list.len() as int, rule));
        assert forall|i: int| 0 <= i < list.len() implies byte_len((#[trigger] list[i]).0)
            >= byte_len(rule.0) by {
            assert(list[list.len() - 1] == list.last());
        }
        list.len() as int
    } else {
        let head = list.drop_last();
        assert(longest_first(head)) by {
            assert forall|i: int, j: int| 0 <= i < j < head.len() implies byte_len(
                (#[trigger] head[i]).0,
            ) >= byte_len((#[trigger] head[j]).0) by {
                assert(head[i] == list[i] && head[j] == list[j]);
            }
        }
        let at = lemma_insert_rule_at(head, rule);
        assert(head.insert(at, rule).push(list.last()) =~= list.insert(at, rule));
        assert forall|i: int| 0 <= i < at implies byte_len((#[trigger] list[i]).0) >= byte_len(
            rule.0,
        ) by {
            assert(head[i] == list[i]);
        }
        assert forall|i: int| at <= i < list.len() implies byte_len((#[trigger] list[i]).0)
            < byte_len(rule.0) by {
            if i < head.len() {
                assert(head[i] == list[i]);
            }
        }
        at
    }
}

/// Whether the rule at `k` is the one that holds for a target: its target is the longest
/// that the target begins with, and of several rules for that target it is the first.
pub open spec fn is_most_specific(list: Seq<Rule>, k: int, target: Seq<char>) -> bool {
    &&& 0 <= k < list.len()
    &&& list[k].0.is_prefix_of(target)
    &&& forall|i: int|
        0 <= i < list.len() && (#[trigger] list[i]).0.is_prefix_of(target) ==> list[i].0.len()
            <= list[k].0.len()
    &&& forall|i: int| 0 <= i < k ==> (#[trigger] list[i]).0 != list[k].0
}

/// Where the most specific rule stands among the rules in the order in which they are
/// tried: no rule before it matches.
proof fn lemma_most_specific_comes_first(list: Seq<Rule>, k: int, target: Seq<char>) -> (at: int)
    requires
        is_most_specific(list, k, target),
    ensures
        0 <= at < by_specificity(list).len(),
        by_specificity(list)[at] == list[k],
        forall|i: int|
            0 <= i < at ==> !(#[trigger] by_specificity(list)[i]).0.is_prefix_of(target),
    decreases list.len(),
{
    let head = list.drop_last();
    let rule = list.last();
    let sorted = by_specificity(head);
    filters_are_tried_longest_first(head);
    let p = lemma_insert_rule_at(sorted, rule);
    let all = by_specificity(list);
    assert(all == sorted.insert(p, rule));
    assert(list[list.len() - 1] == rule);
    if k == list.len() - 1 {
        assert forall|i: int| 0 <= i < p implies !(#[trigger] all[i]).0.is_prefix_of(target) by {
            assert(all[i] == sorted[i]);
            if all[i].0.is_prefix_of(target) {
                assert(sorted.contains(sorted[i]));
                lemma_same_members(head, sorted[i]);
                let j = choose|j: int| 0 <= j < head.len() && head[j] == sorted[i];
                assert(list[j] == head[j]);
                assert(list[j].0.len() <= rule.0.len());
                assert(list[j].0 =~= target.take(list[j].0.len() as int));
                assert(rule.0 =~= target.take(rule.0.len() as int));
                assert(list[j].0.len() < rule.0.len());
                assert(list[j].0.is_prefix_of(rule.0));
                lemma_longer_prefix_has_more_bytes(list[j].0, rule.0);
            }
        }
        p
    } else {
        assert(head[k] == list[k]);
        assert(is_most_specific(head, k, target)) by {
            assert forall|i: int|
                0 <= i < head.len() && (#[trigger] head[i]).0.is_prefix_of(
                    target,
                ) implies head[i].0.len() <= head[k].0.len() by {
                assert(list[i] == head[i]);
            }
            assert forall|i: int| 0 <= i < k implies (#[trigger] head[i]).0 != head[k].0 by {
                assert(list[i] == head[i]);
            }
        }
        let f = lemma_most_specific_comes_first(head, k, target);
        if rule.0.is_prefix_of(target) {
            assert(rule.0.len() <= list[k].0.len());
            assert(rule.0 =~= list[k].0.take(rule.0.len() as int)) by {
                assert(rule.0 =~= target.take(rule.0.len() as int));
                assert(list[k].0 =~= target.take(list[k].0.len() as int));
            }
            assert(rule.0.is_prefix_of(list[k].0));
            lemma_longer_prefix_has_more_bytes(rule.0, list[k].0);
            assert(f < p);
        }
        let at = if f < p {
            f
        } else {
            f + 1
        };
        assert(all[at] == list[k]);
        assert forall|i: int| 0 <= i < at implies !(#[trigger] all[i]).0.is_prefix_of(target) by {
            if i < p {
                assert(all[i] == sorted[i]);
            } else if i == p {
                assert(all[i] == rule);
            } else {
                assert(all[i] == sorted[i - 1]);
            }
        }
        at
    }
}

proof fn lemma_first_match(
    list: Seq<Rule>,
    k: int,
    target: Seq<char>,
    default_level: LevelFilter,
)
    requires
        0 <= k < list.len(),
        list[k].0.is_prefix_of(target),
        forall|i: int| 0 <= i < k ==> !(#[trigger] list[i]).0.is_prefix_of(target),
    ensures
        level_of(list, target, default_level) == list[k].1,
    decreases list.len(),
{
    if k > 0 {
        let rest = list.drop_first();
        assert(!list[0].0.is_prefix_of(target));
        assert(rest[k - 1] == list[k]);
        assert forall|i: int| 0 <= i < k - 1 implies !(#[trigger] rest[i]).0.is_prefix_of(
            target,
        ) by {
            assert(rest[i] == list[i + 1]);
        }
        lemma_first_match(rest, k - 1, target, default_level);
    }
}

/// The most specific filter alone decides: a record is let through exactly where its level
/// is at most as verbose as that filter, whatever the default is.
pub proof fn the_most_specific_filter_decides(
    settings: Resolved,
    list: Seq<Rule>,
    k: int,
    level: Level,
    target: Seq<char>,
)
    requires
        settings.filters == by_specificity(list),
        is_most_specific(list, k, target),
    ensures
        lets_through(settings, level, target) <==> level.rank() <= list[k].1.rank(),
        level_of(settings.filters, target, settings.default_level) == list[k].1,
{
    let at = lemma_most_specific_comes_first(list, k, target);
    lemma_first_match(settings.filters, at, target, settings.default_level);
}

/// The first filter that matches decides, in whatever order the settings list the filters.
pub proof fn the_first_matching_filter_decides(
    settings: Resolved,
    k: int,
    level: Level,
    target: Seq<char>,
)
    requires
        0 <= k < settings.filters.len(),
        settings.filters[k].0.is_prefix_of(target),
        forall|i: int|
            0 <= i < k ==> !(#[trigger] settings.filters[i]).0.is_prefix_of(target),
    ensures
        lets_through(settings, level, target) <==> level.rank()
            <= settings.filters[k].1.rank(),
        level_of(settings.filters, target, settings.default_level) == settings.filters[k].1,
{
    lemma_first_match(settings.filters, k, target, settings.default_level);
}

/// Where no filter matches, the default decides.
pub proof fn the_default_decides_where_no_filter_matches(
    settings: Resolved,
    level: Level,
    target: Seq<char>,
)
    requires
        forall|i: int|
            0 <= i < settings.filters.len() ==> !(#[trigger] settings.filters[i]).0.is_prefix_of(
                target,
            ),
    ensures
        lets_through(settings, level, target) <==> level.rank()
            <= settings.default_level.rank(),
        level_of(settings.filters, target, settings.default_level) == settings.default_level,
{
    lemma_level_of(settings.filters, target, settings.default_level);
}

/// Filters that match neither of two targets, or both, treat the targets alike.
pub proof fn targets_with_the_same_prefixes_are_treated_alike(
    settings: Resolved,
    level: Level,
    a: Seq<char>,
    b: Seq<char>,
)
    requires
        forall|i: int|
            0 <= i < settings.filters.len() ==> ((#[trigger] settings.filters[i]).0.is_prefix_of(a)
                <==> settings.filters[i].0.is_prefix_of(b)),
    ensures
        lets_through(settings, level, a) == lets_through(settings, level, b),
{
    lemma_alike(settings.filters, settings.default_level, a, b);
}

proof fn lemma_alike(
    list: Seq<Rule>,
    default_level: LevelFilter,
    a: Seq<char>,
    b: Seq<char>,
)
    requires
        forall|i: int|
            0 <= i < list.len() ==> ((#[trigger] list[i]).0.is_prefix_of(a)
                <==> list[i].0.is_prefix_of(b)),
    ensures
        level_of(list, a, default_level) == level_of(list, b, default_level),
    decreases list.len(),
{
    if list.len() > 0 && !list[0].0.is_prefix_of(a) {
        let rest = list.drop_first();
        assert forall|i: int| 0 <= i < rest.len() implies ((#[trigger] rest[i]).0.is_prefix_of(a)
            <==> rest[i].0.is_prefix_of(b)) by {
            assert(rest[i] == list[i + 1]);
        }
        lemma_alike(rest, default_level, a, b);
    }
}

/// A record that is let through is let through at every less verbose level too.
pub proof fn less_verbose_records_pass_too(
    settings: Resolved,
    level: Level,
    other: Level,
    target: Seq<char>,
)
    requires
        other.rank() <= level.rank(),
        lets_through(settings, level, target),
    ensures
        lets_through(settings, other, target),
{
}

/// The settings in force hold the compiled template and the most verbose of the default
/// and all filters: none of them is more verbose, and one of them is it.
pub proof fn settings_in_force_belong_to_their_source(active: ActiveConfig)
    requires
        active.well_formed(),
    ensures
        active.format@ == compiled(active.reload.format_template@, Seq::empty()),
        active.reload.default_level.rank() <= active.max_level.rank(),
        forall|i: int|
            0 <= i < active.reload.filters@.len() ==> (
            #[trigger] active.reload.filters@[i]).level.rank() <= active.max_level.rank(),
        active.max_level == active.reload.default_level || exists|i: int|
            0 <= i < active.reload.filters@.len() && (#[trigger] active.reload.filters@[i]).level
                == active.max_level,
{
    let list = rules(active.reload.filters@);
    let default_level = active.reload.default_level;
    lemma_most_verbose(list, default_level);
    assert forall|i: int| 0 <= i < active.reload.filters@.len() implies (
    #[trigger] active.reload.filters@[i]).level.rank() <= active.max_level.rank() by {
        assert(list[i].1 == active.reload.filters@[i].level);
    }
    if most_verbose(list, default_level) != default_level {
        let i = choose|i: int|
            0 <= i < list.len() && (#[trigger] list[i]).1 == most_verbose(list, default_level);
        assert(active.reload.filters@[i].level == active.max_level);
    }
}

/// A filter is its target and its level, and a list of filters is the list of these.
pub proof fn a_filter_is_its_target_and_level(filters: Seq<TargetFilter>, i: int)
    requires
        0 <= i < filters.len(),
    ensures
        filters[i]@ == (filters[i].target@, filters[i].level),
        rules(filters).len() == filters.len(),
        rules(filters)[i] == (filters[i].target@, filters[i].level),
{
}

} // verus!
