//! How points in time are written.

use vstd::prelude::*;

use crate::clock::UtcTime;
use crate::text::{digits_value, last_digit, zero_padded};

verus! {

spec fn ten_to(width: nat) -> nat
    decreases width,
{
    if width == 0 {
        1
    } else {
        10 * ten_to((width - 1) as nat)
    }
}

proof fn lemma_zero_padded_value(n: nat, width: nat)
    requires
        n < ten_to(width),
    ensures
        zero_padded(n, width).len() == width,
        digits_value(zero_padded(n, width)) == n,
    decreases width,
{
    if width > 0 {
        lemma_zero_padded_value(n / 10, (width - 1) as nat);
        let digits = zero_padded(n, width);
        assert(digits.drop_last() =~= zero_padded(n / 10, (width - 1) as nat));
        assert(digits.last() == last_digit(n));
    }
}

/// From the year 0 on, every component of a point in time is read back from its text, down
/// to the microseconds, and the marks between them stand where they belong.
pub proof fn a_timestamp_is_read_back(at: UtcTime)
    requires
        at.valid(),
        0 <= at.year,
    ensures
        at.text().len() == 27,
        digits_value(at.text().subrange(0, 4)) == at.year,
        digits_value(at.text().subrange(5, 7)) == at.month,
        digits_value(at.text().subrange(8, 10)) == at.day,
        digits_value(at.text().subrange(11, 13)) == at.hour,
        digits_value(at.text().subrange(14, 16)) == at.minute,
        digits_value(at.text().subrange(17, 19)) == at.second,
        digits_value(at.text().subrange(20, 26)) == at.nanosecond / 1000,
        at.text()[4] == '-' && at.text()[7] == '-' && at.text()[10] == 'T',
        at.text()[13] == ':' && at.text()[16] == ':' && at.text()[19] == '.',
        at.text()[26] == 'Z',
{
    reveal_with_fuel(ten_to, 7);
    let year = zero_padded(at.year as nat, 4);
    let month = zero_padded(at.month as nat, 2);
    let day = zero_padded(at.day as nat, 2);
    let hour = zero_padded(at.hour as nat, 2);
    let minute = zero_padded(at.minute as nat, 2);
    let second = zero_padded(at.second as nat, 2);
    let micros = zero_padded(at.nanosecond as nat / 1000, 6);
    lemma_zero_padded_value(at.year as nat, 4);
    lemma_zero_padded_value(at.month as nat, 2);
    lemma_zero_padded_value(at.day as nat, 2);
    lemma_zero_padded_value(at.hour as nat, 2);
    lemma_zero_padded_value(at.minute as nat, 2);
    lemma_zero_padded_value(at.second as nat, 2);
    lemma_zero_padded_value(at.nanosecond as nat / 1000, 6);
    let text = at.text();
    assert(text.subrange(0, 4) =~= year);
    assert(text.subrange(5, 7) =~= month);
    assert(text.subrange(8, 10) =~= day);
    assert(text.subrange(11, 13) =~= hour);
    assert(text.subrange(14, 16) =~= minute);
    assert(text.subrange(17, 19) =~= second);
    assert(text.subrange(20, 26) =~= micros);
}

/// A year before the year 0 is written as its distance from it, with a minus sign before.
pub proof fn negative_years_have_a_minus_sign(at: UtcTime, other: UtcTime)
    requires
        at.valid(),
        at.year < 0,
        other.year == -at.year,
        other.month == at.month && other.day == at.day,
        other.hour == at.hour && other.minute == at.minute && other.second == at.second,
        other.nanosecond == at.nanosecond,
    ensures
        at.text() == seq!['-'] + other.text(),
{
    assert(at.text() =~= seq!['-'] + other.text());
}

} // verus!
