//! What log lines show of records.

use vstd::prelude::*;

use crate::clock::{read_from_clock, UtcTime};
use crate::format::{
    clock_for, field_text, line_text, padded, piece_text, pieces_text, shows, spaces,
    with_line_feed, Align, FormatSpec, LogField, Piece,
};
use crate::laws::lemma_decimal;
use crate::level::Level;
use crate::record::Record;
use crate::text::{all_digits, decimal, digits_value, last_digit};

verus! {

/// Every field shows its part of the record: the time of rendering, the name of the thread
/// or `unnamed`, the level in upper case, and the other parts as they are, with nothing for
/// a part that the record lacks.
pub proof fn every_field_shows_its_part(record: Record, now: UtcTime)
    ensures
        field_text(LogField::Timestamp, record, now) == now.text(),
        record.thread_name matches Some(name) ==> field_text(LogField::ThreadName, record, now)
            == name@,
        record.thread_name is None ==> field_text(LogField::ThreadName, record, now)
            == "unnamed"@,
        record.level == Level::Error ==> field_text(LogField::Level, record, now) == "ERROR"@,
        record.level == Level::Warn ==> field_text(LogField::Level, record, now) == "WARN"@,
        record.level == Level::Info ==> field_text(LogField::Level, record, now) == "INFO"@,
        record.level == Level::Debug ==> field_text(LogField::Level, record, now) == "DEBUG"@,
        record.level == Level::Trace ==> field_text(LogField::Level, record, now) == "TRACE"@,
        field_text(LogField::Target, record, now) == record.target@,
        field_text(LogField::Args, record, now) == record.args@,
        record.module matches Some(module) ==> field_text(LogField::ModulePath, record, now)
            == module@,
        record.module is None ==> field_text(LogField::ModulePath, record, now).len() == 0,
        record.file matches Some(file) ==> field_text(LogField::File, record, now) == file@,
        record.file is None ==> field_text(LogField::File, record, now).len() == 0,
        record.line matches Some(line) ==> field_text(LogField::Line, record, now) == decimal(
            line as nat,
        ),
        record.line is None ==> field_text(LogField::Line, record, now).len() == 0,
{
}

/// A number is written with digits that have its value, without leading zeros.
pub proof fn numbers_are_written_in_decimal(n: nat)
    ensures
        decimal(n).len() > 0,
        all_digits(decimal(n)),
        digits_value(decimal(n)) == n,
        decimal(n).len() > 1 ==> decimal(n)[0] != '0',
    decreases n,
{
    lemma_decimal(n);
    if n >= 10 {
        numbers_are_written_in_decimal(n / 10);
        assert(decimal(n)[0] == decimal(n / 10)[0]);
        if n / 10 < 10 {
            assert(decimal(n / 10)[0] == last_digit(n / 10));
        } else {
            lemma_decimal(n / 10 / 10);
            assert(decimal(n / 10).len() > 1);
        }
    }
}

/// Spaces are spaces, and as many as asked for.
pub proof fn fill_is_made_of_spaces(n: nat)
    ensures
        spaces(n).len() == n,
        forall|i: int| 0 <= i < n ==> #[trigger] spaces(n)[i] == ' ',
{
}

/// A value that is shorter than its field is filled up to the width, behind it where it is
/// left-aligned and before it where it is right-aligned; any other value stays as it is.
pub proof fn a_value_is_filled_up_to_its_width(value: Seq<char>, width: usize)
    ensures
        value.len() < width ==> padded(
            value,
            FormatSpec { align: Align::Left, width: Some(width) },
        ) == value + spaces((width - value.len()) as nat),
        value.len() < width ==> padded(
            value,
            FormatSpec { align: Align::Right, width: Some(width) },
        ) == spaces((width - value.len()) as nat) + value,
        value.len() >= width ==> padded(
            value,
            FormatSpec { align: Align::Left, width: Some(width) },
        ) == value,
        value.len() >= width ==> padded(
            value,
            FormatSpec { align: Align::Right, width: Some(width) },
        ) == value,
        padded(value, FormatSpec { align: Align::Left, width: None }) == value,
        padded(value, FormatSpec { align: Align::Right, width: None }) == value,
{
}

/// A literal piece shows its text, and a placeholder its field, padded.
pub proof fn a_piece_shows_text_or_field(
    text: Seq<char>,
    field: LogField,
    spec: FormatSpec,
    record: Record,
    now: UtcTime,
)
    ensures
        piece_text(Piece::Literal(text), record, now) == text,
        piece_text(Piece::Placeholder { field, spec }, record, now) == padded(
            field_text(field, record, now),
            spec,
        ),
{
}

/// The pieces are shown one after the other: what the first ones show, and then what the
/// others show.
pub proof fn pieces_follow_each_other(
    first: Seq<Piece>,
    others: Seq<Piece>,
    record: Record,
    clock: Seq<UtcTime>,
)
    requires
        clock.len() == first.len() + others.len(),
    ensures
        pieces_text(first + others, record, clock) == pieces_text(
            first,
            record,
            clock.take(first.len() as int),
        ) + pieces_text(others, record, clock.skip(first.len() as int)),
    decreases others.len(),
{
    let n = first.len() as int;
    if others.len() == 0 {
        assert(first + others =~= first);
        assert(clock.take(n) =~= clock);
        assert(pieces_text(first, record, clock) + Seq::<char>::empty() =~= pieces_text(
            first,
            record,
            clock,
        ));
    } else {
        let all = first + others;
        let shorter = clock.drop_last();
        assert(all.drop_last() =~= first + others.drop_last());
        pieces_follow_each_other(first, others.drop_last(), record, shorter);
        lemma_last_time_does_not_matter(all.drop_last(), record, clock);
        assert(shorter.take(n) =~= clock.take(n));
        assert(shorter.skip(n) =~= clock.skip(n).drop_last());
        lemma_last_time_does_not_matter(others.drop_last(), record, clock.skip(n));
        assert(all.last() == others.last());
        assert(clock[all.len() - 1] == clock.skip(n)[others.len() - 1]);
        assert(pieces_text(all, record, clock) =~= pieces_text(first, record, clock.take(n))
            + pieces_text(others, record, clock.skip(n)));
    }
}

proof fn lemma_last_time_does_not_matter(
    pieces: Seq<Piece>,
    record: Record,
    clock: Seq<UtcTime>,
)
    requires
        pieces.len() < clock.len(),
    ensures
        pieces_text(pieces, record, clock) == pieces_text(pieces, record, clock.drop_last()),
    decreases pieces.len(),
{
    if pieces.len() > 0 {
        lemma_last_time_does_not_matter(pieces.drop_last(), record, clock);
    }
}

/// One piece alone shows what it shows, and no piece shows nothing.
pub proof fn one_piece_alone(piece: Piece, record: Record, clock: Seq<UtcTime>)
    requires
        clock.len() == 1,
    ensures
        pieces_text(Seq::empty(), record, clock) == Seq::<char>::empty(),
        pieces_text(seq![piece], record, clock) == piece_text(piece, record, clock[0]),
{
    let pieces = seq![piece];
    assert(pieces.drop_last() =~= Seq::<Piece>::empty());
    assert(pieces_text(pieces.drop_last(), record, clock) =~= Seq::<char>::empty());
    assert(pieces_text(pieces, record, clock) =~= piece_text(piece, record, clock[0]));
}

/// A line is what the pieces show, with a line feed at its end: the one that is there, or
/// else one more.
pub proof fn a_line_ends_with_one_more_line_feed_where_it_has_none(
    pieces: Seq<Piece>,
    record: Record,
    clock: Seq<UtcTime>,
)
    ensures
        ({
            let text = pieces_text(pieces, record, clock);
            let line = line_text(pieces, record, clock);
            &&& line == with_line_feed(text)
            &&& text.len() > 0 && text.last() == '\n' ==> line == text
            &&& !(text.len() > 0 && text.last() == '\n') ==> line == text + seq!['\n']
        }),
{
    let text = pieces_text(pieces, record, clock);
    assert(text.push('\n') =~= text + seq!['\n']);
}

/// The times that a line shows were read from the system clock for that line, one for each
/// piece that shows the time.
pub proof fn shown_times_are_read_from_the_clock(clock: Seq<UtcTime>, pieces: Seq<Piece>, i: int)
    requires
        clock_for(clock, pieces),
        0 <= i < pieces.len(),
    ensures
        clock.len() == pieces.len(),
        clock[i].valid(),
        pieces[i] matches Piece::Placeholder { field, .. } && field == LogField::Timestamp
            ==> read_from_clock(clock[i]),
{
}

/// A template shows a field exactly where one of its pieces is a placeholder for it.
pub proof fn a_template_shows_what_its_placeholders_name(
    pieces: Seq<Piece>,
    text: Seq<char>,
    field: LogField,
    spec: FormatSpec,
    shown: LogField,
)
    ensures
        !shows(Seq::empty(), shown),
        shows(pieces.push(Piece::Literal(text)), shown) <==> shows(pieces, shown),
        shows(pieces.push(Piece::Placeholder { field, spec }), shown) <==> shows(pieces, shown)
            || field == shown,
{
    lemma_shows_push(pieces, Piece::Literal(text), shown);
    lemma_shows_push(pieces, Piece::Placeholder { field, spec }, shown);
}

proof fn lemma_shows_push(pieces: Seq<Piece>, piece: Piece, shown: LogField)
    ensures
        shows(pieces.push(piece), shown) <==> shows(pieces, shown) || (
        piece matches Piece::Placeholder { field, .. } && field == shown),
{
    let more = pieces.push(piece);
    assert(more[pieces.len() as int] == piece);
    if shows(pieces, shown) {
        let i = choose|i: int|
            0 <= i < pieces.len() && (#[trigger] pieces[i] matches Piece::Placeholder { field, .. }
                && field == shown);
        assert(more[i] == pieces[i]);
    }
    if shows(more, shown) {
        let i = choose|i: int|
            0 <= i < more.len() && (#[trigger] more[i] matches Piece::Placeholder { field, .. }
                && field == shown);
        if i < pieces.len() {
            assert(pieces[i] == more[i]);
        }
    }
}

} // verus!
