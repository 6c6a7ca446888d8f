//! What templates mean: fields, widths, literal text and braces.

use vstd::prelude::*;

use crate::format::{
    compiled, field_named, literal_pieces, placeholder, spec_written, Align, FormatPiece,
    FormatSpec, LogField, Piece, MAX_FORMAT_FIELD_WIDTH,
};
use crate::laws::{
    decimal_number_is_read_back, escaped, lemma_decimal, lemma_escaped_prefix,
    template_is_read_piece_by_piece,
};
use crate::text::{decimal, decimal_value, index_of, is_digit, lemma_index_of, split_once};

verus! {

/// Whether a field can be written under a name in a template.
pub open spec fn is_name_of(name: Seq<char>, field: LogField) -> bool {
    match field {
        LogField::Timestamp => name == "timestamp"@,
        LogField::ThreadName => name == "thread_name"@,
        LogField::Level => name == "level"@,
        LogField::Target => name == "target"@,
        LogField::Args => name == "args"@ || name == "message"@,
        LogField::ModulePath => name == "module_path"@,
        LogField::File => name == "file"@,
        LogField::Line => name == "line"@,
    }
}

proof fn lemma_names(name: Seq<char>, field: LogField)
    requires
        is_name_of(name, field),
    ensures
        name.len() > 0,
        forall|i: int|
            0 <= i < name.len() ==> #[trigger] name[i] != ':' && name[i] != '}' && name[i] != '{',
{
    reveal_strlit("timestamp");
    reveal_strlit("thread_name");
    reveal_strlit("level");
    reveal_strlit("target");
    reveal_strlit("args");
    reveal_strlit("message");
    reveal_strlit("module_path");
    reveal_strlit("file");
    reveal_strlit("line");
}

/// Every field is found under its name, and every name that is found is that of a field.
pub proof fn fields_are_found_by_their_names(name: Seq<char>, field: LogField)
    ensures
        field_named(name) == Some(field) <==> is_name_of(name, field),
{
    reveal_strlit("timestamp");
    reveal_strlit("thread_name");
    reveal_strlit("level");
    reveal_strlit("target");
    reveal_strlit("args");
    reveal_strlit("message");
    reveal_strlit("module_path");
    reveal_strlit("file");
    reveal_strlit("line");
    assert("timestamp"@.len() == 9 && "level"@.len() == 5 && "target"@.len() == 6);
    assert("args"@.len() == 4 && "message"@.len() == 7 && "file"@.len() == 4);
    assert("thread_name"@.len() == 11 && "module_path"@.len() == 11 && "line"@.len() == 4);
    assert("thread_name"@[0] != "module_path"@[0]);
    assert("args"@[0] != "file"@[0]);
    assert("args"@[0] != "line"@[0]);
    assert("file"@[0] != "line"@[0]);
}

/// The first separator splits a text; where there is none, nothing is split.
pub proof fn text_is_split_at_the_first_separator(
    before: Seq<char>,
    separator: char,
    after: Seq<char>,
)
    requires
        forall|i: int| 0 <= i < before.len() ==> #[trigger] before[i] != separator,
    ensures
        split_once(before, separator) == None::<(Seq<char>, Seq<char>)>,
        split_once(before + seq![separator] + after, separator) == Some((before, after)),
{
    lemma_index_of(before, separator);
    let text = before + seq![separator] + after;
    lemma_index_of(text, separator);
    let at = index_of(text, separator);
    assert(text[before.len() as int] == separator);
    if at < before.len() {
        assert(text[at] == before[at]);
    }
    assert(text.take(at) =~= before);
    assert(text.skip(at + 1) =~= after);
}

/// The name of a field between braces stands for that field, without padding.
pub proof fn a_name_stands_for_its_field(name: Seq<char>, field: LogField)
    requires
        is_name_of(name, field),
    ensures
        placeholder(name) == (Piece::Placeholder {
            field,
            spec: FormatSpec { align: Align::Left, width: None },
        }),
{
    lemma_names(name, field);
    fields_are_found_by_their_names(name, field);
    text_is_split_at_the_first_separator(name, ':', Seq::empty());
}

/// The width that a number in a template gives: the number, but at most the bound.
pub open spec fn width_of(n: nat) -> Option<usize> {
    Some(
        if n < MAX_FORMAT_FIELD_WIDTH {
            n as usize
        } else {
            MAX_FORMAT_FIELD_WIDTH
        },
    )
}

/// `<N` and `>N` are read as a width, however the number N is written; what else there is
/// asks for no padding.
pub proof fn widths_are_read(number: Seq<char>, other: Seq<char>)
    ensures
        decimal_value(number, usize::MAX as nat) matches Some(n) ==> {
            &&& spec_written(seq!['<'] + number) == (FormatSpec {
                align: Align::Left,
                width: width_of(n),
            })
            &&& spec_written(seq!['>'] + number) == (FormatSpec {
                align: Align::Right,
                width: width_of(n),
            })
        },
        decimal_value(number, usize::MAX as nat) is None ==> {
            &&& spec_written(seq!['<'] + number) == (FormatSpec { align: Align::Left, width: None })
            &&& spec_written(seq!['>'] + number) == (FormatSpec { align: Align::Left, width: None })
        },
        !(other.len() > 0 && (other[0] == '<' || other[0] == '>')) ==> spec_written(other) == (
        FormatSpec { align: Align::Left, width: None }),
{
    assert((seq!['<'] + number).drop_first() =~= number);
    assert((seq!['>'] + number).drop_first() =~= number);
}

/// For every field, `name:<N` stands for the field at the left edge of a width of N, and
/// `name:>N` for the field at the right edge, however the number N is written.
pub proof fn every_field_takes_a_width(
    name: Seq<char>,
    field: LogField,
    number: Seq<char>,
    n: nat,
)
    requires
        is_name_of(name, field),
        decimal_value(number, usize::MAX as nat) == Some(n),
    ensures
        placeholder(name + seq![':'] + (seq!['<'] + number)) == (Piece::Placeholder {
            field,
            spec: FormatSpec { align: Align::Left, width: width_of(n) },
        }),
        placeholder(name + seq![':'] + (seq!['>'] + number)) == (Piece::Placeholder {
            field,
            spec: FormatSpec { align: Align::Right, width: width_of(n) },
        }),
{
    lemma_names(name, field);
    fields_are_found_by_their_names(name, field);
    text_is_split_at_the_first_separator(name, ':', seq!['<'] + number);
    text_is_split_at_the_first_separator(name, ':', seq!['>'] + number);
    assert((seq!['<'] + number).drop_first() =~= number);
    assert((seq!['>'] + number).drop_first() =~= number);
}

/// For every field and every width up to the bound, `name:<N` and `name:>N` with the
/// number N in decimal stand for the field in exactly that width.
pub proof fn a_decimal_width_is_taken_as_it_is(name: Seq<char>, field: LogField, n: usize)
    requires
        is_name_of(name, field),
        n <= MAX_FORMAT_FIELD_WIDTH,
    ensures
        placeholder(name + seq![':'] + (seq!['<'] + decimal(n as nat))) == (Piece::Placeholder {
            field,
            spec: FormatSpec { align: Align::Left, width: Some(n) },
        }),
        placeholder(name + seq![':'] + (seq!['>'] + decimal(n as nat))) == (Piece::Placeholder {
            field,
            spec: FormatSpec { align: Align::Right, width: Some(n) },
        }),
{
    decimal_number_is_read_back(n as nat, usize::MAX as nat);
    every_field_takes_a_width(name, field, decimal(n as nat), n as nat);
}

/// What follows the name of a field and is no width asks for no padding.
pub proof fn anything_else_asks_for_no_padding(name: Seq<char>, field: LogField, spec: Seq<char>)
    requires
        is_name_of(name, field),
        spec.len() > 0 && (spec[0] == '<' || spec[0] == '>') ==> decimal_value(
            spec.drop_first(),
            usize::MAX as nat,
        ) is None,
    ensures
        placeholder(name + seq![':'] + spec) == (Piece::Placeholder {
            field,
            spec: FormatSpec { align: Align::Left, width: None },
        }),
{
    lemma_names(name, field);
    fields_are_found_by_their_names(name, field);
    text_is_split_at_the_first_separator(name, ':', spec);
}

/// A name that is no field's stays as text with its braces, and so does what follows it.
pub proof fn other_names_stay_as_text(name: Seq<char>, spec: Seq<char>)
    requires
        forall|i: int| 0 <= i < name.len() ==> #[trigger] name[i] != ':',
        forall|field: LogField| !is_name_of(name, field),
    ensures
        placeholder(name) == Piece::Literal(seq!['{'] + name + seq!['}']),
        placeholder(name + seq![':'] + spec) == Piece::Literal(
            seq!['{'] + (name + seq![':'] + spec) + seq!['}'],
        ),
{
    assert(field_named(name) is None) by {
        if let Some(field) = field_named(name) {
            fields_are_found_by_their_names(name, field);
        }
    }
    text_is_split_at_the_first_separator(name, ':', spec);
}

/// Literal text is one piece, and no piece where it is empty.
pub proof fn literal_text_is_one_piece(text: Seq<char>)
    ensures
        compiled(Seq::empty(), text) == literal_pieces(text),
        text.len() == 0 ==> literal_pieces(text) == Seq::<Piece>::empty(),
        text.len() > 0 ==> literal_pieces(text) == seq![Piece::Literal(text)],
{
}

/// Text with its braces doubled is literal text, whatever literal text stands before it and
/// whatever follows it.
pub proof fn escaped_text_is_literal(before: Seq<char>, text: Seq<char>, rest: Seq<char>)
    ensures
        compiled(escaped(text) + rest, before) == compiled(rest, before + text),
{
    lemma_escaped_prefix(text, rest, before);
}

/// A placeholder that is not closed ends with the template.
pub proof fn an_open_placeholder_ends_with_the_template(text: Seq<char>, token: Seq<char>)
    requires
        forall|i: int| 0 <= i < token.len() ==> #[trigger] token[i] != '}',
        token.len() > 0 ==> token[0] != '{',
    ensures
        compiled(escaped(text) + seq!['{'] + token, Seq::empty()) == literal_pieces(text)
            + seq![placeholder(token)],
{
    let tail = seq!['{'] + token;
    assert(escaped(text) + seq!['{'] + token =~= escaped(text) + tail);
    lemma_escaped_prefix(text, tail, Seq::empty());
    assert(Seq::<char>::empty() + text =~= text);
    let body = tail.skip(1);
    assert(body =~= token);
    lemma_index_of(body, '}');
    assert(body.take(body.len() as int) =~= token);
    if token.len() > 0 {
        assert(tail[1] == token[0]);
    }
    let head = literal_pieces(text) + seq![placeholder(token)];
    assert(compiled(Seq::empty(), Seq::empty()) =~= Seq::<Piece>::empty());
    assert(head + Seq::<Piece>::empty() =~= head);
}

/// A closing brace that nothing opened is a brace, as a doubled one is.
pub proof fn a_lone_closing_brace_is_literal(before: Seq<char>, rest: Seq<char>)
    requires
        rest.len() > 0 ==> rest[0] != '}',
    ensures
        compiled(seq!['}'] + rest, before) == compiled(rest, before.push('}')),
        compiled(seq!['}', '}'] + rest, before) == compiled(rest, before.push('}')),
{
    let one = seq!['}'] + rest;
    let two = seq!['}', '}'] + rest;
    assert(one.skip(1) =~= rest);
    assert(two.skip(2) =~= rest);
    assert(one[0] == '}' && two[0] == '}' && two[1] == '}');
    if rest.len() > 0 {
        assert(one[1] == rest[0]);
    }
}

/// A field in a width between literal texts: the template compiles to the text before it,
/// that field in that width, and what the rest compiles to.
pub proof fn a_field_in_a_width_is_one_piece(
    text: Seq<char>,
    name: Seq<char>,
    field: LogField,
    n: usize,
    rest: Seq<char>,
)
    requires
        is_name_of(name, field),
        n <= MAX_FORMAT_FIELD_WIDTH,
    ensures
        compiled(
            escaped(text) + seq!['{'] + (name + seq![':'] + (seq!['<'] + decimal(n as nat)))
                + seq!['}'] + rest,
            Seq::empty(),
        ) == literal_pieces(text) + seq![
            Piece::Placeholder {
                field,
                spec: FormatSpec { align: Align::Left, width: Some(n) },
            },
        ] + compiled(rest, Seq::empty()),
        compiled(
            escaped(text) + seq!['{'] + (name + seq![':'] + (seq!['>'] + decimal(n as nat)))
                + seq!['}'] + rest,
            Seq::empty(),
        ) == literal_pieces(text) + seq![
            Piece::Placeholder {
                field,
                spec: FormatSpec { align: Align::Right, width: Some(n) },
            },
        ] + compiled(rest, Seq::empty()),
{
    a_decimal_width_is_taken_as_it_is(name, field, n);
    lemma_names(name, field);
    lemma_decimal(n as nat);
    let left = name + seq![':'] + (seq!['<'] + decimal(n as nat));
    let right = name + seq![':'] + (seq!['>'] + decimal(n as nat));
    assert forall|i: int| 0 <= i < left.len() implies #[trigger] left[i] != '}' && right[i]
        != '}' by {
        if i < name.len() {
            assert(left[i] == name[i] && right[i] == name[i]);
        } else if i >= name.len() + 2 {
            let k = i - name.len() - 2;
            assert(left[i] == decimal(n as nat)[k] && right[i] == decimal(n as nat)[k]);
            assert(is_digit(decimal(n as nat)[k]));
        }
    }
    assert forall|i: int| 0 <= i < right.len() implies #[trigger] right[i] != '}' by {
        assert(left[i] != '}');
    }
    assert(left[0] == name[0] && right[0] == name[0]);
    template_is_read_piece_by_piece(text, left, rest);
    template_is_read_piece_by_piece(text, right, rest);
}

/// A piece holds what its mathematical value says.
pub proof fn a_piece_is_its_value(text: String, field: LogField, spec: FormatSpec)
    ensures
        FormatPiece::Literal(text)@ == Piece::Literal(text@),
        (FormatPiece::Placeholder { field, spec })@ == (Piece::Placeholder { field, spec }),
{
}

} // verus!
