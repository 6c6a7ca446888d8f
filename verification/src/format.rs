//! Log-line templates: compiling a template and rendering records with it.

use vstd::prelude::*;

use crate::clock::{read_clock, read_from_clock, timestamp_text, UtcTime};
use crate::level::level_text;
use crate::record::Record;
use crate::text::{
    chars_of, decimal, decimal_text, decimal_value, find_from, index_of, lemma_index_of,
    parse_decimal, range_of, split_once, string_of,
};

verus! {

/// The widest field that a template can ask for, in characters.
pub const MAX_FORMAT_FIELD_WIDTH: usize = 1024;

/// On which side of a fixed-width field the value stands.
#[derive(Clone, Copy, Debug, PartialEq, Eq, Structural)]
pub enum Align {
    /// The value stands at the left edge; spaces follow it.
    Left,
    /// The value stands at the right edge; spaces precede it.
    Right,
}

/// Width and alignment of a field.
#[derive(Clone, Copy, Debug, PartialEq, Eq)]
pub struct FormatSpec {
    /// On which side the value stands.
    pub align: Align,
    /// Minimum width in characters; `None` means no padding.
    pub width: Option<usize>,
}

/// A part of a record that a template can show.
#[derive(Clone, Copy, Debug, PartialEq, Eq, Structural)]
pub enum LogField {
    /// The time in UTC with microseconds.
    Timestamp,
    /// The name of the thread, or `unnamed`.
    ThreadName,
    /// The level in upper case.
    Level,
    /// The target of the record.
    Target,
    /// The message; `{message}` is another name for `{args}`.
    Args,
    /// The module path of the call site.
    ModulePath,
    /// The source file of the call site.
    File,
    /// The line of the call site.
    Line,
}

/// One element of a compiled template.
#[derive(Clone, Debug)]
pub enum FormatPiece {
    /// Text that is copied to every line.
    Literal(String),
    /// A field that is rendered for every record.
    Placeholder { field: LogField, spec: FormatSpec },
}

/// One element of a compiled template, as a mathematical value.
pub enum Piece {
    Literal(Seq<char>),
    Placeholder { field: LogField, spec: FormatSpec },
}

impl View for FormatPiece {
    type V = Piece;

    open spec fn view(&self) -> Piece {
        match self {
            FormatPiece::Literal(text) => Piece::Literal(text@),
            FormatPiece::Placeholder { field, spec } => Piece::Placeholder {
                field: *field,
                spec: *spec,
            },
        }
    }
}

/// A compiled log-line template.
#[derive(Clone, Debug)]
pub struct LogFormat {
    pieces: Vec<FormatPiece>,
}

impl View for LogFormat {
    type V = Seq<Piece>;

    closed spec fn view(&self) -> Seq<Piece> {
        self.pieces@.map_values(|piece: FormatPiece| piece@)
    }
}

/// The field with the given name.
pub open spec fn field_named(name: Seq<char>) -> Option<LogField> {
    if name == "timestamp"@ {
        Some(LogField::Timestamp)
    } else if name == "thread_name"@ {
        Some(LogField::ThreadName)
    } else if name == "level"@ {
        Some(LogField::Level)
    } else if name == "target"@ {
        Some(LogField::Target)
    } else if name == "args"@ || name == "message"@ {
        Some(LogField::Args)
    } else if name == "module_path"@ {
        Some(LogField::ModulePath)
    } else if name == "file"@ {
        Some(LogField::File)
    } else if name == "line"@ {
        Some(LogField::Line)
    } else {
        None
    }
}

/// `width`, but at most the widest field that a template can ask for.
pub open spec fn bounded_width(width: nat) -> usize {
    if width < MAX_FORMAT_FIELD_WIDTH {
        width as usize
    } else {
        MAX_FORMAT_FIELD_WIDTH
    }
}

/// What a format specification asks for: `<N` and `>N` give width and alignment,
/// anything else gives no padding.
pub open spec fn spec_written(s: Seq<char>) -> FormatSpec {
    let number = decimal_value(s.drop_first(), usize::MAX as nat);
    if s.len() > 0 && s[0] == '<' && number is Some {
        FormatSpec { align: Align::Left, width: Some(bounded_width(number->Some_0)) }
    } else if s.len() > 0 && s[0] == '>' && number is Some {
        FormatSpec { align: Align::Right, width: Some(bounded_width(number->Some_0)) }
    } else {
        FormatSpec { align: Align::Left, width: None }
    }
}

/// The name and the format specification in the text between two braces.
pub open spec fn name_and_spec(token: Seq<char>) -> (Seq<char>, Seq<char>) {
    match split_once(token, ':') {
        Some(parts) => parts,
        None => (token, Seq::empty()),
    }
}

/// What the text between two braces stands for: a field where it names one, and
/// otherwise itself with its braces.
pub open spec fn placeholder(token: Seq<char>) -> Piece {
    let (name, spec) = name_and_spec(token);
    match field_named(name) {
        Some(field) => Piece::Placeholder { field, spec: spec_written(spec) },
        None => Piece::Literal(seq!['{'] + token + seq!['}']),
    }
}

/// Literal text as pieces: none where there is no text.
pub open spec fn literal_pieces(literal: Seq<char>) -> Seq<Piece> {
    if literal.len() == 0 {
        Seq::empty()
    } else {
        seq![Piece::Literal(literal)]
    }
}

/// What follows the first closing brace of `s`: nothing where there is none.
pub open spec fn after_brace(s: Seq<char>) -> Seq<char> {
    let end = index_of(s, '}');
    if end < s.len() {
        s.skip(end + 1)
    } else {
        Seq::empty()
    }
}

/// The pieces of the template `s`, where `literal` is the literal text just before it.
///
/// A doubled brace is that brace, and so is a closing brace that nothing opened. An
/// opening brace begins a placeholder, which ends at the next closing brace or at the
/// end of the template.
pub open spec fn compiled(s: Seq<char>, literal: Seq<char>) -> Seq<Piece>
    decreases s.len(),
    via compiled_decreases
{
    if s.len() == 0 {
        literal_pieces(literal)
    } else if s[0] == '{' && s.len() > 1 && s[1] == '{' {
        compiled(s.skip(2), literal.push('{'))
    } else if s[0] == '{' {
        let body = s.skip(1);
        let token = body.take(index_of(body, '}'));
        literal_pieces(literal) + seq![placeholder(token)] + compiled(
            after_brace(body),
            Seq::empty(),
        )
    } else if s[0] == '}' && s.len() > 1 && s[1] == '}' {
        compiled(s.skip(2), literal.push('}'))
    } else {
        compiled(s.skip(1), literal.push(s[0]))
    }
}

#[via_fn]
proof fn compiled_decreases(s: Seq<char>, literal: Seq<char>) {
    if s.len() > 0 {
        lemma_index_of(s.skip(1), '}');
    }
}

/// Whether `chars` spells `text`.
fn spells(chars: &Vec<char>, text: &str) -> (yes: bool)
    ensures
        yes == (chars@ == text@),
{
    let wanted = chars_of(text);
    if chars.len() != wanted.len() {
        return false;
    }
    for i in 0..chars.len()
        invariant
            chars@.len() == wanted@.len(),
            wanted@ == text@,
            chars@.take(i as int) == wanted@.take(i as int),
    {
        if chars[i] != wanted[i] {
            return false;
        }
        assert(chars@.take(i + 1) =~= chars@.take(i as int).push(chars@[i as int]));
        assert(wanted@.take(i + 1) =~= wanted@.take(i as int).push(wanted@[i as int]));
    }
    assert(chars@.take(chars@.len() as int) =~= chars@);
    assert(wanted@.take(wanted@.len() as int) =~= wanted@);
    true
}

/// The field with the given name.
fn find_field(name: &Vec<char>) -> (field: Option<LogField>)
    ensures
        field == field_named(name@),
{
    if spells(name, "timestamp") {
        Some(LogField::Timestamp)
    } else if spells(name, "thread_name") {
        Some(LogField::ThreadName)
    } else if spells(name, "level") {
        Some(LogField::Level)
    } else if spells(name, "target") {
        Some(LogField::Target)
    } else if spells(name, "args") || spells(name, "message") {
        Some(LogField::Args)
    } else if spells(name, "module_path") {
        Some(LogField::ModulePath)
    } else if spells(name, "file") {
        Some(LogField::File)
    } else if spells(name, "line") {
        Some(LogField::Line)
    } else {
        None
    }
}

/// Reads a format specification: `<N` (left-aligned, width N) or `>N` (right-aligned,
/// width N), with the width bounded by [`MAX_FORMAT_FIELD_WIDTH`]. Anything else asks
/// for no padding.
pub fn parse_format_spec(spec: &str) -> (parsed: FormatSpec)
    ensures
        parsed == spec_written(spec@),
{
    let chars = chars_of(spec);
    if chars.len() > 0 && (chars[0] == '<' || chars[0] == '>') {
        let digits = range_of(&chars, 1, chars.len());
        assert(digits@ =~= spec@.drop_first());
        if let Some(number) = parse_decimal(&digits, usize::MAX as u64) {
            let width: usize = if number < MAX_FORMAT_FIELD_WIDTH as u64 {
                number as usize
            } else {
                MAX_FORMAT_FIELD_WIDTH
            };
            let align = if chars[0] == '<' {
                Align::Left
            } else {
                Align::Right
            };
            return FormatSpec { align, width: Some(width) };
        }
    }
    FormatSpec { align: Align::Left, width: None }
}

/// Reads the text between two braces. A name that is no field's gives literal text.
pub fn parse_placeholder(token: &str) -> (piece: FormatPiece)
    ensures
        piece@ == placeholder(token@),
{
    let chars = chars_of(token);
    let at = find_from(&chars, 0, ':');
    assert(chars@.skip(0) =~= chars@);
    let name = range_of(&chars, 0, at);
    let spec = if at < chars.len() {
        string_of(&range_of(&chars, at + 1, chars.len()))
    } else {
        String::new()
    };
    assert(name@ =~= name_and_spec(token@).0) by {
        assert(chars@.subrange(0, at as int) =~= chars@.take(at as int));
    }
    assert(spec@ =~= name_and_spec(token@).1);
    match find_field(&name) {
        Some(field) => FormatPiece::Placeholder { field, spec: parse_format_spec(spec.as_str()) },
        None => {
            let mut text = String::new();
            text.push('{');
            text.append(token);
            text.push('}');
            assert(text@ =~= seq!['{'] + token@ + seq!['}']);
            FormatPiece::Literal(text)
        },
    }
}

/// `n` spaces.
pub open spec fn spaces(n: nat) -> Seq<char> {
    Seq::new(n, |i: int| ' ')
}

/// A field's value, filled with spaces up to the width that `spec` asks for.
pub open spec fn padded(value: Seq<char>, spec: FormatSpec) -> Seq<char> {
    match spec.width {
        Some(width) => if value.len() < width {
            let fill = spaces((width - value.len()) as nat);
            match spec.align {
                Align::Left => value + fill,
                Align::Right => fill + value,
            }
        } else {
            value
        },
        None => value,
    }
}

/// The text of an optional part of a record: empty where the record lacks it.
pub open spec fn text_or_empty(part: Option<String>) -> Seq<char> {
    match part {
        Some(text) => text@,
        None => Seq::empty(),
    }
}

/// What a field shows of a record, where `now` is the time of rendering.
pub open spec fn field_text(field: LogField, record: Record, now: UtcTime) -> Seq<char> {
    match field {
        LogField::Timestamp => now.text(),
        LogField::ThreadName => match record.thread_name {
            Some(name) => name@,
            None => "unnamed"@,
        },
        LogField::Level => record.level.name(),
        LogField::Target => record.target@,
        LogField::Args => record.args@,
        LogField::ModulePath => text_or_empty(record.module),
        LogField::File => text_or_empty(record.file),
        LogField::Line => match record.line {
            Some(line) => decimal(line as nat),
            None => Seq::empty(),
        },
    }
}

/// What a piece of a template shows of a record.
pub open spec fn piece_text(piece: Piece, record: Record, now: UtcTime) -> Seq<char> {
    match piece {
        Piece::Literal(text) => text,
        Piece::Placeholder { field, spec } => padded(field_text(field, record, now), spec),
    }
}

/// What the pieces show of a record, one after the other; `clock` holds the time at
/// which each of them was rendered.
pub open spec fn pieces_text(pieces: Seq<Piece>, record: Record, clock: Seq<UtcTime>) -> Seq<char>
    decreases pieces.len(),
{
    if pieces.len() == 0 {
        Seq::empty()
    } else {
        pieces_text(pieces.drop_last(), record, clock) + piece_text(
            pieces.last(),
            record,
            clock[pieces.len() - 1],
        )
    }
}

/// `text` with a line feed at its end, where it has none.
pub open spec fn with_line_feed(text: Seq<char>) -> Seq<char> {
    if text.len() > 0 && text.last() == '\n' {
        text
    } else {
        text.push('\n')
    }
}

/// The log line for a record; `clock` holds the time at which each piece was rendered.
pub open spec fn line_text(pieces: Seq<Piece>, record: Record, clock: Seq<UtcTime>) -> Seq<char> {
    with_line_feed(pieces_text(pieces, record, clock))
}

/// Whether a template shows a field.
pub open spec fn shows(pieces: Seq<Piece>, shown: LogField) -> bool {
    exists|i: int|
        0 <= i < pieces.len() && (#[trigger] pieces[i] matches Piece::Placeholder { field, .. }
            && field == shown)
}

/// Whether a piece shows the time.
pub open spec fn shows_time(piece: Piece) -> bool {
    piece matches Piece::Placeholder { field, .. } && field == LogField::Timestamp
}

/// Whether `clock` can be the times at which pieces were rendered: where a piece shows the
/// time, the system clock was read for it.
pub open spec fn clock_for(clock: Seq<UtcTime>, pieces: Seq<Piece>) -> bool {
    &&& clock.len() == pieces.len()
    &&& forall|i: int| 0 <= i < clock.len() ==> (#[trigger] clock[i]).valid()
    &&& forall|i: int|
        0 <= i < clock.len() && shows_time(pieces[i]) ==> read_from_clock(#[trigger] clock[i])
}

/// Fills a value with spaces up to the width that `spec` asks for. A value that is
/// already that wide stays as it is.
pub fn apply_format_spec(value: &str, spec: FormatSpec) -> (text: String)
    ensures
        text@ == padded(value@, spec),
{
    let len = value.unicode_len();
    match spec.width {
        Some(width) => {
            if len < width {
                let fill = width - len;
                let mut text = String::new();
                match spec.align {
                    Align::Left => {
                        text.append(value);
                        push_spaces(&mut text, fill);
                    },
                    Align::Right => {
                        push_spaces(&mut text, fill);
                        text.append(value);
                    },
                }
                assert(text@ =~= padded(value@, spec));
                text
            } else {
                value.to_string()
            }
        },
        None => value.to_string(),
    }
}

fn push_spaces(text: &mut String, n: usize)
    ensures
        final(text)@ == old(text)@ + spaces(n as nat),
{
    let ghost before = text@;
    for i in 0..n
        invariant
            text@ == before + spaces(i as nat),
    {
        text.push(' ');
        assert(before + spaces((i + 1) as nat) =~= (before + spaces(i as nat)).push(' '));
    }
    assert(text@ =~= before + spaces(n as nat));
}

fn owned_or_empty(part: &Option<String>) -> (text: String)
    ensures
        text@ == text_or_empty(*part),
{
    match part {
        Some(text) => text.clone(),
        None => String::new(),
    }
}

/// What a field shows of a record that is rendered at the time `now`.
pub fn render_field_at(field: LogField, record: &Record, now: &UtcTime) -> (text: String)
    requires
        now.valid(),
    ensures
        text@ == field_text(field, *record, *now),
{
    match field {
        LogField::Timestamp => timestamp_text(now),
        LogField::ThreadName => match &record.thread_name {
            Some(name) => name.clone(),
            None => "unnamed".to_string(),
        },
        LogField::Level => level_text(record.level),
        LogField::Target => record.target.clone(),
        LogField::Args => record.args.clone(),
        LogField::ModulePath => owned_or_empty(&record.module),
        LogField::File => owned_or_empty(&record.file),
        LogField::Line => match record.line {
            Some(line) => decimal_text(line),
            None => String::new(),
        },
    }
}

/// What a field shows of a record that is rendered now. For a timestamp the system
/// clock is read.
pub fn render_field(field: LogField, record: &Record) -> (text: String)
    ensures
        exists|now: UtcTime|
            now.valid() && (field == LogField::Timestamp ==> read_from_clock(now)) && text@
                == #[trigger] field_text(field, *record, now),
{
    let now = if field == LogField::Timestamp {
        read_clock()
    } else {
        UtcTime::unix_epoch()
    };
    render_field_at(field, record, &now)
}

impl LogFormat {
    /// Compiles a template.
    ///
    /// `{field}` and `{field:spec}` become placeholders; `{{` and `}}` stand for single
    /// braces. A name that is no field's is kept as literal text.
    pub fn parse(format: &str) -> (compiled_format: Self)
        ensures
            compiled_format@ == compiled(format@, Seq::empty()),
    {
        let chars = chars_of(format);
        let mut pieces: Vec<FormatPiece> = Vec::new();
        let mut literal = String::new();
        let mut i: usize = 0;
        let ghost all = compiled(format@, Seq::empty());
        let ghost views = |pieces: Seq<FormatPiece>| pieces.map_values(|p: FormatPiece| p@);
        assert(chars@.skip(0) =~= chars@);
        assert(literal@ =~= Seq::<char>::empty());
        assert(all =~= views(pieces@) + compiled(chars@.skip(0), literal@));
        while i < chars.len()
            invariant
                i <= chars@.len(),
                views == |pieces: Seq<FormatPiece>| pieces.map_values(|p: FormatPiece| p@),
                all == views(pieces@) + compiled(chars@.skip(i as int), literal@),
            decreases chars@.len() - i,
        {
            let c = chars[i];
            let ghost rest = chars@.skip(i as int);
            let ghost before = pieces@;
            assert(rest[0] == c);
            let doubled = i + 1 < chars.len() && chars[i + 1] == c;
            assert(doubled ==> rest[1] == c);
            assert(rest.skip(1) =~= chars@.skip(i + 1));
            if doubled && (c == '{' || c == '}') {
                assert(rest.skip(2) =~= chars@.skip(i + 2));
                literal.push(c);
                i = i + 2;
            } else if c == '{' {
                let ghost body = rest.skip(1);
                if !literal.as_str().is_empty() {
                    pieces.push(FormatPiece::Literal(literal));
                }
                assert(views(pieces@) =~= views(before) + literal_pieces(literal@));
                let end = find_from(&chars, i + 1, '}');
                let token = string_of(&range_of(&chars, i + 1, end));
                assert(token@ =~= body.take(index_of(body, '}')));
                let ghost between = pieces@;
                pieces.push(parse_placeholder(token.as_str()));
                assert(views(pieces@) =~= views(between) + seq![placeholder(token@)]);
                let next = if end < chars.len() {
                    end + 1
                } else {
                    end
                };
                assert(chars@.skip(next as int) =~= after_brace(body));
                literal = String::new();
                assert(literal@ =~= Seq::<char>::empty());
                i = next;
                assert(all =~= views(pieces@) + compiled(chars@.skip(i as int), literal@));
            } else {
                literal.push(c);
                i = i + 1;
            }
        }
        assert(chars@.skip(i as int) =~= Seq::<char>::empty());
        let ghost before = pieces@;
        if !literal.as_str().is_empty() {
            pieces.push(FormatPiece::Literal(literal));
        }
        assert(views(pieces@) =~= views(before) + literal_pieces(literal@));
        LogFormat { pieces }
    }

    /// Whether the template shows a field. What a record holds for a field that is not
    /// shown need not be computed.
    pub fn shows(&self, shown: LogField) -> (yes: bool)
        ensures
            yes == shows(self@, shown),
    {
        for i in 0..self.pieces.len()
            invariant
                self@.len() == self.pieces@.len(),
                !shows(self@.take(i as int), shown),
        {
            assert(self@[i as int] == self.pieces@[i as int]@);
            if let FormatPiece::Placeholder { field, .. } = &self.pieces[i] {
                if *field == shown {
                    return true;
                }
            }
            assert(!shows(self@.take(i + 1), shown)) by {
                assert forall|k: int| 0 <= k <= i implies !(#[trigger] self@.take(
                    i + 1,
                )[k] matches Piece::Placeholder { field, .. } && field == shown) by {
                    if k < i {
                        assert(self@.take(i as int)[k] == self@[k]);
                    }
                }
            }
        }
        assert(self@.take(self@.len() as int) =~= self@);
        false
    }

    /// The log line for a record that is rendered at the time `now`, with a line feed
    /// at its end.
    pub fn render_at(&self, record: &Record, now: &UtcTime) -> (line: String)
        requires
            now.valid(),
        ensures
            line@ == line_text(self@, *record, Seq::new(self@.len(), |i: int| *now)),
            line@.len() > 0 && line@.last() == '\n',
    {
        let mut line = String::new();
        let ghost clock = Seq::new(self@.len(), |i: int| *now);
        for i in 0..self.pieces.len()
            invariant
                now.valid(),
                self@.len() == self.pieces@.len(),
                clock == Seq::new(self@.len(), |i: int| *now),
                line@ == pieces_text(self@.take(i as int), *record, clock),
        {
            match &self.pieces[i] {
                FormatPiece::Literal(text) => {
                    line.append(text.as_str());
                },
                FormatPiece::Placeholder { field, spec } => {
                    let value = render_field_at(*field, record, now);
                    line.append(apply_format_spec(value.as_str(), *spec).as_str());
                },
            }
            assert(self@.take(i + 1).drop_last() =~= self@.take(i as int));
            assert(self@[i as int] == self.pieces@[i as int]@);
        }
        assert(self@.take(self@.len() as int) =~= self@);
        end_line(line)
    }

    /// The log line for a record that is rendered now, with a line feed at its end. The
    /// system clock is read for every timestamp that the template asks for.
    pub fn render(&self, record: &Record) -> (line: String)
        ensures
            exists|clock: Seq<UtcTime>|
                clock_for(clock, self@) && line@ == #[trigger] line_text(
                    self@,
                    *record,
                    clock,
                ),
            line@.len() > 0 && line@.last() == '\n',
    {
        let mut line = String::new();
        let ghost mut clock: Seq<UtcTime> = Seq::empty();
        for i in 0..self.pieces.len()
            invariant
                self@.len() == self.pieces@.len(),
                clock_for(clock, self@.take(i as int)),
                line@ == pieces_text(self@.take(i as int), *record, clock),
        {
            let ghost mut now = arbitrary::<UtcTime>();
            match &self.pieces[i] {
                FormatPiece::Literal(text) => {
                    line.append(text.as_str());
                    proof {
                        now = witness_time();
                    }
                },
                FormatPiece::Placeholder { field, spec } => {
                    let value = render_field(*field, record);
                    line.append(apply_format_spec(value.as_str(), *spec).as_str());
                    proof {
                        now = choose|now: UtcTime|
                            now.valid() && (*field == LogField::Timestamp ==> read_from_clock(now))
                                && value@ == #[trigger] field_text(*field, *record, now);
                    }
                },
            }
            proof {
                assert(self@.take(i + 1).drop_last() =~= self@.take(i as int));
                assert(self@[i as int] == self.pieces@[i as int]@);
                lemma_pieces_text_prefix(self@.take(i as int), *record, clock, clock.push(now));
                clock = clock.push(now);
                assert(clock_for(clock, self@.take(i + 1))) by {
                    assert forall|k: int|
                        0 <= k < clock.len() && shows_time(
                            self@.take(i + 1)[k],
                        ) implies read_from_clock(#[trigger] clock[k]) by {
                        if k < i {
                            assert(self@.take(i + 1)[k] == self@.take(i as int)[k]);
                        }
                    }
                }
            }
        }
        assert(self@.take(self@.len() as int) =~= self@);
        assert(line_text(self@, *record, clock) == with_line_feed(line@));
        end_line(line)
    }
}

/// Some point in time.
spec fn witness_time() -> UtcTime {
    UtcTime { year: 1970, month: 1, day: 1, hour: 0, minute: 0, second: 0, nanosecond: 0 }
}

/// Only the times of the pieces themselves matter to their text.
proof fn lemma_pieces_text_prefix(
    pieces: Seq<Piece>,
    record: Record,
    clock: Seq<UtcTime>,
    other: Seq<UtcTime>,
)
    requires
        forall|i: int| 0 <= i < pieces.len() ==> #[trigger] clock[i] == other[i],
    ensures
        pieces_text(pieces, record, clock) == pieces_text(pieces, record, other),
    decreases pieces.len(),
{
    if pieces.len() > 0 {
        assert(clock[pieces.len() - 1] == other[pieces.len() - 1]);
        lemma_pieces_text_prefix(pieces.drop_last(), record, clock, other);
    }
}

/// Ends a line with a line feed, where it has none at its end.
fn end_line(text: String) -> (line: String)
    ensures
        line@ == with_line_feed(text@),
{
    let mut ended = false;
    for c in it: text.as_str().chars()
        invariant
            it.seq() == text@,
            ended == (it.index() > 0 && text@[it.index() - 1] == '\n'),
    {
        ended = c == '\n';
    }
    let mut line = text;
    if !ended {
        line.push('\n');
    }
    line
}

} // verus!
