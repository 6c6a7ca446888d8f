//! Text for the interfaces of operating systems.

use vstd::prelude::*;

verus! {

/// The UTF-16 code units of a character: itself, or a pair of surrogates.
pub open spec fn utf16_units(c: char) -> Seq<u16> {
    let code = c as int;
    if code < 0x10000 {
        seq![code as u16]
    } else {
        seq![
            (0xD800 + (code - 0x10000) / 0x400) as u16,
            (0xDC00 + (code - 0x10000) % 0x400) as u16,
        ]
    }
}

/// A text in UTF-16.
pub open spec fn utf16(s: Seq<char>) -> Seq<u16>
    decreases s.len(),
{
    if s.len() == 0 {
        Seq::empty()
    } else {
        utf16(s.drop_last()) + utf16_units(s.last())
    }
}

proof fn lemma_char_code(c: char)
    ensures
        c as u32 == c as int,
        0 <= c as int <= 0x10FFFF,
{
}

/// A text in UTF-16, with the zero at its end that marks the end for Windows.
pub fn to_wide_null(s: &str) -> (wide: Vec<u16>)
    ensures
        wide@ == utf16(s@).push(0),
{
    let mut wide: Vec<u16> = Vec::new();
    for c in it: s.chars()
        invariant
            it.seq() == s@,
            wide@ == utf16(s@.take(it.index())),
    {
        let code: u32 = c as u32;
        proof {
            lemma_char_code(c);
            assert(s@.take(it.index() + 1).drop_last() =~= s@.take(it.index()));
            assert(s@.take(it.index() + 1).last() == c);
        }
        let ghost before = wide@;
        if code < 0x10000 {
            wide.push(code as u16);
            assert(wide@ =~= before + utf16_units(c));
        } else {
            let rest: u32 = code - 0x10000;
            wide.push((0xD800 + rest / 0x400) as u16);
            wide.push((0xDC00 + rest % 0x400) as u16);
            assert(wide@ =~= before + utf16_units(c));
        }
    }
    assert(s@.take(s@.len() as int) =~= s@);
    wide.push(0);
    wide
}

/// A text is encoded character by character: one that fits into sixteen bits is its own
/// code unit, and any other is a pair of surrogates that its code is read back from.
pub proof fn utf16_is_read_back(s: Seq<char>, c: char)
    ensures
        utf16(Seq::empty()).len() == 0,
        utf16(s.push(c)) == utf16(s) + utf16_units(c),
        (c as int) < 0x10000 ==> utf16_units(c).len() == 1 && utf16_units(c)[0] == c as int,
        c as int >= 0x10000 ==> {
            let units = utf16_units(c);
            &&& units.len() == 2
            &&& 0xD800 <= units[0] < 0xDC00
            &&& 0xDC00 <= units[1] < 0xE000
            &&& 0x10000 + (units[0] - 0xD800) * 0x400 + (units[1] - 0xDC00) == c as int
        },
{
    assert(s.push(c).drop_last() =~= s);
    lemma_char_code(c);
}

/// A text without a NUL character has no zero among its UTF-16 code units, so that the
/// zero behind it marks its end.
pub proof fn utf16_has_no_inner_zero(s: Seq<char>)
    requires
        forall|i: int| 0 <= i < s.len() ==> #[trigger] s[i] != '\0',
    ensures
        forall|i: int| 0 <= i < utf16(s).len() ==> #[trigger] utf16(s)[i] != 0,
    decreases s.len(),
{
    if s.len() > 0 {
        let head = s.drop_last();
        assert forall|i: int| 0 <= i < head.len() implies #[trigger] head[i] != '\0' by {
            assert(head[i] == s[i]);
        }
        utf16_has_no_inner_zero(head);
        assert(s[s.len() - 1] != '\0');
        lemma_char_code(s.last());
        let units = utf16_units(s.last());
        assert forall|i: int| 0 <= i < utf16(s).len() implies #[trigger] utf16(s)[i] != 0 by {
            if i < utf16(head).len() {
                assert(utf16(s)[i] == utf16(head)[i]);
            } else {
                assert(utf16(s)[i] == units[i - utf16(head).len()]);
            }
        }
    }
}

} // verus!
