//! Names as the system hands them out: UTF-16 in a buffer that ends in a zero.

use vstd::prelude::*;

verus! {

/// `char::from_u32` gives the character of a code point, and nothing for the
/// surrogates and for what lies beyond the last code point.
pub assume_specification[ char::from_u32 ](i: u32) -> (c: Option<char>)
    ensures
        c == (if i < 0xd800 || 0xdfff < i && i <= 0x10ffff {
            Some(i as char)
        } else {
            None
        }),
;

/// Stands for a unit that cannot be decoded.
pub const REPLACEMENT: char = '\u{fffd}';

/// Whether `u` opens a surrogate pair.
pub open spec fn leads(u: u16) -> bool {
    0xd800 <= u < 0xdc00
}

/// Whether `u` closes a surrogate pair.
pub open spec fn trails(u: u16) -> bool {
    0xdc00 <= u < 0xe000
}

/// The character that a surrogate pair stands for.
pub open spec fn paired(lead: u16, trail: u16) -> char {
    (0x1_0000 + (lead - 0xd800) * 0x400 + (trail - 0xdc00)) as char
}

/// The text that `units` encode in UTF-16, with a replacement character for each
/// surrogate outside a pair.
pub open spec fn decoded(units: Seq<u16>) -> Seq<char>
    decreases units.len(),
{
    if units.len() == 0 {
        Seq::empty()
    } else if leads(units[0]) && units.len() > 1 && trails(units[1]) {
        seq![paired(units[0], units[1])] + decoded(units.skip(2))
    } else if leads(units[0]) || trails(units[0]) {
        seq![REPLACEMENT] + decoded(units.skip(1))
    } else {
        seq![units[0] as char] + decoded(units.skip(1))
    }
}

/// The units in front of the first zero, or all of them.
pub open spec fn before_zero(units: Seq<u16>) -> Seq<u16>
    decreases units.len(),
{
    if units.len() == 0 || units[0] == 0 {
        Seq::empty()
    } else {
        seq![units[0]] + before_zero(units.skip(1))
    }
}

/// Decodes the first `len` units.
fn decode(units: &[u16], len: usize) -> (s: String)
    requires
        len <= units@.len(),
    ensures
        s@ == decoded(units@.take(len as int)),
{
    let ghost all = units@.take(len as int);
    let mut s: String = String::new();
    let mut at: usize = 0;
    assert(all.skip(0) =~= all);
    while at < len
        invariant
            at <= len <= units@.len(),
            all == units@.take(len as int),
            s@ + decoded(all.skip(at as int)) == decoded(all),
        decreases len - at,
    {
        let ghost rest = all.skip(at as int);
        let ghost before = s@;
        assert(rest.skip(1) =~= all.skip(at + 1));
        let u: u16 = units[at];
        if 0xd800 <= u && u < 0xdc00 && len - at > 1 && 0xdc00 <= units[at + 1] && units[at + 1]
            < 0xe000 {
            assert(rest.skip(2) =~= all.skip(at + 2));
            let code: u32 = 0x1_0000 + (u as u32 - 0xd800) * 0x400 + (units[at + 1] as u32
                - 0xdc00);
            match char::from_u32(code) {
                Some(c) => s.push(c),
                None => s.push(REPLACEMENT),
            }
            at += 2;
        } else {
            match char::from_u32(u as u32) {
                Some(c) => s.push(c),
                None => s.push(REPLACEMENT),
            }
            at += 1;
        }
        assert(s@ + decoded(all.skip(at as int)) =~= before + decoded(rest));
    }
    assert(all.skip(len as int) =~= Seq::<u16>::empty());
    assert(s@ + Seq::<char>::empty() =~= s@);
    s
}

/// Decodes a name that ends in front of the first zero, if there is one.
pub fn decode_name(units: &[u16]) -> (s: String)
    ensures
        s@ == decoded(before_zero(units@)),
{
    let mut len: usize = 0;
    assert(units@.skip(0) =~= units@);
    assert(units@.take(0) =~= Seq::<u16>::empty());
    while len < units.len() && units[len] != 0
        invariant
            len <= units@.len(),
            units@.take(len as int) + before_zero(units@.skip(len as int)) == before_zero(units@),
        decreases units.len() - len,
    {
        assert(units@.skip(len as int).skip(1) =~= units@.skip(len + 1));
        assert(units@.take(len + 1) + before_zero(units@.skip(len + 1)) =~= units@.take(len as int)
            + before_zero(units@.skip(len as int)));
        len += 1;
    }
    assert(before_zero(units@.skip(len as int)) =~= Seq::<u16>::empty());
    assert(units@.take(len as int) =~= before_zero(units@));
    decode(units, len)
}

/// Text made of units that are no surrogates is decoded unit by unit.
pub proof fn law_plain_units_decode_to_themselves(units: Seq<u16>)
    requires
        forall|i: int| 0 <= i < units.len() ==> !leads(units[i]) && !trails(units[i]),
    ensures
        decoded(units) == Seq::new(units.len(), |i: int| units[i] as char),
    decreases units.len(),
{
    if units.len() > 0 {
        law_plain_units_decode_to_themselves(units.skip(1));
    }
    assert(decoded(units) =~= Seq::new(units.len(), |i: int| units[i] as char));
}

/// A name is cut at its first zero, whatever follows it.
pub proof fn law_names_end_at_zero(name: Seq<u16>, tail: Seq<u16>)
    requires
        forall|i: int| 0 <= i < name.len() ==> name[i] != 0,
    ensures
        before_zero(name) == name,
        before_zero(name.push(0) + tail) == name,
    decreases name.len(),
{
    let full = name.push(0) + tail;
    if name.len() > 0 {
        law_names_end_at_zero(name.skip(1), tail);
        assert(full.skip(1) =~= name.skip(1).push(0) + tail);
    }
    assert(before_zero(name) =~= name);
    assert(before_zero(full) =~= name);
}

/// The units that encode `c`.
pub open spec fn encoded_char(c: char) -> Seq<u16> {
    let code = c as int;
    if code < 0x1_0000 {
        seq![code as u16]
    } else {
        seq![
            (0xd800 + (code - 0x1_0000) / 0x400) as u16,
            (0xdc00 + (code - 0x1_0000) % 0x400) as u16,
        ]
    }
}

/// The units that encode `text` in UTF-16.
pub open spec fn encoded(text: Seq<char>) -> Seq<u16>
    decreases text.len(),
{
    if text.len() == 0 {
        Seq::empty()
    } else {
        encoded_char(text[0]) + encoded(text.skip(1))
    }
}

/// The units of one character are decoded to that character.
proof fn lemma_char_decodes(c: char, rest: Seq<u16>)
    ensures
        decoded(encoded_char(c) + rest) == seq![c] + decoded(rest),
{
    let units = encoded_char(c) + rest;
    let code = c as u32;
    assert(code <= 0xd7ff || 0xe000 <= code <= 0x10ffff);
    if code < 0x1_0000 {
        assert(units[0] == code);
        assert(units.skip(1) =~= rest);
    } else {
        assert(units.skip(2) =~= rest);
        assert(paired(units[0], units[1]) == c);
    }
}

/// Every text is got back from its encoding.
pub proof fn law_decoding_undoes_encoding(text: Seq<char>)
    ensures
        decoded(encoded(text)) == text,
    decreases text.len(),
{
    if text.len() > 0 {
        law_decoding_undoes_encoding(text.skip(1));
        lemma_char_decodes(text[0], encoded(text.skip(1)));
    }
    assert(decoded(encoded(text)) =~= text);
}

} // verus!
