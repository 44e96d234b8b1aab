//! What every name is decoded to.

use crate::utf16::{decoded, leads, trails};
use vstd::prelude::*;

verus! {

/// A unit alone: a character of that code, or, where it is half of a surrogate
/// pair, the replacement character.
pub proof fn law_single_units(u: u16)
    ensures
        u < 0xd800 || 0xdfff < u ==> decoded(seq![u]) == seq![u as char],
        0xd800 <= u <= 0xdfff ==> decoded(seq![u]) == seq!['\u{fffd}'],
{
    assert(seq![u].skip(1) =~= Seq::<u16>::empty());
    assert(decoded(seq![u].skip(1)) =~= Seq::<char>::empty());
    assert(decoded(seq![u]) =~= if 0xd800 <= u <= 0xdfff {
        seq!['\u{fffd}']
    } else {
        seq![u as char]
    });
}

/// A surrogate pair: the one character whose code the two halves make up, ten
/// bits each, above the first 65536.
pub proof fn law_pairs(lead: u16, trail: u16)
    requires
        0xd800 <= lead <= 0xdbff,
        0xdc00 <= trail <= 0xdfff,
    ensures
        decoded(seq![lead, trail]).len() == 1,
        decoded(seq![lead, trail])[0] as int == 65536 + 1024 * (lead - 0xd800) + (trail - 0xdc00),
{
    let s = seq![lead, trail];
    assert(s.skip(2) =~= Seq::<u16>::empty());
    assert(decoded(s.skip(2)) =~= Seq::<char>::empty());
}

/// Names that meet without making up a pair are decoded apart.
pub proof fn law_decoding_splits(a: Seq<u16>, b: Seq<u16>)
    requires
        a.len() == 0 || b.len() == 0 || !(0xd800 <= a.last() <= 0xdbff) || !(0xdc00 <= b[0]
            <= 0xdfff),
    ensures
        decoded(a + b) == decoded(a) + decoded(b),
    decreases a.len(),
{
    let s = a + b;
    if a.len() == 0 {
        assert(s =~= b);
        assert(decoded(a) =~= Seq::<char>::empty());
        assert(decoded(a) + decoded(b) =~= decoded(b));
    } else if b.len() == 0 {
        assert(s =~= a);
        assert(decoded(a) + decoded(b) =~= decoded(a));
    } else if a.len() > 1 && leads(a[0]) && trails(a[1]) {
        assert(s.skip(2) =~= a.skip(2) + b);
        law_decoding_splits(a.skip(2), b);
        assert(decoded(s) =~= decoded(a) + decoded(b));
    } else {
        assert(s.skip(1) =~= a.skip(1) + b);
        law_decoding_splits(a.skip(1), b);
        assert(decoded(s) =~= decoded(a) + decoded(b));
    }
}

} // verus!
