//! What holds of every number and every padding that is written.

use crate::text::{decimal, digit_char, fill, hex, hex16, pad_end, pad_start, shown};
use vstd::arithmetic::div_mod::{lemma_basic_div, lemma_div_denominator};
use vstd::arithmetic::power::{lemma_pow_increases, lemma_pow_positive, pow};
use vstd::prelude::*;

verus! {

/// The digits up to base sixteen, in their order.
pub open spec fn numerals() -> Seq<char> {
    seq!['0', '1', '2', '3', '4', '5', '6', '7', '8', '9', 'a', 'b', 'c', 'd', 'e', 'f']
}

/// Whether `h` is written in `base` and stands for `v`: each place holds the
/// digit that `v` has there, and no digit of `v` is missing.
pub open spec fn stands_for(h: Seq<char>, base: nat, v: nat) -> bool {
    &&& h.len() > 0
    &&& v < pow(base as int, h.len())
    &&& forall|i: int|
        0 <= i < h.len() ==> #[trigger] h[i] == numerals()[(v as int / pow(
            base as int,
            (h.len() - 1 - i) as nat,
        )) % base as int]
}

/// Whether `h` stands for `v` in `base` without a leading zero.
pub open spec fn short_numeral(h: Seq<char>, base: nat, v: nat) -> bool {
    stands_for(h, base, v) && (h.len() == 1 || h[0] != '0')
}

/// Whether `h` stands for `v` in base sixteen over sixteen places.
pub open spec fn wide_numeral(h: Seq<char>, v: nat) -> bool {
    stands_for(h, 16, v) && h.len() == 16
}

proof fn lemma_numerals(d: int)
    requires
        0 <= d < 16,
    ensures
        digit_char(d as nat) == numerals()[d],
        numerals()[d] == '0' <==> d == 0,
{
}

/// Writing one more digit behind a numeral multiplies by the base and adds it.
proof fn lemma_push_digit(h: Seq<char>, base: nat, v: nat)
    requires
        base == 10 || base == 16,
        stands_for(h, base, v / base),
    ensures
        stands_for(h.push(numerals()[(v % base) as int]), base, v),
{
    let g = h.push(numerals()[(v % base) as int]);
    let b = base as int;
    reveal(pow);
    assert(pow(b, g.len()) == b * pow(b, h.len()));
    assert(v < pow(b, g.len())) by {
        if base == 10 {
            assert(v < 10 * pow(10, h.len()));
        } else {
            assert(v < 16 * pow(16, h.len()));
        }
    }
    assert forall|i: int| 0 <= i < g.len() implies #[trigger] g[i] == numerals()[(v as int / pow(
        b,
        (g.len() - 1 - i) as nat,
    )) % b] by {
        if i < h.len() {
            let k = (h.len() - 1 - i) as nat;
            assert(g[i] == h[i]);
            lemma_pow_positive(b, k);
            lemma_div_denominator(v as int, b, pow(b, k));
            assert(pow(b, k + 1) == b * pow(b, k));
            assert(g.len() - 1 - i == k + 1);
        } else {
            assert(pow(b, 0) == 1);
            lemma_basic_div(0, 1);
            assert(v as int / 1 == v);
        }
    }
}

proof fn lemma_single_digit(v: nat, base: nat)
    requires
        base == 10 || base == 16,
        v < base,
    ensures
        short_numeral(seq![numerals()[v as int]], base, v),
{
    let h = seq![numerals()[v as int]];
    reveal_with_fuel(pow, 2);
    assert(pow(base as int, 1) == base);
    assert(pow(base as int, 0) == 1);
    assert(v as int / 1 == v);
    assert(v as int % base as int == v);
    assert forall|i: int| 0 <= i < h.len() implies #[trigger] h[i] == numerals()[(v as int / pow(
        base as int,
        (h.len() - 1 - i) as nat,
    )) % base as int] by {
        assert(i == 0);
    }
}

/// What `hex` writes is the numeral of the number in base sixteen, without
/// leading zeros.
pub proof fn law_hex_is_the_numeral(v: nat)
    ensures
        short_numeral(hex(v), 16, v),
        v >= 16 ==> hex(v).len() > 1,
    decreases v,
{
    if v < 16 {
        lemma_numerals(v as int);
        lemma_single_digit(v, 16);
        assert(hex(v) =~= seq![numerals()[v as int]]);
    } else {
        law_hex_is_the_numeral(v / 16);
        lemma_numerals((v % 16) as int);
        lemma_push_digit(hex(v / 16), 16, v);
        if v / 16 < 16 {
            lemma_numerals((v / 16) as int);
            assert(hex(v / 16) =~= seq![digit_char(v / 16)]);
        }
        assert(hex(v)[0] == hex(v / 16)[0]);
    }
}

/// What `decimal` writes is the numeral of the number in base ten, without
/// leading zeros.
pub proof fn law_decimal_is_the_numeral(v: nat)
    ensures
        short_numeral(decimal(v), 10, v),
        v >= 10 ==> decimal(v).len() > 1,
    decreases v,
{
    if v < 10 {
        lemma_numerals(v as int);
        lemma_single_digit(v, 10);
        assert(decimal(v) =~= seq![numerals()[v as int]]);
    } else {
        law_decimal_is_the_numeral(v / 10);
        lemma_numerals((v % 10) as int);
        lemma_push_digit(decimal(v / 10), 10, v);
        if v / 10 < 10 {
            lemma_numerals((v / 10) as int);
            assert(decimal(v / 10) =~= seq![digit_char(v / 10)]);
        }
        assert(decimal(v)[0] == decimal(v / 10)[0]);
    }
}

pub proof fn lemma_high_digit_is_zero(h: Seq<char>, base: nat, v: nat, n: nat)
    requires
        base == 10 || base == 16,
        stands_for(h, base, v),
        v < pow(base as int, n),
        n < h.len(),
    ensures
        h[0] == '0',
{
    let k = (h.len() - 1) as nat;
    let p = pow(base as int, k);
    lemma_pow_positive(base as int, k);
    lemma_pow_increases(base, n, k);
    assert(v < p);
    assert(v as int / p == 0) by {
        lemma_basic_div(v as int, p);
    }
    assert(0int % base as int == 0);
    assert(h[0] == numerals()[(v as int / p) % base as int]);
}

/// A number has one numeral of each length, and one without a leading zero.
pub proof fn law_numerals_are_unique(g: Seq<char>, h: Seq<char>, base: nat, v: nat)
    requires
        base == 10 || base == 16,
        stands_for(g, base, v),
        stands_for(h, base, v),
        g.len() == h.len() || short_numeral(g, base, v) && short_numeral(h, base, v),
    ensures
        g == h,
{
    if g.len() < h.len() {
        lemma_high_digit_is_zero(h, base, v, g.len());
    } else if h.len() < g.len() {
        lemma_high_digit_is_zero(g, base, v, h.len());
    }
    assert forall|i: int| 0 <= i < g.len() implies g[i] == h[i] by {
        assert(g[i] == numerals()[(v as int / pow(base as int, (g.len() - 1 - i) as nat))
            % base as int]);
        assert(h[i] == numerals()[(v as int / pow(base as int, (h.len() - 1 - i) as nat))
            % base as int]);
    }
    assert(g =~= h);
}

pub proof fn lemma_more_zeros(h: Seq<char>, n: int, v: nat)
    requires
        stands_for(h, 16, v),
        n >= 0,
    ensures
        stands_for(fill('0', n) + h, 16, v),
{
    let g = fill('0', n) + h;
    lemma_pow_increases(16, h.len(), g.len());
    assert forall|i: int| 0 <= i < g.len() implies #[trigger] g[i] == numerals()[(v as int / pow(
        16,
        (g.len() - 1 - i) as nat,
    )) % 16] by {
        if i < n {
            let k = (g.len() - 1 - i) as nat;
            let p = pow(16, k);
            lemma_pow_positive(16, k);
            lemma_pow_increases(16, h.len(), k);
            lemma_basic_div(v as int, p);
            assert(v as int / p == 0);
        } else {
            assert(g[i] == h[i - n]);
            assert(g.len() - 1 - i == h.len() - 1 - (i - n));
        }
    }
}

/// What `hex16` writes of a machine word is its numeral over sixteen places.
pub proof fn law_hex16_is_the_numeral(v: u64)
    ensures
        wide_numeral(hex16(v as nat), v as nat),
{
    let h = hex(v as nat);
    law_hex_is_the_numeral(v as nat);
    assert(pow(16, 16) == 0x1_0000_0000_0000_0000) by {
        reveal_with_fuel(pow, 17);
    }
    if h.len() > 16 {
        lemma_high_digit_is_zero(h, 16, v as nat, 16);
    }
    lemma_more_zeros(h, 16 - h.len(), v as nat);
}

/// The numerals of a number are what is written of it.
pub proof fn lemma_written(v: u64, short: Seq<char>, wide: Seq<char>, dec: Seq<char>)
    ensures
        short_numeral(short, 16, v as nat) ==> short == hex(v as nat),
        wide_numeral(wide, v as nat) ==> wide == hex16(v as nat),
        short_numeral(dec, 10, v as nat) ==> dec == decimal(v as nat),
{
    law_hex_is_the_numeral(v as nat);
    law_hex16_is_the_numeral(v);
    law_decimal_is_the_numeral(v as nat);
    if short_numeral(short, 16, v as nat) {
        law_numerals_are_unique(short, hex(v as nat), 16, v as nat);
    }
    if wide_numeral(wide, v as nat) {
        law_numerals_are_unique(wide, hex16(v as nat), 16, v as nat);
    }
    if short_numeral(dec, 10, v as nat) {
        law_numerals_are_unique(dec, decimal(v as nat), 10, v as nat);
    }
}

/// Padding brings a text to the width asked for and no further, keeps the text,
/// and adds nothing but the character asked for, or spaces.
pub proof fn law_padding(s: Seq<char>, c: char, width: nat)
    ensures
        pad_start(s, c, width).len() == (if s.len() < width { width } else { s.len() }),
        pad_start(s, c, width).skip(pad_start(s, c, width).len() - s.len()) == s,
        forall|i: int|
            0 <= i < pad_start(s, c, width).len() - s.len() ==> #[trigger] pad_start(
                s,
                c,
                width,
            )[i] == c,
        pad_end(s, width).len() == (if s.len() < width { width } else { s.len() }),
        pad_end(s, width).take(s.len() as int) == s,
        forall|i: int|
            s.len() <= i < pad_end(s, width).len() ==> #[trigger] pad_end(s, width)[i] == ' ',
{
    let p = pad_start(s, c, width);
    assert(p.skip(p.len() - s.len()) =~= s);
    assert(pad_end(s, width).take(s.len() as int) =~= s);
}

/// Taking a message as characters keeps the value, the failure and the message.
pub proof fn law_shown_keeps_all<T>(r: Result<T, String>)
    ensures
        r matches Ok(v) ==> shown(r) == Ok::<T, Seq<char>>(v),
        r matches Err(e) ==> shown(r) == Err::<T, Seq<char>>(e@),
{
}

} // verus!
