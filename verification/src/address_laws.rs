//! What holds of every address that is read.

use crate::address::{
    all_hex, digit_value, hex_value, lemma_prefix_value, number, parsed_address, strip_all,
    too_large, without_plus,
    NumberError,
};
use crate::text::{digit_char, fill, hex, hex16};
use crate::text_laws::{
    law_hex_is_the_numeral, law_numerals_are_unique, lemma_high_digit_is_zero, lemma_more_zeros,
    stands_for,
};
use vstd::arithmetic::power::pow;
use vstd::prelude::*;

verus! {

/// A sequence whose every element passes a test is left alone by filtering.
proof fn lemma_filter_keeps_all(s: Seq<char>, keep: spec_fn(char) -> bool)
    requires
        forall|i: int| 0 <= i < s.len() ==> keep(#[trigger] s[i]),
    ensures
        s.filter(keep) == s,
    decreases s.len(),
{
    reveal(Seq::filter);
    if s.len() > 0 {
        lemma_filter_keeps_all(s.drop_last(), keep);
        assert(s =~= s.drop_last().push(s.last()));
    }
}

/// Filtering twice by one test is filtering once.
proof fn lemma_filter_twice(s: Seq<char>, keep: spec_fn(char) -> bool)
    ensures
        s.filter(keep).filter(keep) == s.filter(keep),
{
    broadcast use vstd::seq_lib::group_filter_ensures;

    lemma_filter_keeps_all(s.filter(keep), keep);
}

/// Text without the letters `x` and `X` has no prefix to strip.
proof fn lemma_nothing_to_strip(s: Seq<char>)
    requires
        forall|i: int| 0 <= i < s.len() ==> s[i] != 'x' && s[i] != 'X',
    ensures
        strip_all(s, "0x"@) == s,
        strip_all(s, "0X"@) == s,
        strip_all("0x"@ + s, "0x"@) == s,
        strip_all("0x"@ + s, "0X"@) == "0x"@ + s,
        strip_all("0X"@ + s, "0x"@) == "0X"@ + s,
        strip_all("0X"@ + s, "0X"@) == s,
{
    reveal_strlit("0x");
    reveal_strlit("0X");
    let l = "0x"@;
    let u = "0X"@;
    assert(!l.is_prefix_of(s)) by {
        if l.is_prefix_of(s) {
            assert(s[1] == l[1]);
        }
    }
    assert(!u.is_prefix_of(s)) by {
        if u.is_prefix_of(s) {
            assert(s[1] == u[1]);
        }
    }
    assert(l.is_prefix_of(l + s)) by {
        assert((l + s).take(2) =~= l);
    }
    assert(u.is_prefix_of(u + s)) by {
        assert((u + s).take(2) =~= u);
    }
    assert(!u.is_prefix_of(l + s)) by {
        if u.is_prefix_of(l + s) {
            assert((l + s)[1] == u[1]);
        }
    }
    assert(!l.is_prefix_of(u + s)) by {
        if l.is_prefix_of(u + s) {
            assert((u + s)[1] == l[1]);
        }
    }
    assert((l + s).skip(2) =~= s);
    assert((u + s).skip(2) =~= s);
    assert(strip_all(l + s, l) == strip_all((l + s).skip(l.len() as int), l));
    assert(strip_all(u + s, u) == strip_all((u + s).skip(u.len() as int), u));
}

/// A run of hexadecimal digits that fits the machine word is read as the number
/// it stands for, whether or not `0x` or `0X` stands in front of it.
pub proof fn law_digits_are_read(d: Seq<char>)
    requires
        d.len() > 0,
        all_hex(d),
        hex_value(d) <= usize::MAX,
    ensures
        parsed_address(d) == Ok::<usize, Seq<char>>(hex_value(d) as usize),
        parsed_address("0x"@ + d) == Ok::<usize, Seq<char>>(hex_value(d) as usize),
        parsed_address("0X"@ + d) == Ok::<usize, Seq<char>>(hex_value(d) as usize),
{
    lemma_nothing_to_strip(d);
    lemma_filter_keeps_all(d, |c: char| c != '_');
    assert(!too_large(d)) by {
        assert(d.take(d.len() as int) =~= d);
        assert forall|j: int| 0 <= j <= d.len() implies hex_value(#[trigger] d.take(j))
            <= usize::MAX by {
            lemma_prefix_value(d, j, d.len() as int);
        }
    }
}

/// Digits that stand for a number too large for the machine word are refused
/// for that reason.
pub proof fn law_large_numbers_are_refused(d: Seq<char>)
    requires
        all_hex(d),
        hex_value(d) > usize::MAX,
    ensures
        parsed_address("0x"@ + d) == Err::<usize, Seq<char>>(
            "not a hex address: "@ + NumberError::TooLarge.text(),
        ),
{
    lemma_nothing_to_strip(d);
    lemma_filter_keeps_all(d, |c: char| c != '_');
    assert(d.take(d.len() as int) =~= d);
    assert(too_large(d));
    assert(d.len() > 0);
}

/// Underscores among the digits change nothing.
pub proof fn law_underscores_are_ignored(d: Seq<char>)
    requires
        forall|i: int| 0 <= i < d.len() ==> d[i] == '_' || digit_value(#[trigger] d[i]) is Some,
    ensures
        parsed_address("0x"@ + d) == parsed_address("0x"@ + d.filter(|c: char| c != '_')),
{
    let keep = |c: char| c != '_';
    let kept = d.filter(keep);
    assert forall|i: int| 0 <= i < kept.len() implies kept[i] != 'x' && kept[i] != 'X' by {
        assert(kept.contains(kept[i]));
        d.lemma_filter_contains_rev(keep, kept[i]);
        let j = choose|j: int| 0 <= j < d.len() && d[j] == kept[i];
        assert(d[j] == kept[i]);
    }
    lemma_nothing_to_strip(d);
    lemma_nothing_to_strip(kept);
    lemma_filter_twice(d, keep);
}

/// What `hex` writes is made of digits and stands for the number written.
proof fn lemma_hex_value(v: nat)
    ensures
        hex(v).len() > 0,
        all_hex(hex(v)),
        hex_value(hex(v)) == v,
    decreases v,
{
    if v >= 16 {
        lemma_hex_value(v / 16);
        assert(hex(v).last() == digit_char(v % 16));
        assert(digit_value(digit_char(v % 16)) == Some(v % 16));
        assert(hex(v).drop_last() =~= hex(v / 16));
        assert(all_hex(hex(v))) by {
            assert forall|i: int| 0 <= i < hex(v).len() implies digit_value(
                #[trigger] hex(v)[i],
            ) is Some by {
                if i < hex(v / 16).len() {
                    assert(hex(v)[i] == hex(v / 16)[i]);
                }
            }
        }
    } else {
        assert(hex_value(hex(v).drop_last()) == 0);
        assert(digit_value(digit_char(v)) == Some(v));
    }
}

/// Leading zeros do not change the number.
proof fn lemma_leading_zeros(n: int, s: Seq<char>)
    requires
        all_hex(s),
    ensures
        all_hex(fill('0', n) + s),
        hex_value(fill('0', n) + s) == hex_value(s),
    decreases s.len(), n,
{
    let t = fill('0', n) + s;
    assert forall|i: int| 0 <= i < t.len() implies digit_value(#[trigger] t[i]) is Some by {
        if i >= fill('0', n).len() {
            assert(t[i] == s[i - fill('0', n).len()]);
        }
    }
    if s.len() > 0 {
        assert forall|i: int| 0 <= i < s.drop_last().len() implies digit_value(
            #[trigger] s.drop_last()[i],
        ) is Some by {
            assert(s.drop_last()[i] == s[i]);
        }
        lemma_leading_zeros(n, s.drop_last());
        assert(t.drop_last() =~= fill('0', n) + s.drop_last());
    } else if n > 0 {
        lemma_leading_zeros(n - 1, s);
        assert(t.drop_last() =~= fill('0', n - 1) + s);
    } else {
        assert(t =~= s);
    }
}

/// Every address that is printed, short or over sixteen digits, is read back as
/// itself.
pub proof fn law_printed_addresses_are_read_back(v: usize)
    ensures
        parsed_address("0x"@ + hex(v as nat)) == Ok::<usize, Seq<char>>(v),
        parsed_address("0x"@ + hex16(v as nat)) == Ok::<usize, Seq<char>>(v),
{
    lemma_hex_value(v as nat);
    law_digits_are_read(hex(v as nat));
    lemma_leading_zeros(16 - hex(v as nat).len(), hex(v as nat));
    law_digits_are_read(hex16(v as nat));
}

/// Whether `c` is a hexadecimal digit, by its code.
pub open spec fn is_hex_code(c: char) -> bool {
    let code = c as int;
    48 <= code <= 57 || 65 <= code <= 70 || 97 <= code <= 102
}

/// The digits of either case have the values zero to fifteen, and nothing else
/// is a digit.
pub proof fn law_digit_values(c: char)
    ensures
        digit_value('0') == Some(0nat) && digit_value('1') == Some(1nat) && digit_value('2')
            == Some(2nat) && digit_value('3') == Some(3nat) && digit_value('4') == Some(4nat)
            && digit_value('5') == Some(5nat) && digit_value('6') == Some(6nat) && digit_value('7')
            == Some(7nat) && digit_value('8') == Some(8nat) && digit_value('9') == Some(9nat),
        digit_value('a') == Some(10nat) && digit_value('b') == Some(11nat) && digit_value('c')
            == Some(12nat) && digit_value('d') == Some(13nat) && digit_value('e') == Some(14nat)
            && digit_value('f') == Some(15nat),
        digit_value('A') == Some(10nat) && digit_value('B') == Some(11nat) && digit_value('C')
            == Some(12nat) && digit_value('D') == Some(13nat) && digit_value('E') == Some(14nat)
            && digit_value('F') == Some(15nat),
        digit_value(c) is Some <==> is_hex_code(c),
{
}

/// The value of digits in a row: each place counts sixteen times the next.
pub proof fn law_hex_value_by_places(s: Seq<char>, t: Seq<char>, c: char)
    ensures
        hex_value(Seq::empty()) == 0,
        digit_value(c) is Some ==> hex_value(seq![c]) == digit_value(c)->0,
        hex_value(s + t) == hex_value(s) * pow(16, t.len()) + hex_value(t),
        all_hex(s) <==> forall|i: int| 0 <= i < s.len() ==> is_hex_code(#[trigger] s[i]),
    decreases t.len(),
{
    assert(seq![c].drop_last() =~= Seq::<char>::empty());
    assert(hex_value(seq![c].drop_last()) == 0);
    reveal(pow);
    if t.len() == 0 {
        assert(s + t =~= s);
        assert(pow(16, 0) == 1);
    } else {
        law_hex_value_by_places(s, t.drop_last(), c);
        assert((s + t).drop_last() =~= s + t.drop_last());
        let p = pow(16, t.drop_last().len());
        let x = hex_value(s) as int;
        assert(pow(16, t.len()) == 16 * p);
        assert((x * p) * 16 == x * (16 * p)) by (nonlinear_arith);
    }
    assert forall|i: int| 0 <= i < s.len() implies (digit_value(#[trigger] s[i]) is Some
        <==> is_hex_code(s[i])) by {
        lemma_digit_code(s[i]);
    }
}

proof fn lemma_digit_code(c: char)
    ensures
        digit_value(c) is Some <==> is_hex_code(c),
{
}

/// A numeral of base sixteen has the value of the number it stands for.
pub proof fn law_numerals_have_their_value(h: Seq<char>, v: nat)
    requires
        stands_for(h, 16, v),
    ensures
        all_hex(h),
        hex_value(h) == v,
{
    let g = hex(v);
    law_hex_is_the_numeral(v);
    lemma_hex_value(v);
    if g.len() <= h.len() {
        let z = fill('0', h.len() - g.len());
        lemma_leading_zeros(h.len() - g.len(), g);
        lemma_more_zeros(g, h.len() - g.len(), v);
        law_numerals_are_unique(z + g, h, 16, v);
    } else {
        lemma_high_digit_is_zero(g, 16, v, h.len());
    }
}

/// Digits in upper case are read as in lower case, so that every address is read
/// whichever case its numeral is written in.
pub proof fn law_case_is_ignored(h: Seq<char>, u: Seq<char>, v: usize)
    requires
        stands_for(h, 16, v as nat),
        u.len() == h.len(),
        forall|i: int|
            0 <= i < h.len() ==> #[trigger] u[i] == h[i] || 'a' <= h[i] <= 'f' && u[i] as int
                == h[i] as int - 32,
    ensures
        parsed_address(u) == Ok::<usize, Seq<char>>(v),
        parsed_address("0x"@ + u) == Ok::<usize, Seq<char>>(v),
        parsed_address("0X"@ + u) == Ok::<usize, Seq<char>>(v),
{
    law_numerals_have_their_value(h, v as nat);
    assert forall|i: int| 0 <= i < u.len() implies digit_value(#[trigger] u[i]) == digit_value(
        h[i],
    ) by {
        assert(u[i] == h[i] || 'a' <= h[i] <= 'f' && u[i] as int == h[i] as int - 32);
        lemma_case(h[i], u[i]);
    }
    lemma_same_digits(h, u);
    assert(all_hex(u)) by {
        assert forall|i: int| 0 <= i < u.len() implies digit_value(#[trigger] u[i]) is Some by {
            assert(digit_value(h[i]) is Some);
        }
    }
    law_digits_are_read(u);
}

proof fn lemma_case(c: char, d: char)
    requires
        d == c || 'a' <= c <= 'f' && d as int == c as int - 32,
    ensures
        digit_value(d) == digit_value(c),
{
}

proof fn lemma_same_digits(h: Seq<char>, u: Seq<char>)
    requires
        u.len() == h.len(),
        forall|i: int| 0 <= i < u.len() ==> digit_value(#[trigger] u[i]) == digit_value(h[i]),
    ensures
        hex_value(u) == hex_value(h),
    decreases h.len(),
{
    if h.len() > 0 {
        assert forall|i: int| 0 <= i < u.drop_last().len() implies digit_value(
            #[trigger] u.drop_last()[i],
        ) == digit_value(h.drop_last()[i]) by {
            assert(u.drop_last()[i] == u[i]);
        }
        lemma_same_digits(h.drop_last(), u.drop_last());
        assert(digit_value(u[u.len() - 1]) == digit_value(h[h.len() - 1]));
    }
}

/// What is read as a number, with or without a `+` in front: a run of digits
/// that fits. What is refused, and why: nothing at all; a sign alone; digits
/// that are too large, whatever follows them; and digits that fit with anything
/// else behind them. Every text is of one of these forms.
pub proof fn law_numbers(a: Seq<char>, x: char, rest: Seq<char>)
    requires
        all_hex(a),
    ensures
        number(Seq::empty()) == Err::<usize, NumberError>(NumberError::Empty),
        number(seq!['+']) == Err::<usize, NumberError>(NumberError::InvalidDigit),
        hex_value(a) <= usize::MAX && a.len() > 0 ==> {
            &&& number(a) == Ok::<usize, NumberError>(hex_value(a) as usize)
            &&& number(seq!['+'] + a) == Ok::<usize, NumberError>(hex_value(a) as usize)
        },
        hex_value(a) > usize::MAX ==> {
            &&& number(a + rest) == Err::<usize, NumberError>(NumberError::TooLarge)
            &&& number(seq!['+'] + (a + rest)) == Err::<usize, NumberError>(NumberError::TooLarge)
        },
        hex_value(a) <= usize::MAX && !is_hex_code(x) ==> {
            &&& a.len() > 0 || x != '+' ==> number(a + seq![x] + rest) == Err::<
                usize,
                NumberError,
            >(NumberError::InvalidDigit)
            &&& number(seq!['+'] + (a + seq![x] + rest)) == Err::<usize, NumberError>(
                NumberError::InvalidDigit,
            )
        },
{
    let plus = seq!['+'];
    let e = Seq::<char>::empty();
    assert(plus.skip(1) =~= e);
    assert(!too_large(e)) by {
        assert forall|k: int| 0 <= k <= e.len() implies hex_value(#[trigger] e.take(k))
            <= usize::MAX by {
            assert(e.take(k) =~= e);
        }
    }
    if hex_value(a) <= usize::MAX {
        lemma_not_too_large(a, e);
        assert(a + e =~= a);
        assert((plus + a).skip(1) =~= a);
        if a.len() > 0 {
            assert(digit_value(a[0]) is Some);
            assert(without_plus(a) =~= a);
        }
        if !is_hex_code(x) {
            let t = seq![x] + rest;
            let b = a + seq![x] + rest;
            assert(b =~= a + t);
            assert(digit_value(x) is None) by {
                lemma_digit_code(x);
            }
            lemma_not_too_large(a, t);
            assert(b[a.len() as int] == x);
            assert(!all_hex(b)) by {
                if all_hex(b) {
                    assert(digit_value(b[a.len() as int]) is Some);
                }
            }
            assert((plus + b).skip(1) =~= b);
            if a.len() > 0 {
                assert(b[0] == a[0] && digit_value(a[0]) is Some);
            }
        }
    } else {
        let b = a + rest;
        assert(b.take(a.len() as int) =~= a);
        assert(too_large(b));
        assert((plus + b).skip(1) =~= b);
        assert(a.len() > 0);
        assert(b[0] == a[0] && digit_value(a[0]) is Some);
    }
}

proof fn lemma_not_too_large(a: Seq<char>, t: Seq<char>)
    requires
        hex_value(a) <= usize::MAX,
        t.len() == 0 || digit_value(t[0]) is None,
    ensures
        !too_large(a + t),
{
    let b = a + t;
    let n = a.len() as int;
    assert(b.take(n) =~= a);
    assert forall|k: int| 0 <= k <= b.len() && all_hex(#[trigger] b.take(k)) implies hex_value(
        b.take(k),
    ) <= usize::MAX by {
        if k > n {
            assert(b.take(k)[n] == t[0]);
        }
        lemma_prefix_value(b, k, n);
    }
}

/// `n` times `0` and `x`.
pub open spec fn repeated(x: char, n: nat) -> Seq<char> {
    Seq::new(2 * n, |i: int| if i % 2 == 0 { '0' } else { x })
}

proof fn lemma_strip_repeated(x: char, n: nat, b: Seq<char>)
    requires
        b.len() < 2 || b[0] != '0' || b[1] != x,
    ensures
        strip_all(repeated(x, n) + b, seq!['0', x]) == b,
    decreases n,
{
    let p = seq!['0', x];
    let s = repeated(x, n) + b;
    if n == 0 {
        assert(s =~= b);
        if p.is_prefix_of(b) {
            assert(b[0] == p[0] && b[1] == p[1]);
        }
    } else {
        assert(s.take(2) =~= p);
        assert(p.is_prefix_of(s));
        assert(s.skip(2) =~= repeated(x, (n - 1) as nat) + b);
        lemma_strip_repeated(x, (n - 1) as nat, b);
    }
}

/// However often `0x` and then `0X` stand in front, what is read is the number
/// that the rest writes once its underscores are dropped; and each refusal has
/// its own message.
pub proof fn law_addresses(n: nat, m: nat, b: Seq<char>)
    requires
        b.len() < 2 || b[0] != '0' || b[1] != 'X',
        m > 0 || b.len() < 2 || b[0] != '0' || b[1] != 'x',
    ensures
        parsed_address(repeated('x', n) + (repeated('X', m) + b)) == (match number(
            b.filter(|c: char| c != '_'),
        ) {
            Ok(v) => Ok::<usize, Seq<char>>(v),
            Err(NumberError::Empty) => Err(
                "not a hex address: "@ + "cannot parse integer from empty string"@,
            ),
            Err(NumberError::InvalidDigit) => Err(
                "not a hex address: "@ + "invalid digit found in string"@,
            ),
            Err(NumberError::TooLarge) => Err(
                "not a hex address: "@ + "number too large to fit in target type"@,
            ),
        }),
{
    reveal_strlit("0x");
    reveal_strlit("0X");
    assert("0x"@ =~= seq!['0', 'x']);
    assert("0X"@ =~= seq!['0', 'X']);
    let inner = repeated('X', m) + b;
    if m > 0 {
        assert(inner[1] == 'X');
    } else {
        assert(inner =~= b);
    }
    lemma_strip_repeated('x', n, inner);
    lemma_strip_repeated('X', m, b);
}

} // verus!
