//! Hexadecimal addresses as they are written on the command line.

use crate::text::shown;
use vstd::prelude::*;

verus! {

/// `s` without any leading repetitions of `prefix`.
pub open spec fn strip_all(s: Seq<char>, prefix: Seq<char>) -> Seq<char>
    decreases s.len(),
{
    if prefix.len() > 0 && prefix.is_prefix_of(s) {
        strip_all(s.skip(prefix.len() as int), prefix)
    } else {
        s
    }
}

/// What remains of an address to be read as a number: without `0x` prefixes,
/// then without `0X` prefixes, and without underscores anywhere.
pub open spec fn address_digits(s: Seq<char>) -> Seq<char> {
    strip_all(strip_all(s, "0x"@), "0X"@).filter(|c: char| c != '_')
}

/// The value of a hexadecimal digit of either case.
pub open spec fn digit_value(c: char) -> Option<nat> {
    if '0' <= c && c <= '9' {
        Some((c as nat - '0' as nat) as nat)
    } else if 'a' <= c && c <= 'f' {
        Some((c as nat - 'a' as nat + 10) as nat)
    } else if 'A' <= c && c <= 'F' {
        Some((c as nat - 'A' as nat + 10) as nat)
    } else {
        None
    }
}

/// Whether every character of `s` is a hexadecimal digit.
pub open spec fn all_hex(s: Seq<char>) -> bool {
    forall|i: int| 0 <= i < s.len() ==> digit_value(#[trigger] s[i]) is Some
}

/// The number that a sequence of hexadecimal digits stands for.
pub open spec fn hex_value(s: Seq<char>) -> nat
    decreases s.len(),
{
    if s.len() == 0 {
        0
    } else {
        hex_value(s.drop_last()) * 16 + digit_value(s.last())->0
    }
}

/// Whether a leading run of digits of `s` alone is already too large.
pub open spec fn too_large(s: Seq<char>) -> bool {
    exists|k: int|
        0 <= k <= s.len() && all_hex(#[trigger] s.take(k)) && hex_value(s.take(k)) > usize::MAX
}

/// Why a number could not be read.
#[derive(Clone, Copy, Debug, PartialEq, Eq, Structural)]
pub enum NumberError {
    Empty,
    InvalidDigit,
    TooLarge,
}

/// The digits behind an optional leading `+`.
pub open spec fn without_plus(s: Seq<char>) -> Seq<char> {
    if s.len() > 0 && s[0] == '+' {
        s.skip(1)
    } else {
        s
    }
}

/// The number that `s` writes in base sixteen, or the first thing wrong with it.
pub open spec fn number(s: Seq<char>) -> Result<usize, NumberError> {
    let d = without_plus(s);
    if s.len() == 0 {
        Err(NumberError::Empty)
    } else if too_large(d) {
        Err(NumberError::TooLarge)
    } else if d.len() == 0 || !all_hex(d) {
        Err(NumberError::InvalidDigit)
    } else {
        Ok(hex_value(d) as usize)
    }
}

impl NumberError {
    /// The description of the error.
    pub open spec fn text(self) -> Seq<char> {
        match self {
            NumberError::Empty => "cannot parse integer from empty string"@,
            NumberError::InvalidDigit => "invalid digit found in string"@,
            NumberError::TooLarge => "number too large to fit in target type"@,
        }
    }

    /// The description of the error.
    pub fn describe(self) -> (t: &'static str)
        ensures
            t@ == self.text(),
    {
        match self {
            NumberError::Empty => "cannot parse integer from empty string",
            NumberError::InvalidDigit => "invalid digit found in string",
            NumberError::TooLarge => "number too large to fit in target type",
        }
    }
}

/// The address that `s` stands for, or the message that refuses it.
pub open spec fn parsed_address(s: Seq<char>) -> Result<usize, Seq<char>> {
    match number(address_digits(s)) {
        Ok(v) => Ok(v),
        Err(e) => Err("not a hex address: "@ + e.text()),
    }
}

/// The characters of `s`.
fn characters(s: &str) -> (v: Vec<char>)
    ensures
        v@ == s@,
{
    let mut v: Vec<char> = Vec::new();
    for c in it: s.chars()
        invariant
            v@ == it.seq().take(it.index() as int),
            it.seq() == s@,
    {
        v.push(c);
    }
    v
}

fn strip_from(v: &Vec<char>, from: usize, second: char) -> (at: usize)
    requires
        from <= v@.len(),
    ensures
        at <= v@.len(),
        v@.skip(at as int) == strip_all(v@.skip(from as int), seq!['0', second]),
{
    let mut at: usize = from;
    let ghost p = seq!['0', second];
    while v.len() - at >= 2 && v[at] == '0' && v[at + 1] == second
        invariant
            at <= v@.len(),
            p == seq!['0', second],
            strip_all(v@.skip(at as int), p) == strip_all(v@.skip(from as int), p),
        decreases v.len() - at,
    {
        assert(p.is_prefix_of(v@.skip(at as int))) by {
            assert(v@.skip(at as int).take(2) =~= p);
        }
        assert(v@.skip(at as int).skip(2) =~= v@.skip(at + 2));
        at += 2;
    }
    at
}

fn digit_of(c: char) -> (d: Option<usize>)
    ensures
        match d {
            Some(x) => digit_value(c) == Some(x as nat) && x < 16,
            None => digit_value(c) is None,
        },
{
    if '0' <= c && c <= '9' {
        Some(c as usize - '0' as usize)
    } else if 'a' <= c && c <= 'f' {
        Some(c as usize - 'a' as usize + 10)
    } else if 'A' <= c && c <= 'F' {
        Some(c as usize - 'A' as usize + 10)
    } else {
        None
    }
}

/// A longer run of digits stands for a number at least as large.
pub proof fn lemma_prefix_value(s: Seq<char>, j: int, k: int)
    requires
        0 <= j <= k <= s.len(),
    ensures
        hex_value(s.take(j)) <= hex_value(s.take(k)),
    decreases k - j,
{
    if j < k {
        lemma_prefix_value(s, j, k - 1);
        assert(s.take(k).drop_last() =~= s.take(k - 1));
    }
}

/// Reads a hexadecimal number with an optional leading `+`.
pub fn read_number(v: &Vec<char>) -> (r: Result<usize, NumberError>)
    ensures
        r == number(v@),
{
    if v.len() == 0 {
        return Err(NumberError::Empty);
    }
    let start: usize = if v[0] == '+' { 1 } else { 0 };
    let ghost d = without_plus(v@);
    assert(d =~= v@.skip(start as int));
    let mut at: usize = start;
    let mut value: usize = 0;
    assert(d.take(0) =~= Seq::<char>::empty());
    while at < v.len()
        invariant
            start <= at <= v@.len(),
            start <= 1,
            v@.len() > 0,
            d == v@.skip(start as int),
            d == without_plus(v@),
            all_hex(d.take(at - start)),
            value == hex_value(d.take(at - start)),
        decreases v.len() - at,
    {
        let ghost k: int = at - start;
        assert(d[k] == v@[at as int]);
        assert(d.take(k + 1).drop_last() =~= d.take(k));
        match digit_of(v[at]) {
            None => {
                proof {
                    assert forall|j: int| 0 <= j <= d.len() && all_hex(#[trigger] d.take(j)) implies
                        hex_value(d.take(j)) <= usize::MAX by {
                        if j > k {
                            assert(d.take(j)[k] == d[k]);
                        }
                        lemma_prefix_value(d, j, k);
                    }
                }
                return Err(NumberError::InvalidDigit);
            },
            Some(x) => {
                assert(all_hex(d.take(k + 1))) by {
                    assert forall|i: int| 0 <= i < k + 1 implies digit_value(
                        #[trigger] d.take(k + 1)[i],
                    ) is Some by {
                        if i < k {
                            assert(d.take(k)[i] == d.take(k + 1)[i]);
                        }
                    }
                }
                if value > usize::MAX / 16 {
                    return Err(NumberError::TooLarge);
                }
                value = value * 16 + x;
                at += 1;
            },
        }
    }
    proof {
        assert(d.take(d.len() as int) =~= d);
        assert forall|j: int| 0 <= j <= d.len() implies hex_value(#[trigger] d.take(j))
            <= usize::MAX by {
            lemma_prefix_value(d, j, d.len() as int);
        }
    }
    if start == v.len() {
        return Err(NumberError::InvalidDigit);
    }
    Ok(value)
}

/// Reads an address in hexadecimal. Leading `0x` and then leading `0X` are
/// skipped, underscores may stand anywhere, and the rest is a number in base
/// sixteen that fits the machine word.
pub fn parse_hex_usize(s: &str) -> (r: Result<usize, String>)
    ensures
        shown(r) == parsed_address(s@),
{
    let v: Vec<char> = characters(s);
    proof {
        reveal_strlit("0x");
        reveal_strlit("0X");
        assert("0x"@ =~= seq!['0', 'x']);
        assert("0X"@ =~= seq!['0', 'X']);
        assert(v@.skip(0) =~= v@);
    }
    let lower: usize = strip_from(&v, 0, 'x');
    let upper: usize = strip_from(&v, lower, 'X');
    let ghost rest = v@.skip(upper as int);
    let ghost keep = |c: char| c != '_';
    let mut kept: Vec<char> = Vec::new();
    let mut at: usize = upper;
    reveal(Seq::filter);
    assert(rest.take(0) =~= Seq::<char>::empty());
    while at < v.len()
        invariant
            upper <= at <= v@.len(),
            rest == v@.skip(upper as int),
            keep == (|c: char| c != '_'),
            kept@ == rest.take(at - upper).filter(keep),
        decreases v.len() - at,
    {
        reveal(Seq::filter);
        assert(rest.take(at - upper + 1).drop_last() =~= rest.take(at - upper));
        if v[at] != '_' {
            kept.push(v[at]);
        }
        at += 1;
    }
    assert(rest.take(rest.len() as int) =~= rest);
    match read_number(&kept) {
        Ok(value) => Ok(value),
        Err(e) => {
            let mut message: String = String::from_str("not a hex address: ");
            message.append(e.describe());
            Err(message)
        },
    }
}

} // verus!
