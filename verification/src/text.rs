//! Text pieces from which every line of output is built.

use vstd::prelude::*;

verus! {

/// `String::push` appends the character it is given to the end of the string.
pub assume_specification[ String::push ](s: &mut String, ch: char)
    ensures
        final(s)@ == old(s)@.push(ch),
;

/// A result whose message is taken as a sequence of characters.
pub open spec fn shown<T>(r: Result<T, String>) -> Result<T, Seq<char>> {
    match r {
        Ok(v) => Ok(v),
        Err(e) => Err(e@),
    }
}

/// The digit for `d` in any base up to sixteen, in lower case.
pub open spec fn digit_char(d: nat) -> char {
    if d < 10 {
        ('0' as nat + d) as char
    } else {
        ('a' as nat + (d - 10)) as char
    }
}

/// `v` in hexadecimal, without leading zeros: what `{:x}` writes.
pub open spec fn hex(v: nat) -> Seq<char>
    decreases v,
{
    if v < 16 {
        seq![digit_char(v)]
    } else {
        hex(v / 16).push(digit_char(v % 16))
    }
}

/// `v` in decimal, without leading zeros: what `{}` writes.
pub open spec fn decimal(v: nat) -> Seq<char>
    decreases v,
{
    if v < 10 {
        seq![digit_char(v)]
    } else {
        decimal(v / 10).push(digit_char(v % 10))
    }
}

/// `n` copies of `c`.
pub open spec fn fill(c: char, n: int) -> Seq<char> {
    Seq::new(if n > 0 { n as nat } else { 0 }, |i: int| c)
}

/// `s` with copies of `c` in front, up to `width` characters in all.
pub open spec fn pad_start(s: Seq<char>, c: char, width: nat) -> Seq<char> {
    fill(c, width - s.len()) + s
}

/// `s` with spaces behind, up to `width` characters in all.
pub open spec fn pad_end(s: Seq<char>, width: nat) -> Seq<char> {
    s + fill(' ', width - s.len())
}

/// `v` in hexadecimal over at least sixteen digits: what `{:016x}` writes.
pub open spec fn hex16(v: nat) -> Seq<char> {
    pad_start(hex(v), '0', 16)
}

fn digit(d: u64) -> (c: char)
    requires
        d < 16,
    ensures
        c == digit_char(d as nat),
{
    if d < 10 {
        ('0' as u8 + d as u8) as char
    } else {
        ('a' as u8 + (d - 10) as u8) as char
    }
}

/// Appends `v` in hexadecimal.
pub fn push_hex(out: &mut String, v: u64)
    ensures
        final(out)@ == old(out)@ + hex(v as nat),
    decreases v,
{
    if v >= 16 {
        push_hex(out, v / 16);
    }
    out.push(digit(v % 16));
}

/// Appends `v` in decimal.
pub fn push_decimal(out: &mut String, v: u64)
    ensures
        final(out)@ == old(out)@ + decimal(v as nat),
    decreases v,
{
    if v >= 10 {
        push_decimal(out, v / 10);
    }
    out.push(digit(v % 10));
}

fn push_fill(out: &mut String, c: char, n: usize)
    ensures
        final(out)@ == old(out)@ + fill(c, n as int),
{
    let mut k: usize = 0;
    while k < n
        invariant
            k <= n,
            out@ == old(out)@ + fill(c, k as int),
        decreases n - k,
    {
        out.push(c);
        k += 1;
    }
}

/// Appends `s` and then spaces, up to `width` characters.
pub fn push_padded_end(out: &mut String, s: &str, width: usize)
    ensures
        final(out)@ == old(out)@ + pad_end(s@, width as nat),
{
    let len: usize = s.unicode_len();
    out.append(s);
    if len < width {
        push_fill(out, ' ', width - len);
    }
}

/// Appends copies of `c` and then `s`, up to `width` characters.
pub fn push_padded_start(out: &mut String, s: &str, c: char, width: usize)
    ensures
        final(out)@ == old(out)@ + pad_start(s@, c, width as nat),
{
    let len: usize = s.unicode_len();
    if len < width {
        push_fill(out, c, width - len);
    }
    out.append(s);
}

/// Appends `v` in hexadecimal over at least sixteen digits.
pub fn push_hex16(out: &mut String, v: u64)
    ensures
        final(out)@ == old(out)@ + hex16(v as nat),
{
    let mut h: String = String::new();
    push_hex(&mut h, v);
    push_padded_start(out, h.as_str(), '0', 16);
}

} // verus!
