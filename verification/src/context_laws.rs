//! What holds between reads and writes of a context's fields.

use crate::context::{
    field_u32, field_u64, fresh, le_bytes, le_value, lemma_le_value_4, lemma_le_value_8,
    overwritten, Ctx, CONTEXT_FULL, CTX_SIZE, OFF_EFLAGS, OFF_FLAGS, OFF_R8, OFF_R9, OFF_RCX,
    OFF_RDX, OFF_RIP, OFF_RSP,
};
use vstd::arithmetic::power::pow;
use vstd::prelude::*;

verus! {

/// `n` bytes stand for a number below the `n`th power of 256, and are the bytes
/// of that number.
proof fn lemma_bytes_of_value(s: Seq<u8>)
    ensures
        le_value(s) < pow(256, s.len()),
        le_bytes(le_value(s), s.len()) == s,
    decreases s.len(),
{
    reveal(pow);
    if s.len() > 0 {
        let rest = s.skip(1);
        lemma_bytes_of_value(rest);
        let v = le_value(s);
        assert(v == s[0] + 256 * le_value(rest));
        assert(v % 256 == s[0] && v / 256 == le_value(rest));
        assert(le_bytes(v, s.len()) =~= s);
    }
}

/// The `n` bytes of a number below the `n`th power of 256 stand for it.
proof fn lemma_value_of_bytes(v: nat, n: nat)
    requires
        v < pow(256, n),
    ensures
        le_bytes(v, n).len() == n,
        le_value(le_bytes(v, n)) == v,
    decreases n,
{
    reveal(pow);
    if n > 0 {
        let m = (n - 1) as nat;
        assert(pow(256, n) == 256 * pow(256, m));
        assert(v / 256 < pow(256, m));
        lemma_value_of_bytes(v / 256, m);
        let s = le_bytes(v, n);
        assert(s.skip(1) =~= le_bytes(v / 256, m));
    }
}

proof fn lemma_powers()
    ensures
        pow(256, 4) == 0x1_0000_0000,
        pow(256, 8) == 0x1_0000_0000_0000_0000,
{
    reveal_with_fuel(pow, 9);
}

/// Two byte sequences of one length that stand for the same number are the same.
pub proof fn law_bytes_are_unique(s: Seq<u8>, t: Seq<u8>)
    requires
        s.len() == t.len(),
        le_value(s) == le_value(t),
    ensures
        s == t,
{
    lemma_bytes_of_value(s);
    lemma_bytes_of_value(t);
}

/// A field holds exactly the number that its bytes stand for: nothing is cut off.
pub proof fn law_fields_are_exact(bytes: Seq<u8>, off: int)
    requires
        0 <= off,
    ensures
        off + 4 <= bytes.len() ==> field_u32(bytes, off) == le_value(bytes.subrange(off, off + 4)),
        off + 8 <= bytes.len() ==> field_u64(bytes, off) == le_value(bytes.subrange(off, off + 8)),
{
    lemma_powers();
    if off + 4 <= bytes.len() {
        lemma_bytes_of_value(bytes.subrange(off, off + 4));
    }
    if off + 8 <= bytes.len() {
        lemma_bytes_of_value(bytes.subrange(off, off + 8));
    }
}

/// A four-byte field that was written is read back.
pub proof fn law_read_back_u32(bytes: Seq<u8>, off: int, v: u32)
    requires
        0 <= off,
        off + 4 <= bytes.len(),
    ensures
        field_u32(overwritten(bytes, off, le_bytes(v as nat, 4)), off) == v,
{
    lemma_powers();
    lemma_value_of_bytes(v as nat, 4);
    assert(overwritten(bytes, off, le_bytes(v as nat, 4)).subrange(off, off + 4) =~= le_bytes(
        v as nat,
        4,
    ));
}

/// An eight-byte field that was written is read back.
pub proof fn law_read_back_u64(bytes: Seq<u8>, off: int, v: u64)
    requires
        0 <= off,
        off + 8 <= bytes.len(),
    ensures
        field_u64(overwritten(bytes, off, le_bytes(v as nat, 8)), off) == v,
{
    lemma_powers();
    lemma_value_of_bytes(v as nat, 8);
    assert(overwritten(bytes, off, le_bytes(v as nat, 8)).subrange(off, off + 8) =~= le_bytes(
        v as nat,
        8,
    ));
}

/// Writing back what was read changes nothing.
pub proof fn law_rewriting_changes_nothing(bytes: Seq<u8>, off: int)
    requires
        0 <= off,
    ensures
        off + 4 <= bytes.len() ==> overwritten(
            bytes,
            off,
            le_bytes(field_u32(bytes, off) as nat, 4),
        ) == bytes,
        off + 8 <= bytes.len() ==> overwritten(
            bytes,
            off,
            le_bytes(field_u64(bytes, off) as nat, 8),
        ) == bytes,
{
    law_fields_are_exact(bytes, off);
    if off + 4 <= bytes.len() {
        let s = bytes.subrange(off, off + 4);
        lemma_bytes_of_value(s);
        assert(overwritten(bytes, off, s) =~= bytes);
    }
    if off + 8 <= bytes.len() {
        let s = bytes.subrange(off, off + 8);
        lemma_bytes_of_value(s);
        assert(overwritten(bytes, off, s) =~= bytes);
    }
}

/// A write keeps the length and every byte outside the field.
pub proof fn law_writes_are_local(bytes: Seq<u8>, off: int, v: nat, n: nat, from: int, to: int)
    requires
        0 <= off,
        off + n <= bytes.len(),
        0 <= from <= to <= bytes.len(),
        to <= off || off + n <= from,
    ensures
        overwritten(bytes, off, le_bytes(v, n)).len() == bytes.len(),
        overwritten(bytes, off, le_bytes(v, n)).subrange(from, to) == bytes.subrange(from, to),
{
    lemma_bytes_len(v, n);
    assert(overwritten(bytes, off, le_bytes(v, n)).subrange(from, to) =~= bytes.subrange(from, to));
}

proof fn lemma_bytes_len(v: nat, n: nat)
    ensures
        le_bytes(v, n).len() == n,
    decreases n,
{
    if n > 0 {
        lemma_bytes_len(v / 256, (n - 1) as nat);
    }
}

/// A fresh context holds its flags, and zero in every other byte.
pub proof fn law_fresh_context(flags: u32, i: int)
    ensures
        fresh(flags).len() == CTX_SIZE,
        field_u32(fresh(flags), OFF_FLAGS as int) == flags,
        0 <= i < CTX_SIZE && !(OFF_FLAGS <= i < OFF_FLAGS + 4) ==> fresh(flags)[i] == 0,
{
    lemma_bytes_len(flags as nat, 4);
    law_read_back_u32(Seq::new(CTX_SIZE as nat, |i: int| 0u8), OFF_FLAGS as int, flags);
}

/// The value of bytes in a row: each byte counts 256 times the one before.
pub proof fn law_value_by_places(s: Seq<u8>, t: Seq<u8>, b: u8)
    ensures
        le_value(Seq::empty()) == 0,
        le_value(seq![b]) == b,
        le_value(s + t) == le_value(s) + pow(256, s.len()) * le_value(t),
    decreases s.len(),
{
    reveal(pow);
    assert(seq![b].skip(1) =~= Seq::<u8>::empty());
    assert(le_value(seq![b].skip(1)) == 0);
    if s.len() == 0 {
        assert(s + t =~= t);
        assert(pow(256, 0) == 1);
    } else {
        law_value_by_places(s.skip(1), t, b);
        assert((s + t).skip(1) =~= s.skip(1) + t);
        let p = pow(256, s.skip(1).len());
        let x = le_value(t) as int;
        assert(pow(256, s.len()) == 256 * p);
        assert(256 * (p * x) == (256 * p) * x) by (nonlinear_arith);
    }
}

/// A field of four or eight bytes holds the number that these bytes write, least
/// significant first.
pub proof fn law_fields_by_bytes(c: Seq<u8>, off: int)
    requires
        0 <= off,
    ensures
        off + 4 <= c.len() ==> field_u32(c, off) == c[off] + 0x100 * c[off + 1] + 0x1_0000 * c[off
            + 2] + 0x100_0000 * c[off + 3],
        off + 8 <= c.len() ==> field_u64(c, off) == c[off] + 0x100 * c[off + 1] + 0x1_0000 * c[off
            + 2] + 0x100_0000 * c[off + 3] + 0x1_0000_0000 * c[off + 4] + 0x100_0000_0000 * c[off
            + 5] + 0x1_0000_0000_0000 * c[off + 6] + 0x100_0000_0000_0000 * c[off + 7],
{
    law_fields_are_exact(c, off);
    if off + 4 <= c.len() {
        lemma_le_value_4(c.subrange(off, off + 4));
    }
    if off + 8 <= c.len() {
        lemma_le_value_8(c.subrange(off, off + 8));
    }
}

/// The bytes of a number that they can hold stand for that number.
pub proof fn law_bytes_of_a_number(v: nat, n: nat)
    requires
        v < pow(256, n),
    ensures
        le_bytes(v, n).len() == n,
        le_value(le_bytes(v, n)) == v,
{
    lemma_value_of_bytes(v, n);
}

/// Where the registers stand in a context, how long it is and how it is marked.
pub proof fn law_layout(c: Ctx)
    ensures
        CTX_SIZE == 1232,
        CONTEXT_FULL == 0x0010_0000 + 0x1 + 0x2 + 0x8,
        OFF_FLAGS == 0x30 && OFF_EFLAGS == 0x44 && OFF_RCX == 0x80 && OFF_RDX == 0x88 && OFF_RSP
            == 0x98 && OFF_R8 == 0xb8 && OFF_R9 == 0xc0 && OFF_RIP == 0xf8,
        c@.len() == 1232,
        forall|i: int| 0 <= i < 1232 ==> #[trigger] c@[i] == c.0[i],
{
}

} // verus!
