//! The register context of a stopped thread, as the raw bytes that the system
//! fills in and takes back.

use vstd::prelude::*;

verus! {

/// The number that `bytes` stand for, least significant byte first.
pub open spec fn le_value(bytes: Seq<u8>) -> nat
    decreases bytes.len(),
{
    if bytes.len() == 0 {
        0
    } else {
        bytes[0] as nat + 256 * le_value(bytes.skip(1))
    }
}

/// The `n` low bytes of `v`, least significant byte first.
pub open spec fn le_bytes(v: nat, n: nat) -> Seq<u8>
    decreases n,
{
    if n == 0 {
        Seq::empty()
    } else {
        seq![(v % 256) as u8] + le_bytes(v / 256, (n - 1) as nat)
    }
}

/// `bytes` with `new` in place of what stood at `off`.
pub open spec fn overwritten(bytes: Seq<u8>, off: int, new: Seq<u8>) -> Seq<u8> {
    bytes.take(off) + new + bytes.skip(off + new.len())
}

/// The value of a four-byte field.
pub open spec fn field_u32(bytes: Seq<u8>, off: int) -> u32 {
    le_value(bytes.subrange(off, off + 4)) as u32
}

/// The value of an eight-byte field.
pub open spec fn field_u64(bytes: Seq<u8>, off: int) -> u64 {
    le_value(bytes.subrange(off, off + 8)) as u64
}

/// The value of four bytes, written out.
pub proof fn lemma_le_value_4(s: Seq<u8>)
    requires
        s.len() == 4,
    ensures
        le_value(s) == s[0] + 0x100 * s[1] + 0x1_0000 * s[2] + 0x100_0000 * s[3],
{
    reveal_with_fuel(le_value, 5);
    assert(s.skip(1).skip(1) =~= s.skip(2));
    assert(s.skip(2).skip(1) =~= s.skip(3));
}

/// The value of eight bytes, written out.
pub proof fn lemma_le_value_8(s: Seq<u8>)
    requires
        s.len() == 8,
    ensures
        le_value(s) == s[0] + 0x100 * s[1] + 0x1_0000 * s[2] + 0x100_0000 * s[3] + 0x1_0000_0000
            * s[4] + 0x100_0000_0000 * s[5] + 0x1_0000_0000_0000 * s[6] + 0x100_0000_0000_0000
            * s[7],
{
    reveal_with_fuel(le_value, 5);
    assert(s.skip(1).skip(1) =~= s.skip(2));
    assert(s.skip(2).skip(1) =~= s.skip(3));
    assert(s.skip(3).skip(1) =~= s.skip(4));
    lemma_le_value_4(s.skip(4));
}

/// The four bytes of a number, written out.
proof fn lemma_le_bytes_4(v: nat)
    ensures
        le_bytes(v, 4) =~= seq![
            (v % 256) as u8,
            (v / 0x100 % 256) as u8,
            (v / 0x1_0000 % 256) as u8,
            (v / 0x100_0000 % 256) as u8,
        ],
{
    reveal_with_fuel(le_bytes, 5);
}

/// The eight bytes of a number, written out.
proof fn lemma_le_bytes_8(v: nat)
    ensures
        le_bytes(v, 8) =~= seq![
            (v % 256) as u8,
            (v / 0x100 % 256) as u8,
            (v / 0x1_0000 % 256) as u8,
            (v / 0x100_0000 % 256) as u8,
            (v / 0x1_0000_0000 % 256) as u8,
            (v / 0x100_0000_0000 % 256) as u8,
            (v / 0x1_0000_0000_0000 % 256) as u8,
            (v / 0x100_0000_0000_0000 % 256) as u8,
        ],
{
    reveal_with_fuel(le_bytes, 9);
}

/// Reads the four bytes at `at`, least significant first.
pub fn u32_at(bytes: &[u8], at: usize) -> (v: u32)
    requires
        at + 4 <= bytes@.len(),
    ensures
        v == field_u32(bytes@, at as int),
{
    proof {
        lemma_le_value_4(bytes@.subrange(at as int, at + 4));
    }
    bytes[at] as u32 + 0x100 * (bytes[at + 1] as u32) + 0x1_0000 * (bytes[at + 2] as u32)
        + 0x100_0000 * (bytes[at + 3] as u32)
}

/// Reads the eight bytes at `at`, least significant first.
pub fn u64_at(bytes: &[u8], at: usize) -> (v: u64)
    requires
        at + 8 <= bytes@.len(),
    ensures
        v == field_u64(bytes@, at as int),
{
    proof {
        lemma_le_value_8(bytes@.subrange(at as int, at + 8));
    }
    bytes[at] as u64 + 0x100 * (bytes[at + 1] as u64) + 0x1_0000 * (bytes[at + 2] as u64)
        + 0x100_0000 * (bytes[at + 3] as u64) + 0x1_0000_0000 * (bytes[at + 4] as u64)
        + 0x100_0000_0000 * (bytes[at + 5] as u64) + 0x1_0000_0000_0000 * (bytes[at + 6] as u64)
        + 0x100_0000_0000_0000 * (bytes[at + 7] as u64)
}

/// Marks a context as one of the 64-bit architecture, with its control, integer
/// and floating-point registers.
pub const CONTEXT_FULL: u32 = 0x0010_000b;

/// The size of a context in bytes.
pub const CTX_SIZE: usize = 1232;

pub const OFF_FLAGS: usize = 0x30;

pub const OFF_EFLAGS: usize = 0x44;

pub const OFF_RCX: usize = 0x80;

pub const OFF_RDX: usize = 0x88;

pub const OFF_RSP: usize = 0x98;

pub const OFF_R8: usize = 0xB8;

pub const OFF_R9: usize = 0xC0;

pub const OFF_RIP: usize = 0xF8;

/// The register context of a thread.
#[derive(Debug, PartialEq, Eq)]
pub struct Ctx(pub [u8; CTX_SIZE]);

impl View for Ctx {
    type V = Seq<u8>;

    open spec fn view(&self) -> Seq<u8> {
        self.0@
    }
}

/// The bytes of a fresh context: all zero but for its flags.
pub open spec fn fresh(flags: u32) -> Seq<u8> {
    overwritten(Seq::new(CTX_SIZE as nat, |i: int| 0u8), OFF_FLAGS as int, le_bytes(flags as nat, 4))
}

impl Ctx {
    /// A context with the given flags and zero everywhere else.
    pub fn new(flags: u32) -> (c: Self)
        ensures
            c@ == fresh(flags),
    {
        let mut c = Self([0u8; CTX_SIZE]);
        assert(c@ =~= Seq::new(CTX_SIZE as nat, |i: int| 0u8));
        c.write_u32(OFF_FLAGS, flags);
        c
    }

    /// The four-byte field at `off`.
    pub fn read_u32(&self, off: usize) -> (v: u32)
        requires
            off + 4 <= CTX_SIZE,
        ensures
            v == field_u32(self@, off as int),
    {
        u32_at(&self.0, off)
    }

    /// The eight-byte field at `off`.
    pub fn read_u64(&self, off: usize) -> (v: u64)
        requires
            off + 8 <= CTX_SIZE,
        ensures
            v == field_u64(self@, off as int),
    {
        u64_at(&self.0, off)
    }

    /// Sets the four-byte field at `off`, and no other byte.
    pub fn write_u32(&mut self, off: usize, v: u32)
        requires
            off + 4 <= CTX_SIZE,
        ensures
            final(self)@ == overwritten(old(self)@, off as int, le_bytes(v as nat, 4)),
    {
        proof {
            lemma_le_bytes_4(v as nat);
        }
        self.0[off] = (v % 256) as u8;
        self.0[off + 1] = (v / 0x100 % 256) as u8;
        self.0[off + 2] = (v / 0x1_0000 % 256) as u8;
        self.0[off + 3] = (v / 0x100_0000 % 256) as u8;
    }

    /// Sets the eight-byte field at `off`, and no other byte.
    pub fn write_u64(&mut self, off: usize, v: u64)
        requires
            off + 8 <= CTX_SIZE,
        ensures
            final(self)@ == overwritten(old(self)@, off as int, le_bytes(v as nat, 8)),
    {
        proof {
            lemma_le_bytes_8(v as nat);
        }
        self.0[off] = (v % 256) as u8;
        self.0[off + 1] = (v / 0x100 % 256) as u8;
        self.0[off + 2] = (v / 0x1_0000 % 256) as u8;
        self.0[off + 3] = (v / 0x100_0000 % 256) as u8;
        self.0[off + 4] = (v / 0x1_0000_0000 % 256) as u8;
        self.0[off + 5] = (v / 0x100_0000_0000 % 256) as u8;
        self.0[off + 6] = (v / 0x1_0000_0000_0000 % 256) as u8;
        self.0[off + 7] = (v / 0x100_0000_0000_0000 % 256) as u8;
    }

    /// The instruction pointer.
    pub fn rip(&self) -> (v: u64)
        ensures
            v == field_u64(self@, OFF_RIP as int),
    {
        self.read_u64(OFF_RIP)
    }

    /// Sets the instruction pointer.
    pub fn set_rip(&mut self, v: u64)
        ensures
            final(self)@ == overwritten(old(self)@, OFF_RIP as int, le_bytes(v as nat, 8)),
    {
        self.write_u64(OFF_RIP, v)
    }

    /// The stack pointer.
    pub fn rsp(&self) -> (v: u64)
        ensures
            v == field_u64(self@, OFF_RSP as int),
    {
        self.read_u64(OFF_RSP)
    }

    /// The first argument register.
    pub fn rcx(&self) -> (v: u64)
        ensures
            v == field_u64(self@, OFF_RCX as int),
    {
        self.read_u64(OFF_RCX)
    }

    /// The second argument register.
    pub fn rdx(&self) -> (v: u64)
        ensures
            v == field_u64(self@, OFF_RDX as int),
    {
        self.read_u64(OFF_RDX)
    }

    /// The third argument register.
    pub fn r8(&self) -> (v: u64)
        ensures
            v == field_u64(self@, OFF_R8 as int),
    {
        self.read_u64(OFF_R8)
    }

    /// The fourth argument register.
    pub fn r9(&self) -> (v: u64)
        ensures
            v == field_u64(self@, OFF_R9 as int),
    {
        self.read_u64(OFF_R9)
    }

    /// The processor flags.
    pub fn eflags(&self) -> (v: u32)
        ensures
            v == field_u32(self@, OFF_EFLAGS as int),
    {
        self.read_u32(OFF_EFLAGS)
    }

    /// Sets the processor flags.
    pub fn set_eflags(&mut self, v: u32)
        ensures
            final(self)@ == overwritten(old(self)@, OFF_EFLAGS as int, le_bytes(v as nat, 4)),
    {
        self.write_u32(OFF_EFLAGS, v)
    }
}

} // verus!
