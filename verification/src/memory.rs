//! What the reply to a read or write of the target's memory comes to.
//!
//! A reply is the number of bytes moved, or the system's own message.

use crate::context::{field_u64, u64_at};
use crate::text::{hex, push_hex, shown};
use vstd::prelude::*;

verus! {

/// The address of a slot of a vtable, in the arithmetic of machine words.
pub open spec fn slot_addr(vtable: u64, slot: usize) -> usize {
    (vtable as usize).wrapping_add(slot.wrapping_mul(8))
}

/// The address of a slot of a vtable, in the arithmetic of machine words.
pub fn slot_address(vtable: u64, slot: usize) -> (a: usize)
    ensures
        a == slot_addr(vtable, slot),
{
    (vtable as usize).wrapping_add(slot.wrapping_mul(8))
}

/// The message for a read that the system refused.
pub open spec fn refused_read(addr: usize, e: Seq<char>) -> Seq<char> {
    "ReadProcessMemory at 0x"@ + hex(addr as nat) + ": "@ + e
}

/// The message for a write that the system refused.
pub open spec fn refused_write(addr: usize, e: Seq<char>) -> Seq<char> {
    "WriteProcessMemory at 0x"@ + hex(addr as nat) + ": "@ + e
}

/// The message for a read of too few bytes.
pub open spec fn short_read(addr: usize) -> Seq<char> {
    "short read at 0x"@ + hex(addr as nat)
}

/// The message for a write of too few bytes.
pub open spec fn short_write(addr: usize) -> Seq<char> {
    "short write at 0x"@ + hex(addr as nat)
}

/// What reading `want` bytes at `addr` comes to: nothing amiss, or a message.
pub open spec fn read_check(addr: usize, reply: Result<usize, Seq<char>>, want: usize) -> Result<
    (),
    Seq<char>,
> {
    match reply {
        Err(e) => Err(refused_read(addr, e)),
        Ok(n) => if n != want {
            Err(short_read(addr))
        } else {
            Ok(())
        },
    }
}

/// What reading the byte at `addr` comes to.
pub open spec fn byte_read(addr: usize, reply: Result<usize, Seq<char>>, byte: u8) -> Result<
    u8,
    Seq<char>,
> {
    match read_check(addr, reply, 1) {
        Err(e) => Err(e),
        Ok(_) => Ok(byte),
    }
}

/// What reading the eight bytes at `addr` comes to.
pub open spec fn qword_read(addr: usize, reply: Result<usize, Seq<char>>, bytes: Seq<u8>) -> Result<
    u64,
    Seq<char>,
> {
    match read_check(addr, reply, 8) {
        Err(e) => Err(e),
        Ok(_) => Ok(field_u64(bytes, 0)),
    }
}

/// What writing one byte at `addr` comes to.
pub open spec fn byte_written(addr: usize, reply: Result<usize, Seq<char>>) -> Result<
    (),
    Seq<char>,
> {
    match reply {
        Err(e) => Err(refused_write(addr, e)),
        Ok(n) => if n != 1 {
            Err(short_write(addr))
        } else {
            Ok(())
        },
    }
}

fn check_read(addr: usize, reply: &Result<usize, String>, want: usize) -> (r: Result<(), String>)
    ensures
        shown(r) == read_check(addr, shown(*reply), want),
{
    match reply {
        Err(e) => {
            let mut m: String = String::from_str("ReadProcessMemory at 0x");
            push_hex(&mut m, addr as u64);
            m.append(": ");
            m.append(e.as_str());
            Err(m)
        },
        Ok(n) => {
            if *n != want {
                let mut m: String = String::from_str("short read at 0x");
                push_hex(&mut m, addr as u64);
                Err(m)
            } else {
                Ok(())
            }
        },
    }
}

/// The byte read at `addr`, if one byte came.
pub fn read_byte(addr: usize, reply: &Result<usize, String>, byte: u8) -> (r: Result<u8, String>)
    ensures
        shown(r) == byte_read(addr, shown(*reply), byte),
{
    match check_read(addr, reply, 1) {
        Err(e) => Err(e),
        Ok(_) => Ok(byte),
    }
}

/// The number read at `addr`, if eight bytes came.
pub fn read_qword(addr: usize, reply: &Result<usize, String>, bytes: &[u8]) -> (r: Result<
    u64,
    String,
>)
    requires
        bytes@.len() == 8,
    ensures
        shown(r) == qword_read(addr, shown(*reply), bytes@),
{
    match check_read(addr, reply, 8) {
        Err(e) => Err(e),
        Ok(_) => Ok(u64_at(bytes, 0)),
    }
}

/// Whether the byte at `addr` was written.
pub fn write_byte(addr: usize, reply: &Result<usize, String>) -> (r: Result<(), String>)
    ensures
        shown(r) == byte_written(addr, shown(*reply)),
{
    match reply {
        Err(e) => {
            let mut m: String = String::from_str("WriteProcessMemory at 0x");
            push_hex(&mut m, addr as u64);
            m.append(": ");
            m.append(e.as_str());
            Err(m)
        },
        Ok(n) => {
            if *n != 1 {
                let mut m: String = String::from_str("short write at 0x");
                push_hex(&mut m, addr as u64);
                Err(m)
            } else {
                Ok(())
            }
        },
    }
}

} // verus!
