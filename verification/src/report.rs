//! The lines that a dump and a trace write.

use crate::context::{field_u64, u64_at, Ctx, OFF_R8, OFF_R9, OFF_RCX, OFF_RDX};
use crate::modules::{located, locate, spans, ModuleSpan, SpanView};
use crate::text::{
    decimal, hex, hex16, pad_end, pad_start, push_decimal, push_hex, push_hex16, push_padded_end,
    push_padded_start,
};
use vstd::prelude::*;

verus! {

/// What stands above the rows of a dump.
pub open spec fn dump_header(
    modules: Seq<SpanView>,
    obj: usize,
    vtable: u64,
    entries: usize,
) -> Seq<char> {
    "object  : 0x"@ + hex16(obj as nat) + "\nvtable  : 0x"@ + hex16(vtable as nat) + (match located(
        modules,
        vtable as usize,
    ) {
        Some((name, off)) => "\nvtable in: "@ + name + " +0x"@ + hex(off as nat),
        None => Seq::empty(),
    }) + "\nentries : "@ + decimal(entries as nat)
        + "\n\nSLOT ABSOLUTE           MODULE       OFFSET"@
}

/// The row for a slot that could not be read.
pub open spec fn failed_row(slot: usize, addr: usize) -> Seq<char> {
    pad_end(decimal(slot as nat), 4) + " (read failed at 0x"@ + hex(addr as nat) + ")"@
}

/// The row for a slot that holds `func`.
pub open spec fn slot_row(modules: Seq<SpanView>, slot: usize, func: u64) -> Seq<char> {
    pad_end(decimal(slot as nat), 4) + " 0x"@ + hex16(func as nat) + (if func == 0 {
        "  (null)"@
    } else {
        match located(modules, func as usize) {
            Some((name, off)) => "  "@ + pad_end(name, 12) + " +0x"@ + hex(off as nat),
            None => "  (unmapped)"@,
        }
    })
}

/// The report of the `n`th hit, by thread `tid`, with the instruction pointer,
/// the return address and the argument registers.
pub open spec fn hit_report(n: u64, tid: u32, rip: u64, ret: u64, ctx: Seq<u8>) -> Seq<char> {
    "[hit "@ + pad_start(decimal(n as nat), ' ', 3) + "] tid="@ + decimal(tid as nat) + "  rip=0x"@
        + hex16(rip as nat) + "  ret=0x"@ + hex16(ret as nat) + "\n         rcx=0x"@ + hex16(
        field_u64(ctx, OFF_RCX as int) as nat,
    ) + "  rdx=0x"@ + hex16(field_u64(ctx, OFF_RDX as int) as nat) + "\n         r8 =0x"@ + hex16(
        field_u64(ctx, OFF_R8 as int) as nat,
    ) + "  r9 =0x"@ + hex16(field_u64(ctx, OFF_R9 as int) as nat)
}

/// The first `n` eight-byte words of `bytes`, each behind a space.
pub open spec fn stack_words(bytes: Seq<u8>, n: nat) -> Seq<char>
    decreases n,
{
    if n == 0 {
        Seq::empty()
    } else {
        stack_words(bytes, (n - 1) as nat) + " "@ + hex16(field_u64(bytes, 8 * (n - 1)) as nat)
    }
}

/// The line that shows the stack, as far as `count` bytes of it were read.
pub open spec fn stack_report(bytes: Seq<u8>, count: usize) -> Seq<char> {
    "         stack:"@ + stack_words(bytes, (count / 8) as nat)
}

/// Where a slot of an object was found to lead.
pub open spec fn resolved_report(obj: usize, slot: usize, entry: usize) -> Seq<char> {
    "resolved obj 0x"@ + hex(obj as nat) + " slot "@ + decimal(slot as nat) + " -> 0x"@ + hex(
        entry as nat,
    )
}

/// That the breakpoint is set.
pub open spec fn attached_report(pid: u32, target: usize) -> Seq<char> {
    "attached to pid "@ + decimal(pid as nat) + " — INT3 at 0x"@ + hex(target as nat)
        + "; Ctrl+C to detach"@
}

/// How often the breakpoint was hit.
pub open spec fn done_report(hits: u64) -> Seq<char> {
    "done — "@ + decimal(hits as nat) + " hit(s)"@
}

/// What stands above the rows of a dump.
pub fn write_dump_header(modules: &[ModuleSpan], obj: usize, vtable: u64, entries: usize) -> (t:
    String)
    ensures
        t@ == dump_header(spans(modules@), obj, vtable, entries),
{
    let mut t: String = String::from_str("object  : 0x");
    push_hex16(&mut t, obj as u64);
    t.append("\nvtable  : 0x");
    push_hex16(&mut t, vtable);
    match locate(modules, vtable as usize) {
        Some((name, off)) => {
            t.append("\nvtable in: ");
            t.append(name);
            t.append(" +0x");
            push_hex(&mut t, off as u64);
        },
        None => {},
    }
    t.append("\nentries : ");
    push_decimal(&mut t, entries as u64);
    t.append("\n\nSLOT ABSOLUTE           MODULE       OFFSET");
    t
}

fn start_row(slot: usize) -> (t: String)
    ensures
        t@ == pad_end(decimal(slot as nat), 4),
{
    let mut number: String = String::new();
    push_decimal(&mut number, slot as u64);
    let mut t: String = String::new();
    push_padded_end(&mut t, number.as_str(), 4);
    t
}

/// The row for a slot that could not be read.
pub fn write_failed_row(slot: usize, addr: usize) -> (t: String)
    ensures
        t@ == failed_row(slot, addr),
{
    let mut t: String = start_row(slot);
    t.append(" (read failed at 0x");
    push_hex(&mut t, addr as u64);
    t.append(")");
    t
}

/// The row for a slot that holds `func`.
pub fn write_slot_row(modules: &[ModuleSpan], slot: usize, func: u64) -> (t: String)
    ensures
        t@ == slot_row(spans(modules@), slot, func),
{
    let mut t: String = start_row(slot);
    t.append(" 0x");
    push_hex16(&mut t, func);
    if func == 0 {
        t.append("  (null)");
    } else {
        match locate(modules, func as usize) {
            Some((name, off)) => {
                t.append("  ");
                push_padded_end(&mut t, name, 12);
                t.append(" +0x");
                push_hex(&mut t, off as u64);
            },
            None => {
                t.append("  (unmapped)");
            },
        }
    }
    t
}

/// The report of the `n`th hit.
pub fn write_hit(n: u64, tid: u32, rip: u64, ret: u64, ctx: &Ctx) -> (t: String)
    ensures
        t@ == hit_report(n, tid, rip, ret, ctx@),
{
    let mut number: String = String::new();
    push_decimal(&mut number, n);
    let mut t: String = String::from_str("[hit ");
    push_padded_start(&mut t, number.as_str(), ' ', 3);
    t.append("] tid=");
    push_decimal(&mut t, tid as u64);
    t.append("  rip=0x");
    push_hex16(&mut t, rip);
    t.append("  ret=0x");
    push_hex16(&mut t, ret);
    t.append("\n         rcx=0x");
    push_hex16(&mut t, ctx.rcx());
    t.append("  rdx=0x");
    push_hex16(&mut t, ctx.rdx());
    t.append("\n         r8 =0x");
    push_hex16(&mut t, ctx.r8());
    t.append("  r9 =0x");
    push_hex16(&mut t, ctx.r9());
    assert(number@ =~= decimal(n as nat));
    t
}

/// The line that shows the stack. A word of which only some bytes were read is
/// left out.
pub fn write_stack(bytes: &[u8], count: usize) -> (t: String)
    requires
        count <= bytes@.len(),
    ensures
        t@ == stack_report(bytes@, count),
{
    let mut t: String = String::from_str("         stack:");
    let read: usize = count / 8;
    let mut i: usize = 0;
    assert(t@ + Seq::<char>::empty() =~= t@);
    while i < read
        invariant
            i <= read,
            read == count / 8,
            count <= bytes@.len(),
            t@ == "         stack:"@ + stack_words(bytes@, i as nat),
        decreases read - i,
    {
        t.append(" ");
        push_hex16(&mut t, u64_at(bytes, i * 8));
        i += 1;
        assert(t@ =~= "         stack:"@ + stack_words(bytes@, i as nat));
    }
    t
}

/// Where a slot of an object was found to lead.
pub fn write_resolved(obj: usize, slot: usize, entry: usize) -> (t: String)
    ensures
        t@ == resolved_report(obj, slot, entry),
{
    let mut t: String = String::from_str("resolved obj 0x");
    push_hex(&mut t, obj as u64);
    t.append(" slot ");
    push_decimal(&mut t, slot as u64);
    t.append(" -> 0x");
    push_hex(&mut t, entry as u64);
    t
}

/// That the breakpoint is set.
pub fn write_attached(pid: u32, target: usize) -> (t: String)
    ensures
        t@ == attached_report(pid, target),
{
    let mut t: String = String::from_str("attached to pid ");
    push_decimal(&mut t, pid as u64);
    t.append(" — INT3 at 0x");
    push_hex(&mut t, target as u64);
    t.append("; Ctrl+C to detach");
    t
}

/// How often the breakpoint was hit.
pub fn write_done(hits: u64) -> (t: String)
    ensures
        t@ == done_report(hits),
{
    let mut t: String = String::from_str("done — ");
    push_decimal(&mut t, hits);
    t.append(" hit(s)");
    t
}

} // verus!
