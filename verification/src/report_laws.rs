//! What every line and every message says.
//!
//! Numbers are given by their numerals: a numeral stands for one number, so a
//! line that shows the right numeral shows the right number.

use crate::address_laws::law_numerals_have_their_value;
use crate::context::{field_u64, le_value};
use crate::context_laws::{law_bytes_are_unique, law_fields_are_exact};
use crate::dump::snapshot_failure;
use crate::memory::{byte_read, byte_written, qword_read};
use crate::modules::{located, SpanView};
use crate::report::{
    attached_report, done_report, dump_header, failed_row, hit_report, resolved_report, slot_row,
    stack_report, stack_words,
};
use crate::session::{open_failure, qword_reply, EventView};
use crate::text::{decimal, hex16, pad_end, pad_start};
use crate::text_laws::{law_hex16_is_the_numeral, lemma_written, short_numeral, wide_numeral};
use crate::trace::{byte_reply, no_target, write_reply};
use vstd::prelude::*;

verus! {

/// What a reply to reading one byte at `addr` comes to.
pub proof fn law_byte_replies(addr: usize, count: usize, bytes: Seq<u8>, e: Seq<char>, h: Seq<char>)
    requires
        bytes.len() == 1,
        short_numeral(h, 16, addr as nat),
    ensures
        byte_reply(addr, EventView::Read { count, bytes }) == (if count == 1 {
            Ok::<u8, Seq<char>>(bytes[0])
        } else {
            Err("short read at 0x"@ + h)
        }),
        byte_reply(addr, EventView::Failed(e)) == Err::<u8, Seq<char>>(
            "ReadProcessMemory at 0x"@ + h + ": "@ + e,
        ),
        byte_read(addr, Ok(count), bytes[0]) == byte_reply(addr, EventView::Read { count, bytes }),
        byte_read(addr, Err(e), bytes[0]) == byte_reply(addr, EventView::Failed(e)),
{
    lemma_written(addr as u64, h, h, h);
}

/// What a reply to reading eight bytes at `addr` comes to: the number that all
/// of them write, if all of them were read.
pub proof fn law_qword_replies(
    addr: usize,
    count: usize,
    bytes: Seq<u8>,
    e: Seq<char>,
    h: Seq<char>,
)
    requires
        bytes.len() == 8,
        short_numeral(h, 16, addr as nat),
    ensures
        count == 8 ==> qword_reply(addr, EventView::Read { count, bytes }) is Ok && qword_reply(
            addr,
            EventView::Read { count, bytes },
        )->Ok_0 == le_value(bytes),
        count != 8 ==> qword_reply(addr, EventView::Read { count, bytes }) == Err::<
            u64,
            Seq<char>,
        >("short read at 0x"@ + h),
        qword_reply(addr, EventView::Failed(e)) == Err::<u64, Seq<char>>(
            "ReadProcessMemory at 0x"@ + h + ": "@ + e,
        ),
        qword_read(addr, Ok(count), bytes) == qword_reply(addr, EventView::Read { count, bytes }),
        qword_read(addr, Err(e), bytes) == qword_reply(addr, EventView::Failed(e)),
{
    lemma_written(addr as u64, h, h, h);
    law_fields_are_exact(bytes, 0);
    assert(bytes.subrange(0, 8) =~= bytes);
}

/// What a reply to writing one byte at `addr` comes to.
pub proof fn law_write_replies(addr: usize, count: usize, e: Seq<char>, h: Seq<char>)
    requires
        short_numeral(h, 16, addr as nat),
    ensures
        write_reply(addr, EventView::Written(count)) == (if count == 1 {
            Ok::<(), Seq<char>>(())
        } else {
            Err("short write at 0x"@ + h)
        }),
        write_reply(addr, EventView::Failed(e)) == Err::<(), Seq<char>>(
            "WriteProcessMemory at 0x"@ + h + ": "@ + e,
        ),
        byte_written(addr, Ok(count)) == write_reply(addr, EventView::Written(count)),
        byte_written(addr, Err(e)) == write_reply(addr, EventView::Failed(e)),
{
    lemma_written(addr as u64, h, h, h);
}

/// The messages of a target that cannot be opened or listed, and of a trace
/// without a target.
pub proof fn law_refusals(pid: u32, e: Seq<char>, p: Seq<char>)
    requires
        short_numeral(p, 10, pid as nat),
    ensures
        open_failure(pid, e) == "OpenProcess("@ + p + "): "@ + e,
        snapshot_failure(pid, e) == "snapshot pid "@ + p + ": "@ + e,
        no_target() == "trace requires --addr or (--obj + --slot)"@,
{
    lemma_written(pid as u64, p, p, p);
}

/// The head of a dump tells the object, its vtable, where the vtable lies and
/// how many slots follow.
pub proof fn law_dump_header(
    modules: Seq<SpanView>,
    obj: usize,
    vtable: u64,
    entries: usize,
    o: Seq<char>,
    v: Seq<char>,
    n: Seq<char>,
    off: Seq<char>,
)
    requires
        wide_numeral(o, obj as nat),
        wide_numeral(v, vtable as nat),
        short_numeral(n, 10, entries as nat),
        located(modules, vtable as usize) matches Some((_, at)) ==> short_numeral(
            off,
            16,
            at as nat,
        ),
    ensures
        dump_header(modules, obj, vtable, entries) == "object  : 0x"@ + o + "\nvtable  : 0x"@ + v
            + (match located(modules, vtable as usize) {
            Some((name, _)) => "\nvtable in: "@ + name + " +0x"@ + off,
            None => Seq::empty(),
        }) + "\nentries : "@ + n + "\n\nSLOT ABSOLUTE           MODULE       OFFSET"@,
{
    lemma_written(obj as u64, o, o, o);
    lemma_written(vtable, v, v, v);
    lemma_written(entries as u64, n, n, n);
    if let Some((name, at)) = located(modules, vtable as usize) {
        lemma_written(at as u64, off, off, off);
    }
}

/// A row tells the number of its slot, the whole address that the slot holds,
/// and the module and offset of that address.
pub proof fn law_rows(
    modules: Seq<SpanView>,
    slot: usize,
    func: u64,
    addr: usize,
    s: Seq<char>,
    f: Seq<char>,
    off: Seq<char>,
    a: Seq<char>,
)
    requires
        short_numeral(s, 10, slot as nat),
        wide_numeral(f, func as nat),
        short_numeral(a, 16, addr as nat),
        located(modules, func as usize) matches Some((_, at)) ==> short_numeral(off, 16, at as nat),
    ensures
        failed_row(slot, addr) == pad_end(s, 4) + " (read failed at 0x"@ + a + ")"@,
        func == 0 ==> slot_row(modules, slot, func) == pad_end(s, 4) + " 0x"@ + f + "  (null)"@,
        func != 0 ==> slot_row(modules, slot, func) == pad_end(s, 4) + " 0x"@ + f + (match located(
            modules,
            func as usize,
        ) {
            Some((name, _)) => "  "@ + pad_end(name, 12) + " +0x"@ + off,
            None => "  (unmapped)"@,
        }),
{
    lemma_written(slot as u64, s, s, s);
    lemma_written(func, f, f, f);
    lemma_written(addr as u64, a, a, a);
    if let Some((name, at)) = located(modules, func as usize) {
        lemma_written(at as u64, off, off, off);
    }
}

/// The report of a hit shows its number, its thread, the instruction pointer, the
/// return address and, in full, what the eight bytes of each argument register
/// hold.
pub proof fn law_hit_report(
    n: u64,
    tid: u32,
    rip: u64,
    ret: u64,
    ctx: Seq<u8>,
    count: Seq<char>,
    thread: Seq<char>,
    at: Seq<char>,
    back: Seq<char>,
    rcx: Seq<char>,
    rdx: Seq<char>,
    r8: Seq<char>,
    r9: Seq<char>,
)
    requires
        ctx.len() == 1232,
        short_numeral(count, 10, n as nat),
        short_numeral(thread, 10, tid as nat),
        wide_numeral(at, rip as nat),
        wide_numeral(back, ret as nat),
        wide_numeral(rcx, le_value(ctx.subrange(0x80, 0x88))),
        wide_numeral(rdx, le_value(ctx.subrange(0x88, 0x90))),
        wide_numeral(r8, le_value(ctx.subrange(0xb8, 0xc0))),
        wide_numeral(r9, le_value(ctx.subrange(0xc0, 0xc8))),
    ensures
        hit_report(n, tid, rip, ret, ctx) == "[hit "@ + pad_start(count, ' ', 3) + "] tid="@
            + thread + "  rip=0x"@ + at + "  ret=0x"@ + back + "\n         rcx=0x"@ + rcx
            + "  rdx=0x"@ + rdx + "\n         r8 =0x"@ + r8 + "  r9 =0x"@ + r9,
{
    law_fields_are_exact(ctx, 0x80);
    law_fields_are_exact(ctx, 0x88);
    law_fields_are_exact(ctx, 0xb8);
    law_fields_are_exact(ctx, 0xc0);
    lemma_written(n, count, count, count);
    lemma_written(tid as u64, thread, thread, thread);
    lemma_written(rip, at, at, at);
    lemma_written(ret, back, back, back);
    lemma_written(le_value(ctx.subrange(0x80, 0x88)) as u64, rcx, rcx, rcx);
    lemma_written(le_value(ctx.subrange(0x88, 0x90)) as u64, rdx, rdx, rdx);
    lemma_written(le_value(ctx.subrange(0xb8, 0xc0)) as u64, r8, r8, r8);
    lemma_written(le_value(ctx.subrange(0xc0, 0xc8)) as u64, r9, r9, r9);
}

proof fn lemma_same_ends(a: Seq<char>, g: Seq<char>, h: Seq<char>, r: Seq<char>, s: Seq<char>)
    requires
        g.len() == h.len(),
        a + g + r == a + h + s,
    ensures
        g == h,
        r == s,
{
    let n = a.len() as int;
    let k = g.len() as int;
    let x = a + g + r;
    let y = a + h + s;
    assert(g =~= x.subrange(n, n + k));
    assert(h =~= y.subrange(n, n + k));
    assert(r =~= x.skip(n + k));
    assert(s =~= y.skip(n + k));
}

proof fn lemma_wide_numerals_differ(x: u64, y: u64)
    ensures
        hex16(x as nat).len() == 16,
        hex16(x as nat) == hex16(y as nat) ==> x == y,
{
    law_hex16_is_the_numeral(x);
    law_hex16_is_the_numeral(y);
    law_numerals_have_their_value(hex16(x as nat), x as nat);
    law_numerals_have_their_value(hex16(y as nat), y as nat);
}

/// Two reports of one hit of one thread are the same only if every byte of the
/// instruction pointer, of the return address and of the argument registers is:
/// nothing of them is lost.
pub proof fn law_reports_lose_nothing(
    n: u64,
    tid: u32,
    rip: u64,
    ret: u64,
    c: Seq<u8>,
    other_rip: u64,
    other_ret: u64,
    d: Seq<u8>,
)
    requires
        c.len() == 1232,
        d.len() == 1232,
        hit_report(n, tid, rip, ret, c) == hit_report(n, tid, other_rip, other_ret, d),
    ensures
        rip == other_rip,
        ret == other_ret,
        c.subrange(0x80, 0x88) == d.subrange(0x80, 0x88),
        c.subrange(0x88, 0x90) == d.subrange(0x88, 0x90),
        c.subrange(0xb8, 0xc0) == d.subrange(0xb8, 0xc0),
        c.subrange(0xc0, 0xc8) == d.subrange(0xc0, 0xc8),
{
    let head = "[hit "@ + pad_start(decimal(n as nat), ' ', 3) + "] tid="@ + decimal(tid as nat)
        + "  rip=0x"@;
    let none = Seq::<char>::empty();
    law_fields_are_exact(c, 0x80);
    law_fields_are_exact(c, 0x88);
    law_fields_are_exact(c, 0xb8);
    law_fields_are_exact(c, 0xc0);
    law_fields_are_exact(d, 0x80);
    law_fields_are_exact(d, 0x88);
    law_fields_are_exact(d, 0xb8);
    law_fields_are_exact(d, 0xc0);
    let (c1, d1) = (field_u64(c, 0x80), field_u64(d, 0x80));
    let (c2, d2) = (field_u64(c, 0x88), field_u64(d, 0x88));
    let (c3, d3) = (field_u64(c, 0xb8), field_u64(d, 0xb8));
    let (c4, d4) = (field_u64(c, 0xc0), field_u64(d, 0xc0));
    lemma_wide_numerals_differ(rip, other_rip);
    lemma_wide_numerals_differ(ret, other_ret);
    lemma_wide_numerals_differ(c1, d1);
    lemma_wide_numerals_differ(c2, d2);
    lemma_wide_numerals_differ(c3, d3);
    lemma_wide_numerals_differ(c4, d4);
    lemma_wide_numerals_differ(other_rip, rip);
    lemma_wide_numerals_differ(other_ret, ret);
    lemma_wide_numerals_differ(d1, c1);
    lemma_wide_numerals_differ(d2, c2);
    lemma_wide_numerals_differ(d3, c3);
    lemma_wide_numerals_differ(d4, c4);
    let x5 = "  r9 =0x"@ + hex16(c4 as nat) + none;
    let y5 = "  r9 =0x"@ + hex16(d4 as nat) + none;
    let x4 = "\n         r8 =0x"@ + hex16(c3 as nat) + x5;
    let y4 = "\n         r8 =0x"@ + hex16(d3 as nat) + y5;
    let x3 = "  rdx=0x"@ + hex16(c2 as nat) + x4;
    let y3 = "  rdx=0x"@ + hex16(d2 as nat) + y4;
    let x2 = "\n         rcx=0x"@ + hex16(c1 as nat) + x3;
    let y2 = "\n         rcx=0x"@ + hex16(d1 as nat) + y3;
    let x1 = "  ret=0x"@ + hex16(ret as nat) + x2;
    let y1 = "  ret=0x"@ + hex16(other_ret as nat) + y2;
    assert(hit_report(n, tid, rip, ret, c) =~= head + hex16(rip as nat) + x1);
    assert(hit_report(n, tid, other_rip, other_ret, d) =~= head + hex16(other_rip as nat) + y1);
    lemma_same_ends(head, hex16(rip as nat), hex16(other_rip as nat), x1, y1);
    lemma_same_ends("  ret=0x"@, hex16(ret as nat), hex16(other_ret as nat), x2, y2);
    lemma_same_ends("\n         rcx=0x"@, hex16(c1 as nat), hex16(d1 as nat), x3, y3);
    lemma_same_ends("  rdx=0x"@, hex16(c2 as nat), hex16(d2 as nat), x4, y4);
    lemma_same_ends("\n         r8 =0x"@, hex16(c3 as nat), hex16(d3 as nat), x5, y5);
    lemma_same_ends("  r9 =0x"@, hex16(c4 as nat), hex16(d4 as nat), none, none);
    law_bytes_are_unique(c.subrange(0x80, 0x88), d.subrange(0x80, 0x88));
    law_bytes_are_unique(c.subrange(0x88, 0x90), d.subrange(0x88, 0x90));
    law_bytes_are_unique(c.subrange(0xb8, 0xc0), d.subrange(0xb8, 0xc0));
    law_bytes_are_unique(c.subrange(0xc0, 0xc8), d.subrange(0xc0, 0xc8));
}

/// A stack of which not even one word was read is shown without a word.
pub proof fn law_short_stacks(bytes: Seq<u8>, count: usize)
    requires
        count < 8,
    ensures
        stack_report(bytes, count) == "         stack:"@,
{
    assert(stack_report(bytes, count) =~= "         stack:"@);
}

/// The line of the stack shows one word more, in full, for every eight bytes more
/// that were read.
pub proof fn law_stack_report(bytes: Seq<u8>, count: usize, more: usize, word: Seq<char>)
    requires
        count <= bytes.len(),
        more <= bytes.len(),
        more / 8 == count / 8 + 1,
        wide_numeral(
            word,
            le_value(bytes.subrange(count as int / 8 * 8, count as int / 8 * 8 + 8)),
        ),
    ensures
        stack_report(bytes, more) == stack_report(bytes, count) + " "@ + word,
        stack_report(bytes, count) == stack_report(bytes, (count / 8 * 8) as usize),
{
    let k = count as int / 8 * 8;
    law_fields_are_exact(bytes, k);
    lemma_written(le_value(bytes.subrange(k, k + 8)) as u64, word, word, word);
    assert(8 * (more / 8 - 1) == k);
    assert(stack_words(bytes, (more / 8) as nat) == stack_words(bytes, (count / 8) as nat) + " "@
        + word);
    assert(stack_report(bytes, more) =~= stack_report(bytes, count) + " "@ + word);
}

/// The lines of a trace's progress.
pub proof fn law_progress_lines(
    obj: usize,
    slot: usize,
    entry: usize,
    pid: u32,
    hits: u64,
    o: Seq<char>,
    s: Seq<char>,
    f: Seq<char>,
    p: Seq<char>,
    n: Seq<char>,
)
    requires
        short_numeral(o, 16, obj as nat),
        short_numeral(s, 10, slot as nat),
        short_numeral(f, 16, entry as nat),
        short_numeral(p, 10, pid as nat),
        short_numeral(n, 10, hits as nat),
    ensures
        resolved_report(obj, slot, entry) == "resolved obj 0x"@ + o + " slot "@ + s + " -> 0x"@ + f,
        attached_report(pid, entry) == "attached to pid "@ + p + " — INT3 at 0x"@ + f
            + "; Ctrl+C to detach"@,
        done_report(hits) == "done — "@ + n + " hit(s)"@,
{
    lemma_written(obj as u64, o, o, o);
    lemma_written(slot as u64, s, s, s);
    lemma_written(entry as u64, f, f, f);
    lemma_written(pid as u64, p, p, p);
    lemma_written(hits, n, n, n);
}

} // verus!
