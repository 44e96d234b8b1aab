//! The course of every trace: which action follows which reply.

use crate::context::{field_u64, fresh, le_value};
use crate::context_laws::{
    law_fields_are_exact, law_fresh_context, law_read_back_u64, law_writes_are_local,
};
use crate::dump_laws::law_slot_addresses_wrap;
use crate::report::{hit_report, stack_report};
use crate::report_laws::{law_byte_replies, law_qword_replies, law_write_replies};
use crate::session::{Access, ActionView, DebugKind, EventOf, EventView, ExceptionKind, Origin};
use crate::session_laws::fits;
use crate::text_laws::{lemma_written, short_numeral};
use crate::trace::{
    moved_back, trace_accepts, trace_action, trace_next, trace_start, PhaseView, TraceOf,
    TracePhase, TraceView,
};
use crate::trace_laws::{lemma_steps_back_and_traps, steps_back_and_traps};
use vstd::prelude::*;

verus! {

/// The replies that a trace takes are those that fit what it does. Of the stack
/// no more bytes can have been read than were asked for.
pub proof fn law_trace_replies(t: TraceView, e: EventView)
    ensures
        trace_accepts(t, e) <==> fits(trace_action(t), e) && (t.phase is ReadStack ==> (
        e matches EventOf::Read { count, bytes } ==> count <= bytes.len())),
{
    law_fresh_context(0x0010_000b, 0);
}

/// A trace starts with what it was asked for. With an address it goes on to that
/// address, with an object and a slot it looks the address up, and with neither
/// it ends.
pub proof fn law_trace_starts(
    pid: u32,
    obj: Option<usize>,
    slot: Option<usize>,
    addr: Option<usize>,
    stack_words: usize,
    max_hits: Option<u64>,
)
    ensures
        ({
            let t = trace_start(pid, obj, slot, addr, stack_words, max_hits);
            &&& t.pid == pid && t.stack_words == stack_words && t.max_hits == max_hits
            &&& t.hits == 0 && t.last_thread is None && !t.stop
            &&& addr matches Some(a) ==> t.target == a && trace_action(t) is InstallHandler
            &&& addr is None && obj is Some && slot is Some ==> trace_action(t)
                == ActionView::OpenProcess(Access::Inspect)
            &&& addr is None && (obj is None || slot is None) ==> trace_action(t)
                == ActionView::Return(Err("trace requires --addr or (--obj + --slot)"@))
        }),
{
}

/// A trace of an address has Ctrl+C noted, opens the target to change it, reads
/// the byte at the address, puts the breakpoint there, attaches, says so and
/// waits.
pub proof fn law_setup(
    pid: u32,
    obj: Option<usize>,
    slot: Option<usize>,
    addr: usize,
    stack_words: usize,
    max_hits: Option<u64>,
    bytes: Seq<u8>,
    p: Seq<char>,
    h: Seq<char>,
)
    requires
        bytes.len() == 1,
        short_numeral(p, 10, pid as nat),
        short_numeral(h, 16, addr as nat),
    ensures
        ({
            let t0 = trace_start(pid, obj, slot, Some(addr), stack_words, max_hits);
            let t1 = trace_next(t0, EventOf::Done);
            let t2 = trace_next(t1, EventOf::Done);
            let t3 = trace_next(t2, EventOf::Read { count: 1, bytes });
            let t4 = trace_next(t3, EventOf::Written(1));
            let t5 = trace_next(t4, EventOf::Done);
            let t6 = trace_next(t5, EventOf::Done);
            &&& trace_action(t0) is InstallHandler
            &&& trace_action(t1) == ActionView::OpenProcess(Access::Trace)
            &&& trace_action(t2) == (ActionView::Read { addr, len: 1 })
            &&& trace_action(t3) == (ActionView::Write { addr, byte: 0xcc })
            &&& trace_action(t4) is Attach
            &&& trace_action(t5) == ActionView::Eprint(
                "attached to pid "@ + p + " — INT3 at 0x"@ + h + "; Ctrl+C to detach"@,
            )
            &&& trace_action(t6) is Poll
            &&& t6 == (TraceOf { original: bytes[0], phase: TracePhase::Poll, ..t0 })
        }),
{
    law_byte_replies(addr, 1, bytes, h, h);
    law_write_replies(addr, 1, h, h);
    lemma_written(pid as u64, p, p, p);
    lemma_written(addr as u64, h, h, h);
}

/// A trace of a slot opens the target to read it, reads the vtable of the object
/// and the address in the slot, says what it found and closes the target; then
/// it goes on with that address.
pub proof fn law_lookup(
    pid: u32,
    obj: usize,
    slot: usize,
    stack_words: usize,
    max_hits: Option<u64>,
    first: Seq<u8>,
    second: Seq<u8>,
    o: Seq<char>,
    s: Seq<char>,
    f: Seq<char>,
)
    requires
        first.len() == 8,
        second.len() == 8,
        le_value(first) <= usize::MAX,
        le_value(second) <= usize::MAX,
        short_numeral(o, 16, obj as nat),
        short_numeral(s, 10, slot as nat),
        short_numeral(f, 16, le_value(second)),
    ensures
        ({
            let t0 = trace_start(pid, Some(obj), Some(slot), None, stack_words, max_hits);
            let t1 = trace_next(t0, EventOf::Done);
            let t2 = trace_next(t1, EventOf::Read { count: 8, bytes: first });
            let t3 = trace_next(t2, EventOf::Read { count: 8, bytes: second });
            let t4 = trace_next(t3, EventOf::Done);
            let t5 = trace_next(t4, EventOf::Done);
            &&& trace_action(t0) == ActionView::OpenProcess(Access::Inspect)
            &&& trace_action(t1) == (ActionView::Read { addr: obj, len: 8 })
            &&& trace_action(t2) == (ActionView::Read {
                addr: ((le_value(first) + 8 * slot) % (usize::MAX + 1)) as usize,
                len: 8,
            })
            &&& trace_action(t3) == ActionView::Eprint(
                "resolved obj 0x"@ + o + " slot "@ + s + " -> 0x"@ + f,
            )
            &&& trace_action(t4) is CloseProcess
            &&& t5.target == le_value(second)
            &&& t5 == (TraceOf {
                phase: TracePhase::Install,
                ..trace_start(pid, None, None, Some(t5.target), stack_words, max_hits)
            })
        }),
{
    let vtable = le_value(first) as u64;
    let func = le_value(second) as u64;
    law_fields_are_exact(first, 0);
    law_fields_are_exact(second, 0);
    assert(first.subrange(0, 8) =~= first);
    assert(second.subrange(0, 8) =~= second);
    law_qword_replies(obj, 8, first, o, o);
    let t0 = trace_start(pid, Some(obj), Some(slot), None, stack_words, max_hits);
    let t1 = trace_next(t0, EventOf::Done);
    let t2 = trace_next(t1, EventOf::Read { count: 8, bytes: first });
    law_slot_addresses_wrap(vtable, slot);
    lemma_written(obj as u64, o, o, o);
    lemma_written(slot as u64, s, s, s);
    lemma_written(func, f, f, f);
}

/// Whether a trace closes the target and ends with a message.
pub open spec fn closes(t: TraceView, message: Seq<char>) -> bool {
    &&& trace_action(t) is CloseProcess
    &&& trace_action(trace_next(t, EventOf::Done)) == ActionView::Return(Err(message))
}

/// Whether a trace gives the original byte back, lets the target go, closes it
/// and ends with a message, whatever the replies.
pub open spec fn lets_go(
    t: TraceView,
    target: usize,
    original: u8,
    restored: EventView,
    detached: EventView,
    message: Seq<char>,
) -> bool {
    let t1 = trace_next(t, restored);
    let t2 = trace_next(t1, detached);
    &&& trace_action(t) == (ActionView::Write { addr: target, byte: original })
    &&& trace_action(t1) is Detach
    &&& closes(t2, message)
}

/// Whether a trace gives the original byte back, lets the target go, tells the
/// number of hits, closes the target and ends well, whatever the replies.
pub open spec fn finishes(
    t: TraceView,
    target: usize,
    original: u8,
    restored: EventView,
    detached: EventView,
    n: Seq<char>,
) -> bool {
    let t1 = trace_next(t, restored);
    let t2 = trace_next(t1, detached);
    let t3 = trace_next(t2, EventOf::Done);
    let t4 = trace_next(t3, EventOf::Done);
    &&& trace_action(t) == (ActionView::Write { addr: target, byte: original })
    &&& trace_action(t1) is Detach
    &&& trace_action(t2) == ActionView::Eprint("done — "@ + n + " hit(s)"@)
    &&& trace_action(t3) is CloseProcess
    &&& trace_action(t4) is Return
    &&& trace_action(t4)->Return_0 is Ok
}

/// What is refused before the target is debugged ends the trace, with a message
/// that tells what was refused; and a target that is open is closed.
pub proof fn law_setup_refused(t: TraceView, m: Seq<char>, p: Seq<char>)
    requires
        short_numeral(p, 10, t.pid as nat),
    ensures
        ({
            let t1 = trace_next(t, EventOf::Failed(m));
            &&& t.phase is OpenForResolve ==> trace_action(t1) == ActionView::Return(
                Err("OpenProcess for resolve("@ + p + "): "@ + m),
            )
            &&& t.phase is Install ==> trace_action(t1) == ActionView::Return(
                Err("SetConsoleCtrlHandler: "@ + m),
            )
            &&& t.phase is Open ==> trace_action(t1) == ActionView::Return(
                Err("OpenProcess("@ + p + "): "@ + m),
            )
            &&& t.phase is Attach ==> closes(t1, "DebugActiveProcess("@ + p + "): "@ + m)
        }),
{
    lemma_written(t.pid as u64, p, p, p);
}

/// Whether a trace has the target open and does not debug it.
pub open spec fn only_open(phase: PhaseView) -> bool {
    phase is ReadVtable || phase is ReadEntry || phase is ReadOriginal || phase is Plant
}

/// Whether a trace debugs the target and writes to it.
pub open spec fn writes_debugged(phase: PhaseView) -> bool {
    phase is Disarm || phase is Rearm
}

/// Memory that cannot be read or written as it must be ends the trace, with a
/// message that tells the address; a target that is open is closed, and one that
/// is debugged let go.
pub proof fn law_memory_refused(
    t: TraceView,
    m: Seq<char>,
    count: usize,
    bytes: Seq<u8>,
    h: Seq<char>,
    restored: EventView,
    detached: EventView,
)
    requires
        match trace_action(t) {
            ActionView::Read { addr, len } => short_numeral(h, 16, addr as nat) && bytes.len()
                == len && count != len,
            ActionView::Write { addr, .. } => short_numeral(h, 16, addr as nat) && count != 1,
            _ => false,
        },
    ensures
        ({
            let refused = trace_next(t, EventOf::Failed(m));
            let short = trace_next(
                t,
                if trace_action(t) is Read {
                    EventOf::Read { count, bytes }
                } else {
                    EventOf::Written(count)
                },
            );
            &&& only_open(t.phase) && trace_action(t) is Read ==> {
                &&& closes(refused, "ReadProcessMemory at 0x"@ + h + ": "@ + m)
                &&& closes(short, "short read at 0x"@ + h)
            }
            &&& only_open(t.phase) && trace_action(t) is Write ==> {
                &&& closes(refused, "WriteProcessMemory at 0x"@ + h + ": "@ + m)
                &&& closes(short, "short write at 0x"@ + h)
            }
            &&& writes_debugged(t.phase) ==> {
                &&& lets_go(
                    refused,
                    t.target,
                    t.original,
                    restored,
                    detached,
                    "WriteProcessMemory at 0x"@ + h + ": "@ + m,
                )
                &&& lets_go(
                    short,
                    t.target,
                    t.original,
                    restored,
                    detached,
                    "short write at 0x"@ + h,
                )
            }
        }),
{
    match trace_action(t) {
        ActionView::Read { addr, len } => {
            lemma_written(addr as u64, h, h, h);
        },
        ActionView::Write { addr, .. } => {
            lemma_written(addr as u64, h, h, h);
        },
        _ => {},
    }
}

/// What is refused while the target is debugged ends the trace, with a message
/// that tells what was refused; the target gets its byte back and is let go.
pub proof fn law_debugging_refused(
    t: TraceView,
    m: Seq<char>,
    restored: EventView,
    detached: EventView,
    id: Seq<char>,
)
    requires
        t.phase matches TracePhase::OpenThread { origin } ==> short_numeral(
            id,
            10,
            origin.thread_id as nat,
        ),
    ensures
        ({
            let t1 = trace_next(t, EventOf::Failed(m));
            &&& t.phase is OpenThread ==> lets_go(
                t1,
                t.target,
                t.original,
                restored,
                detached,
                "OpenThread("@ + id + "): "@ + m,
            )
            &&& t.phase is GetContext ==> lets_go(
                t1,
                t.target,
                t.original,
                restored,
                detached,
                "GetThreadContext failed"@,
            )
            &&& t.phase is SetContext ==> lets_go(
                t1,
                t.target,
                t.original,
                restored,
                detached,
                "SetThreadContext failed"@,
            )
            &&& t.phase is Resume ==> lets_go(
                t1,
                t.target,
                t.original,
                restored,
                detached,
                "ContinueDebugEvent: "@ + m,
            )
        }),
{
    if let TracePhase::OpenThread { origin } = t.phase {
        lemma_written(origin.thread_id as u64, id, id, id);
    }
}

/// A trace that waits ends well when Ctrl+C was noted, and when the target says
/// that it exits, which it tells.
pub proof fn law_endings(
    t: TraceView,
    origin: Origin,
    restored: EventView,
    detached: EventView,
    n: Seq<char>,
)
    requires
        t.phase is Poll,
        short_numeral(n, 10, t.hits as nat),
    ensures
        finishes(
            trace_next(t, EventOf::Interrupted),
            t.target,
            t.original,
            restored,
            detached,
            n,
        ),
        ({
            let t1 = trace_next(t, EventOf::Debug { origin, kind: DebugKind::ExitProcess });
            &&& trace_action(t1) == ActionView::Eprint("target exited"@)
            &&& finishes(
                trace_next(t1, EventOf::Done),
                t.target,
                t.original,
                restored,
                detached,
                n,
            )
        }),
{
    lemma_written(t.hits, n, n, n);
}

/// Whether a trace lets a thread run on and then waits again, in the state
/// `waiting`.
pub open spec fn runs_on(t: TraceView, origin: Origin, status: u32, waiting: TraceView) -> bool {
    &&& trace_action(t) == (ActionView::Continue { origin, status })
    &&& trace_next(t, EventOf::Done) == waiting
}

/// A trace that waits and sees nothing goes on waiting. A breakpoint elsewhere
/// and a report of no concern are passed over, and any other exception is left
/// to the target.
pub proof fn law_of_no_concern(t: TraceView, origin: Origin, address: usize)
    requires
        t.phase is Poll,
        !t.stop,
    ensures
        trace_action(t) is Poll,
        trace_next(t, EventOf::Idle) == t,
        address != t.target ==> runs_on(
            trace_next(
                t,
                EventOf::Debug {
                    origin,
                    kind: DebugKind::Exception { kind: ExceptionKind::Breakpoint, address },
                },
            ),
            origin,
            0x0001_0002,
            t,
        ),
        runs_on(
            trace_next(t, EventOf::Debug { origin, kind: DebugKind::Other }),
            origin,
            0x0001_0002,
            t,
        ),
        runs_on(
            trace_next(
                t,
                EventOf::Debug {
                    origin,
                    kind: DebugKind::Exception { kind: ExceptionKind::Other, address },
                },
            ),
            origin,
            0x8001_0001,
            t,
        ),
{
}

/// A thread that has stopped after one instruction has the breakpoint put back;
/// the handle of the thread that was let go for it is closed, and the thread runs
/// on.
pub proof fn law_rearming(t: TraceView, origin: Origin, address: usize)
    requires
        t.phase is Poll,
        !t.stop,
    ensures
        ({
            let t1 = trace_next(
                t,
                EventOf::Debug {
                    origin,
                    kind: DebugKind::Exception { kind: ExceptionKind::SingleStep, address },
                },
            );
            let t2 = trace_next(t1, EventOf::Written(1));
            let waiting = TraceOf { last_thread: None, ..t };
            &&& trace_action(t1) == (ActionView::Write { addr: t.target, byte: 0xcc })
            &&& t.last_thread is None ==> runs_on(t2, origin, 0x0001_0002, waiting)
            &&& t.last_thread matches Some((_, handle)) ==> {
                &&& trace_action(t2) == ActionView::CloseThread(handle)
                &&& runs_on(trace_next(t2, EventOf::Done), origin, 0x0001_0002, waiting)
            }
        }),
{
}

/// The address that the stack pointer of a thread holds.
pub open spec fn stack_pointer(c: Seq<u8>) -> nat {
    le_value(c.subrange(0x98, 0xa0))
}

/// The address of the instruction that a thread which stopped behind it ran.
pub open spec fn stopped_at(c: Seq<u8>) -> int {
    let rip = le_value(c.subrange(0xf8, 0x100));
    if rip == 0 {
        0
    } else {
        rip - 1
    }
}

proof fn lemma_moved_back(c: Seq<u8>, n: u64, tid: u32, rip: u64, ret: u64)
    requires
        c.len() == 1232,
    ensures
        moved_back(c).len() == 1232,
        field_u64(moved_back(c), 0x98) == stack_pointer(c),
        field_u64(moved_back(c), 0xf8) == stopped_at(c),
        hit_report(n, tid, rip, ret, moved_back(c)) == hit_report(n, tid, rip, ret, c),
{
    let b = moved_back(c);
    law_fields_are_exact(c, 0xf8);
    let rip1 = field_u64(c, 0xf8).saturating_sub(1);
    law_read_back_u64(c, 0xf8, rip1);
    law_writes_are_local(c, 0xf8, rip1 as nat, 8, 0x80, 0x88);
    law_writes_are_local(c, 0xf8, rip1 as nat, 8, 0x88, 0x90);
    law_writes_are_local(c, 0xf8, rip1 as nat, 8, 0x98, 0xa0);
    law_writes_are_local(c, 0xf8, rip1 as nat, 8, 0xb8, 0xc0);
    law_writes_are_local(c, 0xf8, rip1 as nat, 8, 0xc0, 0xc8);
    law_fields_are_exact(c, 0x98);
    law_fields_are_exact(b, 0x98);
}

/// The course of a hit: the thread is opened and its registers read, then the
/// return address on top of its stack; the hit is counted and shown, at the
/// breakpoint itself. A return address that cannot be read is shown as zero.
pub proof fn law_hits_are_reported(
    t: TraceView,
    origin: Origin,
    thread: usize,
    c: Seq<u8>,
    reply: EventView,
    i: int,
)
    requires
        t.phase is Poll,
        c.len() == 1232,
        stack_pointer(c) <= usize::MAX,
        reply is Failed || (reply matches EventOf::Read { count, bytes } && bytes.len() == 8),
    ensures
        ({
            let t1 = trace_next(
                t,
                EventOf::Debug {
                    origin,
                    kind: DebugKind::Exception {
                        kind: ExceptionKind::Breakpoint,
                        address: t.target,
                    },
                },
            );
            let t2 = trace_next(t1, EventOf::Thread(thread));
            let t3 = trace_next(t2, EventOf::Context(c));
            let t4 = trace_next(t3, reply);
            let t5 = trace_next(t4, EventOf::Done);
            let ret = match reply {
                EventOf::Read { count, bytes } => if count == 8 {
                    le_value(bytes)
                } else {
                    0
                },
                _ => 0,
            };
            &&& trace_action(t1) == ActionView::OpenThread(origin.thread_id)
            &&& t2 == (TraceOf {
                hits: t1.hits,
                phase: TracePhase::GetContext { origin, thread },
                ..t
            })
            &&& trace_action(t2) matches ActionView::GetContext { thread: h, ctx } && h == thread
                && ctx.len() == 1232 && le_value(ctx.subrange(0x30, 0x34)) == 0x0010_000b && (0 <= i
                < 1232 && !(0x30 <= i < 0x34) ==> ctx[i] == 0)
            &&& trace_action(t3) == (ActionView::Read { addr: stack_pointer(c) as usize, len: 8 })
            &&& t1.hits as int == (t.hits + 1) % 0x1_0000_0000_0000_0000
            &&& trace_action(t4) == ActionView::Print(
                hit_report(t1.hits, origin.thread_id, stopped_at(c) as u64, ret as u64, c),
            )
            &&& t5 == (TraceOf { hits: t1.hits, phase: t5.phase, ..t })
            &&& t.stack_words == 0 ==> trace_action(t5) == (ActionView::Write {
                addr: t.target,
                byte: t.original,
            })
            &&& t.stack_words > 0 ==> trace_action(t5) == (ActionView::Read {
                addr: stack_pointer(c) as usize,
                len: ((8 * t.stack_words) % (usize::MAX + 1)) as usize,
            })
        }),
{
    law_fresh_context(0x0010_000b, i);
    law_fields_are_exact(fresh(0x0010_000b), 0x30);
    lemma_moved_back(c, 0, 0, 0, 0);
    if let EventOf::Read { count, bytes } = reply {
        law_fields_are_exact(bytes, 0);
        assert(bytes.subrange(0, 8) =~= bytes);
        lemma_moved_back(
            c,
            t.hits.wrapping_add(1),
            origin.thread_id,
            stopped_at(c) as u64,
            le_value(bytes) as u64,
        );
    }
    lemma_moved_back(c, t.hits.wrapping_add(1), origin.thread_id, stopped_at(c) as u64, 0);
}

/// The course of a hit, if words of the stack are to be shown: as many whole
/// words as were read are shown; a stack that cannot be read is passed over.
/// Either way the original byte is given back next.
pub proof fn law_stacks_are_shown(t: TraceView, count: usize, bytes: Seq<u8>, m: Seq<char>)
    requires
        t.phase is ReadStack,
    ensures
        ({
            let shows = trace_next(t, EventOf::Read { count, bytes });
            let passes = trace_next(t, EventOf::Failed(m));
            let goes_on = trace_next(shows, EventOf::Done);
            &&& trace_action(shows) == ActionView::Print(stack_report(bytes, count))
            &&& trace_action(passes) == (ActionView::Write { addr: t.target, byte: t.original })
            &&& goes_on == passes
        }),
{
}

/// The handles and the registers that a trace deals with stay those of the hit
/// up to the moment when the original byte is given back.
pub proof fn law_registers_are_carried(
    t: TraceView,
    origin: Origin,
    thread: usize,
    c: Seq<u8>,
    reply: EventView,
    stack: EventView,
)
    requires
        t.phase == (PhaseView::GetContext { origin, thread }),
        c.len() == 1232,
        stack is Failed || stack is Read,
    ensures
        ({
            let t3 = trace_next(t, EventOf::Context(c));
            let t5 = trace_next(trace_next(t3, reply), EventOf::Done);
            let t6 = if t.stack_words == 0 {
                t5
            } else if stack is Failed {
                trace_next(t5, stack)
            } else {
                trace_next(trace_next(t5, stack), EventOf::Done)
            };
            let t7 = trace_next(t6, EventOf::Written(1));
            &&& trace_action(t6) == (ActionView::Write { addr: t.target, byte: t.original })
            &&& trace_action(t7) matches ActionView::SetContext { thread: h, ctx } && h == thread
                && steps_back_and_traps(c, ctx)
            &&& t7 == (TraceOf { phase: t7.phase, ..t })
            &&& t7.phase matches TracePhase::SetContext { origin: o, .. } && o == origin
        }),
{
    lemma_steps_back_and_traps(c);
}

/// The course of a hit, once the registers of its thread are set: the handle of
/// an earlier thread that never stopped again is closed, and the thread runs on.
/// If that was the last hit asked for, this is told first, and the trace ends
/// well; otherwise it waits again, with the handle of this thread kept.
pub proof fn law_hits_are_left(
    t: TraceView,
    origin: Origin,
    thread: usize,
    ctx: Seq<u8>,
    restored: EventView,
    detached: EventView,
    n: Seq<char>,
)
    requires
        t.phase == (PhaseView::SetContext { origin, thread, ctx }),
        !t.stop,
        short_numeral(n, 10, t.hits as nat),
    ensures
        ({
            let t1 = trace_next(t, EventOf::Done);
            let t2 = if t.last_thread is Some {
                trace_next(t1, EventOf::Done)
            } else {
                t1
            };
            let waiting = TraceOf {
                last_thread: Some((origin.thread_id, thread)),
                phase: TracePhase::Poll,
                ..t
            };
            let enough = t.max_hits is Some && t.max_hits->0 <= t.hits;
            &&& t.last_thread matches Some((_, stale)) ==> trace_action(t1)
                == ActionView::CloseThread(stale)
            &&& !enough ==> runs_on(t2, origin, 0x0001_0002, waiting)
            &&& enough ==> {
                let t3 = trace_next(t2, EventOf::Done);
                let t4 = trace_next(t3, EventOf::Done);
                &&& trace_action(t2) == ActionView::Eprint("max-hits reached, detaching"@)
                &&& trace_action(t3) == (ActionView::Continue { origin, status: 0x0001_0002 })
                &&& finishes(t4, t.target, t.original, restored, detached, n)
            }
        }),
{
    lemma_written(t.hits, n, n, n);
}

} // verus!
