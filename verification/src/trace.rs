//! Tracing the calls of a function by a breakpoint on its first byte.
//!
//! The byte is replaced by a breakpoint instruction. A thread that runs into it
//! is reported, gets the original byte back and is let go for one instruction;
//! then the breakpoint is put back.

use crate::context::{
    field_u32, field_u64, fresh, le_bytes, overwritten, Ctx, CONTEXT_FULL, CTX_SIZE, OFF_EFLAGS,
    OFF_RIP, OFF_RSP,
};
use crate::memory::{byte_read, byte_written, read_byte, slot_addr, slot_address, write_byte};
use crate::report::{
    attached_report, done_report, hit_report, resolved_report, stack_report, write_attached,
    write_done, write_hit, write_resolved, write_stack,
};
use crate::session::{
    answers_read, copy_outcome, numbered_failure, open_failure, qword_reply, take_qword, Access,
    Action, ActionOf, ActionView, DebugKind, Event, EventOf, EventView, ExceptionKind, Origin,
    DBG_CONTINUE, DBG_EXCEPTION_NOT_HANDLED,
};
use crate::text::{decimal, shown};
use vstd::prelude::*;

verus! {

/// The breakpoint instruction.
pub const INT3: u8 = 0xcc;

/// The processor flag that stops a thread after one instruction.
pub const TRAP_FLAG: u32 = 0x100;

/// How far a trace has come.
#[derive(Debug, PartialEq, Eq)]
pub enum TracePhase<S, C> {
    OpenForResolve { obj: usize, slot: usize },
    ReadVtable { obj: usize, slot: usize },
    ReadEntry { obj: usize, slot: usize, vtable: u64 },
    ShowResolved { obj: usize, slot: usize },
    CloseResolve,
    Install,
    Open,
    ReadOriginal,
    Plant,
    Attach,
    ShowAttached,
    Poll,
    OpenThread { origin: Origin },
    GetContext { origin: Origin, thread: usize },
    ReadReturn { origin: Origin, thread: usize, ctx: C },
    ShowHit { origin: Origin, thread: usize, ctx: C, ret: u64 },
    ReadStack { origin: Origin, thread: usize, ctx: C },
    ShowStack { origin: Origin, thread: usize, ctx: C, line: S },
    Disarm { origin: Origin, thread: usize, ctx: C },
    SetContext { origin: Origin, thread: usize, ctx: C },
    CloseStale { origin: Origin, stale: usize },
    ShowLimit { origin: Origin },
    Rearm { origin: Origin },
    CloseStepped { origin: Origin, thread: usize },
    Resume { origin: Origin, status: u32 },
    ShowExited,
    Restore { outcome: Result<(), S> },
    Detach { outcome: Result<(), S> },
    ShowDone,
    Close { outcome: Result<(), S> },
    Finished { outcome: Result<(), S> },
}

/// A trace of the function at `target`.
#[derive(Debug, PartialEq, Eq)]
pub struct TraceOf<S, C> {
    pub pid: u32,
    /// How many words of the stack each report shows.
    pub stack_words: usize,
    /// After how many hits to stop.
    pub max_hits: Option<u64>,
    /// Where the breakpoint goes, once it is known.
    pub target: usize,
    /// The byte that the breakpoint replaces, once it was read.
    pub original: u8,
    pub hits: u64,
    /// The thread that was let go for one instruction, and its open handle.
    pub last_thread: Option<(u32, usize)>,
    /// Whether enough hits were seen.
    pub stop: bool,
    pub phase: TracePhase<S, C>,
}

pub type Trace = TraceOf<String, Ctx>;

pub type TraceView = TraceOf<Seq<char>, Seq<u8>>;

pub type PhaseView = TracePhase<Seq<char>, Seq<u8>>;

impl View for TracePhase<String, Ctx> {
    type V = PhaseView;

    open spec fn view(&self) -> PhaseView {
        match *self {
            TracePhase::OpenForResolve { obj, slot } => TracePhase::OpenForResolve { obj, slot },
            TracePhase::ReadVtable { obj, slot } => TracePhase::ReadVtable { obj, slot },
            TracePhase::ReadEntry { obj, slot, vtable } => TracePhase::ReadEntry {
                obj,
                slot,
                vtable,
            },
            TracePhase::ShowResolved { obj, slot } => TracePhase::ShowResolved { obj, slot },
            TracePhase::CloseResolve => TracePhase::CloseResolve,
            TracePhase::Install => TracePhase::Install,
            TracePhase::Open => TracePhase::Open,
            TracePhase::ReadOriginal => TracePhase::ReadOriginal,
            TracePhase::Plant => TracePhase::Plant,
            TracePhase::Attach => TracePhase::Attach,
            TracePhase::ShowAttached => TracePhase::ShowAttached,
            TracePhase::Poll => TracePhase::Poll,
            TracePhase::OpenThread { origin } => TracePhase::OpenThread { origin },
            TracePhase::GetContext { origin, thread } => TracePhase::GetContext { origin, thread },
            TracePhase::ReadReturn { origin, thread, ctx } => TracePhase::ReadReturn {
                origin,
                thread,
                ctx: ctx@,
            },
            TracePhase::ShowHit { origin, thread, ctx, ret } => TracePhase::ShowHit {
                origin,
                thread,
                ctx: ctx@,
                ret,
            },
            TracePhase::ReadStack { origin, thread, ctx } => TracePhase::ReadStack {
                origin,
                thread,
                ctx: ctx@,
            },
            TracePhase::ShowStack { origin, thread, ctx, line } => TracePhase::ShowStack {
                origin,
                thread,
                ctx: ctx@,
                line: line@,
            },
            TracePhase::Disarm { origin, thread, ctx } => TracePhase::Disarm {
                origin,
                thread,
                ctx: ctx@,
            },
            TracePhase::SetContext { origin, thread, ctx } => TracePhase::SetContext {
                origin,
                thread,
                ctx: ctx@,
            },
            TracePhase::CloseStale { origin, stale } => TracePhase::CloseStale { origin, stale },
            TracePhase::ShowLimit { origin } => TracePhase::ShowLimit { origin },
            TracePhase::Rearm { origin } => TracePhase::Rearm { origin },
            TracePhase::CloseStepped { origin, thread } => TracePhase::CloseStepped {
                origin,
                thread,
            },
            TracePhase::Resume { origin, status } => TracePhase::Resume { origin, status },
            TracePhase::ShowExited => TracePhase::ShowExited,
            TracePhase::Restore { outcome } => TracePhase::Restore { outcome: shown(outcome) },
            TracePhase::Detach { outcome } => TracePhase::Detach { outcome: shown(outcome) },
            TracePhase::ShowDone => TracePhase::ShowDone,
            TracePhase::Close { outcome } => TracePhase::Close { outcome: shown(outcome) },
            TracePhase::Finished { outcome } => TracePhase::Finished { outcome: shown(outcome) },
        }
    }
}

impl View for TraceOf<String, Ctx> {
    type V = TraceView;

    open spec fn view(&self) -> TraceView {
        TraceOf {
            pid: self.pid,
            stack_words: self.stack_words,
            max_hits: self.max_hits,
            target: self.target,
            original: self.original,
            hits: self.hits,
            last_thread: self.last_thread,
            stop: self.stop,
            phase: self.phase@,
        }
    }
}

/// The message for a trace without a target.
pub open spec fn no_target() -> Seq<char> {
    "trace requires --addr or (--obj + --slot)"@
}

/// A trace that has not begun. Its target is `addr`, or else what slot `slot` of
/// the object at `obj` leads to.
pub open spec fn trace_start(
    pid: u32,
    obj: Option<usize>,
    slot: Option<usize>,
    addr: Option<usize>,
    stack_words: usize,
    max_hits: Option<u64>,
) -> TraceView {
    TraceOf {
        pid,
        stack_words,
        max_hits,
        target: match addr {
            Some(a) => a,
            None => 0,
        },
        original: 0,
        hits: 0,
        last_thread: None,
        stop: false,
        phase: match (addr, obj, slot) {
            (Some(_), _, _) => TracePhase::Install,
            (None, Some(o), Some(s)) => TracePhase::OpenForResolve { obj: o, slot: s },
            _ => TracePhase::Finished { outcome: Err(no_target()) },
        },
    }
}

/// How many bytes of the stack a report reads, in the arithmetic of machine
/// words.
pub open spec fn stack_bytes(words: usize) -> usize {
    words.wrapping_mul(8)
}

/// What a trace does in a state.
pub open spec fn trace_action(t: TraceView) -> ActionView {
    match t.phase {
        TracePhase::OpenForResolve { .. } => ActionOf::OpenProcess(Access::Inspect),
        TracePhase::ReadVtable { obj, .. } => ActionOf::Read { addr: obj, len: 8 },
        TracePhase::ReadEntry { slot, vtable, .. } => ActionOf::Read {
            addr: slot_addr(vtable, slot),
            len: 8,
        },
        TracePhase::ShowResolved { obj, slot } => ActionOf::Eprint(
            resolved_report(obj, slot, t.target),
        ),
        TracePhase::CloseResolve => ActionOf::CloseProcess,
        TracePhase::Install => ActionOf::InstallHandler,
        TracePhase::Open => ActionOf::OpenProcess(Access::Trace),
        TracePhase::ReadOriginal => ActionOf::Read { addr: t.target, len: 1 },
        TracePhase::Plant => ActionOf::Write { addr: t.target, byte: INT3 },
        TracePhase::Attach => ActionOf::Attach,
        TracePhase::ShowAttached => ActionOf::Eprint(attached_report(t.pid, t.target)),
        TracePhase::Poll => ActionOf::Poll,
        TracePhase::OpenThread { origin } => ActionOf::OpenThread(origin.thread_id),
        TracePhase::GetContext { thread, .. } => ActionOf::GetContext {
            thread,
            ctx: fresh(CONTEXT_FULL),
        },
        TracePhase::ReadReturn { ctx, .. } => ActionOf::Read {
            addr: field_u64(ctx, OFF_RSP as int) as usize,
            len: 8,
        },
        TracePhase::ShowHit { origin, ctx, ret, .. } => ActionOf::Print(
            hit_report(t.hits, origin.thread_id, field_u64(ctx, OFF_RIP as int), ret, ctx),
        ),
        TracePhase::ReadStack { ctx, .. } => ActionOf::Read {
            addr: field_u64(ctx, OFF_RSP as int) as usize,
            len: stack_bytes(t.stack_words),
        },
        TracePhase::ShowStack { line, .. } => ActionOf::Print(line),
        TracePhase::Disarm { .. } => ActionOf::Write { addr: t.target, byte: t.original },
        TracePhase::SetContext { thread, ctx, .. } => ActionOf::SetContext { thread, ctx },
        TracePhase::CloseStale { stale, .. } => ActionOf::CloseThread(stale),
        TracePhase::ShowLimit { .. } => ActionOf::Eprint("max-hits reached, detaching"@),
        TracePhase::Rearm { .. } => ActionOf::Write { addr: t.target, byte: INT3 },
        TracePhase::CloseStepped { thread, .. } => ActionOf::CloseThread(thread),
        TracePhase::Resume { origin, status } => ActionOf::Continue { origin, status },
        TracePhase::ShowExited => ActionOf::Eprint("target exited"@),
        TracePhase::Restore { .. } => ActionOf::Write { addr: t.target, byte: t.original },
        TracePhase::Detach { .. } => ActionOf::Detach,
        TracePhase::ShowDone => ActionOf::Eprint(done_report(t.hits)),
        TracePhase::Close { .. } => ActionOf::CloseProcess,
        TracePhase::Finished { outcome } => ActionOf::Return(outcome),
    }
}

/// Whether `e` answers what a trace does in a state.
pub open spec fn trace_accepts(t: TraceView, e: EventView) -> bool {
    match t.phase {
        TracePhase::OpenForResolve { .. }
        | TracePhase::Install
        | TracePhase::Open
        | TracePhase::Attach
        | TracePhase::SetContext { .. }
        | TracePhase::Resume { .. }
        | TracePhase::Detach { .. } => e is Done || e is Failed,
        TracePhase::ReadVtable { .. }
        | TracePhase::ReadEntry { .. }
        | TracePhase::ReadReturn { .. } => answers_read(e, 8),
        TracePhase::ReadOriginal => answers_read(e, 1),
        TracePhase::ReadStack { .. } => {
            &&& answers_read(e, stack_bytes(t.stack_words))
            &&& e matches EventOf::Read { count, bytes } ==> count <= bytes.len()
        },
        TracePhase::Plant
        | TracePhase::Disarm { .. }
        | TracePhase::Rearm { .. }
        | TracePhase::Restore { .. } => e is Written || e is Failed,
        TracePhase::Poll => e is Interrupted || e is Idle || e is Debug,
        TracePhase::OpenThread { .. } => e is Thread || e is Failed,
        TracePhase::GetContext { .. } => {
            ||| e is Failed
            ||| e matches EventOf::Context(ctx) && ctx.len() == CTX_SIZE
        },
        TracePhase::ShowResolved { .. }
        | TracePhase::CloseResolve
        | TracePhase::ShowAttached
        | TracePhase::ShowHit { .. }
        | TracePhase::ShowStack { .. }
        | TracePhase::CloseStale { .. }
        | TracePhase::ShowLimit { .. }
        | TracePhase::CloseStepped { .. }
        | TracePhase::ShowExited
        | TracePhase::ShowDone
        | TracePhase::Close { .. } => e is Done,
        TracePhase::Finished { .. } => false,
    }
}

/// The registers of a thread that ran into the breakpoint, moved back onto it.
pub open spec fn moved_back(ctx: Seq<u8>) -> Seq<u8> {
    overwritten(
        ctx,
        OFF_RIP as int,
        le_bytes(field_u64(ctx, OFF_RIP as int).saturating_sub(1) as nat, 8),
    )
}

/// The registers of a thread that is to stop after one instruction.
pub open spec fn single_stepped(ctx: Seq<u8>) -> Seq<u8> {
    overwritten(
        ctx,
        OFF_EFLAGS as int,
        le_bytes((field_u32(ctx, OFF_EFLAGS as int) | TRAP_FLAG) as nat, 4),
    )
}

/// What a reply to reading the byte at `addr` comes to.
pub open spec fn byte_reply(addr: usize, e: EventView) -> Result<u8, Seq<char>> {
    match e {
        EventOf::Read { count, bytes } => byte_read(addr, Ok(count), bytes[0]),
        EventOf::Failed(m) => byte_read(addr, Err(m), 0),
        _ => arbitrary(),
    }
}

/// What a reply to writing the byte at `addr` comes to.
pub open spec fn write_reply(addr: usize, e: EventView) -> Result<(), Seq<char>> {
    match e {
        EventOf::Written(n) => byte_written(addr, Ok(n)),
        EventOf::Failed(m) => byte_written(addr, Err(m)),
        _ => arbitrary(),
    }
}

/// The same trace in another phase.
pub open spec fn to(t: TraceView, phase: PhaseView) -> TraceView {
    TraceOf { phase, ..t }
}

/// Ending a trace before anything was opened.
pub open spec fn fail(t: TraceView, message: Seq<char>) -> TraceView {
    to(t, TracePhase::Finished { outcome: Err(message) })
}

/// Ending a trace that has the target open.
pub open spec fn fail_open(t: TraceView, message: Seq<char>) -> TraceView {
    to(t, TracePhase::Close { outcome: Err(message) })
}

/// Ending a trace that debugs the target.
pub open spec fn fail_attached(t: TraceView, message: Seq<char>) -> TraceView {
    to(t, TracePhase::Restore { outcome: Err(message) })
}

/// Letting the target run on.
pub open spec fn resume(t: TraceView, origin: Origin, status: u32) -> TraceView {
    to(t, TracePhase::Resume { origin, status })
}

/// Going on after a hit was dealt with.
pub open spec fn after_hit(t: TraceView, origin: Origin) -> TraceView {
    if t.max_hits is Some && t.hits >= t.max_hits->0 {
        TraceOf { stop: true, phase: TracePhase::ShowLimit { origin }, ..t }
    } else {
        resume(t, origin, DBG_CONTINUE)
    }
}

/// Dealing with what the target reports.
pub open spec fn on_debug(t: TraceView, origin: Origin, kind: DebugKind) -> TraceView {
    match kind {
        DebugKind::Exception { kind: ExceptionKind::Breakpoint, address } => if address
            == t.target {
            TraceOf {
                hits: t.hits.wrapping_add(1),
                phase: TracePhase::OpenThread { origin },
                ..t
            }
        } else {
            resume(t, origin, DBG_CONTINUE)
        },
        DebugKind::Exception { kind: ExceptionKind::SingleStep, .. } => to(
            t,
            TracePhase::Rearm { origin },
        ),
        DebugKind::Exception { kind: ExceptionKind::Other, .. } => resume(
            t,
            origin,
            DBG_EXCEPTION_NOT_HANDLED,
        ),
        DebugKind::ExitProcess => to(t, TracePhase::ShowExited),
        DebugKind::Other => resume(t, origin, DBG_CONTINUE),
    }
}

/// The state that a reply leads to, up to the first wait for an event.
pub open spec fn setup_next(t: TraceView, e: EventView) -> TraceView {
    match t.phase {
        TracePhase::OpenForResolve { obj, slot } => match e {
            EventOf::Failed(m) => fail(
                t,
                "OpenProcess for resolve("@ + decimal(t.pid as nat) + "): "@ + m,
            ),
            _ => to(t, TracePhase::ReadVtable { obj, slot }),
        },
        TracePhase::ReadVtable { obj, slot } => match qword_reply(obj, e) {
            Ok(vtable) => to(t, TracePhase::ReadEntry { obj, slot, vtable }),
            Err(m) => fail_open(t, m),
        },
        TracePhase::ReadEntry { obj, slot, vtable } => match qword_reply(
            slot_addr(vtable, slot),
            e,
        ) {
            Ok(entry) => TraceOf {
                target: entry as usize,
                phase: TracePhase::ShowResolved { obj, slot },
                ..t
            },
            Err(m) => fail_open(t, m),
        },
        TracePhase::ShowResolved { .. } => to(t, TracePhase::CloseResolve),
        TracePhase::CloseResolve => to(t, TracePhase::Install),
        TracePhase::Install => match e {
            EventOf::Failed(m) => fail(t, "SetConsoleCtrlHandler: "@ + m),
            _ => to(t, TracePhase::Open),
        },
        TracePhase::Open => match e {
            EventOf::Failed(m) => fail(t, open_failure(t.pid, m)),
            _ => to(t, TracePhase::ReadOriginal),
        },
        TracePhase::ReadOriginal => match byte_reply(t.target, e) {
            Ok(byte) => TraceOf { original: byte, phase: TracePhase::Plant, ..t },
            Err(m) => fail_open(t, m),
        },
        TracePhase::Plant => match write_reply(t.target, e) {
            Ok(_) => to(t, TracePhase::Attach),
            Err(m) => fail_open(t, m),
        },
        TracePhase::Attach => match e {
            EventOf::Failed(m) => fail_open(
                t,
                "DebugActiveProcess("@ + decimal(t.pid as nat) + "): "@ + m,
            ),
            _ => to(t, TracePhase::ShowAttached),
        },
        TracePhase::ShowAttached => to(t, TracePhase::Poll),
        _ => t,
    }
}

/// The state that a reply leads to while a hit is dealt with.
pub open spec fn hit_next(t: TraceView, e: EventView) -> TraceView {
    match t.phase {
        TracePhase::OpenThread { origin } => match e {
            EventOf::Thread(thread) => to(t, TracePhase::GetContext { origin, thread }),
            EventOf::Failed(m) => fail_attached(
                t,
                "OpenThread("@ + decimal(origin.thread_id as nat) + "): "@ + m,
            ),
            _ => t,
        },
        TracePhase::GetContext { origin, thread } => match e {
            EventOf::Context(ctx) => to(
                t,
                TracePhase::ReadReturn { origin, thread, ctx: moved_back(ctx) },
            ),
            _ => fail_attached(t, "GetThreadContext failed"@),
        },
        TracePhase::ReadReturn { origin, thread, ctx } => to(
            t,
            TracePhase::ShowHit {
                origin,
                thread,
                ctx,
                ret: match qword_reply(field_u64(ctx, OFF_RSP as int) as usize, e) {
                    Ok(ret) => ret,
                    Err(_) => 0,
                },
            },
        ),
        TracePhase::ShowHit { origin, thread, ctx, .. } => if t.stack_words > 0 {
            to(t, TracePhase::ReadStack { origin, thread, ctx })
        } else {
            to(t, TracePhase::Disarm { origin, thread, ctx })
        },
        TracePhase::ReadStack { origin, thread, ctx } => match e {
            EventOf::Read { count, bytes } => to(
                t,
                TracePhase::ShowStack { origin, thread, ctx, line: stack_report(bytes, count) },
            ),
            _ => to(t, TracePhase::Disarm { origin, thread, ctx }),
        },
        TracePhase::ShowStack { origin, thread, ctx, .. } => to(
            t,
            TracePhase::Disarm { origin, thread, ctx },
        ),
        TracePhase::Disarm { origin, thread, ctx } => match write_reply(t.target, e) {
            Ok(_) => to(
                t,
                TracePhase::SetContext { origin, thread, ctx: single_stepped(ctx) },
            ),
            Err(m) => fail_attached(t, m),
        },
        TracePhase::SetContext { origin, thread, .. } => match e {
            EventOf::Failed(_) => fail_attached(t, "SetThreadContext failed"@),
            _ => {
                let kept = TraceOf { last_thread: Some((origin.thread_id, thread)), ..t };
                match t.last_thread {
                    Some((_, stale)) => to(kept, TracePhase::CloseStale { origin, stale }),
                    None => after_hit(kept, origin),
                }
            },
        },
        TracePhase::CloseStale { origin, .. } => after_hit(t, origin),
        TracePhase::ShowLimit { origin } => resume(t, origin, DBG_CONTINUE),
        _ => t,
    }
}

/// The state that a reply leads to.
pub open spec fn trace_next(t: TraceView, e: EventView) -> TraceView {
    match t.phase {
        TracePhase::Poll => match e {
            EventOf::Interrupted => to(t, TracePhase::Restore { outcome: Ok(()) }),
            EventOf::Debug { origin, kind } => on_debug(t, origin, kind),
            _ => t,
        },
        TracePhase::Rearm { origin } => match write_reply(t.target, e) {
            Ok(_) => match t.last_thread {
                Some((_, thread)) => TraceOf {
                    last_thread: None,
                    phase: TracePhase::CloseStepped { origin, thread },
                    ..t
                },
                None => resume(t, origin, DBG_CONTINUE),
            },
            Err(m) => fail_attached(t, m),
        },
        TracePhase::CloseStepped { origin, .. } => resume(t, origin, DBG_CONTINUE),
        TracePhase::Resume { .. } => match e {
            EventOf::Failed(m) => fail_attached(t, "ContinueDebugEvent: "@ + m),
            _ => if t.stop {
                to(t, TracePhase::Restore { outcome: Ok(()) })
            } else {
                to(t, TracePhase::Poll)
            },
        },
        TracePhase::ShowExited => to(t, TracePhase::Restore { outcome: Ok(()) }),
        TracePhase::Restore { outcome } => to(t, TracePhase::Detach { outcome }),
        TracePhase::Detach { outcome } => match outcome {
            Ok(_) => to(t, TracePhase::ShowDone),
            Err(_) => to(t, TracePhase::Close { outcome }),
        },
        TracePhase::ShowDone => to(t, TracePhase::Close { outcome: Ok(()) }),
        TracePhase::Close { outcome } => to(t, TracePhase::Finished { outcome }),
        TracePhase::OpenThread { .. }
        | TracePhase::GetContext { .. }
        | TracePhase::ReadReturn { .. }
        | TracePhase::ShowHit { .. }
        | TracePhase::ReadStack { .. }
        | TracePhase::ShowStack { .. }
        | TracePhase::Disarm { .. }
        | TracePhase::SetContext { .. }
        | TracePhase::CloseStale { .. }
        | TracePhase::ShowLimit { .. } => hit_next(t, e),
        _ => setup_next(t, e),
    }
}

fn move_back(ctx: Ctx) -> (c: Ctx)
    ensures
        c@ == moved_back(ctx@),
{
    let mut c: Ctx = ctx;
    let rip: u64 = c.rip();
    c.set_rip(rip.saturating_sub(1));
    c
}

fn set_trap(ctx: Ctx) -> (c: Ctx)
    ensures
        c@ == single_stepped(ctx@),
{
    let mut c: Ctx = ctx;
    let flags: u32 = c.eflags();
    c.set_eflags(flags | TRAP_FLAG);
    c
}

fn take_byte(addr: usize, e: Event) -> (r: Result<u8, String>)
    requires
        answers_read(e@, 1),
    ensures
        shown(r) == byte_reply(addr, e@),
{
    match e {
        EventOf::Read { count, bytes } => read_byte(addr, &Ok(count), bytes[0]),
        EventOf::Failed(m) => read_byte(addr, &Err(m), 0),
        _ => Ok(0),
    }
}

fn take_written(addr: usize, e: Event) -> (r: Result<(), String>)
    requires
        e@ is Written || e@ is Failed,
    ensures
        shown(r) == write_reply(addr, e@),
{
    match e {
        EventOf::Written(n) => write_byte(addr, &Ok(n)),
        EventOf::Failed(m) => write_byte(addr, &Err(m)),
        _ => Ok(()),
    }
}

fn message(head: &str, e: &str) -> (t: String)
    ensures
        t@ == head@ + e@,
{
    let mut t: String = String::from_str(head);
    t.append(e);
    t
}

impl TraceOf<String, Ctx> {
    /// A trace that has not begun.
    pub fn new(
        pid: u32,
        obj: Option<usize>,
        slot: Option<usize>,
        addr: Option<usize>,
        stack_words: usize,
        max_hits: Option<u64>,
    ) -> (t: Trace)
        ensures
            t@ == trace_start(pid, obj, slot, addr, stack_words, max_hits),
    {
        TraceOf {
            pid,
            stack_words,
            max_hits,
            target: match addr {
                Some(a) => a,
                None => 0,
            },
            original: 0,
            hits: 0,
            last_thread: None,
            stop: false,
            phase: match (addr, obj, slot) {
                (Some(_), _, _) => TracePhase::Install,
                (None, Some(o), Some(s)) => TracePhase::OpenForResolve { obj: o, slot: s },
                _ => TracePhase::Finished {
                    outcome: Err(String::from_str("trace requires --addr or (--obj + --slot)")),
                },
            },
        }
    }

    /// What to do next.
    pub fn action(&self) -> (a: Action)
        ensures
            a@ == trace_action(self@),
    {
        match &self.phase {
            TracePhase::OpenForResolve { .. } => ActionOf::OpenProcess(Access::Inspect),
            TracePhase::ReadVtable { obj, .. } => ActionOf::Read { addr: *obj, len: 8 },
            TracePhase::ReadEntry { slot, vtable, .. } => ActionOf::Read {
                addr: slot_address(*vtable, *slot),
                len: 8,
            },
            TracePhase::ShowResolved { obj, slot } => ActionOf::Eprint(
                write_resolved(*obj, *slot, self.target),
            ),
            TracePhase::CloseResolve => ActionOf::CloseProcess,
            TracePhase::Install => ActionOf::InstallHandler,
            TracePhase::Open => ActionOf::OpenProcess(Access::Trace),
            TracePhase::ReadOriginal => ActionOf::Read { addr: self.target, len: 1 },
            TracePhase::Plant => ActionOf::Write { addr: self.target, byte: INT3 },
            TracePhase::Attach => ActionOf::Attach,
            TracePhase::ShowAttached => ActionOf::Eprint(write_attached(self.pid, self.target)),
            TracePhase::Poll => ActionOf::Poll,
            TracePhase::OpenThread { origin } => ActionOf::OpenThread(origin.thread_id),
            TracePhase::GetContext { thread, .. } => ActionOf::GetContext {
                thread: *thread,
                ctx: Ctx::new(CONTEXT_FULL),
            },
            TracePhase::ReadReturn { ctx, .. } => ActionOf::Read {
                addr: ctx.rsp() as usize,
                len: 8,
            },
            TracePhase::ShowHit { origin, ctx, ret, .. } => ActionOf::Print(
                write_hit(self.hits, origin.thread_id, ctx.rip(), *ret, ctx),
            ),
            TracePhase::ReadStack { ctx, .. } => ActionOf::Read {
                addr: ctx.rsp() as usize,
                len: self.stack_words.wrapping_mul(8),
            },
            TracePhase::ShowStack { line, .. } => ActionOf::Print(line.clone()),
            TracePhase::Disarm { .. } => ActionOf::Write {
                addr: self.target,
                byte: self.original,
            },
            TracePhase::SetContext { thread, ctx, .. } => ActionOf::SetContext {
                thread: *thread,
                ctx: Ctx(ctx.0),
            },
            TracePhase::CloseStale { stale, .. } => ActionOf::CloseThread(*stale),
            TracePhase::ShowLimit { .. } => ActionOf::Eprint(
                String::from_str("max-hits reached, detaching"),
            ),
            TracePhase::Rearm { .. } => ActionOf::Write { addr: self.target, byte: INT3 },
            TracePhase::CloseStepped { thread, .. } => ActionOf::CloseThread(*thread),
            TracePhase::Resume { origin, status } => ActionOf::Continue {
                origin: *origin,
                status: *status,
            },
            TracePhase::ShowExited => ActionOf::Eprint(String::from_str("target exited")),
            TracePhase::Restore { .. } => ActionOf::Write {
                addr: self.target,
                byte: self.original,
            },
            TracePhase::Detach { .. } => ActionOf::Detach,
            TracePhase::ShowDone => ActionOf::Eprint(write_done(self.hits)),
            TracePhase::Close { .. } => ActionOf::CloseProcess,
            TracePhase::Finished { outcome } => ActionOf::Return(copy_outcome(outcome)),
        }
    }

    /// Whether `e` answers what was to be done.
    pub fn accepts(&self, e: &Event) -> (b: bool)
        ensures
            b == trace_accepts(self@, e@),
    {
        let done: bool = matches!(e, EventOf::Done);
        let failed: bool = matches!(e, EventOf::Failed(_));
        let written: bool = matches!(e, EventOf::Written(_));
        let (read, full): (Option<usize>, bool) = match e {
            EventOf::Read { count, bytes } => (Some(bytes.len()), *count <= bytes.len()),
            _ => (None, true),
        };
        match &self.phase {
            TracePhase::OpenForResolve { .. }
            | TracePhase::Install
            | TracePhase::Open
            | TracePhase::Attach
            | TracePhase::SetContext { .. }
            | TracePhase::Resume { .. }
            | TracePhase::Detach { .. } => done || failed,
            TracePhase::ReadVtable { .. }
            | TracePhase::ReadEntry { .. }
            | TracePhase::ReadReturn { .. } => failed || matches!(read, Some(8)),
            TracePhase::ReadOriginal => failed || matches!(read, Some(1)),
            TracePhase::ReadStack { .. } => failed || match read {
                Some(len) => len == self.stack_words.wrapping_mul(8) && full,
                None => false,
            },
            TracePhase::Plant
            | TracePhase::Disarm { .. }
            | TracePhase::Rearm { .. }
            | TracePhase::Restore { .. } => written || failed,
            TracePhase::Poll => matches!(e, EventOf::Interrupted) || matches!(e, EventOf::Idle)
                || matches!(e, EventOf::Debug { .. }),
            TracePhase::OpenThread { .. } => failed || matches!(e, EventOf::Thread(_)),
            TracePhase::GetContext { .. } => failed || matches!(e, EventOf::Context(_)),
            TracePhase::ShowResolved { .. }
            | TracePhase::CloseResolve
            | TracePhase::ShowAttached
            | TracePhase::ShowHit { .. }
            | TracePhase::ShowStack { .. }
            | TracePhase::CloseStale { .. }
            | TracePhase::ShowLimit { .. }
            | TracePhase::CloseStepped { .. }
            | TracePhase::ShowExited
            | TracePhase::ShowDone
            | TracePhase::Close { .. } => done,
            TracePhase::Finished { .. } => false,
        }
    }

    fn go(self, phase: TracePhase<String, Ctx>) -> (t: Trace)
        ensures
            t@ == to(self@, phase@),
    {
        TraceOf { phase, ..self }
    }

    fn go_resume(self, origin: Origin, status: u32) -> (t: Trace)
        ensures
            t@ == resume(self@, origin, status),
    {
        self.go(TracePhase::Resume { origin, status })
    }

    fn go_fail(self, m: String) -> (t: Trace)
        ensures
            t@ == fail(self@, m@),
    {
        self.go(TracePhase::Finished { outcome: Err(m) })
    }

    fn go_fail_open(self, m: String) -> (t: Trace)
        ensures
            t@ == fail_open(self@, m@),
    {
        self.go(TracePhase::Close { outcome: Err(m) })
    }

    fn go_fail_attached(self, m: String) -> (t: Trace)
        ensures
            t@ == fail_attached(self@, m@),
    {
        self.go(TracePhase::Restore { outcome: Err(m) })
    }

    fn go_after_hit(self, origin: Origin) -> (t: Trace)
        ensures
            t@ == after_hit(self@, origin),
    {
        let enough: bool = match self.max_hits {
            Some(max) => self.hits >= max,
            None => false,
        };
        if enough {
            TraceOf { stop: true, phase: TracePhase::ShowLimit { origin }, ..self }
        } else {
            self.go_resume(origin, DBG_CONTINUE)
        }
    }

    fn go_debug(self, origin: Origin, kind: DebugKind) -> (t: Trace)
        ensures
            t@ == on_debug(self@, origin, kind),
    {
        match kind {
            DebugKind::Exception { kind: ExceptionKind::Breakpoint, address } => if address
                == self.target {
                TraceOf {
                    hits: self.hits.wrapping_add(1),
                    phase: TracePhase::OpenThread { origin },
                    ..self
                }
            } else {
                self.go_resume(origin, DBG_CONTINUE)
            },
            DebugKind::Exception { kind: ExceptionKind::SingleStep, .. } => self.go(
                TracePhase::Rearm { origin },
            ),
            DebugKind::Exception { kind: ExceptionKind::Other, .. } => self.go_resume(
                origin,
                DBG_EXCEPTION_NOT_HANDLED,
            ),
            DebugKind::ExitProcess => self.go(TracePhase::ShowExited),
            DebugKind::Other => self.go_resume(origin, DBG_CONTINUE),
        }
    }

    fn advance_setup(self, e: Event) -> (t: Trace)
        requires
            trace_accepts(self@, e@),
        ensures
            t@ == setup_next(self@, e@),
    {
        let target: usize = self.target;
        match self.phase {
            TracePhase::OpenForResolve { obj, slot } => match e {
                EventOf::Failed(m) => {
                    let t: String = numbered_failure(
                        "OpenProcess for resolve(",
                        self.pid,
                        "): ",
                        m.as_str(),
                    );
                    self.go_fail(t)
                },
                _ => self.go(TracePhase::ReadVtable { obj, slot }),
            },
            TracePhase::ReadVtable { obj, slot } => match take_qword(obj, e) {
                Ok(vtable) => self.go(TracePhase::ReadEntry { obj, slot, vtable }),
                Err(m) => self.go_fail_open(m),
            },
            TracePhase::ReadEntry { obj, slot, vtable } => match take_qword(
                slot_address(vtable, slot),
                e,
            ) {
                Ok(entry) => TraceOf {
                    target: entry as usize,
                    phase: TracePhase::ShowResolved { obj, slot },
                    ..self
                },
                Err(m) => self.go_fail_open(m),
            },
            TracePhase::ShowResolved { .. } => self.go(TracePhase::CloseResolve),
            TracePhase::CloseResolve => self.go(TracePhase::Install),
            TracePhase::Install => match e {
                EventOf::Failed(m) => {
                    let t: String = message("SetConsoleCtrlHandler: ", m.as_str());
                    self.go_fail(t)
                },
                _ => self.go(TracePhase::Open),
            },
            TracePhase::Open => match e {
                EventOf::Failed(m) => {
                    let t: String = numbered_failure("OpenProcess(", self.pid, "): ", m.as_str());
                    self.go_fail(t)
                },
                _ => self.go(TracePhase::ReadOriginal),
            },
            TracePhase::ReadOriginal => match take_byte(target, e) {
                Ok(byte) => TraceOf { original: byte, phase: TracePhase::Plant, ..self },
                Err(m) => self.go_fail_open(m),
            },
            TracePhase::Plant => match take_written(target, e) {
                Ok(_) => self.go(TracePhase::Attach),
                Err(m) => self.go_fail_open(m),
            },
            TracePhase::Attach => match e {
                EventOf::Failed(m) => {
                    let t: String = numbered_failure(
                        "DebugActiveProcess(",
                        self.pid,
                        "): ",
                        m.as_str(),
                    );
                    self.go_fail_open(t)
                },
                _ => self.go(TracePhase::ShowAttached),
            },
            TracePhase::ShowAttached => self.go(TracePhase::Poll),
            _ => self,
        }
    }

    fn advance_hit(self, e: Event) -> (t: Trace)
        requires
            trace_accepts(self@, e@),
        ensures
            t@ == hit_next(self@, e@),
    {
        let target: usize = self.target;
        let TraceOf {
            pid,
            stack_words,
            max_hits,
            target: _,
            original,
            hits,
            last_thread,
            stop,
            phase,
        } = self;
        let rest: Trace = TraceOf {
            pid,
            stack_words,
            max_hits,
            target,
            original,
            hits,
            last_thread,
            stop,
            phase: TracePhase::Poll,
        };
        match phase {
            TracePhase::OpenThread { origin } => match e {
                EventOf::Thread(thread) => rest.go(TracePhase::GetContext { origin, thread }),
                EventOf::Failed(m) => {
                    let t: String = numbered_failure(
                        "OpenThread(",
                        origin.thread_id,
                        "): ",
                        m.as_str(),
                    );
                    rest.go_fail_attached(t)
                },
                _ => rest.go(TracePhase::OpenThread { origin }),
            },
            TracePhase::GetContext { origin, thread } => match e {
                EventOf::Context(ctx) => rest.go(
                    TracePhase::ReadReturn { origin, thread, ctx: move_back(ctx) },
                ),
                _ => rest.go_fail_attached(String::from_str("GetThreadContext failed")),
            },
            TracePhase::ReadReturn { origin, thread, ctx } => {
                let ret: u64 = match take_qword(ctx.rsp() as usize, e) {
                    Ok(ret) => ret,
                    Err(_) => 0,
                };
                rest.go(TracePhase::ShowHit { origin, thread, ctx, ret })
            },
            TracePhase::ShowHit { origin, thread, ctx, .. } => if stack_words > 0 {
                rest.go(TracePhase::ReadStack { origin, thread, ctx })
            } else {
                rest.go(TracePhase::Disarm { origin, thread, ctx })
            },
            TracePhase::ReadStack { origin, thread, ctx } => match e {
                EventOf::Read { count, bytes } => {
                    let line: String = write_stack(bytes.as_slice(), count);
                    rest.go(TracePhase::ShowStack { origin, thread, ctx, line })
                },
                _ => rest.go(TracePhase::Disarm { origin, thread, ctx }),
            },
            TracePhase::ShowStack { origin, thread, ctx, .. } => rest.go(
                TracePhase::Disarm { origin, thread, ctx },
            ),
            TracePhase::Disarm { origin, thread, ctx } => match take_written(target, e) {
                Ok(_) => rest.go(TracePhase::SetContext { origin, thread, ctx: set_trap(ctx) }),
                Err(m) => rest.go_fail_attached(m),
            },
            TracePhase::SetContext { origin, thread, .. } => match e {
                EventOf::Failed(_) => rest.go_fail_attached(
                    String::from_str("SetThreadContext failed"),
                ),
                _ => {
                    let kept: Trace = TraceOf {
                        last_thread: Some((origin.thread_id, thread)),
                        ..rest
                    };
                    match last_thread {
                        Some((_, stale)) => kept.go(TracePhase::CloseStale { origin, stale }),
                        None => kept.go_after_hit(origin),
                    }
                },
            },
            TracePhase::CloseStale { origin, .. } => rest.go_after_hit(origin),
            TracePhase::ShowLimit { origin } => rest.go_resume(origin, DBG_CONTINUE),
            phase => rest.go(phase),
        }
    }

    /// The state that a reply leads to.
    pub fn advance(self, e: Event) -> (t: Trace)
        requires
            trace_accepts(self@, e@),
        ensures
            t@ == trace_next(self@, e@),
    {
        let target: usize = self.target;
        match self.phase {
            TracePhase::Poll => match e {
                EventOf::Interrupted => self.go(TracePhase::Restore { outcome: Ok(()) }),
                EventOf::Debug { origin, kind } => self.go_debug(origin, kind),
                _ => self,
            },
            TracePhase::Rearm { origin } => match take_written(target, e) {
                Ok(_) => match self.last_thread {
                    Some((_, thread)) => TraceOf {
                        last_thread: None,
                        phase: TracePhase::CloseStepped { origin, thread },
                        ..self
                    },
                    None => self.go_resume(origin, DBG_CONTINUE),
                },
                Err(m) => self.go_fail_attached(m),
            },
            TracePhase::CloseStepped { origin, .. } => self.go_resume(origin, DBG_CONTINUE),
            TracePhase::Resume { .. } => match e {
                EventOf::Failed(m) => {
                    let t: String = message("ContinueDebugEvent: ", m.as_str());
                    self.go_fail_attached(t)
                },
                _ => if self.stop {
                    self.go(TracePhase::Restore { outcome: Ok(()) })
                } else {
                    self.go(TracePhase::Poll)
                },
            },
            TracePhase::ShowExited => self.go(TracePhase::Restore { outcome: Ok(()) }),
            TracePhase::Restore { outcome } => TraceOf {
                phase: TracePhase::Detach { outcome },
                ..self
            },
            TracePhase::Detach { outcome } => match outcome {
                Ok(_) => TraceOf { phase: TracePhase::ShowDone, ..self },
                Err(m) => TraceOf { phase: TracePhase::Close { outcome: Err(m) }, ..self },
            },
            TracePhase::ShowDone => self.go(TracePhase::Close { outcome: Ok(()) }),
            TracePhase::Close { outcome } => TraceOf {
                phase: TracePhase::Finished { outcome },
                ..self
            },
            TracePhase::OpenThread { .. }
            | TracePhase::GetContext { .. }
            | TracePhase::ReadReturn { .. }
            | TracePhase::ShowHit { .. }
            | TracePhase::ReadStack { .. }
            | TracePhase::ShowStack { .. }
            | TracePhase::Disarm { .. }
            | TracePhase::SetContext { .. }
            | TracePhase::CloseStale { .. }
            | TracePhase::ShowLimit { .. } => self.advance_hit(e),
            _ => self.advance_setup(e),
        }
    }
}

} // verus!
