//! What holds of every trace, from its start to its end, whatever the target
//! does.

use crate::context::{field_u32, field_u64, le_value, CTX_SIZE, OFF_EFLAGS, OFF_RIP};
use crate::context_laws::{
    law_fields_are_exact, law_read_back_u32, law_read_back_u64, law_writes_are_local,
};
use crate::dump::{dump_action, dump_next, DumpPhase, DumpView};
use crate::memory::slot_addr;
use crate::report::slot_row;
use crate::session::{
    qword_reply, Access, ActionOf, ActionView, DebugKind, EventOf, EventView, ExceptionKind,
    Origin,
};
use crate::trace::{
    moved_back, single_stepped, trace_accepts, trace_action, trace_next, trace_start, write_reply,
    PhaseView, TraceOf, TracePhase, TraceView, INT3, TRAP_FLAG,
};
use vstd::multiset::Multiset;
use vstd::prelude::*;

verus! {

/// What a trace works on, as far as its replies tell.
pub struct World {
    /// The memory of the target.
    pub memory: Map<usize, u8>,
    /// The rights with which the target is open.
    pub open: Option<Access>,
    /// Whether the target was ever debugged.
    pub debugged: bool,
    /// Whether the target was let go after that.
    pub let_go: bool,
    /// Whether debugging the target was refused.
    pub refused: bool,
    /// Whether the last write, which gives the original byte back, failed.
    pub unrestored: bool,
    /// The thread handles that are open.
    pub threads: Multiset<usize>,
    /// The thread that was opened last, and its handle.
    pub opened: Option<(u32, usize)>,
    /// The handle of the thread whose registers were read last, and the registers.
    pub registers: Option<(usize, Seq<u8>)>,
    /// The event that was reported and not answered yet.
    pub owed: Option<Origin>,
    /// How often a breakpoint at the target was reported.
    pub hits: nat,
    /// How many hits were shown.
    pub shown: nat,
}

/// A world in which nothing was done yet.
pub open spec fn untouched(memory: Map<usize, u8>) -> World {
    World {
        memory,
        open: None,
        debugged: false,
        let_go: false,
        refused: false,
        unrestored: false,
        threads: Multiset::empty(),
        opened: None,
        registers: None,
        owed: None,
        hits: 0,
        shown: 0,
    }
}

/// Whether a report is a breakpoint at the target.
pub open spec fn is_hit(t: TraceView, kind: DebugKind) -> bool {
    kind == (DebugKind::Exception { kind: ExceptionKind::Breakpoint, address: t.target })
}

/// The world after the action of `t` was answered by `e`.
pub open spec fn after(w: World, t: TraceView, e: EventView) -> World {
    match trace_action(t) {
        ActionOf::OpenProcess(access) => World {
            open: if e is Done { Some(access) } else { w.open },
            ..w
        },
        ActionOf::CloseProcess => World { open: None, ..w },
        ActionOf::Write { addr, byte } => if write_reply(addr, e) is Ok {
            World {
                memory: w.memory.insert(addr, byte),
                unrestored: if t.phase is Restore { false } else { w.unrestored },
                ..w
            }
        } else {
            World { unrestored: if t.phase is Restore { true } else { w.unrestored }, ..w }
        },
        ActionOf::Attach => World {
            debugged: w.debugged || e is Done,
            refused: w.refused || e is Failed,
            ..w
        },
        ActionOf::Detach => World { let_go: true, ..w },
        ActionOf::OpenThread(id) => match e {
            EventOf::Thread(handle) => World {
                threads: w.threads.insert(handle),
                opened: Some((id, handle)),
                ..w
            },
            _ => w,
        },
        ActionOf::GetContext { thread, .. } => match e {
            EventOf::Context(ctx) => World { registers: Some((thread, ctx)), ..w },
            _ => w,
        },
        ActionOf::CloseThread(handle) => World { threads: w.threads.remove(handle), ..w },
        ActionOf::Poll => match e {
            EventOf::Debug { origin, kind } => World {
                owed: Some(origin),
                hits: if is_hit(t, kind) { w.hits + 1 } else { w.hits },
                ..w
            },
            _ => w,
        },
        ActionOf::Continue { origin, .. } => if e is Done && w.owed == Some(origin) {
            World { owed: None, ..w }
        } else {
            w
        },
        ActionOf::Print(_) => World {
            shown: if t.phase is ShowHit { w.shown + 1 } else { w.shown },
            ..w
        },
        _ => w,
    }
}

/// Whether a byte that `e` gives is the byte that stands in the memory.
pub open spec fn honest(w: World, t: TraceView, e: EventView) -> bool {
    match (trace_action(t), e) {
        (ActionOf::Read { addr, len }, EventOf::Read { count, bytes }) => len == 1 && count == 1
            ==> w.memory.contains_key(addr) && w.memory[addr] == bytes[0],
        _ => true,
    }
}

/// Where a trace and its world stand after a sequence of replies.
pub open spec fn run(t: TraceView, w: World, events: Seq<EventView>) -> (TraceView, World)
    decreases events.len(),
{
    if events.len() == 0 {
        (t, w)
    } else {
        let (t1, w1) = run(t, w, events.drop_last());
        (trace_next(t1, events.last()), after(w1, t1, events.last()))
    }
}

/// Whether each reply of a sequence answers what was asked, and gives bytes that
/// stand in the memory.
pub open spec fn faithful(t: TraceView, w: World, events: Seq<EventView>) -> bool
    decreases events.len(),
{
    events.len() == 0 || {
        let (t1, w1) = run(t, w, events.drop_last());
        &&& faithful(t, w, events.drop_last())
        &&& trace_accepts(t1, events.last())
        &&& honest(w1, t1, events.last())
    }
}

/// The memory with the breakpoint in it.
pub open spec fn armed(t: TraceView, memory: Map<usize, u8>) -> Map<usize, u8> {
    memory.insert(t.target, INT3)
}

/// The handle of the thread that was let go for one instruction.
pub open spec fn kept_handle(t: TraceView) -> Multiset<usize> {
    match t.last_thread {
        Some((_, handle)) => Multiset::singleton(handle),
        None => Multiset::empty(),
    }
}

/// The memory between two events: without the breakpoint while a thread is let
/// go for one instruction, with it otherwise.
pub open spec fn expected_memory(t: TraceView, memory: Map<usize, u8>) -> Map<usize, u8> {
    if t.last_thread is Some {
        memory
    } else {
        armed(t, memory)
    }
}

/// Whether there may be another hit.
pub open spec fn below_limit(t: TraceView, w: World) -> bool {
    t.max_hits matches Some(max) ==> w.hits == 0 || w.hits < max
}

/// Whether there were no more hits than asked for; one is always taken.
pub open spec fn within_limit(t: TraceView, w: World) -> bool {
    t.max_hits matches Some(max) ==> w.hits <= max || w.hits <= 1
}

/// Whether nothing but opening and closing the target has happened.
spec fn quiet(t: TraceView, w: World, memory: Map<usize, u8>, open: Option<Access>) -> bool {
    &&& w == (World { open, ..untouched(memory) })
    &&& t.hits == 0
    &&& t.last_thread is None
    &&& !t.stop
}

/// Whether the original byte is known.
spec fn original_known(t: TraceView, memory: Map<usize, u8>) -> bool {
    memory.contains_key(t.target) && t.original == memory[t.target]
}

/// What holds while the target is debugged.
spec fn live(t: TraceView, w: World, memory: Map<usize, u8>) -> bool {
    &&& w.open == Some(Access::Trace)
    &&& w.debugged
    &&& !w.let_go
    &&& !w.refused
    &&& !w.unrestored
    &&& original_known(t, memory)
    &&& t.hits as int == w.hits % 0x1_0000_0000_0000_0000
    &&& within_limit(t, w)
}

/// The registers that a trace holds while it deals with a hit.
spec fn moved_registers(phase: PhaseView) -> Option<Seq<u8>> {
    match phase {
        TracePhase::ReadReturn { ctx, .. }
        | TracePhase::ShowHit { ctx, .. }
        | TracePhase::ReadStack { ctx, .. }
        | TracePhase::ShowStack { ctx, .. }
        | TracePhase::Disarm { ctx, .. } => Some(ctx),
        _ => None,
    }
}

/// Whether the registers that were read last are those of the thread with the
/// handle `thread`.
pub open spec fn has_registers(w: World, thread: usize) -> bool {
    w.registers matches Some((handle, ctx)) && handle == thread && ctx.len() == 1232
}

/// The registers that were read last.
pub open spec fn read_registers(w: World) -> Seq<u8> {
    match w.registers {
        Some((_, ctx)) => ctx,
        None => Seq::empty(),
    }
}

/// What holds of a trace and its world at every point.
pub closed spec fn consistent(t: TraceView, w: World, memory: Map<usize, u8>) -> bool {
    match t.phase {
        TracePhase::OpenForResolve { .. } | TracePhase::Install | TracePhase::Open => quiet(
            t,
            w,
            memory,
            None,
        ),
        TracePhase::ReadVtable { .. }
        | TracePhase::ReadEntry { .. }
        | TracePhase::ShowResolved { .. }
        | TracePhase::CloseResolve => quiet(t, w, memory, Some(Access::Inspect)),
        TracePhase::ReadOriginal => quiet(t, w, memory, Some(Access::Trace)),
        TracePhase::Plant => quiet(t, w, memory, Some(Access::Trace)) && original_known(t, memory),
        TracePhase::Attach => {
            &&& quiet(t, w, armed(t, memory), Some(Access::Trace))
            &&& original_known(t, memory)
        },
        TracePhase::ShowAttached | TracePhase::Poll => {
            &&& live(t, w, memory)
            &&& w.shown == w.hits
            &&& !t.stop
            &&& below_limit(t, w)
            &&& w.owed is None
            &&& w.threads == kept_handle(t)
            &&& w.memory == expected_memory(t, memory)
        },
        TracePhase::Rearm { origin } => {
            &&& live(t, w, memory)
            &&& w.shown == w.hits
            &&& !t.stop
            &&& below_limit(t, w)
            &&& w.owed == Some(origin)
            &&& w.threads == kept_handle(t)
            &&& w.memory == expected_memory(t, memory)
        },
        TracePhase::OpenThread { origin } => {
            &&& live(t, w, memory)
            &&& w.shown + 1 == w.hits
            &&& !t.stop
            &&& w.owed == Some(origin)
            &&& w.threads == kept_handle(t)
            &&& w.memory == expected_memory(t, memory)
        },
        TracePhase::GetContext { origin, thread }
        | TracePhase::ReadReturn { origin, thread, .. }
        | TracePhase::ShowHit { origin, thread, .. }
        | TracePhase::ReadStack { origin, thread, .. }
        | TracePhase::ShowStack { origin, thread, .. }
        | TracePhase::Disarm { origin, thread, .. } => {
            &&& live(t, w, memory)
            &&& w.shown + (if t.phase is GetContext || t.phase is ReadReturn || t.phase is ShowHit {
                1int
            } else {
                0
            }) == w.hits
            &&& !t.stop
            &&& w.owed == Some(origin)
            &&& w.opened == Some((origin.thread_id, thread))
            &&& w.threads == kept_handle(t).insert(thread)
            &&& w.memory == expected_memory(t, memory)
            &&& moved_registers(t.phase) matches Some(ctx) ==> has_registers(w, thread) && ctx
                == moved_back(read_registers(w))
        },
        TracePhase::SetContext { origin, thread, ctx } => {
            &&& live(t, w, memory)
            &&& w.shown == w.hits
            &&& !t.stop
            &&& w.owed == Some(origin)
            &&& w.opened == Some((origin.thread_id, thread))
            &&& has_registers(w, thread)
            &&& ctx == single_stepped(moved_back(read_registers(w)))
            &&& w.threads == kept_handle(t).insert(thread)
            &&& w.memory == memory
        },
        TracePhase::CloseStale { origin, stale } => {
            &&& live(t, w, memory)
            &&& w.shown == w.hits
            &&& !t.stop
            &&& w.owed == Some(origin)
            &&& t.last_thread is Some
            &&& w.threads == kept_handle(t).insert(stale)
            &&& w.memory == memory
        },
        TracePhase::ShowLimit { origin } => {
            &&& live(t, w, memory)
            &&& w.shown == w.hits
            &&& t.stop
            &&& w.owed == Some(origin)
            &&& w.threads == kept_handle(t)
            &&& w.memory == expected_memory(t, memory)
        },
        TracePhase::CloseStepped { origin, thread } => {
            &&& live(t, w, memory)
            &&& w.shown == w.hits
            &&& !t.stop
            &&& below_limit(t, w)
            &&& w.owed == Some(origin)
            &&& t.last_thread is None
            &&& w.threads == Multiset::singleton(thread)
            &&& w.memory == armed(t, memory)
        },
        TracePhase::Resume { origin, .. } => {
            &&& live(t, w, memory)
            &&& w.shown == w.hits
            &&& t.stop || below_limit(t, w)
            &&& w.owed == Some(origin)
            &&& w.threads == kept_handle(t)
            &&& w.memory == expected_memory(t, memory)
        },
        TracePhase::ShowExited | TracePhase::Restore { .. } => {
            &&& live(t, w, memory)
            &&& w.memory == memory || w.memory == armed(t, memory)
        },
        TracePhase::Detach { .. } | TracePhase::ShowDone => {
            &&& w.open is Some
            &&& w.debugged
            &&& w.let_go == (t.phase is ShowDone)
            &&& !w.refused
            &&& w.unrestored || w.memory == memory
            &&& t.hits as int == w.hits % 0x1_0000_0000_0000_0000
            &&& within_limit(t, w)
        },
        TracePhase::Close { .. } | TracePhase::Finished { .. } => {
            &&& w.open is Some == (t.phase is Close)
            &&& w.unrestored || w.refused || w.memory == memory
            &&& w.debugged ==> !w.refused
            &&& w.debugged ==> w.let_go
            &&& t.hits as int == w.hits % 0x1_0000_0000_0000_0000
            &&& within_limit(t, w)
        },
    }
}

proof fn lemma_consistent_start(
    pid: u32,
    obj: Option<usize>,
    slot: Option<usize>,
    addr: Option<usize>,
    stack_words: usize,
    max_hits: Option<u64>,
    memory: Map<usize, u8>,
)
    ensures
        consistent(
            trace_start(pid, obj, slot, addr, stack_words, max_hits),
            untouched(memory),
            memory,
        ),
{
}

#[verifier::spinoff_prover]
proof fn lemma_consistent_step(t: TraceView, w: World, e: EventView, memory: Map<usize, u8>)
    requires
        consistent(t, w, memory),
        trace_accepts(t, e),
        honest(w, t, e),
    ensures
        consistent(trace_next(t, e), after(w, t, e), memory),
{
    broadcast use vstd::multiset::group_multiset_axioms;

    assert(original_known(t, memory) ==> memory.insert(t.target, t.original) =~= memory);
    assert(original_known(t, memory) ==> armed(t, memory).insert(t.target, t.original) =~= memory);
    assert(armed(t, memory).insert(t.target, INT3) =~= armed(t, memory));
    match t.phase {
        TracePhase::SetContext { thread, .. } => {
            assert(Multiset::<usize>::empty().insert(thread) =~= Multiset::singleton(thread));
            if let Some((_, stale)) = t.last_thread {
                assert(Multiset::singleton(stale).insert(thread) =~= Multiset::singleton(
                    thread,
                ).insert(stale));
            }
        },
        TracePhase::CloseStale { stale, .. } => {
            assert(kept_handle(t).insert(stale).remove(stale) =~= kept_handle(t));
        },
        TracePhase::CloseStepped { thread, .. } => {
            assert(Multiset::singleton(thread).remove(thread) =~= Multiset::<usize>::empty());
        },
        TracePhase::Poll => {
            assert((w.hits + 1) % 0x1_0000_0000_0000_0000 == (if w.hits
                % 0x1_0000_0000_0000_0000 == 0xffff_ffff_ffff_ffff {
                0
            } else {
                w.hits % 0x1_0000_0000_0000_0000 + 1
            }));
        },
        _ => {},
    }
}

proof fn lemma_consistent_run(t: TraceView, memory: Map<usize, u8>, events: Seq<EventView>)
    requires
        consistent(t, untouched(memory), memory),
        faithful(t, untouched(memory), events),
    ensures
        ({
            let (t1, w1) = run(t, untouched(memory), events);
            consistent(t1, w1, memory)
        }),
    decreases events.len(),
{
    if events.len() > 0 {
        lemma_consistent_run(t, memory, events.drop_last());
        let (t1, w1) = run(t, untouched(memory), events.drop_last());
        lemma_consistent_step(t1, w1, events.last(), memory);
    }
}

/// Whether `t` is some trace that has not begun.
pub open spec fn is_start(t: TraceView) -> bool {
    exists|
        pid: u32,
        obj: Option<usize>,
        slot: Option<usize>,
        addr: Option<usize>,
        stack_words: usize,
        max_hits: Option<u64>,
    | t == #[trigger] trace_start(pid, obj, slot, addr, stack_words, max_hits)
}

proof fn lemma_consistent_from_start(t: TraceView, memory: Map<usize, u8>, events: Seq<EventView>)
    requires
        is_start(t),
        faithful(t, untouched(memory), events),
    ensures
        ({
            let (t1, w1) = run(t, untouched(memory), events);
            consistent(t1, w1, memory)
        }),
{
    lemma_consistent_run(t, memory, events);
}

/// A trace that has ended leaves the memory of the target as it found it, unless
/// debugging was refused with the breakpoint already set, or the byte could not
/// be given back.
pub proof fn law_memory_is_restored(t: TraceView, memory: Map<usize, u8>, events: Seq<EventView>)
    requires
        is_start(t),
        faithful(t, untouched(memory), events),
    ensures
        ({
            let (t1, w1) = run(t, untouched(memory), events);
            t1.phase is Finished && !w1.refused && !w1.unrestored ==> w1.memory == memory
        }),
{
    lemma_consistent_from_start(t, memory, events);
}

/// Whenever a trace waits for an event, the memory of the target differs from
/// what it was by the breakpoint, or, while a thread is let go for one
/// instruction, not at all.
pub proof fn law_breakpoint_while_waiting(
    t: TraceView,
    memory: Map<usize, u8>,
    events: Seq<EventView>,
)
    requires
        is_start(t),
        faithful(t, untouched(memory), events),
    ensures
        ({
            let (t1, w1) = run(t, untouched(memory), events);
            t1.phase is Poll ==> w1.debugged && w1.memory == expected_memory(t1, memory)
        }),
{
    lemma_consistent_from_start(t, memory, events);
}

/// Whenever a trace waits for an event, it holds one thread handle if a thread
/// is let go for one instruction, and none otherwise.
pub proof fn law_handles_while_waiting(
    t: TraceView,
    memory: Map<usize, u8>,
    events: Seq<EventView>,
)
    requires
        is_start(t),
        faithful(t, untouched(memory), events),
    ensures
        ({
            let (t1, w1) = run(t, untouched(memory), events);
            t1.phase is Poll ==> w1.threads == kept_handle(t1)
        }),
{
    lemma_consistent_from_start(t, memory, events);
}

/// No event is waited for before the last one was answered, and what is answered
/// is the event that was reported.
pub proof fn law_events_are_answered(t: TraceView, memory: Map<usize, u8>, events: Seq<EventView>)
    requires
        is_start(t),
        faithful(t, untouched(memory), events),
    ensures
        ({
            let (t1, w1) = run(t, untouched(memory), events);
            &&& t1.phase is Poll ==> w1.owed is None
            &&& trace_action(t1) matches ActionOf::Continue { origin, .. } ==> w1.owed == Some(
                origin,
            )
        }),
{
    lemma_consistent_from_start(t, memory, events);
}

/// The number of hits is the number of breakpoints reported at the target, in
/// the arithmetic of its type.
pub proof fn law_hits_are_counted(t: TraceView, memory: Map<usize, u8>, events: Seq<EventView>)
    requires
        is_start(t),
        faithful(t, untouched(memory), events),
    ensures
        ({
            let (t1, w1) = run(t, untouched(memory), events);
            t1.hits as int == w1.hits % 0x1_0000_0000_0000_0000
        }),
{
    lemma_consistent_from_start(t, memory, events);
}

/// Whenever a trace waits for an event, every hit so far was shown, once.
pub proof fn law_hits_are_shown(t: TraceView, memory: Map<usize, u8>, events: Seq<EventView>)
    requires
        is_start(t),
        faithful(t, untouched(memory), events),
    ensures
        ({
            let (t1, w1) = run(t, untouched(memory), events);
            t1.phase is Poll ==> w1.shown == w1.hits
        }),
{
    lemma_consistent_from_start(t, memory, events);
}

/// A limit on the hits is kept: there are never more, save that one hit is taken
/// even where none is allowed. Once it is reached no event is waited for any
/// more.
pub proof fn law_limit_is_kept(t: TraceView, memory: Map<usize, u8>, events: Seq<EventView>)
    requires
        is_start(t),
        faithful(t, untouched(memory), events),
    ensures
        ({
            let (t1, w1) = run(t, untouched(memory), events);
            t1.max_hits matches Some(max) ==> {
                &&& w1.hits <= max || w1.hits <= 1
                &&& t1.phase is Poll ==> w1.hits == 0 || w1.hits < max
            }
        }),
{
    lemma_consistent_from_start(t, memory, events);
}

/// Memory is written and the target debugged only with the rights for it. A
/// trace that has ended has let go of the target, if it debugged it, and closed
/// it.
pub proof fn law_rights(t: TraceView, memory: Map<usize, u8>, events: Seq<EventView>)
    requires
        is_start(t),
        faithful(t, untouched(memory), events),
    ensures
        ({
            let (t1, w1) = run(t, untouched(memory), events);
            &&& trace_action(t1) is Write || trace_action(t1) is Attach ==> w1.open == Some(
                Access::Trace,
            )
            &&& t1.phase is Finished ==> w1.open is None && (w1.debugged ==> w1.let_go)
        }),
{
    lemma_consistent_from_start(t, memory, events);
}

/// Whether a thread that stopped with the registers `c` goes on with the
/// registers `new`: its instruction pointer is one less, if it was not zero, its
/// trap flag is set, and nothing else has changed.
pub open spec fn steps_back_and_traps(c: Seq<u8>, new: Seq<u8>) -> bool {
    &&& c.len() == 1232 && new.len() == 1232
    &&& le_value(new.subrange(0xf8, 0x100)) == (if le_value(c.subrange(0xf8, 0x100)) == 0 {
        0
    } else {
        le_value(c.subrange(0xf8, 0x100)) - 1
    })
    &&& le_value(new.subrange(0x44, 0x48)) == le_value(c.subrange(0x44, 0x48)) as u32 | 0x100
    &&& forall|i: int|
        0 <= i < 1232 && !(0x44 <= i < 0x48) && !(0xf8 <= i < 0x100) ==> #[trigger] new[i] == c[i]
}

/// Every thread that hit the breakpoint gets back the registers that it stopped
/// with, moved onto the instruction and set to stop after it, however much of
/// the stack is shown and however many hits there were. They go to the thread
/// that reported the hit.
pub proof fn law_threads_step_over_the_target(
    t: TraceView,
    memory: Map<usize, u8>,
    events: Seq<EventView>,
)
    requires
        is_start(t),
        faithful(t, untouched(memory), events),
    ensures
        ({
            let (t1, w1) = run(t, untouched(memory), events);
            trace_action(t1) matches ActionOf::SetContext { thread, ctx } ==> {
                &&& has_registers(w1, thread)
                &&& steps_back_and_traps(read_registers(w1), ctx)
                &&& w1.owed matches Some(origin) && w1.opened == Some((origin.thread_id, thread))
            }
        }),
{
    lemma_consistent_from_start(t, memory, events);
    let (t1, w1) = run(t, untouched(memory), events);
    if let ActionOf::SetContext { thread, ctx } = trace_action(t1) {
        lemma_steps_back_and_traps(read_registers(w1));
    }
}

/// Nothing is ever written but the breakpoint or the original byte, at the
/// target. The target changes only where it is found, the original byte only
/// where it is read, and what was asked for never.
pub proof fn law_only_the_target_is_written(t: TraceView, e: EventView)
    requires
        trace_accepts(t, e),
    ensures
        trace_action(t) matches ActionOf::Write { addr, byte } ==> addr == t.target && (byte == INT3
            || byte == t.original),
        !(t.phase is ReadEntry) ==> trace_next(t, e).target == t.target,
        !(t.phase is ReadOriginal) ==> trace_next(t, e).original == t.original,
        trace_next(t, e).pid == t.pid,
        trace_next(t, e).stack_words == t.stack_words,
        trace_next(t, e).max_hits == t.max_hits,
{
}

/// A trace of a slot goes to the function that a dump shows in that slot.
pub proof fn law_slots_are_traced(
    t: TraceView,
    d: DumpView,
    obj: usize,
    slot: usize,
    read_vtable: EventView,
    read_entry: EventView,
    vtable: u64,
    func: u64,
)
    requires
        t.phase == (PhaseView::OpenForResolve { obj, slot }),
        d.phase == (DumpPhase::ReadSlot::<Seq<char>> { vtable, slot }),
        qword_reply(obj, read_vtable) == Ok::<u64, Seq<char>>(vtable),
        qword_reply(slot_addr(vtable, slot), read_entry) == Ok::<u64, Seq<char>>(func),
    ensures
        ({
            let t1 = trace_next(t, EventOf::Done);
            let t2 = trace_next(t1, read_vtable);
            let t3 = trace_next(t2, read_entry);
            let t4 = trace_next(t3, EventOf::Done);
            let t5 = trace_next(t4, EventOf::Done);
            &&& trace_action(t1) == (ActionView::Read { addr: obj, len: 8 })
            &&& trace_action(t2) == (ActionView::Read { addr: slot_addr(vtable, slot), len: 8 })
            &&& t5 == (TraceOf { target: func as usize, phase: TracePhase::Install, ..t })
            &&& dump_action(d) == trace_action(t2)
            &&& dump_action(dump_next(d, read_entry)) == ActionView::Print(
                slot_row(d.modules, slot, func),
            )
        }),
{
}

/// Ctrl+C ends a trace that waits for an event, successfully, whatever becomes
/// of the last write and of the detaching.
pub proof fn law_interrupt_ends(t: TraceView, restored: EventView, detached: EventView)
    requires
        t.phase is Poll,
        restored is Written || restored is Failed,
        detached is Done || detached is Failed,
    ensures
        ({
            let t1 = trace_next(t, EventOf::Interrupted);
            let t2 = trace_next(t1, restored);
            let t3 = trace_next(t2, detached);
            let t4 = trace_next(t3, EventOf::Done);
            let t5 = trace_next(t4, EventOf::Done);
            &&& trace_action(t1) == (ActionView::Write {
                addr: t.target,
                byte: t.original,
            })
            &&& trace_action(t2) is Detach
            &&& t5 == (TraceOf { phase: TracePhase::Finished { outcome: Ok(()) }, ..t })
        }),
{
}

/// A thread that hit the breakpoint goes on from the instruction before its
/// instruction pointer, with the trap flag set and every other flag as it was;
/// no other byte of its registers changes.
pub proof fn law_registers_after_a_hit(ctx: Seq<u8>, i: int)
    requires
        ctx.len() == CTX_SIZE,
    ensures
        ({
            let new = single_stepped(moved_back(ctx));
            let rip = field_u64(ctx, OFF_RIP as int);
            let flags = field_u32(ctx, OFF_EFLAGS as int);
            &&& new.len() == CTX_SIZE
            &&& field_u64(new, OFF_RIP as int) == (if rip > 0 { rip - 1 } else { 0 })
            &&& field_u32(new, OFF_EFLAGS as int) == flags | TRAP_FLAG
            &&& field_u32(new, OFF_EFLAGS as int) & TRAP_FLAG == TRAP_FLAG
            &&& field_u32(new, OFF_EFLAGS as int) & !TRAP_FLAG == flags & !TRAP_FLAG
            &&& 0 <= i < CTX_SIZE && !(OFF_RIP <= i < OFF_RIP + 8) && !(OFF_EFLAGS <= i < OFF_EFLAGS
                + 4) ==> new[i] == ctx[i]
        }),
{
    let rip = field_u64(ctx, OFF_RIP as int).saturating_sub(1);
    let flags = field_u32(ctx, OFF_EFLAGS as int);
    let mid = moved_back(ctx);
    let new = single_stepped(mid);
    law_read_back_u64(ctx, OFF_RIP as int, rip);
    law_writes_are_local(ctx, OFF_RIP as int, rip as nat, 8, OFF_EFLAGS as int, OFF_EFLAGS + 4);
    law_read_back_u32(mid, OFF_EFLAGS as int, flags | TRAP_FLAG);
    law_writes_are_local(
        mid,
        OFF_EFLAGS as int,
        (flags | TRAP_FLAG) as nat,
        4,
        OFF_RIP as int,
        OFF_RIP + 8,
    );
    assert((flags | 0x100) & 0x100 == 0x100) by (bit_vector);
    assert((flags | 0x100) & !0x100u32 == flags & !0x100u32) by (bit_vector);
    if 0 <= i < CTX_SIZE && !(OFF_RIP <= i < OFF_RIP + 8) && !(OFF_EFLAGS <= i < OFF_EFLAGS + 4) {
        law_writes_are_local(ctx, OFF_RIP as int, rip as nat, 8, i, i + 1);
        law_writes_are_local(mid, OFF_EFLAGS as int, (flags | TRAP_FLAG) as nat, 4, i, i + 1);
        assert(mid[i] == mid.subrange(i, i + 1)[0]);
        assert(new[i] == new.subrange(i, i + 1)[0]);
    }
}

/// The registers of a hit, spelled out.
pub proof fn lemma_steps_back_and_traps(c: Seq<u8>)
    requires
        c.len() == 1232,
    ensures
        steps_back_and_traps(c, single_stepped(moved_back(c))),
{
    let new = single_stepped(moved_back(c));
    law_registers_after_a_hit(c, 0);
    law_fields_are_exact(c, 0x44);
    law_fields_are_exact(c, 0xf8);
    law_fields_are_exact(new, 0x44);
    law_fields_are_exact(new, 0xf8);
    assert forall|i: int| 0 <= i < 1232 && !(0x44 <= i < 0x48) && !(0xf8 <= i < 0x100) implies
        #[trigger] new[i] == c[i] by {
        law_registers_after_a_hit(c, i);
    }
}

} // verus!
