//! That contracts see every part of what sessions and the system exchange.

use crate::context::Ctx;
use crate::dump::{Dump, DumpPhase};
use crate::modules::{raws, spans, ModuleSpan, RawModule};
use crate::session::{
    Action, ActionOf, ActionView, Event, EventOf, EventView, DBG_CONTINUE,
    DBG_EXCEPTION_NOT_HANDLED,
};
use crate::trace::{PhaseView, Trace, TracePhase, INT3, TRAP_FLAG};
use vstd::prelude::*;

verus! {

/// The numbers that the system and the processor give a meaning.
pub proof fn law_numbers_of_the_system()
    ensures
        DBG_CONTINUE == 65538,
        DBG_EXCEPTION_NOT_HANDLED == 2147549185,
        INT3 == 204,
        TRAP_FLAG == 256,
{
}

/// Modules are seen with their names, bases and sizes, each in its place.
pub proof fn law_modules_are_seen_whole(
    m: ModuleSpan,
    r: RawModule,
    ms: Seq<ModuleSpan>,
    rs: Seq<RawModule>,
    i: int,
)
    ensures
        m@.name == m.name@ && m@.base == m.base && m@.size == m.size,
        r@.name == r.name@ && r@.base == r.base && r@.size == r.size,
        spans(ms).len() == ms.len(),
        0 <= i < ms.len() ==> spans(ms)[i] == ms[i]@,
        raws(rs).len() == rs.len(),
        0 <= i < rs.len() ==> raws(rs)[i] == rs[i]@,
{
}

/// Every action is seen as the action it is, with all that it carries.
pub proof fn law_actions_are_seen_whole(a: Action)
    ensures
        a matches ActionOf::OpenProcess(x) ==> a@ == ActionView::OpenProcess(x),
        a is CloseProcess ==> a@ is CloseProcess,
        a is Snapshot ==> a@ is Snapshot,
        a matches ActionOf::Read { addr, len } ==> a@ == (ActionView::Read { addr, len }),
        a matches ActionOf::Write { addr, byte } ==> a@ == (ActionView::Write { addr, byte }),
        a is InstallHandler ==> a@ is InstallHandler,
        a is Attach ==> a@ is Attach,
        a is Detach ==> a@ is Detach,
        a is Poll ==> a@ is Poll,
        a matches ActionOf::OpenThread(x) ==> a@ == ActionView::OpenThread(x),
        a matches ActionOf::CloseThread(x) ==> a@ == ActionView::CloseThread(x),
        a matches ActionOf::GetContext { thread, ctx } ==> a@ == (ActionView::GetContext {
            thread,
            ctx: ctx.0@,
        }),
        a matches ActionOf::SetContext { thread, ctx } ==> a@ == (ActionView::SetContext {
            thread,
            ctx: ctx.0@,
        }),
        a matches ActionOf::Continue { origin, status } ==> a@ == (ActionView::Continue {
            origin,
            status,
        }),
        a matches ActionOf::Print(s) ==> a@ == ActionView::Print(s@),
        a matches ActionOf::Eprint(s) ==> a@ == ActionView::Eprint(s@),
        a matches ActionOf::Return(Ok(x)) ==> a@ == ActionView::Return(Ok(x)),
        a matches ActionOf::Return(Err(s)) ==> a@ == ActionView::Return(Err(s@)),
{
}

/// Every reply is seen as the reply it is, with all that it carries.
pub proof fn law_events_are_seen_whole(e: Event)
    ensures
        e is Done ==> e@ is Done,
        e matches EventOf::Failed(s) ==> e@ == EventView::Failed(s@),
        e matches EventOf::Read { count, bytes } ==> e@ == (EventView::Read {
            count,
            bytes: bytes@,
        }),
        e matches EventOf::Written(n) ==> e@ == EventView::Written(n),
        e matches EventOf::Modules(m) ==> e@ == EventView::Modules(raws(m@)),
        e matches EventOf::Thread(h) ==> e@ == EventView::Thread(h),
        e matches EventOf::Context(c) ==> e@ == EventView::Context(c.0@),
        e is Interrupted ==> e@ is Interrupted,
        e is Idle ==> e@ is Idle,
        e matches EventOf::Debug { origin, kind } ==> e@ == (EventView::Debug { origin, kind }),
{
}

/// Every part of a dump is seen.
pub proof fn law_dumps_are_seen_whole(d: Dump)
    ensures
        d@.pid == d.pid && d@.obj == d.obj && d@.entries == d.entries,
        d@.modules == spans(d.modules@),
        d@.phase == (match d.phase {
            DumpPhase::Open => DumpPhase::Open,
            DumpPhase::Snapshot => DumpPhase::Snapshot,
            DumpPhase::ReadVtable => DumpPhase::ReadVtable,
            DumpPhase::ShowHeader { vtable } => DumpPhase::ShowHeader { vtable },
            DumpPhase::ReadSlot { vtable, slot } => DumpPhase::ReadSlot { vtable, slot },
            DumpPhase::ShowSlot { vtable, slot, func } => DumpPhase::ShowSlot {
                vtable,
                slot,
                func,
            },
            DumpPhase::ShowFailed { slot, addr } => DumpPhase::ShowFailed { slot, addr },
            DumpPhase::Close { outcome: Ok(x) } => DumpPhase::Close { outcome: Ok(x) },
            DumpPhase::Close { outcome: Err(m) } => DumpPhase::Close { outcome: Err(m@) },
            DumpPhase::Finished { outcome: Ok(x) } => DumpPhase::Finished { outcome: Ok(x) },
            DumpPhase::Finished { outcome: Err(m) } => DumpPhase::Finished { outcome: Err(m@) },
        }),
{
}

/// Every part of a trace is seen.
pub proof fn law_traces_are_seen_whole(t: Trace)
    ensures
        t@.pid == t.pid && t@.stack_words == t.stack_words && t@.max_hits == t.max_hits,
        t@.target == t.target && t@.original == t.original && t@.hits == t.hits,
        t@.last_thread == t.last_thread && t@.stop == t.stop,
        t@.phase == t.phase@,
{
}

/// Every phase of a trace is seen as the phase it is, with all that it carries.
pub proof fn law_phases_are_seen_whole(p: TracePhase<String, Ctx>)
    ensures
        p matches TracePhase::OpenForResolve { obj, slot } ==> p@ == (PhaseView::OpenForResolve {
            obj,
            slot,
        }),
        p matches TracePhase::ReadVtable { obj, slot } ==> p@ == (PhaseView::ReadVtable {
            obj,
            slot,
        }),
        p matches TracePhase::ReadEntry { obj, slot, vtable } ==> p@ == (PhaseView::ReadEntry {
            obj,
            slot,
            vtable,
        }),
        p matches TracePhase::ShowResolved { obj, slot } ==> p@ == (PhaseView::ShowResolved {
            obj,
            slot,
        }),
        p is CloseResolve ==> p@ is CloseResolve,
        p is Install ==> p@ is Install,
        p is Open ==> p@ is Open,
        p is ReadOriginal ==> p@ is ReadOriginal,
        p is Plant ==> p@ is Plant,
        p is Attach ==> p@ is Attach,
        p is ShowAttached ==> p@ is ShowAttached,
        p is Poll ==> p@ is Poll,
        p matches TracePhase::OpenThread { origin } ==> p@ == (PhaseView::OpenThread { origin }),
        p matches TracePhase::GetContext { origin, thread } ==> p@ == (PhaseView::GetContext {
            origin,
            thread,
        }),
        p matches TracePhase::ReadReturn { origin, thread, ctx } ==> p@ == (PhaseView::ReadReturn {
            origin,
            thread,
            ctx: ctx.0@,
        }),
        p matches TracePhase::ShowHit { origin, thread, ctx, ret } ==> p@ == (PhaseView::ShowHit {
            origin,
            thread,
            ctx: ctx.0@,
            ret,
        }),
        p matches TracePhase::ReadStack { origin, thread, ctx } ==> p@ == (PhaseView::ReadStack {
            origin,
            thread,
            ctx: ctx.0@,
        }),
        p matches TracePhase::ShowStack { origin, thread, ctx, line } ==> p@ == (
        PhaseView::ShowStack { origin, thread, ctx: ctx.0@, line: line@ }),
        p matches TracePhase::Disarm { origin, thread, ctx } ==> p@ == (PhaseView::Disarm {
            origin,
            thread,
            ctx: ctx.0@,
        }),
        p matches TracePhase::SetContext { origin, thread, ctx } ==> p@ == (PhaseView::SetContext {
            origin,
            thread,
            ctx: ctx.0@,
        }),
        p matches TracePhase::CloseStale { origin, stale } ==> p@ == (PhaseView::CloseStale {
            origin,
            stale,
        }),
        p matches TracePhase::ShowLimit { origin } ==> p@ == (PhaseView::ShowLimit { origin }),
        p matches TracePhase::Rearm { origin } ==> p@ == (PhaseView::Rearm { origin }),
        p matches TracePhase::CloseStepped { origin, thread } ==> p@ == (PhaseView::CloseStepped {
            origin,
            thread,
        }),
        p matches TracePhase::Resume { origin, status } ==> p@ == (PhaseView::Resume {
            origin,
            status,
        }),
        p is ShowExited ==> p@ is ShowExited,
        p matches TracePhase::Restore { outcome: Ok(x) } ==> p@ == (PhaseView::Restore {
            outcome: Ok(x),
        }),
        p matches TracePhase::Restore { outcome: Err(m) } ==> p@ == (PhaseView::Restore {
            outcome: Err(m@),
        }),
        p matches TracePhase::Detach { outcome: Ok(x) } ==> p@ == (PhaseView::Detach {
            outcome: Ok(x),
        }),
        p matches TracePhase::Detach { outcome: Err(m) } ==> p@ == (PhaseView::Detach {
            outcome: Err(m@),
        }),
        p is ShowDone ==> p@ is ShowDone,
        p matches TracePhase::Close { outcome: Ok(x) } ==> p@ == (PhaseView::Close {
            outcome: Ok(x),
        }),
        p matches TracePhase::Close { outcome: Err(m) } ==> p@ == (PhaseView::Close {
            outcome: Err(m@),
        }),
        p matches TracePhase::Finished { outcome: Ok(x) } ==> p@ == (PhaseView::Finished {
            outcome: Ok(x),
        }),
        p matches TracePhase::Finished { outcome: Err(m) } ==> p@ == (PhaseView::Finished {
            outcome: Err(m@),
        }),
{
}

/// Whether a reply is one that the system can give to an action.
pub open spec fn fits(a: ActionView, e: EventView) -> bool {
    match a {
        ActionOf::OpenProcess(_)
        | ActionOf::InstallHandler
        | ActionOf::Attach
        | ActionOf::Detach
        | ActionOf::SetContext { .. }
        | ActionOf::Continue { .. } => e is Done || e is Failed,
        ActionOf::CloseProcess
        | ActionOf::CloseThread(_)
        | ActionOf::Print(_)
        | ActionOf::Eprint(_) => e is Done,
        ActionOf::Snapshot => e is Modules || e is Failed,
        ActionOf::Read { len, .. } => match e {
            EventOf::Read { bytes, .. } => bytes.len() == len,
            _ => e is Failed,
        },
        ActionOf::Write { .. } => e is Written || e is Failed,
        ActionOf::Poll => e is Interrupted || e is Idle || e is Debug,
        ActionOf::OpenThread(_) => e is Thread || e is Failed,
        ActionOf::GetContext { ctx, .. } => match e {
            EventOf::Context(c) => c.len() == ctx.len(),
            _ => e is Failed,
        },
        ActionOf::Return(_) => false,
    }
}

} // verus!
