//! Dumping the vtable of an object.

use crate::memory::{slot_addr, slot_address};
use crate::modules::{enumerate_modules, listed_spans, raws, sorted, spans, ModuleSpan, SpanView};
use crate::modules_laws::law_sorting_is_unique;
use crate::report::{
    dump_header, failed_row, slot_row, write_dump_header, write_failed_row, write_slot_row,
};
use crate::session::{
    answers_read, copy_outcome, numbered_failure, open_failure, qword_reply, take_qword, Access,
    Action, ActionOf, ActionView, Event, EventOf, EventView,
};
use crate::text::{decimal, shown};
use vstd::prelude::*;

verus! {

/// How far a dump has come.
#[derive(Debug, PartialEq, Eq)]
pub enum DumpPhase<S> {
    Open,
    Snapshot,
    ReadVtable,
    ShowHeader { vtable: u64 },
    ReadSlot { vtable: u64, slot: usize },
    ShowSlot { vtable: u64, slot: usize, func: u64 },
    ShowFailed { slot: usize, addr: usize },
    Close { outcome: Result<(), S> },
    Finished { outcome: Result<(), S> },
}

/// A dump of the first `entries` slots of the vtable of the object at `obj`.
#[derive(Debug, PartialEq, Eq)]
pub struct DumpOf<S, M> {
    pub pid: u32,
    pub obj: usize,
    pub entries: usize,
    /// The modules of the target, once they were listed.
    pub modules: M,
    pub phase: DumpPhase<S>,
}

pub type Dump = DumpOf<String, Vec<ModuleSpan>>;

pub type DumpView = DumpOf<Seq<char>, Seq<SpanView>>;

impl View for DumpPhase<String> {
    type V = DumpPhase<Seq<char>>;

    open spec fn view(&self) -> DumpPhase<Seq<char>> {
        match *self {
            DumpPhase::Open => DumpPhase::Open,
            DumpPhase::Snapshot => DumpPhase::Snapshot,
            DumpPhase::ReadVtable => DumpPhase::ReadVtable,
            DumpPhase::ShowHeader { vtable } => DumpPhase::ShowHeader { vtable },
            DumpPhase::ReadSlot { vtable, slot } => DumpPhase::ReadSlot { vtable, slot },
            DumpPhase::ShowSlot { vtable, slot, func } => DumpPhase::ShowSlot {
                vtable,
                slot,
                func,
            },
            DumpPhase::ShowFailed { slot, addr } => DumpPhase::ShowFailed { slot, addr },
            DumpPhase::Close { outcome } => DumpPhase::Close { outcome: shown(outcome) },
            DumpPhase::Finished { outcome } => DumpPhase::Finished { outcome: shown(outcome) },
        }
    }
}

impl View for DumpOf<String, Vec<ModuleSpan>> {
    type V = DumpView;

    open spec fn view(&self) -> DumpView {
        DumpOf {
            pid: self.pid,
            obj: self.obj,
            entries: self.entries,
            modules: spans(self.modules@),
            phase: self.phase@,
        }
    }
}

/// The message for a target whose modules could not be listed.
pub open spec fn snapshot_failure(pid: u32, e: Seq<char>) -> Seq<char> {
    "snapshot pid "@ + decimal(pid as nat) + ": "@ + e
}

/// A dump that has not begun.
pub open spec fn dump_start(pid: u32, obj: usize, entries: usize) -> DumpView {
    DumpOf { pid, obj, entries, modules: Seq::empty(), phase: DumpPhase::Open }
}

/// What a dump does in a state.
pub open spec fn dump_action(d: DumpView) -> ActionView {
    match d.phase {
        DumpPhase::Open => ActionOf::OpenProcess(Access::Inspect),
        DumpPhase::Snapshot => ActionOf::Snapshot,
        DumpPhase::ReadVtable => ActionOf::Read { addr: d.obj, len: 8 },
        DumpPhase::ShowHeader { vtable } => ActionOf::Print(
            dump_header(d.modules, d.obj, vtable, d.entries),
        ),
        DumpPhase::ReadSlot { vtable, slot } => ActionOf::Read {
            addr: slot_addr(vtable, slot),
            len: 8,
        },
        DumpPhase::ShowSlot { vtable, slot, func } => ActionOf::Print(
            slot_row(d.modules, slot, func),
        ),
        DumpPhase::ShowFailed { slot, addr } => ActionOf::Print(failed_row(slot, addr)),
        DumpPhase::Close { outcome } => ActionOf::CloseProcess,
        DumpPhase::Finished { outcome } => ActionOf::Return(outcome),
    }
}

/// Whether `e` answers what a dump does in a state.
pub open spec fn dump_accepts(d: DumpView, e: EventView) -> bool {
    match d.phase {
        DumpPhase::Open => e is Done || e is Failed,
        DumpPhase::Snapshot => e is Modules || e is Failed,
        DumpPhase::ReadVtable | DumpPhase::ReadSlot { .. } => answers_read(e, 8),
        DumpPhase::ShowHeader { .. } | DumpPhase::ShowSlot { .. } | DumpPhase::ShowFailed {
            ..
        } | DumpPhase::Close { .. } => e is Done,
        DumpPhase::Finished { .. } => false,
    }
}

/// Going on to a slot, if there is one of that number.
pub open spec fn at_slot(d: DumpView, vtable: u64, slot: int) -> DumpPhase<Seq<char>> {
    if slot < d.entries {
        DumpPhase::ReadSlot { vtable, slot: slot as usize }
    } else {
        DumpPhase::Close { outcome: Ok(()) }
    }
}

/// The state that a reply leads to.
pub open spec fn dump_next(d: DumpView, e: EventView) -> DumpView {
    match d.phase {
        DumpPhase::Open => match e {
            EventOf::Failed(m) => DumpOf {
                phase: DumpPhase::Finished { outcome: Err(open_failure(d.pid, m)) },
                ..d
            },
            _ => DumpOf { phase: DumpPhase::Snapshot, ..d },
        },
        DumpPhase::Snapshot => match e {
            EventOf::Modules(listed) => DumpOf {
                modules: sorted(listed_spans(listed)),
                phase: DumpPhase::ReadVtable,
                ..d
            },
            EventOf::Failed(m) => DumpOf {
                phase: DumpPhase::Close { outcome: Err(snapshot_failure(d.pid, m)) },
                ..d
            },
            _ => d,
        },
        DumpPhase::ReadVtable => match qword_reply(d.obj, e) {
            Ok(vtable) => DumpOf { phase: DumpPhase::ShowHeader { vtable }, ..d },
            Err(m) => DumpOf { phase: DumpPhase::Close { outcome: Err(m) }, ..d },
        },
        DumpPhase::ShowHeader { vtable } => DumpOf { phase: at_slot(d, vtable, 0), ..d },
        DumpPhase::ReadSlot { vtable, slot } => match qword_reply(slot_addr(vtable, slot), e) {
            Ok(func) => DumpOf { phase: DumpPhase::ShowSlot { vtable, slot, func }, ..d },
            Err(_) => DumpOf {
                phase: DumpPhase::ShowFailed { slot, addr: slot_addr(vtable, slot) },
                ..d
            },
        },
        DumpPhase::ShowSlot { vtable, slot, func } => DumpOf {
            phase: at_slot(d, vtable, slot + 1),
            ..d
        },
        DumpPhase::ShowFailed { .. } => DumpOf {
            phase: DumpPhase::Close { outcome: Ok(()) },
            ..d
        },
        DumpPhase::Close { outcome } => DumpOf { phase: DumpPhase::Finished { outcome }, ..d },
        DumpPhase::Finished { outcome } => d,
    }
}

impl DumpOf<String, Vec<ModuleSpan>> {
    /// A dump that has not begun.
    pub fn new(pid: u32, obj: usize, entries: usize) -> (d: Dump)
        ensures
            d@ == dump_start(pid, obj, entries),
    {
        let d = DumpOf { pid, obj, entries, modules: Vec::new(), phase: DumpPhase::Open };
        assert(d@.modules =~= Seq::empty());
        d
    }

    /// What to do next.
    pub fn action(&self) -> (a: Action)
        ensures
            a@ == dump_action(self@),
    {
        match &self.phase {
            DumpPhase::Open => ActionOf::OpenProcess(Access::Inspect),
            DumpPhase::Snapshot => ActionOf::Snapshot,
            DumpPhase::ReadVtable => ActionOf::Read { addr: self.obj, len: 8 },
            DumpPhase::ShowHeader { vtable } => ActionOf::Print(
                write_dump_header(self.modules.as_slice(), self.obj, *vtable, self.entries),
            ),
            DumpPhase::ReadSlot { vtable, slot } => ActionOf::Read {
                addr: slot_address(*vtable, *slot),
                len: 8,
            },
            DumpPhase::ShowSlot { vtable, slot, func } => ActionOf::Print(
                write_slot_row(self.modules.as_slice(), *slot, *func),
            ),
            DumpPhase::ShowFailed { slot, addr } => ActionOf::Print(write_failed_row(*slot, *addr)),
            DumpPhase::Close { outcome } => ActionOf::CloseProcess,
            DumpPhase::Finished { outcome } => ActionOf::Return(copy_outcome(outcome)),
        }
    }

    /// Whether `e` answers what was to be done.
    pub fn accepts(&self, e: &Event) -> (b: bool)
        ensures
            b == dump_accepts(self@, e@),
    {
        match (&self.phase, e) {
            (DumpPhase::Open, EventOf::Done) => true,
            (DumpPhase::Open, EventOf::Failed(_)) => true,
            (DumpPhase::Snapshot, EventOf::Modules(_)) => true,
            (DumpPhase::Snapshot, EventOf::Failed(_)) => true,
            (DumpPhase::ReadVtable, EventOf::Failed(_)) => true,
            (DumpPhase::ReadVtable, EventOf::Read { bytes, .. }) => bytes.len() == 8,
            (DumpPhase::ReadSlot { .. }, EventOf::Failed(_)) => true,
            (DumpPhase::ReadSlot { .. }, EventOf::Read { bytes, .. }) => bytes.len() == 8,
            (DumpPhase::ShowHeader { .. }, EventOf::Done) => true,
            (DumpPhase::ShowSlot { .. }, EventOf::Done) => true,
            (DumpPhase::ShowFailed { .. }, EventOf::Done) => true,
            (DumpPhase::Close { .. }, EventOf::Done) => true,
            _ => false,
        }
    }

    fn go(self, phase: DumpPhase<String>) -> (d: Dump)
        ensures
            d@ == (DumpOf { phase: phase@, ..self@ }),
    {
        DumpOf { phase, ..self }
    }

    /// The state that a reply leads to.
    pub fn advance(self, e: Event) -> (d: Dump)
        requires
            dump_accepts(self@, e@),
        ensures
            d@ == dump_next(self@, e@),
    {
        match self.phase {
            DumpPhase::Open => match e {
                EventOf::Failed(m) => {
                    let t: String = numbered_failure("OpenProcess(", self.pid, "): ", m.as_str());
                    self.go(DumpPhase::Finished { outcome: Err(t) })
                },
                _ => self.go(DumpPhase::Snapshot),
            },
            DumpPhase::Snapshot => match e {
                EventOf::Modules(listed) => {
                    let modules: Vec<ModuleSpan> = enumerate_modules(&listed);
                    proof {
                        let all = listed_spans(raws(listed@));
                        law_sorting_is_unique(all, spans(modules@), sorted(all));
                    }
                    DumpOf { modules, phase: DumpPhase::ReadVtable, ..self }
                },
                EventOf::Failed(m) => {
                    let t: String = numbered_failure("snapshot pid ", self.pid, ": ", m.as_str());
                    self.go(DumpPhase::Close { outcome: Err(t) })
                },
                _ => self,
            },
            DumpPhase::ReadVtable => match take_qword(self.obj, e) {
                Ok(vtable) => self.go(DumpPhase::ShowHeader { vtable }),
                Err(m) => self.go(DumpPhase::Close { outcome: Err(m) }),
            },
            DumpPhase::ShowHeader { vtable } => if self.entries > 0 {
                self.go(DumpPhase::ReadSlot { vtable, slot: 0 })
            } else {
                self.go(DumpPhase::Close { outcome: Ok(()) })
            },
            DumpPhase::ReadSlot { vtable, slot } => {
                let addr: usize = slot_address(vtable, slot);
                match take_qword(addr, e) {
                    Ok(func) => self.go(DumpPhase::ShowSlot { vtable, slot, func }),
                    Err(_) => self.go(DumpPhase::ShowFailed { slot, addr }),
                }
            },
            DumpPhase::ShowSlot { vtable, slot, func } => if slot < self.entries && self.entries
                - slot > 1 {
                self.go(DumpPhase::ReadSlot { vtable, slot: slot + 1 })
            } else {
                self.go(DumpPhase::Close { outcome: Ok(()) })
            },
            DumpPhase::ShowFailed { .. } => self.go(DumpPhase::Close { outcome: Ok(()) }),
            DumpPhase::Close { outcome } => DumpOf {
                phase: DumpPhase::Finished { outcome },
                ..self
            },
            DumpPhase::Finished { outcome } => DumpOf {
                phase: DumpPhase::Finished { outcome },
                ..self
            },
        }
    }
}

} // verus!
