//! The talk between a session, which decides what to do next, and the system,
//! which does it and replies.
//!
//! A session is always in some state. The state fixes one action; the reply to
//! that action leads to the next state. Texts and buffers are type parameters,
//! so that contracts speak of the same types with sequences in their place.

use crate::context::Ctx;
use crate::memory::{qword_read, read_qword};
use crate::modules::{raws, RawModule, RawModuleView};
use crate::text::{decimal, push_decimal, shown};
use vstd::prelude::*;

verus! {

/// Lets a stopped thread run on as if nothing had happened.
pub const DBG_CONTINUE: u32 = 0x0001_0002;

/// Hands an exception on to the target itself.
pub const DBG_EXCEPTION_NOT_HANDLED: u32 = 0x8001_0001;

/// The rights with which the target is opened.
#[derive(Clone, Copy, Debug, PartialEq, Eq, Structural)]
pub enum Access {
    /// To read memory.
    Inspect,
    /// To read, write and change the protection of memory.
    Trace,
}

/// The process and thread that an event comes from.
#[derive(Clone, Copy, Debug, PartialEq, Eq, Structural)]
pub struct Origin {
    pub process_id: u32,
    pub thread_id: u32,
}

#[derive(Clone, Copy, Debug, PartialEq, Eq, Structural)]
pub enum ExceptionKind {
    Breakpoint,
    SingleStep,
    Other,
}

/// What the target reports.
#[derive(Clone, Copy, Debug, PartialEq, Eq, Structural)]
pub enum DebugKind {
    Exception { kind: ExceptionKind, address: usize },
    ExitProcess,
    Other,
}

/// What is to be done next.
#[derive(Debug, PartialEq, Eq)]
pub enum ActionOf<S, C> {
    /// Open the target; it stays open until `CloseProcess`.
    OpenProcess(Access),
    CloseProcess,
    /// List the modules of the target.
    Snapshot,
    /// Read `len` bytes of the target.
    Read { addr: usize, len: usize },
    /// Write one byte of the target.
    Write { addr: usize, byte: u8 },
    /// Have Ctrl+C noted.
    InstallHandler,
    /// Become the target's debugger.
    Attach,
    /// Stop being the target's debugger.
    Detach,
    /// Unless Ctrl+C was noted, wait a while for an event.
    Poll,
    OpenThread(u32),
    CloseThread(usize),
    /// Fill `ctx` with the registers of `thread`.
    GetContext { thread: usize, ctx: C },
    /// Set the registers of `thread`.
    SetContext { thread: usize, ctx: C },
    /// Let the thread that reported an event run on.
    Continue { origin: Origin, status: u32 },
    /// Write a line to the output.
    Print(S),
    /// Write a line to the error output.
    Eprint(S),
    /// End with this result.
    Return(Result<(), S>),
}

/// What came of an action.
#[derive(Debug)]
pub enum EventOf<S, B, C, M> {
    Done,
    /// The system refused, with its message.
    Failed(S),
    /// A buffer of the length asked for, of which `count` bytes were read.
    Read { count: usize, bytes: B },
    /// The number of bytes written.
    Written(usize),
    Modules(M),
    /// The handle of the thread that was opened.
    Thread(usize),
    Context(C),
    /// Ctrl+C was noted.
    Interrupted,
    /// No event came.
    Idle,
    Debug { origin: Origin, kind: DebugKind },
}

pub type Action = ActionOf<String, Ctx>;

pub type ActionView = ActionOf<Seq<char>, Seq<u8>>;

pub type Event = EventOf<String, Vec<u8>, Ctx, Vec<RawModule>>;

pub type EventView = EventOf<Seq<char>, Seq<u8>, Seq<u8>, Seq<RawModuleView>>;

impl View for ActionOf<String, Ctx> {
    type V = ActionView;

    open spec fn view(&self) -> ActionView {
        match *self {
            ActionOf::OpenProcess(a) => ActionOf::OpenProcess(a),
            ActionOf::CloseProcess => ActionOf::CloseProcess,
            ActionOf::Snapshot => ActionOf::Snapshot,
            ActionOf::Read { addr, len } => ActionOf::Read { addr, len },
            ActionOf::Write { addr, byte } => ActionOf::Write { addr, byte },
            ActionOf::InstallHandler => ActionOf::InstallHandler,
            ActionOf::Attach => ActionOf::Attach,
            ActionOf::Detach => ActionOf::Detach,
            ActionOf::Poll => ActionOf::Poll,
            ActionOf::OpenThread(t) => ActionOf::OpenThread(t),
            ActionOf::CloseThread(h) => ActionOf::CloseThread(h),
            ActionOf::GetContext { thread, ctx } => ActionOf::GetContext { thread, ctx: ctx@ },
            ActionOf::SetContext { thread, ctx } => ActionOf::SetContext { thread, ctx: ctx@ },
            ActionOf::Continue { origin, status } => ActionOf::Continue { origin, status },
            ActionOf::Print(s) => ActionOf::Print(s@),
            ActionOf::Eprint(s) => ActionOf::Eprint(s@),
            ActionOf::Return(r) => ActionOf::Return(shown(r)),
        }
    }
}

impl View for EventOf<String, Vec<u8>, Ctx, Vec<RawModule>> {
    type V = EventView;

    open spec fn view(&self) -> EventView {
        match *self {
            EventOf::Done => EventOf::Done,
            EventOf::Failed(s) => EventOf::Failed(s@),
            EventOf::Read { count, bytes } => EventOf::Read { count, bytes: bytes@ },
            EventOf::Written(n) => EventOf::Written(n),
            EventOf::Modules(m) => EventOf::Modules(raws(m@)),
            EventOf::Thread(h) => EventOf::Thread(h),
            EventOf::Context(c) => EventOf::Context(c@),
            EventOf::Interrupted => EventOf::Interrupted,
            EventOf::Idle => EventOf::Idle,
            EventOf::Debug { origin, kind } => EventOf::Debug { origin, kind },
        }
    }
}

/// Whether `e` answers a read of `len` bytes.
pub open spec fn answers_read(e: EventView, len: usize) -> bool {
    match e {
        EventOf::Failed(_) => true,
        EventOf::Read { count, bytes } => bytes.len() == len,
        _ => false,
    }
}

/// What a reply to reading eight bytes at `addr` comes to.
pub open spec fn qword_reply(addr: usize, e: EventView) -> Result<u64, Seq<char>> {
    match e {
        EventOf::Read { count, bytes } => qword_read(addr, Ok(count), bytes),
        EventOf::Failed(m) => qword_read(addr, Err(m), Seq::empty()),
        _ => arbitrary(),
    }
}

/// What a reply to reading eight bytes at `addr` comes to.
pub fn take_qword(addr: usize, e: Event) -> (r: Result<u64, String>)
    requires
        answers_read(e@, 8),
    ensures
        shown(r) == qword_reply(addr, e@),
{
    match e {
        EventOf::Read { count, bytes } => read_qword(addr, &Ok(count), bytes.as_slice()),
        EventOf::Failed(m) => read_qword(addr, &Err(m), &[0u8; 8]),
        _ => Ok(0),
    }
}

/// A copy of an outcome.
pub fn copy_outcome(r: &Result<(), String>) -> (c: Result<(), String>)
    ensures
        shown(c) == shown(*r),
{
    match r {
        Ok(_) => Ok(()),
        Err(e) => Err(e.clone()),
    }
}

/// The message for a target that could not be opened.
pub open spec fn open_failure(pid: u32, e: Seq<char>) -> Seq<char> {
    "OpenProcess("@ + decimal(pid as nat) + "): "@ + e
}

/// A message made of a text, a number, a text and the system's own message.
pub fn numbered_failure(head: &str, n: u32, mid: &str, e: &str) -> (t: String)
    ensures
        t@ == head@ + decimal(n as nat) + mid@ + e@,
{
    let mut t: String = String::from_str(head);
    push_decimal(&mut t, n as u64);
    t.append(mid);
    t.append(e);
    t
}

} // verus!
