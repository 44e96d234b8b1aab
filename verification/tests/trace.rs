use std::collections::HashMap;

use vtable_trace::context::{Ctx, CONTEXT_FULL};
use vtable_trace::session::{
    Access, Action, ActionOf, DebugKind, Event, EventOf, ExceptionKind, Origin, DBG_CONTINUE,
    DBG_EXCEPTION_NOT_HANDLED,
};
use vtable_trace::trace::Trace;

const TARGET: usize = 0x5000;
const ORIGINAL: u8 = 0x48;
const STACK: u64 = 0x8000;

const MAIN: Origin = Origin { process_id: 9, thread_id: 41 };
const SIDE: Origin = Origin { process_id: 9, thread_id: 42 };

fn hit(origin: Origin) -> Event {
    exception(origin, ExceptionKind::Breakpoint, TARGET)
}

fn step(origin: Origin) -> Event {
    exception(origin, ExceptionKind::SingleStep, TARGET + 3)
}

fn exception(origin: Origin, kind: ExceptionKind, address: usize) -> Event {
    EventOf::Debug { origin, kind: DebugKind::Exception { kind, address } }
}

fn report(kind: DebugKind) -> Event {
    EventOf::Debug { origin: MAIN, kind }
}

/// A process that reports what it is told to, and refuses what it is told to.
struct Process {
    memory: HashMap<usize, u8>,
    events: Vec<Event>,
    refuse: &'static str,
    open: Option<Access>,
    attached: bool,
    threads: Vec<usize>,
    next_thread: usize,
    contexts: Vec<Ctx>,
    answers: Vec<(u32, u32)>,
    out: Vec<String>,
    err: Vec<String>,
    bytes_while_waiting: Vec<u8>,
}

fn put(memory: &mut HashMap<usize, u8>, addr: usize, v: u64) {
    for (i, b) in v.to_le_bytes().into_iter().enumerate() {
        memory.insert(addr + i, b);
    }
}

fn process(events: Vec<Event>) -> Process {
    let mut memory = HashMap::new();
    memory.insert(TARGET, ORIGINAL);
    put(&mut memory, 0x1000, 0x2000);
    put(&mut memory, 0x2018, TARGET as u64);
    put(&mut memory, STACK as usize, 0xaaaa);
    put(&mut memory, STACK as usize + 8, 0xbbbb);
    Process {
        memory,
        events,
        refuse: "",
        open: None,
        attached: false,
        threads: Vec::new(),
        next_thread: 100,
        contexts: Vec::new(),
        answers: Vec::new(),
        out: Vec::new(),
        err: Vec::new(),
        bytes_while_waiting: Vec::new(),
    }
}

impl Process {
    fn done(&self, what: &str) -> Event {
        if self.refuse == what { EventOf::Failed("no".to_string()) } else { EventOf::Done }
    }

    fn perform(&mut self, action: Action) -> Event {
        match action {
            ActionOf::OpenProcess(access) => {
                let what = if access == Access::Inspect { "inspect" } else { "open" };
                if self.refuse != what {
                    assert_eq!(self.open, None);
                    self.open = Some(access);
                }
                self.done(what)
            }
            ActionOf::CloseProcess => {
                assert!(self.open.is_some());
                self.open = None;
                EventOf::Done
            }
            ActionOf::Read { addr, len } => {
                assert!(self.open.is_some());
                let read: Vec<u8> = (addr..addr + len).map_while(|a| self.memory.get(&a).cloned()).collect();
                let count = read.len();
                let mut bytes = read;
                bytes.resize(len, 0);
                if count == 0 { EventOf::Failed("no".to_string()) } else { EventOf::Read { count, bytes } }
            }
            ActionOf::Write { addr, byte } => {
                assert_eq!(self.open, Some(Access::Trace));
                assert_eq!(addr, TARGET);
                let what = if byte == ORIGINAL { "give back" } else { "plant" };
                if self.refuse == what {
                    EventOf::Failed("no".to_string())
                } else if self.refuse == "write" {
                    EventOf::Written(0)
                } else {
                    self.memory.insert(addr, byte);
                    EventOf::Written(1)
                }
            }
            ActionOf::InstallHandler => self.done("handler"),
            ActionOf::Attach => {
                self.attached = self.refuse != "attach";
                self.done("attach")
            }
            ActionOf::Detach => {
                assert!(self.attached);
                self.attached = false;
                EventOf::Failed("ignored".to_string())
            }
            ActionOf::Poll => {
                assert!(self.attached);
                self.bytes_while_waiting.push(self.memory[&TARGET]);
                if self.events.is_empty() { EventOf::Interrupted } else { self.events.remove(0) }
            }
            ActionOf::OpenThread(_) => {
                if self.refuse == "thread" {
                    return EventOf::Failed("no".to_string());
                }
                self.next_thread += 1;
                self.threads.push(self.next_thread);
                EventOf::Thread(self.next_thread)
            }
            ActionOf::CloseThread(thread) => {
                let at = self.threads.iter().position(|t| *t == thread).expect("an open handle");
                self.threads.remove(at);
                EventOf::Done
            }
            ActionOf::GetContext { thread, ctx } => {
                assert!(self.threads.contains(&thread));
                assert_eq!(ctx, Ctx::new(CONTEXT_FULL));
                if self.refuse == "get" {
                    return EventOf::Failed(String::new());
                }
                let mut ctx = ctx;
                ctx.set_rip(TARGET as u64 + 1);
                ctx.write_u64(0x98, STACK);
                ctx.set_eflags(0x246);
                EventOf::Context(ctx)
            }
            ActionOf::SetContext { thread, ctx } => {
                assert!(self.threads.contains(&thread));
                assert_eq!(self.memory[&TARGET], ORIGINAL);
                self.contexts.push(ctx);
                self.done("set")
            }
            ActionOf::Continue { origin, status } => {
                self.answers.push((origin.thread_id, status));
                self.done("continue")
            }
            ActionOf::Print(line) => {
                self.out.push(line);
                EventOf::Done
            }
            ActionOf::Eprint(line) => {
                self.err.push(line);
                EventOf::Done
            }
            ActionOf::Snapshot | ActionOf::Return(_) => panic!("not an action to perform"),
        }
    }

    fn run(&mut self, mut t: Trace) -> Result<(), String> {
        loop {
            let action = t.action();
            if let ActionOf::Return(outcome) = action {
                assert_eq!(self.open, None);
                return outcome;
            }
            let event = self.perform(action);
            assert!(t.accepts(&event));
            t = t.advance(event);
        }
    }
}

fn by_address(stack_words: usize, max_hits: Option<u64>) -> Trace {
    Trace::new(7, None, None, Some(TARGET), stack_words, max_hits)
}

fn refused(what: &'static str, events: Vec<Event>) -> (Result<(), String>, u8) {
    let mut p = process(events);
    p.refuse = what;
    let outcome = p.run(by_address(0, None));
    (outcome, p.memory[&TARGET])
}

#[test]
fn a_call_is_reported_and_the_breakpoint_put_back() {
    let mut p = process(vec![hit(MAIN), step(MAIN), EventOf::Idle]);
    assert_eq!(p.run(by_address(4, None)), Ok(()));
    assert_eq!(
        p.out,
        [
            "[hit   1] tid=41  rip=0x0000000000005000  ret=0x000000000000aaaa\n         rcx=0x0000000000000000  rdx=0x0000000000000000\n         r8 =0x0000000000000000  r9 =0x0000000000000000",
            "         stack: 000000000000aaaa 000000000000bbbb",
        ]
    );
    assert_eq!(
        p.err,
        ["attached to pid 7 \u{2014} INT3 at 0x5000; Ctrl+C to detach", "done \u{2014} 1 hit(s)"]
    );
    assert_eq!(p.bytes_while_waiting, [0xcc, ORIGINAL, 0xcc, 0xcc]);
    assert_eq!(p.memory[&TARGET], ORIGINAL);
    assert_eq!(p.answers, [(41, DBG_CONTINUE), (41, DBG_CONTINUE)]);
    assert_eq!(p.threads, Vec::<usize>::new());
    assert!(!p.attached);
}

#[test]
fn a_thread_goes_on_from_the_breakpoint_for_one_instruction() {
    let mut p = process(vec![hit(MAIN), step(MAIN)]);
    assert_eq!(p.run(by_address(0, None)), Ok(()));
    assert_eq!(p.contexts.len(), 1);
    assert_eq!(p.contexts[0].rip(), TARGET as u64);
    assert_eq!(p.contexts[0].eflags(), 0x346);
    assert_eq!(p.contexts[0].rsp(), STACK);
    assert_eq!(p.out.len(), 1);
}

#[test]
fn the_slot_of_an_object_is_resolved() {
    let mut p = process(Vec::new());
    assert_eq!(p.run(Trace::new(7, Some(0x1000), Some(3), None, 8, None)), Ok(()));
    assert_eq!(p.err[0], "resolved obj 0x1000 slot 3 -> 0x5000");
    assert_eq!(p.err[1], "attached to pid 7 \u{2014} INT3 at 0x5000; Ctrl+C to detach");
    assert_eq!(p.memory[&TARGET], ORIGINAL);
}

#[test]
fn a_trace_needs_a_target() {
    let none = Err("trace requires --addr or (--obj + --slot)".to_string());
    for (obj, slot) in [(None, None), (Some(1), None), (None, Some(1))] {
        let mut p = process(Vec::new());
        assert_eq!(p.run(Trace::new(7, obj, slot, None, 8, None)), none);
    }
    let mut p = process(Vec::new());
    assert_eq!(p.run(Trace::new(7, Some(1), Some(2), Some(TARGET), 8, None)), Ok(()));
}

#[test]
fn resolving_fails_with_what_was_refused() {
    let mut p = process(Vec::new());
    assert_eq!(
        p.run(Trace::new(7, Some(0x3000), Some(3), None, 8, None)),
        Err("ReadProcessMemory at 0x3000: no".to_string())
    );
    assert_eq!(
        p.run(Trace::new(7, Some(0x1000), Some(4), None, 8, None)),
        Err("ReadProcessMemory at 0x2020: no".to_string())
    );
    p.refuse = "inspect";
    assert_eq!(
        p.run(Trace::new(7, Some(0x1000), Some(3), None, 8, None)),
        Err("OpenProcess for resolve(7): no".to_string())
    );
}

#[test]
fn setting_up_fails_with_what_was_refused() {
    assert_eq!(refused("handler", Vec::new()), (Err("SetConsoleCtrlHandler: no".to_string()), ORIGINAL));
    assert_eq!(refused("open", Vec::new()), (Err("OpenProcess(7): no".to_string()), ORIGINAL));
    assert_eq!(refused("plant", Vec::new()), (Err("WriteProcessMemory at 0x5000: no".to_string()), ORIGINAL));
    assert_eq!(refused("write", Vec::new()), (Err("short write at 0x5000".to_string()), ORIGINAL));
    let mut p = process(Vec::new());
    p.memory.remove(&TARGET);
    assert_eq!(p.run(by_address(0, None)), Err("ReadProcessMemory at 0x5000: no".to_string()));
}

#[test]
fn a_refused_debugger_leaves_the_breakpoint() {
    assert_eq!(refused("attach", Vec::new()), (Err("DebugActiveProcess(7): no".to_string()), 0xcc));
}

#[test]
fn a_failing_trace_gives_the_byte_back() {
    let events = || vec![hit(MAIN)];
    assert_eq!(refused("thread", events()), (Err("OpenThread(41): no".to_string()), ORIGINAL));
    assert_eq!(refused("get", events()), (Err("GetThreadContext failed".to_string()), ORIGINAL));
    assert_eq!(refused("set", events()), (Err("SetThreadContext failed".to_string()), ORIGINAL));
    assert_eq!(refused("continue", events()), (Err("ContinueDebugEvent: no".to_string()), ORIGINAL));
    assert_eq!(
        refused("give back", events()),
        (Err("WriteProcessMemory at 0x5000: no".to_string()), 0xcc)
    );
}

#[test]
fn a_breakpoint_that_cannot_be_put_back_ends_the_trace() {
    let mut p = process(Vec::new());
    let mut t = by_address(0, None);
    while !matches!(t.action(), ActionOf::Poll) {
        let event = p.perform(t.action());
        t = t.advance(event);
    }
    t = t.advance(step(SIDE));
    assert_eq!(t.action(), ActionOf::Write { addr: TARGET, byte: 0xcc });
    t = t.advance(EventOf::Written(0));
    assert_eq!(t.action(), ActionOf::Write { addr: TARGET, byte: ORIGINAL });
    assert_eq!(p.run(t), Err("short write at 0x5000".to_string()));
}

#[test]
fn hits_stop_at_the_limit() {
    for (max, hits) in [(0u64, 1usize), (1, 1), (2, 2)] {
        let events = vec![hit(MAIN), step(MAIN), hit(SIDE), step(SIDE), hit(MAIN), step(MAIN)];
        let mut p = process(events);
        assert_eq!(p.run(by_address(0, Some(max))), Ok(()));
        assert_eq!(p.out.len(), hits);
        let last: Vec<&str> = p.err[1..].iter().map(|s| s.as_str()).collect();
        assert_eq!(last, ["max-hits reached, detaching", &format!("done \u{2014} {hits} hit(s)")]);
        assert_eq!(p.memory[&TARGET], ORIGINAL);
    }
}

#[test]
fn a_second_thread_takes_the_place_of_the_first() {
    let mut p = process(vec![hit(MAIN), hit(SIDE), step(SIDE), step(MAIN)]);
    assert_eq!(p.run(by_address(0, None)), Ok(()));
    assert_eq!(p.out.len(), 2);
    assert_eq!(p.threads, Vec::<usize>::new());
    assert_eq!(p.bytes_while_waiting, [0xcc, ORIGINAL, ORIGINAL, 0xcc, 0xcc]);
    assert_eq!(p.answers.len(), 4);
}

#[test]
fn other_events_are_passed_on() {
    let mut p = process(vec![
        exception(MAIN, ExceptionKind::Breakpoint, TARGET + 1),
        exception(MAIN, ExceptionKind::Other, TARGET),
        report(DebugKind::Other),
    ]);
    assert_eq!(p.run(by_address(0, None)), Ok(()));
    assert_eq!(p.answers, [(41, 0x0001_0002), (41, 0x8001_0001), (41, 0x0001_0002)]);
    assert_eq!(DBG_EXCEPTION_NOT_HANDLED, 0x8001_0001);
    assert_eq!(p.out, Vec::<String>::new());
    assert_eq!(p.bytes_while_waiting, [0xcc; 4]);
}

#[test]
fn an_exited_target_ends_the_trace_unanswered() {
    let mut p = process(vec![hit(MAIN), step(MAIN), report(DebugKind::ExitProcess), hit(MAIN)]);
    assert_eq!(p.run(by_address(0, None)), Ok(()));
    assert_eq!(p.err[1..], ["target exited".to_string(), "done \u{2014} 1 hit(s)".to_string()]);
    assert_eq!(p.answers.len(), 2);
    assert_eq!(p.events.len(), 1);
}

#[test]
fn an_unreadable_stack_is_left_out() {
    let mut p = process(vec![hit(MAIN)]);
    for a in STACK as usize..STACK as usize + 16 {
        p.memory.remove(&a);
    }
    assert_eq!(p.run(by_address(8, None)), Ok(()));
    assert_eq!(p.out.len(), 1);
    assert!(p.out[0].contains("ret=0x0000000000000000"));
}

#[test]
fn an_instruction_pointer_of_zero_stays() {
    let mut t = by_address(0, None);
    for event in [
        EventOf::Done,
        EventOf::Done,
        EventOf::Read { count: 1, bytes: vec![ORIGINAL] },
        EventOf::Written(1),
        EventOf::Done,
        EventOf::Done,
        hit(MAIN),
        EventOf::Thread(5),
        EventOf::Context(Ctx::new(CONTEXT_FULL)),
        EventOf::Failed(String::new()),
        EventOf::Done,
        EventOf::Written(1),
    ] {
        assert!(t.accepts(&event));
        t = t.advance(event);
    }
    match t.action() {
        ActionOf::SetContext { thread, ctx } => {
            assert_eq!(thread, 5);
            assert_eq!(ctx.rip(), 0);
            assert_eq!(ctx.eflags(), 0x100);
        }
        other => panic!("{other:?}"),
    }
}

#[test]
fn replies_must_answer_the_action_of_a_trace() {
    let t = by_address(2, None);
    assert!(t.accepts(&EventOf::Done));
    assert!(t.accepts(&EventOf::Failed(String::new())));
    assert!(!t.accepts(&EventOf::Written(1)));
    assert!(!t.accepts(&EventOf::Idle));
    let t = t.advance(EventOf::Done).advance(EventOf::Done);
    assert!(!t.accepts(&EventOf::Read { count: 1, bytes: Vec::new() }));
    assert!(t.accepts(&EventOf::Read { count: 0, bytes: vec![0] }));
    let t = t.advance(EventOf::Read { count: 0, bytes: vec![0] });
    assert_eq!(t.action(), ActionOf::CloseProcess);
    assert!(!t.accepts(&EventOf::Failed(String::new())));
    let t = t.advance(EventOf::Done);
    assert_eq!(t.action(), ActionOf::Return(Err("short read at 0x5000".to_string())));
    assert!(!t.accepts(&EventOf::Done));
}
