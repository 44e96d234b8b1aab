use std::collections::HashMap;

use vtable_trace::dump::Dump;
use vtable_trace::memory::slot_address;
use vtable_trace::modules::RawModule;
use vtable_trace::session::{Access, ActionOf, EventOf};

struct Target {
    open: bool,
    listed: bool,
    memory: HashMap<usize, u64>,
}

/// Runs a dump to its end; gives its result, its lines and the number of replies.
fn run(target: &Target, entries: usize) -> (Result<(), String>, Vec<String>, usize) {
    let mut d = Dump::new(77, 0x1000, entries);
    let mut lines = Vec::new();
    let mut steps = 0usize;
    let mut open = false;
    loop {
        let event = match d.action() {
            ActionOf::OpenProcess(access) => {
                assert_eq!(access, Access::Inspect);
                open = target.open;
                if target.open { EventOf::Done } else { EventOf::Failed("denied".to_string()) }
            }
            ActionOf::Snapshot => {
                if target.listed {
                    EventOf::Modules(vec![
                        RawModule { name: vec![0x62, 0], base: 0x9000, size: 0x1000 },
                        RawModule { name: vec![0x61], base: 0x2000, size: 0x1000 },
                    ])
                } else {
                    EventOf::Failed("gone".to_string())
                }
            }
            ActionOf::Read { addr, len } => {
                assert_eq!(len, 8);
                match target.memory.get(&addr) {
                    Some(v) => EventOf::Read { count: 8, bytes: v.to_le_bytes().to_vec() },
                    None => EventOf::Failed("partial copy".to_string()),
                }
            }
            ActionOf::Print(line) => {
                lines.push(line);
                EventOf::Done
            }
            ActionOf::CloseProcess => {
                assert!(open);
                open = false;
                EventOf::Done
            }
            ActionOf::Return(outcome) => {
                assert!(!open);
                return (outcome, lines, steps);
            }
            other => panic!("a dump only reads: {other:?}"),
        };
        assert!(d.accepts(&event));
        d = d.advance(event);
        steps += 1;
    }
}

fn target(memory: &[(usize, u64)]) -> Target {
    Target { open: true, listed: true, memory: memory.iter().cloned().collect() }
}

const HEADER: &str = "object  : 0x0000000000001000\nvtable  : 0x0000000000002010\nvtable in: a +0x10\nentries : 4\n\nSLOT ABSOLUTE           MODULE       OFFSET";

#[test]
fn dump_shows_every_slot() {
    let t = target(&[(0x1000, 0x2010), (0x2010, 0x9123), (0x2018, 0), (0x2020, 0x77), (0x2028, 0x2fff)]);
    let (outcome, lines, steps) = run(&t, 4);
    assert_eq!(outcome, Ok(()));
    assert_eq!(
        lines,
        [
            HEADER,
            "0    0x0000000000009123  b            +0x123",
            "1    0x0000000000000000  (null)",
            "2    0x0000000000000077  (unmapped)",
            "3    0x0000000000002fff  a            +0xfff",
        ]
    );
    assert_eq!(steps, 2 * 4 + 5);
}

#[test]
fn dump_stops_at_a_slot_that_cannot_be_read() {
    let t = target(&[(0x1000, 0x2010), (0x2010, 0x9123), (0x2020, 0x77)]);
    let (outcome, lines, _) = run(&t, 4);
    assert_eq!(outcome, Ok(()));
    assert_eq!(
        lines,
        [HEADER, "0    0x0000000000009123  b            +0x123", "1    (read failed at 0x2018)"]
    );
}

#[test]
fn dump_of_no_slots_shows_the_header() {
    let (outcome, lines, _) = run(&target(&[(0x1000, 0x2010)]), 0);
    assert_eq!(outcome, Ok(()));
    assert_eq!(lines.len(), 1);
}

#[test]
fn dump_fails_with_what_was_refused() {
    let mut t = target(&[]);
    assert_eq!(
        run(&t, 4),
        (Err("ReadProcessMemory at 0x1000: partial copy".to_string()), Vec::new(), 4)
    );
    t.listed = false;
    assert_eq!(run(&t, 4), (Err("snapshot pid 77: gone".to_string()), Vec::new(), 3));
    t.open = false;
    assert_eq!(run(&t, 4), (Err("OpenProcess(77): denied".to_string()), Vec::new(), 1));
}

#[test]
fn slot_addresses_are_eight_bytes_apart() {
    assert_eq!(slot_address(0x2010, 0), 0x2010);
    assert_eq!(slot_address(0x2010, 3), 0x2028);
    assert_eq!(slot_address(u64::MAX - 7, 1), 0);
}

#[test]
fn replies_must_answer_the_action() {
    let d = Dump::new(1, 2, 3);
    assert!(d.accepts(&EventOf::Done));
    assert!(!d.accepts(&EventOf::Idle));
    let d = d.advance(EventOf::Done);
    assert!(!d.accepts(&EventOf::Done));
    let d = d.advance(EventOf::Modules(Vec::new()));
    assert!(!d.accepts(&EventOf::Read { count: 8, bytes: vec![0; 7] }));
    assert!(d.accepts(&EventOf::Read { count: 3, bytes: vec![0; 8] }));
    let d = d.advance(EventOf::Read { count: 3, bytes: vec![0; 8] });
    assert_eq!(d.action(), ActionOf::CloseProcess);
    let d = d.advance(EventOf::Done);
    assert_eq!(d.action(), ActionOf::Return(Err("short read at 0x2".to_string())));
    assert!(!d.accepts(&EventOf::Done));
}
