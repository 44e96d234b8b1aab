//! What holds of every dump.

use crate::context_laws::law_fields_by_bytes;
use crate::dump::{dump_accepts, dump_action, dump_next, dump_start, DumpPhase, DumpView};
use crate::memory::slot_addr;
use crate::modules::{listed_spans, sorted, RawModuleView, SpanView};
use crate::report::{dump_header, failed_row, slot_row};
use crate::session::{answers_read, qword_reply, Access, ActionOf, ActionView, EventOf, EventView};
use crate::session_laws::fits;
use crate::text_laws::{lemma_written, short_numeral};
use vstd::prelude::*;

verus! {

/// A dump only ever looks: it opens the target to read it, lists its modules,
/// reads, writes lines and closes the target.
pub proof fn law_dumps_only_read(d: DumpView)
    ensures
        match dump_action(d) {
            ActionOf::OpenProcess(access) => access == Access::Inspect,
            ActionOf::CloseProcess => true,
            ActionOf::Snapshot => true,
            ActionOf::Read { .. } => true,
            ActionOf::Print(_) => true,
            ActionOf::Return(_) => true,
            _ => false,
        },
{
}

/// A slot whose address fits the machine word lies eight bytes behind the one
/// before it.
pub proof fn law_slot_addresses(vtable: u64, slot: usize)
    requires
        vtable + 8 * slot <= usize::MAX,
    ensures
        slot_addr(vtable, slot) == vtable + 8 * slot,
{
    let n: nat = slot as nat * 8;
    assert(n < usize::MAX + 1);
    assert(n % (usize::MAX + 1) as nat == n) by {
        vstd::arithmetic::div_mod::lemma_small_mod(n, (usize::MAX + 1) as nat);
    }
}

/// The address of a slot is counted in machine words, which start again at zero
/// behind the last.
pub proof fn law_slot_addresses_wrap(vtable: u64, slot: usize)
    requires
        vtable <= usize::MAX,
    ensures
        slot_addr(vtable, slot) == (vtable + 8 * slot) % (usize::MAX + 1),
{
    let m: int = usize::MAX + 1;
    let n: int = slot * 8;
    vstd::arithmetic::div_mod::lemma_fundamental_div_mod(n, m);
    vstd::arithmetic::div_mod::lemma_mod_bound(n, m);
    let k: int = n % m;
    assert(slot.wrapping_mul(8) == k);
    vstd::arithmetic::div_mod::lemma_add_mod_noop_right(vtable as int, n, m);
    if vtable + k < m {
        vstd::arithmetic::div_mod::lemma_small_mod((vtable + k) as nat, m as nat);
    } else {
        vstd::arithmetic::div_mod::lemma_mod_multiples_vanish(-1, vtable + k, m);
        vstd::arithmetic::div_mod::lemma_small_mod((vtable + k - m) as nat, m as nat);
    }
}

/// The state after a sequence of replies.
pub open spec fn reached(d: DumpView, events: Seq<EventView>) -> DumpView
    decreases events.len(),
{
    if events.len() == 0 {
        d
    } else {
        reached(dump_next(d, events[0]), events.skip(1))
    }
}

/// The lines written while a sequence of replies came in.
pub open spec fn printed(d: DumpView, events: Seq<EventView>) -> Seq<Seq<char>>
    decreases events.len(),
{
    if events.len() == 0 {
        Seq::empty()
    } else {
        (match dump_action(d) {
            ActionOf::Print(line) => seq![line],
            _ => Seq::empty(),
        }) + printed(dump_next(d, events[0]), events.skip(1))
    }
}

/// Whether each reply of a sequence answers what was asked.
pub open spec fn answered(d: DumpView, events: Seq<EventView>) -> bool
    decreases events.len(),
{
    events.len() == 0 || dump_accepts(d, events[0]) && answered(
        dump_next(d, events[0]),
        events.skip(1),
    )
}

/// A target as a dump sees it: its modules as they are listed, and the bytes that
/// can be read, by their addresses.
pub struct Target {
    pub listed: Seq<RawModuleView>,
    pub memory: Map<int, u8>,
}

/// Whether `n` bytes from `addr` on can be read.
pub open spec fn readable(memory: Map<int, u8>, addr: int, n: int) -> bool {
    forall|a: int| addr <= a < addr + n ==> #[trigger] memory.contains_key(a)
}

/// The number that eight bytes from `addr` on write, least significant first.
pub open spec fn word_at(memory: Map<int, u8>, addr: int) -> int {
    memory[addr] + 0x100 * memory[addr + 1] + 0x1_0000 * memory[addr + 2] + 0x100_0000 * memory[addr
        + 3] + 0x1_0000_0000 * memory[addr + 4] + 0x100_0000_0000 * memory[addr + 5]
        + 0x1_0000_0000_0000 * memory[addr + 6] + 0x100_0000_0000_0000 * memory[addr + 7]
}

/// Whether a reply tells what the target holds: bytes that can all be read are
/// read, and come as they are; of other bytes some are missing.
pub open spec fn tells(target: Target, d: DumpView, e: EventView) -> bool {
    match dump_action(d) {
        ActionOf::Read { addr, len } => match e {
            EventOf::Read { count, bytes } => {
                &&& readable(target.memory, addr as int, len as int) <==> count == len
                &&& count == len ==> forall|k: int|
                    0 <= k < len ==> #[trigger] bytes[k] == target.memory[addr + k]
            },
            _ => !readable(target.memory, addr as int, len as int),
        },
        ActionOf::Snapshot => e matches EventOf::Modules(m) ==> m == target.listed,
        _ => true,
    }
}

proof fn lemma_reply_tells(target: Target, d: DumpView, e: EventView, addr: usize)
    requires
        dump_action(d) == (ActionView::Read { addr, len: 8 }),
        answers_read(e, 8),
        tells(target, d, e),
    ensures
        qword_reply(addr, e) is Ok <==> readable(target.memory, addr as int, 8),
        qword_reply(addr, e) is Ok ==> qword_reply(addr, e)->Ok_0 == word_at(
            target.memory,
            addr as int,
        ),
{
    if let EventOf::Read { count, bytes } = e {
        law_fields_by_bytes(bytes, 0);
    }
}

/// Whether every reply of a sequence tells what the target holds.
pub open spec fn all_tell(target: Target, d: DumpView, events: Seq<EventView>) -> bool
    decreases events.len(),
{
    events.len() == 0 || tells(target, d, events[0]) && all_tell(
        target,
        dump_next(d, events[0]),
        events.skip(1),
    )
}

/// The rows from `slot` on: one for each slot up to `entries`, or up to the first
/// that cannot be read.
pub open spec fn rows(
    modules: Seq<SpanView>,
    memory: Map<int, u8>,
    vtable: u64,
    slot: int,
    entries: usize,
) -> Seq<Seq<char>>
    decreases entries - slot,
{
    if slot >= entries {
        Seq::empty()
    } else {
        let addr = slot_addr(vtable, slot as usize);
        if readable(memory, addr as int, 8) {
            seq![slot_row(modules, slot as usize, word_at(memory, addr as int) as u64)] + rows(
                modules,
                memory,
                vtable,
                slot + 1,
                entries,
            )
        } else {
            seq![failed_row(slot as usize, addr)]
        }
    }
}

/// What a dump shows of an object that can be read: what stands above the rows,
/// and the rows.
pub open spec fn whole_dump(target: Target, obj: usize, entries: usize) -> Seq<Seq<char>> {
    let modules = sorted(listed_spans(target.listed));
    let vtable = word_at(target.memory, obj as int) as u64;
    seq![dump_header(modules, obj, vtable, entries)] + rows(
        modules,
        target.memory,
        vtable,
        0,
        entries,
    )
}

/// What a dump that has the modules is still going to show.
spec fn to_come(target: Target, d: DumpView) -> Seq<Seq<char>> {
    match d.phase {
        DumpPhase::ReadVtable => if readable(target.memory, d.obj as int, 8) {
            let vtable = word_at(target.memory, d.obj as int) as u64;
            seq![dump_header(d.modules, d.obj, vtable, d.entries)] + rows(
                d.modules,
                target.memory,
                vtable,
                0,
                d.entries,
            )
        } else {
            Seq::empty()
        },
        DumpPhase::ShowHeader { vtable } => seq![
            dump_header(d.modules, d.obj, vtable, d.entries),
        ] + rows(d.modules, target.memory, vtable, 0, d.entries),
        DumpPhase::ReadSlot { vtable, slot } => rows(
            d.modules,
            target.memory,
            vtable,
            slot as int,
            d.entries,
        ),
        DumpPhase::ShowSlot { vtable, slot, func } => seq![slot_row(d.modules, slot, func)] + rows(
            d.modules,
            target.memory,
            vtable,
            slot + 1,
            d.entries,
        ),
        DumpPhase::ShowFailed { slot, addr } => seq![failed_row(slot, addr)],
        _ => Seq::empty(),
    }
}

spec fn past_listing(d: DumpView) -> bool {
    &&& !(d.phase is Open)
    &&& !(d.phase is Snapshot)
    &&& d.phase matches DumpPhase::ReadSlot { slot, .. } ==> slot < d.entries
}

proof fn lemma_shows_what_is_to_come(target: Target, d: DumpView, events: Seq<EventView>)
    requires
        past_listing(d),
        answered(d, events),
        all_tell(target, d, events),
        reached(d, events).phase is Finished,
    ensures
        printed(d, events) == to_come(target, d),
    decreases events.len(),
{
    if events.len() > 0 {
        match d.phase {
            DumpPhase::ReadVtable => lemma_reply_tells(target, d, events[0], d.obj),
            DumpPhase::ReadSlot { vtable, slot } => lemma_reply_tells(
                target,
                d,
                events[0],
                slot_addr(vtable, slot),
            ),
            _ => {},
        }
        let d1 = dump_next(d, events[0]);
        lemma_shows_what_is_to_come(target, d1, events.skip(1));
        assert(printed(d, events) =~= to_come(target, d));
    }
}

/// The outcome of a dump, once it is settled.
spec fn outcome(d: DumpView) -> Option<Result<(), Seq<char>>> {
    match d.phase {
        DumpPhase::Close { outcome } => Some(outcome),
        DumpPhase::Finished { outcome } => Some(outcome),
        _ => None,
    }
}

proof fn lemma_outcome_stays(d: DumpView, events: Seq<EventView>)
    requires
        answered(d, events),
    ensures
        outcome(d) is Some ==> outcome(reached(d, events)) == outcome(d) && printed(
            d,
            events,
        ).len() == 0,
    decreases events.len(),
{
    if events.len() > 0 {
        lemma_outcome_stays(dump_next(d, events[0]), events.skip(1));
    }
}

proof fn lemma_settled(target: Target, d: DumpView, events: Seq<EventView>)
    requires
        answered(d, events),
        all_tell(target, d, events),
        reached(d, events).phase is Finished,
        past_listing(d),
        outcome(d) is None,
    ensures
        if d.phase is ReadVtable && !readable(target.memory, d.obj as int, 8) {
            outcome(reached(d, events))->0 is Err
        } else {
            outcome(reached(d, events)) == Some(Ok::<(), Seq<char>>(()))
        },
    decreases events.len(),
{
    if events.len() > 0 {
        match d.phase {
            DumpPhase::ReadVtable => lemma_reply_tells(target, d, events[0], d.obj),
            DumpPhase::ReadSlot { vtable, slot } => lemma_reply_tells(
                target,
                d,
                events[0],
                slot_addr(vtable, slot),
            ),
            _ => {},
        }
        let d1 = dump_next(d, events[0]);
        if outcome(d1) is Some {
            lemma_outcome_stays(d1, events.skip(1));
        } else {
            lemma_settled(target, d1, events.skip(1));
        }
    }
}

/// A dump of a target that can be opened and listed ends well exactly if the
/// object can be read, and then has shown the whole dump; otherwise it has shown
/// nothing.
pub proof fn law_dumps_are_whole(
    target: Target,
    pid: u32,
    obj: usize,
    entries: usize,
    events: Seq<EventView>,
)
    requires
        answered(dump_start(pid, obj, entries), events),
        all_tell(target, dump_start(pid, obj, entries), events),
        reached(dump_start(pid, obj, entries), events).phase is Finished,
        events.len() > 1,
        events[0] is Done,
        events[1] is Modules,
    ensures
        ({
            let d = dump_start(pid, obj, entries);
            let end = reached(d, events).phase;
            if readable(target.memory, obj as int, 8) {
                &&& end == (DumpPhase::Finished::<Seq<char>> { outcome: Ok(()) })
                &&& printed(d, events) == whole_dump(target, obj, entries)
            } else {
                &&& end matches DumpPhase::Finished { outcome } && outcome is Err
                &&& printed(d, events) == Seq::<Seq<char>>::empty()
            }
        }),
{
    reveal_with_fuel(reached, 3);
    reveal_with_fuel(printed, 3);
    reveal_with_fuel(answered, 3);
    reveal_with_fuel(all_tell, 3);
    let d = dump_start(pid, obj, entries);
    assert(events.len() > 0);
    let d1 = dump_next(d, events[0]);
    let e1 = events.skip(1);
    assert(e1.len() > 0);
    assert(e1[0] == events[1]);
    let d2 = dump_next(d1, e1[0]);
    let e2 = e1.skip(1);
    lemma_shows_what_is_to_come(target, d2, e2);
    lemma_settled(target, d2, e2);
    assert(d2.phase is ReadVtable && d2.modules == sorted(listed_spans(target.listed)));
    let end = reached(d, events);
    assert(end == reached(d2, e2));
    assert(end.phase == (DumpPhase::Finished { outcome: outcome(end)->0 }));
    assert(printed(d1, e1) =~= printed(d2, e2));
    assert(printed(d, events) =~= printed(d1, e1));
}

/// A dump that cannot open the target or list its modules shows nothing and
/// fails.
pub proof fn law_refused_dumps_show_nothing(
    pid: u32,
    obj: usize,
    entries: usize,
    events: Seq<EventView>,
)
    requires
        answered(dump_start(pid, obj, entries), events),
        reached(dump_start(pid, obj, entries), events).phase is Finished,
        events[0] is Failed || events.len() > 1 && events[1] is Failed,
    ensures
        ({
            let d = dump_start(pid, obj, entries);
            &&& reached(d, events).phase matches DumpPhase::Finished { outcome } && outcome is Err
            &&& printed(d, events) == Seq::<Seq<char>>::empty()
        }),
{
    reveal_with_fuel(reached, 3);
    reveal_with_fuel(printed, 3);
    reveal_with_fuel(answered, 3);
    let d = dump_start(pid, obj, entries);
    assert(events.len() > 0);
    let d1 = dump_next(d, events[0]);
    let e1 = events.skip(1);
    if events[0] is Failed {
        lemma_outcome_stays(d1, e1);
    } else {
        assert(e1.len() > 0);
        assert(e1[0] == events[1]);
        lemma_outcome_stays(dump_next(d1, e1[0]), e1.skip(1));
    }
    assert(printed(d, events) =~= Seq::<Seq<char>>::empty());
}

/// How many replies a dump still takes at most.
pub open spec fn steps_left(d: DumpView) -> int {
    match d.phase {
        DumpPhase::Open => 2 * d.entries + 5,
        DumpPhase::Snapshot => 2 * d.entries + 4,
        DumpPhase::ReadVtable => 2 * d.entries + 3,
        DumpPhase::ShowHeader { .. } => 2 * d.entries + 2,
        DumpPhase::ReadSlot { slot, .. } => if slot < d.entries {
            2 * (d.entries - slot) + 1
        } else {
            3
        },
        DumpPhase::ShowSlot { slot, .. } => if slot < d.entries {
            2 * (d.entries - slot)
        } else {
            2
        },
        DumpPhase::ShowFailed { .. } => 2,
        DumpPhase::Close { .. } => 1,
        DumpPhase::Finished { .. } => 0,
    }
}

/// Every dump ends.
pub proof fn law_dumps_end(d: DumpView, events: Seq<EventView>)
    requires
        answered(d, events),
    ensures
        events.len() <= steps_left(d),
    decreases events.len(),
{
    if events.len() > 0 {
        law_dumps_end(dump_next(d, events[0]), events.skip(1));
    }
}

/// The replies that a dump takes are those that fit what it does.
pub proof fn law_dump_replies(d: DumpView, e: EventView)
    ensures
        dump_accepts(d, e) <==> fits(dump_action(d), e),
{
}

/// A dump starts by opening the target. What it was asked for never changes, and
/// its modules only when they are listed.
pub proof fn law_dumps_keep_their_request(
    pid: u32,
    obj: usize,
    entries: usize,
    d: DumpView,
    e: EventView,
)
    ensures
        ({
            let d0 = dump_start(pid, obj, entries);
            &&& dump_action(d0) == ActionView::OpenProcess(Access::Inspect)
            &&& d0.pid == pid && d0.obj == obj && d0.entries == entries && d0.modules.len() == 0
        }),
        dump_next(d, e).pid == d.pid,
        dump_next(d, e).obj == d.obj,
        dump_next(d, e).entries == d.entries,
        !(dump_action(d) is Snapshot) ==> dump_next(d, e).modules == d.modules,
{
}

/// How often the target was closed while a sequence of replies came in.
pub open spec fn closings(d: DumpView, events: Seq<EventView>) -> nat
    decreases events.len(),
{
    if events.len() == 0 {
        0
    } else {
        (if dump_action(d) is CloseProcess {
            1nat
        } else {
            0
        }) + closings(dump_next(d, events[0]), events.skip(1))
    }
}

proof fn lemma_closings(d: DumpView, events: Seq<EventView>)
    requires
        !(d.phase is Open),
        answered(d, events),
        reached(d, events).phase is Finished,
    ensures
        closings(d, events) == (if d.phase is Finished {
            0nat
        } else {
            1
        }),
    decreases events.len(),
{
    if events.len() > 0 {
        lemma_closings(dump_next(d, events[0]), events.skip(1));
    }
}

/// A dump that has ended has closed the target once, if it could open it, and
/// then does nothing but return.
pub proof fn law_dumps_close(pid: u32, obj: usize, entries: usize, events: Seq<EventView>)
    requires
        answered(dump_start(pid, obj, entries), events),
        reached(dump_start(pid, obj, entries), events).phase is Finished,
    ensures
        closings(dump_start(pid, obj, entries), events) == (if events[0] is Done {
            1nat
        } else {
            0
        }),
        dump_action(reached(dump_start(pid, obj, entries), events)) is Return,
{
    let d = dump_start(pid, obj, entries);
    assert(events.len() > 0);
    lemma_closings(dump_next(d, events[0]), events.skip(1));
}

/// Once the target is closed nothing is left but to return.
pub proof fn law_closing_comes_last(d: DumpView)
    requires
        dump_action(d) is CloseProcess,
    ensures
        dump_action(dump_next(d, EventOf::Done)) is Return,
{
}

/// A dump that fails ends with a message that tells what was refused: opening
/// the target, listing its modules or reading the object.
pub proof fn law_dump_messages(
    pid: u32,
    obj: usize,
    entries: usize,
    events: Seq<EventView>,
    p: Seq<char>,
    h: Seq<char>,
)
    requires
        answered(dump_start(pid, obj, entries), events),
        reached(dump_start(pid, obj, entries), events).phase is Finished,
        short_numeral(p, 10, pid as nat),
        short_numeral(h, 16, obj as nat),
    ensures
        ({
            let end = dump_action(reached(dump_start(pid, obj, entries), events));
            &&& events[0] matches EventOf::Failed(m) ==> end == ActionView::Return(
                Err("OpenProcess("@ + p + "): "@ + m),
            )
            &&& events[0] is Done && (events[1] is Failed) ==> end == ActionView::Return(
                Err("snapshot pid "@ + p + ": "@ + events[1]->Failed_0),
            )
            &&& events[0] is Done && events[1] is Modules && events[2] is Failed ==> end
                == ActionView::Return(
                Err("ReadProcessMemory at 0x"@ + h + ": "@ + events[2]->Failed_0),
            )
            &&& events[0] is Done && events[1] is Modules && events[2] is Read
                && events[2]->count != 8 ==> end == ActionView::Return(
                Err("short read at 0x"@ + h),
            )
        }),
{
    reveal_with_fuel(reached, 4);
    reveal_with_fuel(answered, 4);
    lemma_written(pid as u64, p, p, p);
    lemma_written(obj as u64, h, h, h);
    let d = dump_start(pid, obj, entries);
    assert(events.len() > 0);
    let d1 = dump_next(d, events[0]);
    let e1 = events.skip(1);
    if events[0] is Failed {
        lemma_outcome_stays(d1, e1);
    } else {
        assert(e1.len() > 0);
        assert(e1[0] == events[1]);
        let d2 = dump_next(d1, e1[0]);
        let e2 = e1.skip(1);
        if events[1] is Failed {
            lemma_outcome_stays(d2, e2);
        } else {
            assert(e2.len() > 0);
            assert(e2[0] == events[2]);
            lemma_outcome_stays(dump_next(d2, e2[0]), e2.skip(1));
        }
    }
}

} // verus!
