//! What holds of every list of modules.

use crate::modules::{
    ascending, lemma_insert_sorted, listed_spans, located, sorted, sorted_by_base, starting_at,
    RawModuleView, SpanView,
};
use crate::utf16::{before_zero, decoded};
use vstd::prelude::*;

verus! {

/// A list counts a span as often as the part of it with that span's base does.
proof fn lemma_count(s: Seq<SpanView>, x: SpanView)
    ensures
        s.to_multiset().count(x) == starting_at(s, x.base).to_multiset().count(x),
    decreases s.len(),
{
    broadcast use vstd::seq_lib::group_to_multiset_ensures;

    reveal(Seq::filter);
    if s.len() > 0 {
        let rest = s.drop_last();
        lemma_count(rest, x);
        assert(s =~= rest.push(s.last()));
    }
}

/// Sorting neither adds nor drops a module.
pub proof fn law_sorting_keeps_all(s: Seq<SpanView>, t: Seq<SpanView>)
    requires
        sorted_by_base(s, t),
    ensures
        t.to_multiset() == s.to_multiset(),
        t.len() == s.len(),
{
    broadcast use vstd::seq_lib::group_to_multiset_ensures;

    assert forall|x: SpanView| t.to_multiset().count(x) == s.to_multiset().count(x) by {
        lemma_count(s, x);
        lemma_count(t, x);
        assert(starting_at(t, x.base) == starting_at(s, x.base));
    }
    assert(t.to_multiset() =~= s.to_multiset());
    assert(t.to_multiset().len() == t.len() && s.to_multiset().len() == s.len());
}

/// The part of a list that starts at `base`, split at the list's first span.
proof fn lemma_starting_at_first(t: Seq<SpanView>, base: usize)
    requires
        t.len() > 0,
    ensures
        starting_at(t, base) == (if t[0].base == base {
            seq![t[0]] + starting_at(t.skip(1), base)
        } else {
            starting_at(t.skip(1), base)
        }),
{
    let p = |m: SpanView| m.base == base;
    let one = seq![t[0]];
    assert(t =~= one + t.skip(1));
    Seq::filter_distributes_over_add(one, t.skip(1), p);
    reveal(Seq::filter);
    assert(one.drop_last() =~= Seq::<SpanView>::empty());
    assert(one.drop_last().filter(p) =~= Seq::<SpanView>::empty());
    if t[0].base == base {
        assert(one.filter(p) =~= one);
    } else {
        assert(one.filter(p) =~= Seq::<SpanView>::empty());
        assert(one.filter(p) + t.skip(1).filter(p) =~= t.skip(1).filter(p));
    }
}

/// Something starts at `base` only where a span of the list does.
proof fn lemma_starting_at_member(t: Seq<SpanView>, base: usize)
    requires
        starting_at(t, base).len() > 0,
    ensures
        exists|i: int| 0 <= i < t.len() && (#[trigger] t[i]).base == base,
    decreases t.len(),
{
    reveal(Seq::filter);
    if t.len() > 0 {
        lemma_starting_at_first(t, base);
        if t[0].base != base {
            lemma_starting_at_member(t.skip(1), base);
            let i = choose|i: int|
                0 <= i < t.skip(1).len() && (#[trigger] t.skip(1)[i]).base == base;
            assert(t[i + 1].base == base);
        }
    }
}

proof fn lemma_first_is_lowest(t: Seq<SpanView>, u: Seq<SpanView>)
    requires
        ascending(u),
        t.len() > 0,
        forall|base: usize| #[trigger] starting_at(t, base) == starting_at(u, base),
    ensures
        u.len() > 0,
        u[0].base <= t[0].base,
{
    lemma_starting_at_first(t, t[0].base);
    assert(starting_at(t, t[0].base) == starting_at(u, t[0].base));
    lemma_starting_at_member(u, t[0].base);
    let i = choose|i: int| 0 <= i < u.len() && (#[trigger] u[i]).base == t[0].base;
    assert(u[0].base <= u[i].base);
}

proof fn lemma_sorted_unique(t: Seq<SpanView>, u: Seq<SpanView>)
    requires
        ascending(t),
        ascending(u),
        forall|base: usize| #[trigger] starting_at(t, base) == starting_at(u, base),
    ensures
        t == u,
    decreases t.len(),
{
    if t.len() > 0 {
        lemma_first_is_lowest(t, u);
    }
    if u.len() > 0 {
        lemma_first_is_lowest(u, t);
        let b = t[0].base;
        lemma_starting_at_first(t, b);
        lemma_starting_at_first(u, b);
        assert(starting_at(t, b) == starting_at(u, b));
        assert(starting_at(t, b)[0] == t[0]);
        assert(starting_at(u, b)[0] == u[0]);
        assert forall|base: usize| #[trigger]
            starting_at(t.skip(1), base) == starting_at(u.skip(1), base) by {
            lemma_starting_at_first(t, base);
            lemma_starting_at_first(u, base);
            assert(starting_at(t, base) == starting_at(u, base));
            if base == b {
                assert(starting_at(t.skip(1), base) =~= starting_at(t, base).skip(1));
                assert(starting_at(u.skip(1), base) =~= starting_at(u, base).skip(1));
            }
        }
        assert forall|i: int, j: int| 0 <= i <= j < t.skip(1).len() implies (#[trigger] t.skip(
            1,
        )[i]).base <= (#[trigger] t.skip(1)[j]).base by {
            assert(t[i + 1].base <= t[j + 1].base);
        }
        assert forall|i: int, j: int| 0 <= i <= j < u.skip(1).len() implies (#[trigger] u.skip(
            1,
        )[i]).base <= (#[trigger] u.skip(1)[j]).base by {
            assert(u[i + 1].base <= u[j + 1].base);
        }
        lemma_sorted_unique(t.skip(1), u.skip(1));
        assert(t =~= seq![t[0]] + t.skip(1));
        assert(u =~= seq![u[0]] + u.skip(1));
    } else {
        assert(t =~= u);
    }
}

/// In an ascending list there is a place behind everything that starts no later
/// than `m`.
proof fn lemma_place(t: Seq<SpanView>, m: SpanView) -> (at: int)
    requires
        ascending(t),
    ensures
        0 <= at <= t.len(),
        forall|i: int| 0 <= i < at ==> (#[trigger] t[i]).base <= m.base,
        forall|i: int| at <= i < t.len() ==> m.base < (#[trigger] t[i]).base,
    decreases t.len(),
{
    if t.len() == 0 || t.last().base <= m.base {
        assert forall|i: int| 0 <= i < t.len() implies (#[trigger] t[i]).base <= m.base by {
            assert(t[i].base <= t[t.len() - 1].base);
        }
        t.len() as int
    } else {
        let shorter = t.drop_last();
        assert forall|i: int, j: int| 0 <= i <= j < shorter.len() implies (
        #[trigger] shorter[i]).base <= (#[trigger] shorter[j]).base by {
            assert(t[i].base <= t[j].base);
        }
        let at = lemma_place(shorter, m);
        assert forall|i: int| 0 <= i < at implies (#[trigger] t[i]).base <= m.base by {
            assert(shorter[i] == t[i]);
        }
        assert forall|i: int| at <= i < t.len() implies m.base < (#[trigger] t[i]).base by {
            if i < shorter.len() {
                assert(shorter[i] == t[i]);
            }
        }
        at
    }
}

/// Every list of modules can be sorted.
pub proof fn law_every_list_is_sortable(s: Seq<SpanView>)
    ensures
        sorted_by_base(s, sorted(s)),
    decreases s.len(),
{
    if s.len() == 0 {
        assert(sorted_by_base(s, s));
    } else {
        let rest = s.drop_last();
        law_every_list_is_sortable(rest);
        let t = sorted(rest);
        let at = lemma_place(t, s.last());
        lemma_insert_sorted(rest, t, s.last(), at);
        assert(rest.push(s.last()) =~= s);
    }
}

/// There is one way only to sort a list of modules.
pub proof fn law_sorting_is_unique(s: Seq<SpanView>, t: Seq<SpanView>, u: Seq<SpanView>)
    requires
        sorted_by_base(s, t),
        sorted_by_base(s, u),
    ensures
        t == u,
{
    assert forall|base: usize| #[trigger] starting_at(t, base) == starting_at(u, base) by {
        assert(starting_at(t, base) == starting_at(s, base));
        assert(starting_at(u, base) == starting_at(s, base));
    }
    lemma_sorted_unique(t, u);
}

/// Whether the span at `i` is the first of the list that holds `addr`.
pub open spec fn first_holder(s: Seq<SpanView>, addr: usize, i: int) -> bool {
    &&& 0 <= i < s.len()
    &&& s[i].holds(addr)
    &&& forall|j: int| 0 <= j < i ==> !(#[trigger] s[j]).holds(addr)
}

/// An address is located exactly where some module holds it; then it is the
/// first such module, by name, and the offset that leads from its base to the
/// address without leaving it.
pub proof fn law_located_in_first(s: Seq<SpanView>, addr: usize)
    ensures
        match located(s, addr) {
            None => forall|i: int| 0 <= i < s.len() ==> !(#[trigger] s[i]).holds(addr),
            Some((name, off)) => exists|i: int| #[trigger]
                first_holder(s, addr, i) && name == s[i].name && s[i].base + off == addr && off
                    < s[i].size,
        },
    decreases s.len(),
{
    if s.len() > 0 {
        let rest = s.skip(1);
        if s[0].holds(addr) {
            assert(first_holder(s, addr, 0));
        } else {
            law_located_in_first(rest, addr);
            match located(rest, addr) {
                None => {
                    assert forall|i: int| 0 <= i < s.len() implies !(#[trigger] s[i]).holds(
                        addr,
                    ) by {
                        if i > 0 {
                            assert(rest[i - 1] == s[i]);
                        }
                    }
                },
                Some((name, off)) => {
                    let i = choose|i: int| #[trigger]
                        first_holder(rest, addr, i) && name == rest[i].name && rest[i].base + off
                            == addr && off < rest[i].size;
                    assert(rest[i] == s[i + 1]);
                    assert forall|j: int| 0 <= j < i + 1 implies !(#[trigger] s[j]).holds(
                        addr,
                    ) by {
                        if j > 0 {
                            assert(rest[j - 1] == s[j]);
                        }
                    }
                    assert(first_holder(s, addr, i + 1));
                },
            }
        }
    }
}

/// Where modules do not overlap, an address is located in the module that holds
/// it, wherever that module stands in the list.
pub proof fn law_located_without_overlap(s: Seq<SpanView>, addr: usize, k: int)
    requires
        0 <= k < s.len(),
        s[k].holds(addr),
        forall|i: int, j: int|
            0 <= i < s.len() && 0 <= j < s.len() && i != j ==> !((#[trigger] s[i]).holds(addr)
                && (#[trigger] s[j]).holds(addr)),
    ensures
        located(s, addr) == Some((s[k].name, (addr - s[k].base) as usize)),
{
    law_located_in_first(s, addr);
}

/// An address lies in a span where it is the base and less than the size more,
/// and the whole span lies in the address space.
pub proof fn law_held_addresses(m: SpanView, addr: usize, off: usize)
    ensures
        m.holds(addr) ==> m.base + m.size <= usize::MAX && 0 <= addr - m.base < m.size,
        m.base + m.size <= usize::MAX && off < m.size ==> m.holds((m.base + off) as usize),
{
}

/// A sorted list has the modules of the list it comes from, in ascending order
/// of their bases; and those of one base stand in the order that they had.
pub proof fn law_sorted_lists(s: Seq<SpanView>, t: Seq<SpanView>, i: int, j: int, base: usize)
    requires
        sorted_by_base(s, t),
        0 <= i <= j < t.len(),
    ensures
        t[i].base <= t[j].base,
        t.filter(|m: SpanView| m.base == base) == s.filter(|m: SpanView| m.base == base),
        t.to_multiset() == s.to_multiset(),
{
    law_sorting_keeps_all(s, t);
    assert(starting_at(t, base) == starting_at(s, base));
}

/// Whether a span is that of a listed module: with its base, its size and its
/// name.
pub open spec fn is_span_of(m: SpanView, raw: RawModuleView) -> bool {
    &&& m.base == raw.base
    &&& m.size == raw.size
    &&& m.name == decoded(before_zero(raw.name))
}

/// Every listed module is among the sorted spans, with its own base, size and
/// name; and there is no other span.
pub proof fn law_listed_modules_are_kept(listed: Seq<RawModuleView>, t: Seq<SpanView>, i: int)
    requires
        sorted_by_base(listed_spans(listed), t),
        0 <= i < listed.len(),
    ensures
        t.len() == listed.len(),
        exists|j: int| 0 <= j < t.len() && is_span_of(#[trigger] t[j], listed[i]),
        exists|k: int| 0 <= k < listed.len() && is_span_of(t[i], #[trigger] listed[k]),
{
    broadcast use vstd::seq_lib::group_to_multiset_ensures;

    let s = listed_spans(listed);
    law_sorting_keeps_all(s, t);
    assert(s.contains(s[i]));
    assert(s.to_multiset().count(s[i]) > 0);
    assert(t.contains(s[i]));
    let j = choose|j: int| 0 <= j < t.len() && t[j] == s[i];
    assert(is_span_of(t[j], listed[i]));
    assert(t.contains(t[i]));
    assert(t.to_multiset().count(t[i]) > 0);
    assert(s.contains(t[i]));
    let k = choose|k: int| 0 <= k < s.len() && s[k] == t[i];
    assert(is_span_of(t[i], listed[k]));
}

/// Whether an address lies in a listed module.
pub open spec fn listed_at(raw: RawModuleView, addr: usize) -> bool {
    raw.base <= addr < raw.base + raw.size <= usize::MAX
}

/// An address in one listed module only is located in it, under its name and at
/// its distance from the module's base; an address in none is not located.
pub proof fn law_listed_addresses_are_located(
    listed: Seq<RawModuleView>,
    t: Seq<SpanView>,
    addr: usize,
    i: int,
)
    requires
        sorted_by_base(listed_spans(listed), t),
        forall|k: int| 0 <= k < listed.len() && k != i ==> !listed_at(#[trigger] listed[k], addr),
    ensures
        0 <= i < listed.len() && listed_at(listed[i], addr) ==> located(t, addr) == Some(
            (decoded(before_zero(listed[i].name)), (addr - listed[i].base) as usize),
        ),
        !(0 <= i < listed.len() && listed_at(listed[i], addr)) ==> located(t, addr) is None,
{
    law_located_in_first(t, addr);
    if listed.len() > 0 {
        law_listed_modules_are_kept(listed, t, 0);
    } else {
        law_sorting_keeps_all(listed_spans(listed), t);
    }
    if located(t, addr) is Some {
        let (name, off) = located(t, addr)->0;
        let j = choose|j: int| #[trigger]
            first_holder(t, addr, j) && name == t[j].name && t[j].base + off == addr && off
                < t[j].size;
        law_listed_modules_are_kept(listed, t, j);
        let k = choose|k: int| 0 <= k < listed.len() && is_span_of(t[j], #[trigger] listed[k]);
        assert(listed_at(listed[k], addr));
        assert(k == i);
    } else if 0 <= i < listed.len() && listed_at(listed[i], addr) {
        law_listed_modules_are_kept(listed, t, i);
        let j = choose|j: int| 0 <= j < t.len() && is_span_of(#[trigger] t[j], listed[i]);
        assert(t[j].holds(addr));
    }
}

} // verus!
