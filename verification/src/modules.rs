//! The modules loaded in a process and where their addresses lie.

use crate::modules_laws::{
    is_span_of, law_listed_modules_are_kept, law_located_in_first, law_sorting_keeps_all,
};
use crate::utf16::{before_zero, decode_name, decoded};
use vstd::prelude::*;

verus! {

/// A module as a snapshot of the process lists it.
#[derive(Debug)]
pub struct RawModule {
    /// The buffer that holds the name, in UTF-16.
    pub name: Vec<u16>,
    pub base: usize,
    pub size: u32,
}

/// A listed module, with the buffer as a sequence.
pub struct RawModuleView {
    pub name: Seq<u16>,
    pub base: usize,
    pub size: u32,
}

impl View for RawModule {
    type V = RawModuleView;

    open spec fn view(&self) -> RawModuleView {
        RawModuleView { name: self.name@, base: self.base, size: self.size }
    }
}

/// The addresses that a module takes up.
#[derive(Debug, PartialEq, Eq)]
pub struct ModuleSpan {
    pub name: String,
    pub base: usize,
    pub size: usize,
}

/// A span, with its name as a sequence of characters.
#[verifier::ext_equal]
pub struct SpanView {
    pub name: Seq<char>,
    pub base: usize,
    pub size: usize,
}

impl View for ModuleSpan {
    type V = SpanView;

    open spec fn view(&self) -> SpanView {
        SpanView { name: self.name@, base: self.base, size: self.size }
    }
}

impl SpanView {
    /// Whether `addr` lies in the span. A span that would run past the end of the
    /// address space holds no address.
    pub open spec fn holds(self, addr: usize) -> bool {
        self.base <= addr < self.base + self.size <= usize::MAX
    }
}

/// The span of a listed module.
pub open spec fn span_of(raw: RawModuleView) -> SpanView {
    SpanView { name: decoded(before_zero(raw.name)), base: raw.base, size: raw.size as usize }
}

/// The views of a list of spans.
pub open spec fn spans(modules: Seq<ModuleSpan>) -> Seq<SpanView> {
    modules.map_values(|m: ModuleSpan| m@)
}

/// The views of a list of listed modules.
pub open spec fn raws(listed: Seq<RawModule>) -> Seq<RawModuleView> {
    listed.map_values(|m: RawModule| m@)
}

/// The spans of a list of listed modules, in the order of the list.
pub open spec fn listed_spans(listed: Seq<RawModuleView>) -> Seq<SpanView> {
    listed.map_values(|m: RawModuleView| span_of(m))
}

/// Whether bases never go down along the list.
pub open spec fn ascending(s: Seq<SpanView>) -> bool {
    forall|i: int, j: int| 0 <= i <= j < s.len() ==> (#[trigger] s[i]).base <= (#[trigger] s[j]).base
}

/// The spans of `s` that start at `base`, in their order.
pub open spec fn starting_at(s: Seq<SpanView>, base: usize) -> Seq<SpanView> {
    s.filter(|m: SpanView| m.base == base)
}

/// Whether `t` is `s` sorted by base, with spans of one base in the order they
/// had.
pub open spec fn sorted_by_base(s: Seq<SpanView>, t: Seq<SpanView>) -> bool {
    &&& ascending(t)
    &&& forall|base: usize| #[trigger] starting_at(t, base) == starting_at(s, base)
}

/// `s` sorted by base.
pub open spec fn sorted(s: Seq<SpanView>) -> Seq<SpanView> {
    choose|t: Seq<SpanView>| sorted_by_base(s, t)
}

/// The first span of the list that holds `addr`, by name, and how far into it
/// `addr` lies.
pub open spec fn located(s: Seq<SpanView>, addr: usize) -> Option<(Seq<char>, usize)>
    decreases s.len(),
{
    if s.len() == 0 {
        None
    } else if s[0].holds(addr) {
        Some((s[0].name, (addr - s[0].base) as usize))
    } else {
        located(s.skip(1), addr)
    }
}

/// Inserting behind everything that starts no later keeps the list sorted.
pub proof fn lemma_insert_sorted(s: Seq<SpanView>, t: Seq<SpanView>, m: SpanView, at: int)
    requires
        sorted_by_base(s, t),
        0 <= at <= t.len(),
        forall|i: int| 0 <= i < at ==> (#[trigger] t[i]).base <= m.base,
        forall|i: int| at <= i < t.len() ==> m.base < (#[trigger] t[i]).base,
    ensures
        sorted_by_base(s.push(m), t.insert(at, m)),
{
    let u = t.insert(at, m);
    let lo = t.take(at);
    let hi = t.skip(at);
    assert(u =~= lo + seq![m] + hi);
    assert(t =~= lo + hi);
    assert(s.push(m) =~= s + seq![m]);
    assert forall|i: int, j: int| 0 <= i <= j < u.len() implies (#[trigger] u[i]).base <= (
    #[trigger] u[j]).base by {
        let a = if i < at { i } else { i - 1 };
        let b = if j < at { j } else { j - 1 };
        if i != at && j != at {
            assert(u[i] == t[a] && u[j] == t[b]);
        } else if i != at {
            assert(u[i] == t[a]);
        } else if j != at {
            assert(u[j] == t[b]);
        }
    }
    assert forall|base: usize| #[trigger] starting_at(u, base) == starting_at(s.push(m), base) by {
        let p = |m: SpanView| m.base == base;
        Seq::filter_distributes_over_add(lo + seq![m], hi, p);
        Seq::filter_distributes_over_add(lo, seq![m], p);
        Seq::filter_distributes_over_add(lo, hi, p);
        Seq::filter_distributes_over_add(s, seq![m], p);
        assert(starting_at(t, base) == starting_at(s, base));
        let one = seq![m].filter(p);
        if m.base == base {
            assert(forall|i: int| 0 <= i < hi.len() ==> hi[i] == t[i + at]);
            hi.lemma_all_neg_filter_empty(p);
            assert(hi.filter(p) =~= Seq::<SpanView>::empty());
            assert(lo.filter(p) + one + hi.filter(p) =~= lo.filter(p) + hi.filter(p) + one);
        } else {
            seq![m].lemma_all_neg_filter_empty(p);
            assert(one =~= Seq::<SpanView>::empty());
            assert(lo.filter(p) + one + hi.filter(p) =~= lo.filter(p) + hi.filter(p) + one);
        }
    }
}

/// Whether some span has the base and the size of a listed module.
pub open spec fn has_range_of(out: Seq<ModuleSpan>, raw: RawModule) -> bool {
    exists|j: int|
        0 <= j < out.len() && (#[trigger] out[j]).base == raw.base && out[j].size == raw.size
}

/// The spans of the listed modules, sorted by base; modules of one base stay in
/// the order of the list.
pub fn enumerate_modules(listed: &Vec<RawModule>) -> (out: Vec<ModuleSpan>)
    ensures
        sorted_by_base(listed_spans(raws(listed@)), spans(out@)),
        out@.len() == listed@.len(),
        forall|i: int| 0 <= i < listed@.len() ==> has_range_of(out@, #[trigger] listed@[i]),
        forall|i: int, j: int|
            0 <= i <= j < out@.len() ==> (#[trigger] out@[i]).base <= (#[trigger] out@[j]).base,
{
    let mut out: Vec<ModuleSpan> = Vec::new();
    let ghost all = listed_spans(raws(listed@));
    proof {
        assert(all.take(0) =~= Seq::<SpanView>::empty());
        assert(spans(out@) =~= Seq::<SpanView>::empty());
    }
    let mut k: usize = 0;
    while k < listed.len()
        invariant
            k <= listed@.len(),
            all == listed_spans(raws(listed@)),
            sorted_by_base(all.take(k as int), spans(out@)),
        decreases listed.len() - k,
    {
        let raw: &RawModule = &listed[k];
        let span = ModuleSpan {
            name: decode_name(raw.name.as_slice()),
            base: raw.base,
            size: raw.size as usize,
        };
        assert(span@ == all[k as int]);
        let ghost t = spans(out@);
        let mut at: usize = out.len();
        while at > 0 && out[at - 1].base > span.base
            invariant
                at <= out@.len(),
                t == spans(out@),
                forall|i: int| at <= i < t.len() ==> span.base < (#[trigger] t[i]).base,
            decreases at,
        {
            assert(t[at - 1].base == out@[at - 1].base);
            at -= 1;
        }
        proof {
            assert forall|i: int| 0 <= i < at implies (#[trigger] t[i]).base <= span.base by {
                assert(t[i].base <= t[at - 1].base);
                assert(t[at - 1].base == out@[at - 1].base);
            }
            lemma_insert_sorted(all.take(k as int), t, span@, at as int);
            assert(all.take(k as int).push(span@) =~= all.take(k + 1));
        }
        let ghost before = out@;
        out.insert(at, span);
        assert(spans(out@) =~= t.insert(at as int, span@)) by {
            assert(out@ == before.insert(at as int, span));
        }
        k += 1;
    }
    assert(all.take(k as int) =~= all);
    proof {
        let t = spans(out@);
        law_sorting_keeps_all(all, t);
        assert forall|i: int| 0 <= i < listed@.len() implies has_range_of(
            out@,
            #[trigger] listed@[i],
        ) by {
            law_listed_modules_are_kept(raws(listed@), t, i);
            let j = choose|j: int|
                0 <= j < t.len() && is_span_of(#[trigger] t[j], raws(listed@)[i]);
            assert(t[j] == out@[j]@);
        }
        assert forall|i: int, j: int| 0 <= i <= j < out@.len() implies (
        #[trigger] out@[i]).base <= (#[trigger] out@[j]).base by {
            assert(t[i].base <= t[j].base);
        }
    }
    out
}

/// The module that holds `addr` and how far into it `addr` lies. Where spans
/// overlap, the first of the list counts.
pub fn locate(modules: &[ModuleSpan], addr: usize) -> (r: Option<(&str, usize)>)
    ensures
        match r {
            Some((name, off)) => located(spans(modules@), addr) == Some((name@, off)),
            None => located(spans(modules@), addr) is None,
        },
        match r {
            Some((name, off)) => exists|i: int|
                {
                    &&& 0 <= i < modules@.len()
                    &&& name@ == (#[trigger] modules@[i]).name@
                    &&& modules@[i].base + off == addr
                    &&& off < modules@[i].size
                },
            None => forall|i: int|
                0 <= i < modules@.len() ==> !((#[trigger] modules@[i]).base <= addr
                    < modules@[i].base + modules@[i].size <= usize::MAX),
        },
{
    proof {
        law_located_in_first(spans(modules@), addr);
    }
    let ghost s = spans(modules@);
    let mut i: usize = 0;
    assert(s.skip(0) =~= s);
    while i < modules.len()
        invariant
            i <= modules@.len(),
            s == spans(modules@),
            located(s.skip(i as int), addr) == located(s, addr),
        decreases modules.len() - i,
    {
        let m: &ModuleSpan = &modules[i];
        assert(s.skip(i as int)[0] == m@);
        assert(s.skip(i as int).skip(1) =~= s.skip(i + 1));
        if addr >= m.base && addr < m.base.wrapping_add(m.size) {
            assert(m == modules@[i as int]);
            return Some((m.name.as_str(), addr - m.base));
        }
        i += 1;
    }
    proof {
        assert forall|k: int| 0 <= k < modules@.len() implies !((#[trigger] modules@[k]).base
            <= addr < modules@[k].base + modules@[k].size <= usize::MAX) by {
            assert(!s[k].holds(addr));
        }
    }
    None
}

} // verus!
