//! What it means for a node of the concurrent graph to be the translation of
//! a node of the compiler-side netlist, given the translation tables.

use crate::attributes::attributes_map;
use crate::structure::{Assignment, Guard};
use vstd::pervasive::cloned;
use vstd::prelude::*;

verus! {

/// What a translation table holds: the handle that each translated identity
/// was given.
pub type Table = Map<usize, usize>;

/// `small` is part of `large`: every identity that `small` knows keeps its
/// handle in `large`.
pub open spec fn submap(small: Table, large: Table) -> bool {
    forall|k: usize| #[trigger] small.contains_key(k) ==> large.contains_key(k) && large[k] == small[k]
}

/// No two identities share a handle.
pub open spec fn injective(table: Table) -> bool {
    forall|a: usize, b: usize|
        #![trigger table.contains_key(a), table.contains_key(b)]
        table.contains_key(a) && table.contains_key(b) && table[a] == table[b] ==> a == b
}

/// Some identity has the handle `handle`.
pub open spec fn has_source(table: Table, handle: usize) -> bool {
    exists|k: usize| #[trigger] table.contains_key(k) && table[k] == handle
}

/// Every handle below `bound` is the handle of some identity.
pub open spec fn covers(table: Table, bound: nat) -> bool {
    forall|h: usize| h < bound ==> #[trigger] has_source(table, h)
}

/// A table that covers the handles below `bound` covers one more after it
/// learns an identity with the handle `bound`.
pub proof fn lemma_covers_insert(table: Table, bound: usize, id: usize)
    requires
        covers(table, bound as nat),
        !table.contains_key(id),
    ensures
        covers(table.insert(id, bound), bound as nat + 1),
{
    let larger = table.insert(id, bound);
    assert forall|h: usize| h < bound as nat + 1 implies #[trigger] has_source(larger, h) by {
        if h < bound {
            assert(has_source(table, h));
            let k = choose|k: usize| #[trigger] table.contains_key(k) && table[k] == h;
            assert(larger.contains_key(k) && larger[k] == h);
        } else {
            assert(larger.contains_key(id) && larger[id] == h);
        }
    }
}

/// Every handle that the table gives out is below `bound`.
pub open spec fn values_below(table: Table, bound: nat) -> bool {
    forall|k: usize| #[trigger] table.contains_key(k) ==> table[k] < bound
}

/// `handles` is `ids` translated one by one.
pub open spec fn ids_mapped(ids: Seq<usize>, table: Table, handles: Seq<usize>) -> bool {
    &&& handles.len() == ids.len()
    &&& forall|i: int|
        0 <= i < ids.len() ==> table.contains_key(#[trigger] ids[i]) && handles[i] == table[ids[i]]
}

/// `bound` is `bindings` with each identity translated and each name kept.
pub open spec fn bindings_mapped(
    bindings: Seq<(String, usize)>,
    table: Table,
    bound: Seq<(String, usize)>,
) -> bool {
    &&& bound.len() == bindings.len()
    &&& forall|i: int|
        0 <= i < bindings.len() ==> {
            &&& table.contains_key((#[trigger] bindings[i]).1)
            &&& bound[i].1 == table[bindings[i].1]
            &&& bound[i].0@ == bindings[i].0@
        }
}

/// `handle` is `id` translated, where there is one.
pub open spec fn option_mapped(id: Option<usize>, table: Table, handle: Option<usize>) -> bool {
    match id {
        Some(g) => table.contains_key(g) && handle == Some(table[g]),
        None => handle is None,
    }
}

/// `translated` has the shape of `original`, reads the translation of each
/// port that `original` reads, and carries a clone of each payload.
pub open spec fn guard_mirror<T: Clone>(original: Guard<T>, translated: Guard<T>, ports: Table)
    -> bool
    decreases original,
{
    match original {
        Guard::Or(l, r) => {
            &&& translated matches Guard::Or(tl, tr)
            &&& guard_mirror(*l, *tl, ports)
            &&& guard_mirror(*r, *tr, ports)
        },
        Guard::And(l, r) => {
            &&& translated matches Guard::And(tl, tr)
            &&& guard_mirror(*l, *tl, ports)
            &&& guard_mirror(*r, *tr, ports)
        },
        Guard::Not(n) => {
            &&& translated matches Guard::Not(tn)
            &&& guard_mirror(*n, *tn, ports)
        },
        Guard::True => translated is True,
        Guard::CompOp(op, l, r) => {
            &&& translated matches Guard::CompOp(top, tl, tr)
            &&& top == op
            &&& ports.contains_key(l)
            &&& tl == ports[l]
            &&& ports.contains_key(r)
            &&& tr == ports[r]
        },
        Guard::Port(p) => {
            &&& translated matches Guard::Port(tp)
            &&& ports.contains_key(p)
            &&& tp == ports[p]
        },
        Guard::Info(i) => {
            &&& translated matches Guard::Info(ti)
            &&& cloned(i, ti)
        },
    }
}

/// `translated` connects the translations of the ports that `original`
/// connects, under the translation of its guard and with its attributes.
pub open spec fn assignment_mirror<T: Clone>(
    original: Assignment<T>,
    translated: Assignment<T>,
    ports: Table,
) -> bool {
    &&& ports.contains_key(original.dst)
    &&& translated.dst == ports[original.dst]
    &&& ports.contains_key(original.src)
    &&& translated.src == ports[original.src]
    &&& guard_mirror(*original.guard, *translated.guard, ports)
    &&& attributes_map(translated.attributes) == attributes_map(original.attributes)
}

/// `translated` is `original` translated assignment by assignment.
pub open spec fn assignments_mirror<T: Clone>(
    original: Seq<Assignment<T>>,
    translated: Seq<Assignment<T>>,
    ports: Table,
) -> bool {
    &&& translated.len() == original.len()
    &&& forall|i: int|
        #![trigger original[i]]
        #![trigger translated[i]]
        0 <= i < original.len() ==> assignment_mirror(original[i], translated[i], ports)
}

/// A translation stays one when the table learns more identities.
pub proof fn lemma_guard_mirror_grows<T: Clone>(
    original: Guard<T>,
    translated: Guard<T>,
    small: Table,
    large: Table,
)
    requires
        guard_mirror(original, translated, small),
        submap(small, large),
    ensures
        guard_mirror(original, translated, large),
    decreases original,
{
    match original {
        Guard::Or(l, r) => {
            let tl = translated->Or_0;
            let tr = translated->Or_1;
            lemma_guard_mirror_grows(*l, *tl, small, large);
            lemma_guard_mirror_grows(*r, *tr, small, large);
        },
        Guard::And(l, r) => {
            let tl = translated->And_0;
            let tr = translated->And_1;
            lemma_guard_mirror_grows(*l, *tl, small, large);
            lemma_guard_mirror_grows(*r, *tr, small, large);
        },
        Guard::Not(n) => {
            let tn = translated->Not_0;
            lemma_guard_mirror_grows(*n, *tn, small, large);
        },
        Guard::True => {},
        Guard::CompOp(_, l, r) => {
            assert(small.contains_key(l));
            assert(small.contains_key(r));
        },
        Guard::Port(p) => {
            assert(small.contains_key(p));
        },
        Guard::Info(_) => {},
    }
}

/// A translated guard reads only handles that the table gives out.
pub proof fn lemma_guard_mirror_in_range<T: Clone>(
    original: Guard<T>,
    translated: Guard<T>,
    ports: Table,
    bound: nat,
)
    requires
        guard_mirror(original, translated, ports),
        values_below(ports, bound),
    ensures
        translated.in_range(bound),
    decreases original,
{
    match original {
        Guard::Or(l, r) => {
            let tl = translated->Or_0;
            let tr = translated->Or_1;
            lemma_guard_mirror_in_range(*l, *tl, ports, bound);
            lemma_guard_mirror_in_range(*r, *tr, ports, bound);
        },
        Guard::And(l, r) => {
            let tl = translated->And_0;
            let tr = translated->And_1;
            lemma_guard_mirror_in_range(*l, *tl, ports, bound);
            lemma_guard_mirror_in_range(*r, *tr, ports, bound);
        },
        Guard::Not(n) => {
            let tn = translated->Not_0;
            lemma_guard_mirror_in_range(*n, *tn, ports, bound);
        },
        Guard::True => {},
        Guard::CompOp(_, l, r) => {
            assert(ports.contains_key(l));
            assert(ports.contains_key(r));
        },
        Guard::Port(p) => {
            assert(ports.contains_key(p));
        },
        Guard::Info(_) => {},
    }
}

/// A guard that reads handles below `small` reads handles below `large`.
pub proof fn lemma_guard_in_range_grows<T>(guard: Guard<T>, small: nat, large: nat)
    requires
        guard.in_range(small),
        small <= large,
    ensures
        guard.in_range(large),
    decreases guard,
{
    match guard {
        Guard::Or(l, r) => {
            lemma_guard_in_range_grows(*l, small, large);
            lemma_guard_in_range_grows(*r, small, large);
        },
        Guard::And(l, r) => {
            lemma_guard_in_range_grows(*l, small, large);
            lemma_guard_in_range_grows(*r, small, large);
        },
        Guard::Not(n) => {
            lemma_guard_in_range_grows(*n, small, large);
        },
        _ => {},
    }
}

/// Translated assignments stay translations when the table learns more
/// identities.
pub proof fn lemma_assignments_mirror_grow<T: Clone>(
    original: Seq<Assignment<T>>,
    translated: Seq<Assignment<T>>,
    small: Table,
    large: Table,
)
    requires
        assignments_mirror(original, translated, small),
        submap(small, large),
    ensures
        assignments_mirror(original, translated, large),
{
    assert forall|i: int| 0 <= i < original.len() implies assignment_mirror(
        original[i],
        translated[i],
        large,
    ) by {
        assert(assignment_mirror(original[i], translated[i], small));
        assert(small.contains_key(original[i].dst));
        assert(small.contains_key(original[i].src));
        lemma_guard_mirror_grows(*original[i].guard, *translated[i].guard, small, large);
    }
}

/// Translated assignments connect only handles that the table gives out.
pub proof fn lemma_assignments_mirror_in_range<T: Clone>(
    original: Seq<Assignment<T>>,
    translated: Seq<Assignment<T>>,
    ports: Table,
    bound: nat,
)
    requires
        assignments_mirror(original, translated, ports),
        values_below(ports, bound),
    ensures
        crate::structure::assignments_in_range(translated, bound),
{
    assert forall|i: int| 0 <= i < translated.len() implies (#[trigger] translated[i]).in_range(
        bound,
    ) by {
        assert(assignment_mirror(original[i], translated[i], ports));
        assert(ports.contains_key(original[i].dst));
        assert(ports.contains_key(original[i].src));
        lemma_guard_mirror_in_range(*original[i].guard, *translated[i].guard, ports, bound);
    }
}

/// Assignments that connect handles below `small` connect handles below
/// `large`.
pub proof fn lemma_assignments_in_range_grow<T>(
    assignments: Seq<Assignment<T>>,
    small: nat,
    large: nat,
)
    requires
        crate::structure::assignments_in_range(assignments, small),
        small <= large,
    ensures
        crate::structure::assignments_in_range(assignments, large),
{
    assert forall|i: int| 0 <= i < assignments.len() implies (#[trigger] assignments[i]).in_range(
        large,
    ) by {
        lemma_guard_in_range_grows(*assignments[i].guard, small, large);
    }
}

/// How many of the identities below `bound` the table does not know yet.
pub open spec fn pending(table: Table, bound: nat) -> nat
    decreases bound,
{
    if bound == 0 {
        0
    } else {
        let rest = pending(table, (bound - 1) as nat);
        if table.contains_key((bound - 1) as usize) {
            rest
        } else {
            rest + 1
        }
    }
}

/// A table that knows more leaves no more pending.
pub proof fn lemma_pending_shrinks(small: Table, large: Table, bound: usize)
    requires
        submap(small, large),
    ensures
        pending(large, bound as nat) <= pending(small, bound as nat),
    decreases bound,
{
    if bound > 0 {
        lemma_pending_shrinks(small, large, (bound - 1) as usize);
        if small.contains_key((bound - 1) as usize) {
            assert(large.contains_key((bound - 1) as usize));
        }
    }
}

/// Learning a new identity below `bound` leaves strictly fewer pending.
pub proof fn lemma_pending_insert(table: Table, bound: usize, id: usize, handle: usize)
    requires
        id < bound,
        !table.contains_key(id),
    ensures
        pending(table.insert(id, handle), bound as nat) < pending(table, bound as nat),
    decreases bound,
{
    let larger = table.insert(id, handle);
    assert(submap(table, larger));
    if id == bound - 1 {
        lemma_pending_shrinks(table, larger, (bound - 1) as usize);
    } else {
        lemma_pending_insert(table, (bound - 1) as usize, id, handle);
    }
}

} // verus!
