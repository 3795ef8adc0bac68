//! The structural queries that a simulation engine asks of the graph.

pub use crate::control::control_is_empty;
use crate::graph::Graph;
use crate::structure::{
    assignments_in_range, binding_view, find_named, ids_in_range, Assignment, CellId, CellType,
    Group, PortId, PortParent,
};
use crate::values::Value;
use std::collections::HashSet;
use vstd::prelude::*;

verus! {

/// The hole named `done` of `group`. The group must have one.
pub fn get_done_port(group: &Group, graph: &Graph) -> (hole: PortId)
    requires
        ids_in_range(group.holes@, graph.ports@.len()),
        find_named(graph.ports@, group.holes@, "done"@, 0) is Some,
    ensures
        Some(hole) == find_named(graph.ports@, group.holes@, "done"@, 0),
{
    group.get(graph, "done")
}

/// The hole named `go` of `group`. The group must have one.
pub fn get_go_port(group: &Group, graph: &Graph) -> (hole: PortId)
    requires
        ids_in_range(group.holes@, graph.ports@.len()),
        find_named(graph.ports@, group.holes@, "go"@, 0) is Some,
    ensures
        Some(hole) == find_named(graph.ports@, group.holes@, "go"@, 0),
{
    group.get(graph, "go")
}

/// Tells whether the one-bit signal `done` is high.
pub fn is_signal_high(done: &Value) -> (high: bool)
    requires
        done@.len() == 1,
    ensures
        high == done@[0],
{
    done.as_bool()
}

/// The cell that an assignment to `port` writes: the parent of `port`,
/// unless that parent is a group or the cell that stands for the component
/// itself.
pub open spec fn written_cell(graph: Graph, port: PortId) -> Option<CellId> {
    match graph.ports@[port as int].parent {
        PortParent::Cell(c) => if graph.cells@[c as int].prototype is ThisComponent {
            None
        } else {
            Some(c)
        },
        PortParent::Group(_) => None,
    }
}

/// The cell that the done port brings in: its parent, where that is a real
/// cell. A group is none, and neither is the cell that stands for the
/// component itself.
pub open spec fn seed_cells(graph: Graph, done_sig: Option<PortId>) -> Seq<CellId> {
    match done_sig {
        Some(port) => match written_cell(graph, port) {
            Some(c) => seq![c],
            None => Seq::empty(),
        },
        None => Seq::empty(),
    }
}

/// The cells that `assignments` write, each once and in the order in which
/// it is first seen, after the cell that the done port brings in.
pub open spec fn dest_cells(graph: Graph, assignments: Seq<Assignment<()>>, done_sig: Option<PortId>)
    -> Seq<CellId>
    decreases assignments.len(),
{
    if assignments.len() == 0 {
        seed_cells(graph, done_sig)
    } else {
        let earlier = dest_cells(graph, assignments.drop_last(), done_sig);
        match written_cell(graph, assignments.last().dst) {
            Some(c) => if earlier.contains(c) {
                earlier
            } else {
                earlier.push(c)
            },
            None => earlier,
        }
    }
}

/// No cell occurs twice in `cells`.
pub open spec fn cells_distinct(cells: Seq<CellId>) -> bool {
    forall|i: int, j: int|
        #![trigger cells[i], cells[j]]
        0 <= i < j < cells.len() ==> cells[i] != cells[j]
}

/// The destination cells hold no cell twice.
pub proof fn lemma_dest_cells_distinct(
    graph: Graph,
    assignments: Seq<Assignment<()>>,
    done_sig: Option<PortId>,
)
    ensures
        cells_distinct(dest_cells(graph, assignments, done_sig)),
    decreases assignments.len(),
{
    if assignments.len() > 0 {
        lemma_dest_cells_distinct(graph, assignments.drop_last(), done_sig);
    }
}

/// The destination cells start with the cell that the done port brings in.
pub proof fn lemma_dest_cells_seed_first(
    graph: Graph,
    assignments: Seq<Assignment<()>>,
    done_sig: Option<PortId>,
)
    ensures
        seed_cells(graph, done_sig).is_prefix_of(dest_cells(graph, assignments, done_sig)),
    decreases assignments.len(),
{
    if assignments.len() > 0 {
        lemma_dest_cells_seed_first(graph, assignments.drop_last(), done_sig);
    }
}

/// A cell is among the destination cells exactly if the done port brings it
/// in or one of the assignments writes it.
pub proof fn lemma_dest_cells_members(
    graph: Graph,
    assignments: Seq<Assignment<()>>,
    done_sig: Option<PortId>,
    cell: CellId,
)
    ensures
        dest_cells(graph, assignments, done_sig).contains(cell) <==> seed_cells(
            graph,
            done_sig,
        ).contains(cell) || exists|i: int|
            0 <= i < assignments.len() && written_cell(graph, (#[trigger] assignments[i]).dst)
                == Some(cell),
    decreases assignments.len(),
{
    if assignments.len() > 0 {
        let earlier_assignments = assignments.drop_last();
        lemma_dest_cells_members(graph, earlier_assignments, done_sig, cell);
        let earlier = dest_cells(graph, earlier_assignments, done_sig);
        let all = dest_cells(graph, assignments, done_sig);
        let last = assignments.len() - 1;
        if all.contains(cell) {
            if !earlier.contains(cell) {
                assert(written_cell(graph, assignments[last].dst) == Some(cell));
            } else if !seed_cells(graph, done_sig).contains(cell) {
                let i = choose|i: int|
                    0 <= i < earlier_assignments.len() && written_cell(
                        graph,
                        (#[trigger] earlier_assignments[i]).dst,
                    ) == Some(cell);
                assert(assignments[i] == earlier_assignments[i]);
            }
        }
        if seed_cells(graph, done_sig).contains(cell) {
            assert(earlier.contains(cell));
            let k = choose|k: int| 0 <= k < earlier.len() && earlier[k] == cell;
            assert(all[k] == cell);
        }
        if exists|i: int|
            0 <= i < assignments.len() && written_cell(graph, (#[trigger] assignments[i]).dst)
                == Some(cell) {
            let i = choose|i: int|
                0 <= i < assignments.len() && written_cell(graph, (#[trigger] assignments[i]).dst)
                    == Some(cell);
            if i < last {
                assert(earlier_assignments[i] == assignments[i]);
                assert(earlier.contains(cell));
                let k = choose|k: int| 0 <= k < earlier.len() && earlier[k] == cell;
                assert(all[k] == cell);
            } else {
                if earlier.contains(cell) {
                    let k = choose|k: int| 0 <= k < earlier.len() && earlier[k] == cell;
                    assert(all[k] == cell);
                } else {
                    assert(all[all.len() - 1] == cell);
                }
            }
        }
    }
}

/// The cells that `assignments` write: each once, in the order in which it
/// is first seen, after the parent cell of `done_sig` where that is a real
/// cell. A hole of a group, or a port of the cell that stands for the
/// component itself, names no real cell: an assignment to one writes none,
/// and a done port that is one brings none in.
pub fn get_dest_cells(graph: &Graph, assignments: &[Assignment<()>], done_sig: Option<PortId>) -> (cells:
    Vec<CellId>)
    requires
        graph.wf(),
        assignments_in_range(assignments@, graph.ports@.len()),
        match done_sig {
            Some(port) => port < graph.ports@.len(),
            None => true,
        },
    ensures
        cells@ == dest_cells(*graph, assignments@, done_sig),
{
    let mut seen: HashSet<CellId> = HashSet::new();
    let mut cells: Vec<CellId> = Vec::new();
    match done_sig {
        Some(port) => {
            proof {
                assert(graph.parent_valid(graph.ports@[port as int].parent));
            }
            match graph.ports[port].parent {
                PortParent::Cell(c) => {
                    match &graph.cells[c].prototype {
                        CellType::ThisComponent => {},
                        _ => {
                            seen.insert(c);
                            cells.push(c);
                            assert(cells@ =~= seq![c]);
                            assert(cells@[0] == c);
                        },
                    }
                },
                PortParent::Group(_) => {},
            }
        },
        None => {},
    }
    assert(assignments@.take(0).len() == 0);
    let mut i: usize = 0;
    while i < assignments.len()
        invariant
            i <= assignments@.len(),
            graph.wf(),
            assignments_in_range(assignments@, graph.ports@.len()),
            cells@ == dest_cells(*graph, assignments@.take(i as int), done_sig),
            forall|c: CellId| seen@.contains(c) <==> cells@.contains(c),
        decreases assignments@.len() - i,
    {
        let dst = assignments[i].dst;
        proof {
            assert(assignments@[i as int].in_range(graph.ports@.len()));
            assert(graph.parent_valid(graph.ports@[dst as int].parent));
            assert(assignments@.take(i as int + 1).drop_last() == assignments@.take(i as int));
            assert(assignments@.take(i as int + 1).last() == assignments@[i as int]);
        }
        match graph.ports[dst].parent {
            PortParent::Cell(c) => {
                match &graph.cells[c].prototype {
                    CellType::ThisComponent => {},
                    _ => {
                        if !seen.contains(&c) {
                            let ghost before = cells@;
                            seen.insert(c);
                            cells.push(c);
                            proof {
                                assert forall|d: CellId| seen@.contains(d) <==> cells@.contains(
                                    d,
                                ) by {
                                    if d == c {
                                        assert(cells@[before.len() as int] == c);
                                    } else if before.contains(d) {
                                        let k = choose|k: int|
                                            0 <= k < before.len() && before[k] == d;
                                        assert(cells@[k] == d);
                                    } else if cells@.contains(d) {
                                        let k = choose|k: int|
                                            0 <= k < cells@.len() && cells@[k] == d;
                                        assert(before[k] == d);
                                    }
                                }
                            }
                        }
                    },
                }
            },
            PortParent::Group(_) => {},
        }
        i = i + 1;
    }
    assert(assignments@.take(i as int) == assignments@);
    cells
}

/// Parameter bindings from names and values, in order.
pub fn construct_bindings<const N: usize>(binds: [(&str, u64); N]) -> (bindings: Vec<(String, u64)>)
    ensures
        binding_view(bindings@) == Seq::new(N as nat, |i: int| (binds@[i].0@, binds@[i].1)),
{
    let mut bindings: Vec<(String, u64)> = Vec::new();
    let mut i: usize = 0;
    while i < N
        invariant
            i <= N,
            bindings@.len() == i,
            forall|j: int|
                0 <= j < i ==> bindings@[j].0@ == binds@[j].0@ && bindings@[j].1 == binds@[j].1,
        decreases N - i,
    {
        let name = binds[i].0.to_owned();
        bindings.push((name, binds[i].1));
        i = i + 1;
    }
    assert(binding_view(bindings@) =~= Seq::new(N as nat, |i: int| (binds@[i].0@, binds@[i].1)));
    bindings
}

} // verus!
