//! The translator: a memoizing builder that turns nodes of the compiler-side
//! netlist into nodes of the concurrent graph, one handle per identity.

use crate::attributes::{attributes_map, clone_attributes};
use crate::graph::Graph;
use crate::mirror::{
    assignment_mirror, assignments_mirror, covers, guard_mirror, ids_mapped, injective,
    lemma_assignments_in_range_grow, lemma_covers_insert, lemma_assignments_mirror_grow,
    lemma_assignments_mirror_in_range, lemma_guard_mirror_grows, lemma_pending_insert,
    lemma_pending_shrinks, pending, submap, values_below,
};
use crate::port_list::PortList;
use crate::source::{SourceIr, SourceParent, SourcePort};
use crate::table::TranslationTable;
use crate::structure::{
    assignments_in_range, Assignment, Cell, CellId, CombGroup, CombGroupId, Group, GroupId, Guard,
    Port, PortId, PortParent,
};
use vstd::prelude::*;

verus! {

/// One translation session: the four translation tables, keyed by the
/// identity of a compiler-side node, and the graph that holds what was built.
pub struct TranslationMap {
    pub cell_map: TranslationTable,
    pub port_map: TranslationTable,
    pub group_map: TranslationTable,
    pub comb_group_map: TranslationTable,
    pub graph: Graph,
}

/// The port record that stands for `original`, with `parent` as its
/// back-reference.
fn port_record(original: &SourcePort, parent: PortParent) -> (port: Port)
    ensures
        port.name@ == original.name@,
        port.width == original.width,
        port.direction == original.direction,
        port.parent == parent,
        attributes_map(port.attributes) == attributes_map(original.attributes),
{
    Port {
        name: original.name.clone(),
        width: original.width,
        direction: original.direction,
        parent,
        attributes: clone_attributes(&original.attributes),
    }
}

impl Cell {
    /// The cell of the concurrent graph that stands for `original`, before
    /// its ports are translated: it lists no port yet.
    pub fn from_ir_partial(original: &Cell) -> (cell: Cell)
        ensures
            cell.name@ == original.name@,
            cell.ports@ == Seq::<PortId>::empty(),
            cell.prototype@ == original.prototype@,
            attributes_map(cell.attributes) == attributes_map(original.attributes),
            cell.reference == original.reference,
    {
        Cell {
            name: original.name.clone(),
            ports: PortList::new(),
            prototype: original.prototype.clone(),
            attributes: clone_attributes(&original.attributes),
            reference: original.reference,
        }
    }
}

impl Group {
    /// The group of the concurrent graph that stands for `original`, before
    /// its holes and assignments are translated: it holds none yet.
    pub fn from_ir_partial(original: &Group) -> (group: Group)
        ensures
            group.name@ == original.name@,
            group.assignments@.len() == 0,
            group.holes@ == Seq::<PortId>::empty(),
            attributes_map(group.attributes) == attributes_map(original.attributes),
    {
        Group {
            name: original.name.clone(),
            assignments: Vec::new(),
            holes: PortList::new(),
            attributes: clone_attributes(&original.attributes),
        }
    }
}

impl TranslationMap {
    /// The owner `parent` of a compiler-side port has been translated.
    pub open spec fn parent_mapped(&self, parent: SourceParent) -> bool {
        match parent {
            SourceParent::Cell(c) => self.cell_map@.contains_key(c),
            SourceParent::Group(g) => self.group_map@.contains_key(g),
            SourceParent::StaticGroup(_) => false,
        }
    }

    /// The handle of the translated owner `parent`.
    pub open spec fn parent_handle(&self, parent: SourceParent) -> PortParent {
        match parent {
            SourceParent::Cell(c) => PortParent::Cell(self.cell_map@[c]),
            SourceParent::Group(g) => PortParent::Group(self.group_map@[g]),
            SourceParent::StaticGroup(_) => PortParent::Cell(0),
        }
    }

    /// The node that port `s` was translated to is its translation: same
    /// name, width, direction and attributes, and a parent that is the
    /// translation of the parent of `s`.
    pub open spec fn port_mirror(&self, ir: SourceIr, s: usize) -> bool {
        let original = ir.ports@[s as int];
        let port = self.graph.ports@[self.port_map@[s] as int];
        &&& s < ir.ports@.len()
        &&& self.port_map@[s] < self.graph.ports@.len()
        &&& port.name@ == original.name@
        &&& port.width == original.width
        &&& port.direction == original.direction
        &&& attributes_map(port.attributes) == attributes_map(original.attributes)
        &&& self.parent_mapped(original.parent)
        &&& port.parent == self.parent_handle(original.parent)
    }

    /// The node that cell `c` was translated to has its name, prototype,
    /// attributes and reference flag.
    pub open spec fn cell_base_mirror(&self, ir: SourceIr, c: usize) -> bool {
        let original = ir.cells@[c as int];
        let cell = self.graph.cells@[self.cell_map@[c] as int];
        &&& c < ir.cells@.len()
        &&& self.cell_map@[c] < self.graph.cells@.len()
        &&& cell.name@ == original.name@
        &&& cell.prototype@ == original.prototype@
        &&& attributes_map(cell.attributes) == attributes_map(original.attributes)
        &&& cell.reference == original.reference
    }

    /// The node that cell `c` was translated to lists the translations of
    /// the ports of `c`, in order.
    pub open spec fn cell_ports_mirror(&self, ir: SourceIr, c: usize) -> bool {
        ids_mapped(
            ir.cells@[c as int].ports@,
            self.port_map@,
            self.graph.cells@[self.cell_map@[c] as int].ports@,
        )
    }

    /// The node that group `g` was translated to has its name and
    /// attributes.
    pub open spec fn group_base_mirror(&self, ir: SourceIr, g: usize) -> bool {
        let original = ir.groups@[g as int];
        let group = self.graph.groups@[self.group_map@[g] as int];
        &&& g < ir.groups@.len()
        &&& self.group_map@[g] < self.graph.groups@.len()
        &&& group.name@ == original.name@
        &&& attributes_map(group.attributes) == attributes_map(original.attributes)
    }

    /// The node that group `g` was translated to lists the translations of
    /// the holes of `g` and holds the translations of its assignments, in
    /// order.
    pub open spec fn group_body_mirror(&self, ir: SourceIr, g: usize) -> bool {
        let original = ir.groups@[g as int];
        let group = self.graph.groups@[self.group_map@[g] as int];
        &&& ids_mapped(original.holes@, self.port_map@, group.holes@)
        &&& assignments_mirror(original.assignments@, group.assignments@, self.port_map@)
    }

    /// The node that combinational group `g` was translated to has its name
    /// and attributes and holds the translations of its assignments, in
    /// order.
    pub open spec fn comb_group_mirror(&self, ir: SourceIr, g: usize) -> bool {
        let original = ir.comb_groups@[g as int];
        let group = self.graph.comb_groups@[self.comb_group_map@[g] as int];
        &&& g < ir.comb_groups@.len()
        &&& self.comb_group_map@[g] < self.graph.comb_groups@.len()
        &&& group.name@ == original.name@
        &&& attributes_map(group.attributes) == attributes_map(original.attributes)
        &&& assignments_mirror(original.assignments@, group.assignments@, self.port_map@)
    }

    /// The session is consistent with the netlist `ir`, but for the cells of
    /// `open_cells` and the groups of `open_groups`, which are in the tables
    /// while their ports and assignments are still being translated.
    pub open spec fn inv_open(&self, ir: SourceIr, open_cells: Set<usize>, open_groups: Set<usize>)
        -> bool {
        &&& self.graph.wf()
        &&& injective(self.port_map@)
        &&& injective(self.cell_map@)
        &&& injective(self.group_map@)
        &&& injective(self.comb_group_map@)
        &&& covers(self.port_map@, self.graph.ports@.len())
        &&& covers(self.cell_map@, self.graph.cells@.len())
        &&& covers(self.group_map@, self.graph.groups@.len())
        &&& covers(self.comb_group_map@, self.graph.comb_groups@.len())
        &&& forall|s: usize| #[trigger] self.port_map@.contains_key(s) ==> self.port_mirror(ir, s)
        &&& forall|c: usize| #[trigger]
            self.cell_map@.contains_key(c) ==> self.cell_base_mirror(ir, c) && (
            !open_cells.contains(c) ==> self.cell_ports_mirror(ir, c))
        &&& forall|g: usize| #[trigger]
            self.group_map@.contains_key(g) ==> self.group_base_mirror(ir, g) && (
            !open_groups.contains(g) ==> self.group_body_mirror(ir, g))
        &&& forall|g: usize| #[trigger]
            self.comb_group_map@.contains_key(g) ==> self.comb_group_mirror(ir, g)
    }

    /// The session is consistent with the netlist `ir`: the graph is well
    /// formed, no two identities share a handle, every node of the graph is
    /// the node of some identity, and every node that an identity was
    /// translated to is the translation of that identity's node.
    pub open spec fn inv(&self, ir: SourceIr) -> bool {
        self.inv_open(ir, Set::empty(), Set::empty())
    }

    /// `self` is `before` after more translation: every identity keeps its
    /// handle and every node that was in the graph is unchanged.
    pub open spec fn extends(&self, before: TranslationMap) -> bool {
        &&& submap(before.port_map@, self.port_map@)
        &&& submap(before.cell_map@, self.cell_map@)
        &&& submap(before.group_map@, self.group_map@)
        &&& submap(before.comb_group_map@, self.comb_group_map@)
        &&& before.graph.ports@.len() <= self.graph.ports@.len()
        &&& before.graph.cells@.len() <= self.graph.cells@.len()
        &&& before.graph.groups@.len() <= self.graph.groups@.len()
        &&& before.graph.comb_groups@.len() <= self.graph.comb_groups@.len()
        &&& forall|i: int|
            0 <= i < before.graph.ports@.len() ==> #[trigger] self.graph.ports@[i]
                == before.graph.ports@[i]
        &&& forall|i: int|
            0 <= i < before.graph.cells@.len() ==> #[trigger] self.graph.cells@[i]
                == before.graph.cells@[i]
        &&& forall|i: int|
            0 <= i < before.graph.groups@.len() ==> #[trigger] self.graph.groups@[i]
                == before.graph.groups@[i]
        &&& forall|i: int|
            0 <= i < before.graph.comb_groups@.len() ==> #[trigger] self.graph.comb_groups@[i]
                == before.graph.comb_groups@[i]
    }

    /// A session that has translated nothing yet.
    pub fn new() -> (translator: TranslationMap)
        ensures
            translator.port_map@ == Map::<usize, usize>::empty(),
            translator.cell_map@ == Map::<usize, usize>::empty(),
            translator.group_map@ == Map::<usize, usize>::empty(),
            translator.comb_group_map@ == Map::<usize, usize>::empty(),
            translator.graph.ports@.len() == 0,
            translator.graph.cells@.len() == 0,
            translator.graph.groups@.len() == 0,
            translator.graph.comb_groups@.len() == 0,
            forall|ir: SourceIr| translator.inv(ir),
    {
        TranslationMap {
            cell_map: TranslationTable::new(),
            port_map: TranslationTable::new(),
            group_map: TranslationTable::new(),
            comb_group_map: TranslationTable::new(),
            graph: Graph::new(),
        }
    }

    /// Every handle that the port table gives out is a port of the graph.
    proof fn lemma_port_values_below(&self, ir: SourceIr, open_cells: Set<usize>, open_groups: Set<usize>)
        requires
            self.inv_open(ir, open_cells, open_groups),
        ensures
            values_below(self.port_map@, self.graph.ports@.len() as nat),
    {
        assert forall|k: usize| #[trigger] self.port_map@.contains_key(k) implies self.port_map@[k]
            < self.graph.ports@.len() by {
            assert(self.port_mirror(ir, k));
        }
    }

    /// Builds the port for identity `s`, which the port table does not know
    /// yet and whose parent has been translated, and enters it in the table.
    fn new_port(&mut self, ir: &SourceIr, s: usize, Ghost(open_cells): Ghost<Set<usize>>, Ghost(open_groups): Ghost<Set<usize>>)
        -> (h: PortId)
        requires
            old(self).inv_open(*ir, open_cells, open_groups),
            ir.wf(),
            s < ir.ports@.len(),
            !old(self).port_map@.contains_key(s),
            old(self).parent_mapped(ir.ports@[s as int].parent),
        ensures
            final(self).inv_open(*ir, open_cells, open_groups),
            final(self).extends(*old(self)),
            final(self).port_map@ == old(self).port_map@.insert(s, h),
            h == old(self).graph.ports@.len(),
            final(self).cell_map == old(self).cell_map,
            final(self).group_map == old(self).group_map,
            final(self).comb_group_map == old(self).comb_group_map,
            final(self).graph.cells == old(self).graph.cells,
            final(self).graph.groups == old(self).graph.groups,
            final(self).graph.comb_groups == old(self).graph.comb_groups,
            final(self).graph.ports@.len() == old(self).graph.ports@.len() + 1,
    {
        let parent = match ir.ports[s].parent {
            SourceParent::Cell(c) => {
                proof {
                    assert(old(self).cell_base_mirror(*ir, c));
                }
                PortParent::Cell(self.cell_map.get(c).unwrap())
            },
            SourceParent::Group(g) => {
                proof {
                    assert(old(self).group_base_mirror(*ir, g));
                }
                PortParent::Group(self.group_map.get(g).unwrap())
            },
            SourceParent::StaticGroup(_) => PortParent::Cell(0),
        };
        let port = port_record(&ir.ports[s], parent);
        let h = self.graph.ports.len();
        self.graph.ports.push(port);
        self.port_map.insert(s, h);
        proof {
            let before = *old(self);
            lemma_covers_insert(before.port_map@, h, s);
            before.lemma_port_values_below(*ir, open_cells, open_groups);
            assert(submap(before.port_map@, self.port_map@));
            assert(self.graph.parent_valid(parent));
            assert forall|p: int| 0 <= p < self.graph.ports@.len() implies self.graph.parent_valid(
                (#[trigger] self.graph.ports@[p]).parent,
            ) by {
                if p < before.graph.ports@.len() {
                    assert(self.graph.ports@[p] == before.graph.ports@[p]);
                    assert(before.graph.parent_valid(before.graph.ports@[p].parent));
                }
            }
            assert forall|c: int| 0 <= c < self.graph.cells@.len() implies self.graph.owns(
                PortParent::Cell(c as usize),
                (#[trigger] self.graph.cells@[c]).ports@,
            ) by {
                assert(before.graph.owns(PortParent::Cell(c as usize), before.graph.cells@[c].ports@));
            }
            assert forall|g: int| 0 <= g < self.graph.groups@.len() implies self.graph.owns(
                PortParent::Group(g as usize),
                (#[trigger] self.graph.groups@[g]).holes@,
            ) by {
                assert(before.graph.owns(
                    PortParent::Group(g as usize),
                    before.graph.groups@[g].holes@,
                ));
            }
            assert forall|g: int|
                0 <= g < self.graph.groups@.len() implies crate::structure::assignments_in_range(
                (#[trigger] self.graph.groups@[g]).assignments@,
                self.graph.ports@.len() as nat,
            ) by {
                lemma_assignments_in_range_grow(
                    before.graph.groups@[g].assignments@,
                    before.graph.ports@.len() as nat,
                    self.graph.ports@.len() as nat,
                );
            }
            assert forall|g: int|
                0 <= g < self.graph.comb_groups@.len() implies crate::structure::assignments_in_range(
                (#[trigger] self.graph.comb_groups@[g]).assignments@,
                self.graph.ports@.len() as nat,
            ) by {
                lemma_assignments_in_range_grow(
                    before.graph.comb_groups@[g].assignments@,
                    before.graph.ports@.len() as nat,
                    self.graph.ports@.len() as nat,
                );
            }
            assert(self.graph.wf());
            assert(injective(self.port_map@)) by {
                assert forall|a: usize, b: usize|
                    self.port_map@.contains_key(a) && self.port_map@.contains_key(b)
                        && self.port_map@[a] == self.port_map@[b] implies a == b by {
                    if a != s {
                        assert(before.port_map@.contains_key(a));
                    }
                    if b != s {
                        assert(before.port_map@.contains_key(b));
                    }
                }
            }
            assert forall|k: usize| #[trigger] self.port_map@.contains_key(k) implies self.port_mirror(
                *ir,
                k,
            ) by {
                if k != s {
                    assert(before.port_map@.contains_key(k));
                    assert(before.port_mirror(*ir, k));
                }
            }
            assert forall|c: usize| #[trigger] self.cell_map@.contains_key(c) implies self.cell_base_mirror(
                *ir,
                c,
            ) && (!open_cells.contains(c) ==> self.cell_ports_mirror(*ir, c)) by {
                assert(before.cell_map@.contains_key(c));
                assert(before.cell_base_mirror(*ir, c));
                if !open_cells.contains(c) {
                    assert(before.cell_ports_mirror(*ir, c));
                }
            }
            assert forall|g: usize| #[trigger] self.group_map@.contains_key(g) implies self.group_base_mirror(
                *ir,
                g,
            ) && (!open_groups.contains(g) ==> self.group_body_mirror(*ir, g)) by {
                assert(before.group_map@.contains_key(g));
                assert(before.group_base_mirror(*ir, g));
                if !open_groups.contains(g) {
                    assert(before.group_body_mirror(*ir, g));
                    lemma_assignments_mirror_grow(
                        ir.groups@[g as int].assignments@,
                        before.graph.groups@[before.group_map@[g] as int].assignments@,
                        before.port_map@,
                        self.port_map@,
                    );
                }
            }
            assert forall|g: usize| #[trigger]
                self.comb_group_map@.contains_key(g) implies self.comb_group_mirror(*ir, g) by {
                assert(before.comb_group_map@.contains_key(g));
                assert(before.comb_group_mirror(*ir, g));
                lemma_assignments_mirror_grow(
                    ir.comb_groups@[g as int].assignments@,
                    before.graph.comb_groups@[before.comb_group_map@[g] as int].assignments@,
                    before.port_map@,
                    self.port_map@,
                );
            }
        }
        h
    }

    /// Later translation of later translation is later translation.
    pub proof fn lemma_extends_transitive(&self, middle: TranslationMap, before: TranslationMap)
        requires
            self.extends(middle),
            middle.extends(before),
        ensures
            self.extends(before),
    {
        assert forall|k: usize| #[trigger] before.port_map@.contains_key(k) implies self.port_map@.contains_key(k)
            && self.port_map@[k] == before.port_map@[k] by {
            assert(middle.port_map@.contains_key(k));
        }
        assert forall|k: usize| #[trigger] before.cell_map@.contains_key(k) implies self.cell_map@.contains_key(k)
            && self.cell_map@[k] == before.cell_map@[k] by {
            assert(middle.cell_map@.contains_key(k));
        }
        assert forall|k: usize| #[trigger] before.group_map@.contains_key(k) implies self.group_map@.contains_key(k)
            && self.group_map@[k] == before.group_map@[k] by {
            assert(middle.group_map@.contains_key(k));
        }
        assert forall|k: usize| #[trigger]
            before.comb_group_map@.contains_key(k) implies self.comb_group_map@.contains_key(k)
            && self.comb_group_map@[k] == before.comb_group_map@[k] by {
            assert(middle.comb_group_map@.contains_key(k));
        }
        assert forall|i: int| 0 <= i < before.graph.ports@.len() implies #[trigger] self.graph.ports@[i]
            == before.graph.ports@[i] by {
            assert(middle.graph.ports@[i] == before.graph.ports@[i]);
        }
        assert forall|i: int| 0 <= i < before.graph.cells@.len() implies #[trigger] self.graph.cells@[i]
            == before.graph.cells@[i] by {
            assert(middle.graph.cells@[i] == before.graph.cells@[i]);
        }
        assert forall|i: int| 0 <= i < before.graph.groups@.len() implies #[trigger] self.graph.groups@[i]
            == before.graph.groups@[i] by {
            assert(middle.graph.groups@[i] == before.graph.groups@[i]);
        }
        assert forall|i: int|
            0 <= i < before.graph.comb_groups@.len() implies #[trigger] self.graph.comb_groups@[i]
            == before.graph.comb_groups@[i] by {
            assert(middle.graph.comb_groups@[i] == before.graph.comb_groups@[i]);
        }
    }

    /// Enters cell `c`, which the cell table does not know yet, as a cell
    /// without ports.
    fn open_cell(&mut self, ir: &SourceIr, c: usize, Ghost(open_groups): Ghost<Set<usize>>) -> (h: CellId)
        requires
            old(self).inv_open(*ir, Set::empty(), open_groups),
            c < ir.cells@.len(),
            !old(self).cell_map@.contains_key(c),
        ensures
            final(self).inv_open(*ir, set![c], open_groups),
            final(self).extends(*old(self)),
            final(self).cell_map@ == old(self).cell_map@.insert(c, h),
            h == old(self).graph.cells@.len(),
            final(self).port_map == old(self).port_map,
            final(self).group_map == old(self).group_map,
            final(self).comb_group_map == old(self).comb_group_map,
            final(self).graph.ports == old(self).graph.ports,
            final(self).graph.groups == old(self).graph.groups,
            final(self).graph.comb_groups == old(self).graph.comb_groups,
            final(self).graph.cells@.len() == old(self).graph.cells@.len() + 1,
    {
        let cell = Cell::from_ir_partial(&ir.cells[c]);
        let h = self.graph.cells.len();
        self.graph.cells.push(cell);
        self.cell_map.insert(c, h);
        proof {
            let before = *old(self);
            lemma_covers_insert(before.cell_map@, h, c);
            let open_cells = Set::<usize>::empty();
            assert(submap(before.cell_map@, self.cell_map@));
            assert forall|p: int| 0 <= p < self.graph.ports@.len() implies self.graph.parent_valid(
                (#[trigger] self.graph.ports@[p]).parent,
            ) by {
                assert(before.graph.parent_valid(before.graph.ports@[p].parent));
            }
            assert forall|d: int| 0 <= d < self.graph.cells@.len() implies self.graph.owns(
                PortParent::Cell(d as usize),
                (#[trigger] self.graph.cells@[d]).ports@,
            ) by {
                if d < before.graph.cells@.len() {
                    assert(before.graph.owns(
                        PortParent::Cell(d as usize),
                        before.graph.cells@[d].ports@,
                    ));
                }
            }
            assert(self.graph.wf());
            assert(injective(self.cell_map@)) by {
                assert forall|a: usize, b: usize|
                    self.cell_map@.contains_key(a) && self.cell_map@.contains_key(b)
                        && self.cell_map@[a] == self.cell_map@[b] implies a == b by {
                    if a != c {
                        assert(before.cell_map@.contains_key(a));
                        assert(before.cell_base_mirror(*ir, a));
                    }
                    if b != c {
                        assert(before.cell_map@.contains_key(b));
                        assert(before.cell_base_mirror(*ir, b));
                    }
                }
            }
            assert forall|k: usize| #[trigger] self.port_map@.contains_key(k) implies self.port_mirror(
                *ir,
                k,
            ) by {
                assert(before.port_mirror(*ir, k));
            }
            assert forall|k: usize| #[trigger] self.cell_map@.contains_key(k) implies self.cell_base_mirror(
                *ir,
                k,
            ) && (!set![c].contains(k) ==> self.cell_ports_mirror(*ir, k)) by {
                if k != c {
                    assert(before.cell_map@.contains_key(k));
                    assert(before.cell_base_mirror(*ir, k));
                    assert(!open_cells.contains(k));
                    assert(before.cell_ports_mirror(*ir, k));
                }
            }
            assert forall|g: usize| #[trigger] self.group_map@.contains_key(g) implies self.group_base_mirror(
                *ir,
                g,
            ) && (!open_groups.contains(g) ==> self.group_body_mirror(*ir, g)) by {
                assert(before.group_base_mirror(*ir, g));
                if !open_groups.contains(g) {
                    assert(before.group_body_mirror(*ir, g));
                }
            }
            assert forall|g: usize| #[trigger]
                self.comb_group_map@.contains_key(g) implies self.comb_group_mirror(*ir, g) by {
                assert(before.comb_group_mirror(*ir, g));
            }
        }
        h
    }

    /// Gives the open cell `c` its ports: `ids`, the translations of the
    /// ports that `c` lists.
    fn close_cell(&mut self, ir: &SourceIr, c: usize, ids: Vec<PortId>, Ghost(open_groups): Ghost<Set<usize>>)
        requires
            old(self).inv_open(*ir, set![c], open_groups),
            ir.wf(),
            old(self).cell_map@.contains_key(c),
            ids_mapped(ir.cells@[c as int].ports@, old(self).port_map@, ids@),
        ensures
            final(self).inv_open(*ir, Set::empty(), open_groups),
            final(self).port_map == old(self).port_map,
            final(self).cell_map == old(self).cell_map,
            final(self).group_map == old(self).group_map,
            final(self).comb_group_map == old(self).comb_group_map,
            final(self).graph.ports == old(self).graph.ports,
            final(self).graph.groups == old(self).graph.groups,
            final(self).graph.comb_groups == old(self).graph.comb_groups,
            final(self).graph.cells@.len() == old(self).graph.cells@.len(),
            forall|i: int|
                0 <= i < old(self).graph.cells@.len() && i != old(self).cell_map@[c]
                    ==> #[trigger] final(self).graph.cells@[i] == old(self).graph.cells@[i],
    {
        proof {
            assert(old(self).cell_base_mirror(*ir, c));
        }
        let h = self.cell_map.get(c).unwrap();
        let original = &ir.cells[c];
        let cell = Cell {
            name: original.name.clone(),
            ports: PortList::from_vec(ids),
            prototype: original.prototype.clone(),
            attributes: clone_attributes(&original.attributes),
            reference: original.reference,
        };
        self.graph.cells.set(h, cell);
        proof {
            let before = *old(self);
            assert forall|p: int| 0 <= p < self.graph.ports@.len() implies self.graph.parent_valid(
                (#[trigger] self.graph.ports@[p]).parent,
            ) by {
                assert(before.graph.parent_valid(before.graph.ports@[p].parent));
            }
            assert forall|d: int| 0 <= d < self.graph.cells@.len() implies self.graph.owns(
                PortParent::Cell(d as usize),
                (#[trigger] self.graph.cells@[d]).ports@,
            ) by {
                if d == h {
                    let listed = ir.cells@[c as int].ports@;
                    assert(ir.owns(SourceParent::Cell(c), listed));
                    assert forall|i: int| 0 <= i < ids@.len() implies (#[trigger] ids@[i])
                        < self.graph.ports@.len() && self.graph.ports@[ids@[i] as int].parent
                        == PortParent::Cell(d as usize) by {
                        assert(before.port_map@.contains_key(listed[i]));
                        assert(before.port_mirror(*ir, listed[i]));
                    }
                } else {
                    assert(before.graph.owns(
                        PortParent::Cell(d as usize),
                        before.graph.cells@[d].ports@,
                    ));
                }
            }
            assert(self.graph.wf());
            assert forall|k: usize| #[trigger] self.port_map@.contains_key(k) implies self.port_mirror(
                *ir,
                k,
            ) by {
                assert(before.port_mirror(*ir, k));
            }
            assert forall|k: usize| #[trigger] self.cell_map@.contains_key(k) implies self.cell_base_mirror(
                *ir,
                k,
            ) && (!Set::<usize>::empty().contains(k) ==> self.cell_ports_mirror(*ir, k)) by {
                assert(before.cell_base_mirror(*ir, k));
                if k != c {
                    assert(before.cell_map@.contains_key(c));
                    assert(before.cell_map@[k] != h);
                    assert(!set![c].contains(k));
                    assert(before.cell_ports_mirror(*ir, k));
                }
            }
            assert forall|g: usize| #[trigger] self.group_map@.contains_key(g) implies self.group_base_mirror(
                *ir,
                g,
            ) && (!open_groups.contains(g) ==> self.group_body_mirror(*ir, g)) by {
                assert(before.group_base_mirror(*ir, g));
                if !open_groups.contains(g) {
                    assert(before.group_body_mirror(*ir, g));
                }
            }
            assert forall|g: usize| #[trigger]
                self.comb_group_map@.contains_key(g) implies self.comb_group_mirror(*ir, g) by {
                assert(before.comb_group_mirror(*ir, g));
            }
        }
    }

    /// Translates the ports that `listed` names, each of which has `parent`
    /// as its owner, and returns their handles in order.
    fn translate_owned_ports(
        &mut self,
        ir: &SourceIr,
        listed: &[usize],
        Ghost(parent): Ghost<SourceParent>,
        Ghost(open_cells): Ghost<Set<usize>>,
        Ghost(open_groups): Ghost<Set<usize>>,
    ) -> (ids: Vec<PortId>)
        requires
            old(self).inv_open(*ir, open_cells, open_groups),
            ir.wf(),
            ir.owns(parent, listed@),
            old(self).parent_mapped(parent),
        ensures
            final(self).inv_open(*ir, open_cells, open_groups),
            final(self).extends(*old(self)),
            ids_mapped(listed@, final(self).port_map@, ids@),
            forall|k: usize| #[trigger]
                final(self).port_map@.contains_key(k) ==> old(self).port_map@.contains_key(k)
                    || listed@.contains(k),
            final(self).cell_map == old(self).cell_map,
            final(self).group_map == old(self).group_map,
            final(self).comb_group_map == old(self).comb_group_map,
            final(self).graph.cells == old(self).graph.cells,
            final(self).graph.groups == old(self).graph.groups,
            final(self).graph.comb_groups == old(self).graph.comb_groups,
    {
        let ghost entry = *self;
        let mut ids: Vec<PortId> = Vec::new();
        let mut i: usize = 0;
        while i < listed.len()
            invariant
                i <= listed@.len(),
                ir.wf(),
                ir.owns(parent, listed@),
                self.parent_mapped(parent),
                self.inv_open(*ir, open_cells, open_groups),
                self.extends(entry),
                self.cell_map == entry.cell_map,
                self.group_map == entry.group_map,
                self.comb_group_map == entry.comb_group_map,
                self.graph.cells == entry.graph.cells,
                self.graph.groups == entry.graph.groups,
                self.graph.comb_groups == entry.graph.comb_groups,
                ids@.len() == i,
                forall|j: int|
                    0 <= j < i ==> self.port_map@.contains_key(#[trigger] listed@[j]) && ids@[j]
                        == self.port_map@[listed@[j]],
                forall|k: usize| #[trigger]
                    self.port_map@.contains_key(k) ==> entry.port_map@.contains_key(k)
                        || listed@.contains(k),
            decreases listed@.len() - i,
        {
            let p = listed[i];
            let ghost middle = *self;
            let known = self.port_map.get(p);
            let id = match known {
                Some(id) => id,
                None => {
                    let id = self.new_port(ir, p, Ghost(open_cells), Ghost(open_groups));
                    proof {
                        self.lemma_extends_transitive(middle, entry);
                    }
                    id
                },
            };
            proof {
                assert forall|j: int| 0 <= j < i implies self.port_map@.contains_key(
                    #[trigger] listed@[j],
                ) && ids@[j] == self.port_map@[listed@[j]] by {
                    assert(middle.port_map@.contains_key(listed@[j]));
                }
                assert(listed@[i as int] == p);
                assert forall|k: usize| #[trigger]
                    self.port_map@.contains_key(k) implies entry.port_map@.contains_key(k)
                    || listed@.contains(k) by {
                    if k != p {
                        assert(middle.port_map@.contains_key(k));
                    }
                }
            }
            ids.push(id);
            i = i + 1;
        }
        ids
    }

    /// The handle of cell `target`: the one it was given before, or that of
    /// a cell built now, together with its ports.
    fn get_cell_in(&mut self, ir: &SourceIr, target: usize, Ghost(open_groups): Ghost<Set<usize>>) -> (h:
        CellId)
        requires
            old(self).inv_open(*ir, Set::empty(), open_groups),
            ir.wf(),
            target < ir.cells@.len(),
        ensures
            final(self).inv_open(*ir, Set::empty(), open_groups),
            final(self).extends(*old(self)),
            final(self).cell_map@.contains_key(target),
            h == final(self).cell_map@[target],
            old(self).cell_map@.contains_key(target) ==> *final(self) == *old(self),
            !old(self).cell_map@.contains_key(target) ==> h == old(self).graph.cells@.len(),
            final(self).cell_map@ == old(self).cell_map@.insert(target, h),
            forall|k: usize| #[trigger]
                final(self).port_map@.contains_key(k) ==> old(self).port_map@.contains_key(k)
                    || ir.cells@[target as int].ports@.contains(k),
            final(self).graph.cells@.len() <= old(self).graph.cells@.len() + 1,
            final(self).group_map == old(self).group_map,
            final(self).comb_group_map == old(self).comb_group_map,
            final(self).graph.groups == old(self).graph.groups,
            final(self).graph.comb_groups == old(self).graph.comb_groups,
    {
        let known = self.cell_map.get(target);
        match known {
            Some(h) => {
                assert(self.cell_map@.insert(target, h) =~= self.cell_map@);
                return h;
            },
            None => {},
        }
        let ghost entry = *self;
        let h = self.open_cell(ir, target, Ghost(open_groups));
        let ghost opened = *self;
        let ghost open_cells = Set::<usize>::empty().insert(target);
        assert(open_cells == set![target]);
        let ids = self.translate_owned_ports(
            ir,
            ir.cells[target].ports.as_slice(),
            Ghost(SourceParent::Cell(target)),
            Ghost(open_cells),
            Ghost(open_groups),
        );
        let ghost listed = *self;
        self.close_cell(ir, target, ids, Ghost(open_groups));
        proof {
            listed.lemma_extends_transitive(opened, entry);
            assert(self.extends(entry)) by {
                assert forall|i: int| 0 <= i < entry.graph.cells@.len() implies #[trigger] self.graph.cells@[i]
                    == entry.graph.cells@[i] by {
                    assert(listed.graph.cells@[i] == entry.graph.cells@[i]);
                }
            }
        }
        h
    }

    /// Enters group `g`, which the group table does not know yet, as a group
    /// without holes and assignments.
    fn open_group(&mut self, ir: &SourceIr, g: usize, Ghost(open_groups): Ghost<Set<usize>>) -> (h: GroupId)
        requires
            old(self).inv_open(*ir, Set::empty(), open_groups),
            g < ir.groups@.len(),
            !old(self).group_map@.contains_key(g),
        ensures
            final(self).inv_open(*ir, Set::empty(), open_groups.insert(g)),
            final(self).extends(*old(self)),
            final(self).group_map@ == old(self).group_map@.insert(g, h),
            h == old(self).graph.groups@.len(),
            final(self).port_map == old(self).port_map,
            final(self).cell_map == old(self).cell_map,
            final(self).comb_group_map == old(self).comb_group_map,
            final(self).graph.ports == old(self).graph.ports,
            final(self).graph.cells == old(self).graph.cells,
            final(self).graph.comb_groups == old(self).graph.comb_groups,
            final(self).graph.groups@.len() == old(self).graph.groups@.len() + 1,
    {
        let group = Group::from_ir_partial(&ir.groups[g]);
        let h = self.graph.groups.len();
        self.graph.groups.push(group);
        self.group_map.insert(g, h);
        proof {
            let before = *old(self);
            lemma_covers_insert(before.group_map@, h, g);
            let open_cells = Set::<usize>::empty();
            assert(submap(before.group_map@, self.group_map@));
            assert forall|p: int| 0 <= p < self.graph.ports@.len() implies self.graph.parent_valid(
                (#[trigger] self.graph.ports@[p]).parent,
            ) by {
                assert(before.graph.parent_valid(before.graph.ports@[p].parent));
            }
            assert forall|d: int| 0 <= d < self.graph.groups@.len() implies self.graph.owns(
                PortParent::Group(d as usize),
                (#[trigger] self.graph.groups@[d]).holes@,
            ) by {
                if d < before.graph.groups@.len() {
                    assert(before.graph.owns(
                        PortParent::Group(d as usize),
                        before.graph.groups@[d].holes@,
                    ));
                }
            }
            assert forall|d: int|
                0 <= d < self.graph.groups@.len() implies assignments_in_range(
                (#[trigger] self.graph.groups@[d]).assignments@,
                self.graph.ports@.len() as nat,
            ) by {
                if d < before.graph.groups@.len() {
                    assert(assignments_in_range(
                        before.graph.groups@[d].assignments@,
                        before.graph.ports@.len() as nat,
                    ));
                }
            }
            assert(self.graph.wf());
            assert(injective(self.group_map@)) by {
                assert forall|a: usize, b: usize|
                    self.group_map@.contains_key(a) && self.group_map@.contains_key(b)
                        && self.group_map@[a] == self.group_map@[b] implies a == b by {
                    if a != g {
                        assert(before.group_map@.contains_key(a));
                        assert(before.group_base_mirror(*ir, a));
                    }
                    if b != g {
                        assert(before.group_map@.contains_key(b));
                        assert(before.group_base_mirror(*ir, b));
                    }
                }
            }
            assert forall|k: usize| #[trigger] self.port_map@.contains_key(k) implies self.port_mirror(
                *ir,
                k,
            ) by {
                assert(before.port_mirror(*ir, k));
            }
            assert forall|k: usize| #[trigger] self.cell_map@.contains_key(k) implies self.cell_base_mirror(
                *ir,
                k,
            ) && (!open_cells.contains(k) ==> self.cell_ports_mirror(*ir, k)) by {
                assert(before.cell_base_mirror(*ir, k));
                assert(before.cell_ports_mirror(*ir, k));
            }
            assert forall|k: usize| #[trigger] self.group_map@.contains_key(k) implies self.group_base_mirror(
                *ir,
                k,
            ) && (!open_groups.insert(g).contains(k) ==> self.group_body_mirror(*ir, k)) by {
                if k != g {
                    assert(before.group_map@.contains_key(k));
                    assert(before.group_base_mirror(*ir, k));
                    if !open_groups.contains(k) {
                        assert(before.group_body_mirror(*ir, k));
                    }
                }
            }
            assert forall|k: usize| #[trigger]
                self.comb_group_map@.contains_key(k) implies self.comb_group_mirror(*ir, k) by {
                assert(before.comb_group_mirror(*ir, k));
            }
        }
        h
    }

    /// Gives the open group `g` its holes and assignments: `holes`, the
    /// translations of the holes that `g` lists, and `assignments`, the
    /// translations of its assignments.
    fn close_group(
        &mut self,
        ir: &SourceIr,
        g: usize,
        holes: Vec<PortId>,
        assignments: Vec<Assignment<()>>,
        Ghost(open_groups): Ghost<Set<usize>>,
    )
        requires
            old(self).inv_open(*ir, Set::empty(), open_groups.insert(g)),
            ir.wf(),
            old(self).group_map@.contains_key(g),
            ids_mapped(ir.groups@[g as int].holes@, old(self).port_map@, holes@),
            assignments_mirror(ir.groups@[g as int].assignments@, assignments@, old(self).port_map@),
        ensures
            final(self).inv_open(*ir, Set::empty(), open_groups),
            final(self).port_map == old(self).port_map,
            final(self).cell_map == old(self).cell_map,
            final(self).group_map == old(self).group_map,
            final(self).comb_group_map == old(self).comb_group_map,
            final(self).graph.ports == old(self).graph.ports,
            final(self).graph.cells == old(self).graph.cells,
            final(self).graph.comb_groups == old(self).graph.comb_groups,
            final(self).graph.groups@.len() == old(self).graph.groups@.len(),
            forall|i: int|
                0 <= i < old(self).graph.groups@.len() && i != old(self).group_map@[g]
                    ==> #[trigger] final(self).graph.groups@[i] == old(self).graph.groups@[i],
    {
        proof {
            assert(old(self).group_base_mirror(*ir, g));
        }
        let h = self.group_map.get(g).unwrap();
        let original = &ir.groups[g];
        let group = Group {
            name: original.name.clone(),
            assignments,
            holes: PortList::from_vec(holes),
            attributes: clone_attributes(&original.attributes),
        };
        self.graph.groups.set(h, group);
        proof {
            let before = *old(self);
            let open_cells = Set::<usize>::empty();
            before.lemma_port_values_below(*ir, open_cells, open_groups.insert(g));
            assert forall|p: int| 0 <= p < self.graph.ports@.len() implies self.graph.parent_valid(
                (#[trigger] self.graph.ports@[p]).parent,
            ) by {
                assert(before.graph.parent_valid(before.graph.ports@[p].parent));
            }
            assert forall|d: int| 0 <= d < self.graph.cells@.len() implies self.graph.owns(
                PortParent::Cell(d as usize),
                (#[trigger] self.graph.cells@[d]).ports@,
            ) by {
                assert(before.graph.owns(PortParent::Cell(d as usize), before.graph.cells@[d].ports@));
            }
            assert forall|d: int| 0 <= d < self.graph.groups@.len() implies self.graph.owns(
                PortParent::Group(d as usize),
                (#[trigger] self.graph.groups@[d]).holes@,
            ) by {
                if d == h {
                    let listed = ir.groups@[g as int].holes@;
                    assert(ir.owns(SourceParent::Group(g), listed));
                    assert forall|i: int| 0 <= i < holes@.len() implies (#[trigger] holes@[i])
                        < self.graph.ports@.len() && self.graph.ports@[holes@[i] as int].parent
                        == PortParent::Group(d as usize) by {
                        assert(before.port_map@.contains_key(listed[i]));
                        assert(before.port_mirror(*ir, listed[i]));
                    }
                } else {
                    assert(before.graph.owns(
                        PortParent::Group(d as usize),
                        before.graph.groups@[d].holes@,
                    ));
                }
            }
            assert forall|d: int|
                0 <= d < self.graph.groups@.len() implies assignments_in_range(
                (#[trigger] self.graph.groups@[d]).assignments@,
                self.graph.ports@.len() as nat,
            ) by {
                if d == h {
                    lemma_assignments_mirror_in_range(
                        ir.groups@[g as int].assignments@,
                        assignments@,
                        before.port_map@,
                        self.graph.ports@.len() as nat,
                    );
                } else {
                    assert(assignments_in_range(
                        before.graph.groups@[d].assignments@,
                        before.graph.ports@.len() as nat,
                    ));
                }
            }
            assert forall|d: int|
                0 <= d < self.graph.comb_groups@.len() implies assignments_in_range(
                (#[trigger] self.graph.comb_groups@[d]).assignments@,
                self.graph.ports@.len() as nat,
            ) by {
                assert(assignments_in_range(
                    before.graph.comb_groups@[d].assignments@,
                    before.graph.ports@.len() as nat,
                ));
            }
            assert(self.graph.wf());
            assert forall|k: usize| #[trigger] self.port_map@.contains_key(k) implies self.port_mirror(
                *ir,
                k,
            ) by {
                assert(before.port_mirror(*ir, k));
                match ir.ports@[k as int].parent {
                    SourceParent::Group(pg) => {
                        assert(before.group_map@.contains_key(pg));
                    },
                    _ => {},
                }
            }
            assert forall|k: usize| #[trigger] self.cell_map@.contains_key(k) implies self.cell_base_mirror(
                *ir,
                k,
            ) && (!open_cells.contains(k) ==> self.cell_ports_mirror(*ir, k)) by {
                assert(before.cell_base_mirror(*ir, k));
                assert(before.cell_ports_mirror(*ir, k));
            }
            assert forall|k: usize| #[trigger] self.group_map@.contains_key(k) implies self.group_base_mirror(
                *ir,
                k,
            ) && (!open_groups.contains(k) ==> self.group_body_mirror(*ir, k)) by {
                assert(before.group_base_mirror(*ir, k));
                if k != g {
                    assert(before.group_map@.contains_key(g));
                    assert(before.group_map@[k] != h);
                    if !open_groups.contains(k) {
                        assert(!open_groups.insert(g).contains(k));
                        assert(before.group_body_mirror(*ir, k));
                    }
                }
            }
            assert forall|k: usize| #[trigger]
                self.comb_group_map@.contains_key(k) implies self.comb_group_mirror(*ir, k) by {
                assert(before.comb_group_mirror(*ir, k));
            }
        }
    }

    /// The handle of port `target`: the one it was given before, or that of
    /// a port built now, after its parent.
    fn get_port_rec(&mut self, ir: &SourceIr, target: usize, Ghost(open_groups): Ghost<Set<usize>>) -> (h:
        PortId)
        requires
            old(self).inv_open(*ir, Set::empty(), open_groups),
            ir.wf(),
            ir.supported(),
            target < ir.ports@.len(),
        ensures
            final(self).inv_open(*ir, Set::empty(), open_groups),
            final(self).extends(*old(self)),
            final(self).port_map@.contains_key(target),
            h == final(self).port_map@[target],
            old(self).port_map@.contains_key(target) ==> *final(self) == *old(self),
            final(self).comb_group_map == old(self).comb_group_map,
        decreases pending(old(self).group_map@, ir.groups@.len() as nat), 1nat, 0nat,
    {
        let known = self.port_map.get(target);
        match known {
            Some(h) => {
                return h;
            },
            None => {},
        }
        let ghost entry = *self;
        match ir.ports[target].parent {
            SourceParent::Cell(c) => {
                self.get_cell_in(ir, c, Ghost(open_groups));
            },
            SourceParent::Group(g) => {
                self.get_group_rec(ir, g, Ghost(open_groups));
            },
            SourceParent::StaticGroup(_) => {},
        }
        let ghost middle = *self;
        let after = self.port_map.get(target);
        match after {
            Some(h) => h,
            None => {
                let h = self.new_port(ir, target, Ghost(Set::empty()), Ghost(open_groups));
                proof {
                    self.lemma_extends_transitive(middle, entry);
                }
                h
            },
        }
    }

    /// The translation of `original`: the same expression over the handles
    /// of the ports that `original` reads.
    fn guard_from_ir<T: Clone>(
        &mut self,
        ir: &SourceIr,
        original: &Guard<T>,
        Ghost(open_groups): Ghost<Set<usize>>,
    ) -> (guard: Guard<T>)
        requires
            old(self).inv_open(*ir, Set::empty(), open_groups),
            ir.wf(),
            ir.supported(),
            original.in_range(ir.ports@.len() as nat),
        ensures
            final(self).inv_open(*ir, Set::empty(), open_groups),
            final(self).extends(*old(self)),
            guard_mirror(*original, guard, final(self).port_map@),
            final(self).comb_group_map == old(self).comb_group_map,
        decreases pending(old(self).group_map@, ir.groups@.len() as nat), 2nat, original.size(),
    {
        let ghost entry = *self;
        match original {
            Guard::Or(l, r) => {
                let tl = self.guard_from_ir(ir, l, Ghost(open_groups));
                let ghost middle = *self;
                proof {
                    lemma_pending_shrinks(
                        entry.group_map@,
                        middle.group_map@,
                        ir.groups.len(),
                    );
                }
                let tr = self.guard_from_ir(ir, r, Ghost(open_groups));
                proof {
                    self.lemma_extends_transitive(middle, entry);
                    lemma_guard_mirror_grows(**l, tl, middle.port_map@, self.port_map@);
                }
                Guard::Or(Box::new(tl), Box::new(tr))
            },
            Guard::And(l, r) => {
                let tl = self.guard_from_ir(ir, l, Ghost(open_groups));
                let ghost middle = *self;
                proof {
                    lemma_pending_shrinks(
                        entry.group_map@,
                        middle.group_map@,
                        ir.groups.len(),
                    );
                }
                let tr = self.guard_from_ir(ir, r, Ghost(open_groups));
                proof {
                    self.lemma_extends_transitive(middle, entry);
                    lemma_guard_mirror_grows(**l, tl, middle.port_map@, self.port_map@);
                }
                Guard::And(Box::new(tl), Box::new(tr))
            },
            Guard::Not(n) => {
                let tn = self.guard_from_ir(ir, n, Ghost(open_groups));
                Guard::Not(Box::new(tn))
            },
            Guard::True => Guard::True,
            Guard::CompOp(op, l, r) => {
                let tl = self.get_port_rec(ir, *l, Ghost(open_groups));
                let ghost middle = *self;
                proof {
                    lemma_pending_shrinks(
                        entry.group_map@,
                        middle.group_map@,
                        ir.groups.len(),
                    );
                }
                let tr = self.get_port_rec(ir, *r, Ghost(open_groups));
                proof {
                    self.lemma_extends_transitive(middle, entry);
                    assert(middle.port_map@.contains_key(*l));
                }
                Guard::CompOp(*op, tl, tr)
            },
            Guard::Port(p) => {
                let tp = self.get_port_rec(ir, *p, Ghost(open_groups));
                Guard::Port(tp)
            },
            Guard::Info(i) => Guard::Info(i.clone()),
        }
    }

    /// The translation of `original`: the assignment that connects the
    /// translations of its ports under the translation of its guard.
    fn assignment_from_ir<T: Clone>(
        &mut self,
        ir: &SourceIr,
        original: &Assignment<T>,
        Ghost(open_groups): Ghost<Set<usize>>,
    ) -> (assignment: Assignment<T>)
        requires
            old(self).inv_open(*ir, Set::empty(), open_groups),
            ir.wf(),
            ir.supported(),
            original.in_range(ir.ports@.len() as nat),
        ensures
            final(self).inv_open(*ir, Set::empty(), open_groups),
            final(self).extends(*old(self)),
            assignment_mirror(*original, assignment, final(self).port_map@),
            final(self).comb_group_map == old(self).comb_group_map,
        decreases pending(old(self).group_map@, ir.groups@.len() as nat), 3nat, 0nat,
    {
        let ghost entry = *self;
        let dst = self.get_port_rec(ir, original.dst, Ghost(open_groups));
        let ghost first = *self;
        proof {
            lemma_pending_shrinks(entry.group_map@, first.group_map@, ir.groups.len());
        }
        let src = self.get_port_rec(ir, original.src, Ghost(open_groups));
        let ghost second = *self;
        proof {
            second.lemma_extends_transitive(first, entry);
            lemma_pending_shrinks(entry.group_map@, second.group_map@, ir.groups.len());
        }
        let guard = self.guard_from_ir(ir, &original.guard, Ghost(open_groups));
        proof {
            self.lemma_extends_transitive(second, entry);
            assert(first.port_map@.contains_key(original.dst));
            assert(second.port_map@.contains_key(original.dst));
            assert(second.port_map@.contains_key(original.src));
        }
        Assignment {
            dst,
            src,
            guard: Box::new(guard),
            attributes: clone_attributes(&original.attributes),
        }
    }

    /// The translations of `originals`, in order.
    fn translate_assignments<T: Clone>(
        &mut self,
        ir: &SourceIr,
        originals: &Vec<Assignment<T>>,
        Ghost(open_groups): Ghost<Set<usize>>,
    ) -> (assignments: Vec<Assignment<T>>)
        requires
            old(self).inv_open(*ir, Set::empty(), open_groups),
            ir.wf(),
            ir.supported(),
            assignments_in_range(originals@, ir.ports@.len() as nat),
        ensures
            final(self).inv_open(*ir, Set::empty(), open_groups),
            final(self).extends(*old(self)),
            assignments_mirror(originals@, assignments@, final(self).port_map@),
            final(self).comb_group_map == old(self).comb_group_map,
        decreases pending(old(self).group_map@, ir.groups@.len() as nat), 4nat, 0nat,
    {
        let ghost entry = *self;
        let mut assignments: Vec<Assignment<T>> = Vec::new();
        let mut i: usize = 0;
        while i < originals.len()
            invariant
                i <= originals@.len(),
                ir.wf(),
                ir.supported(),
                assignments_in_range(originals@, ir.ports@.len() as nat),
                self.inv_open(*ir, Set::empty(), open_groups),
                self.extends(entry),
                entry.group_map@ == old(self).group_map@,
                self.comb_group_map == entry.comb_group_map,
                pending(self.group_map@, ir.groups@.len() as nat) <= pending(
                    entry.group_map@,
                    ir.groups@.len() as nat,
                ),
                assignments_mirror(originals@.take(i as int), assignments@, self.port_map@),
            decreases originals@.len() - i,
        {
            let ghost middle = *self;
            let ghost done = assignments@;
            let translated = self.assignment_from_ir(ir, &originals[i], Ghost(open_groups));
            assignments.push(translated);
            proof {
                self.lemma_extends_transitive(middle, entry);
                lemma_pending_shrinks(entry.group_map@, self.group_map@, ir.groups.len());
                lemma_assignments_mirror_grow(
                    originals@.take(i as int),
                    done,
                    middle.port_map@,
                    self.port_map@,
                );
                let prefix = originals@.take(i as int + 1);
                assert forall|j: int| 0 <= j < prefix.len() implies assignment_mirror(
                    prefix[j],
                    assignments@[j],
                    self.port_map@,
                ) by {
                    if j < i {
                        assert(originals@.take(i as int)[j] == prefix[j]);
                        assert(assignment_mirror(
                            originals@.take(i as int)[j],
                            done[j],
                            self.port_map@,
                        ));
                    }
                }
            }
            i = i + 1;
        }
        proof {
            assert(originals@.take(i as int) == originals@);
        }
        assignments
    }

    /// The handle of group `target`: the one it was given before, or that of
    /// a group built now, together with its holes and assignments. A group
    /// of `open_groups` is being built further up; its handle is returned as it is.
    fn get_group_rec(&mut self, ir: &SourceIr, target: usize, Ghost(open_groups): Ghost<Set<usize>>) -> (h:
        GroupId)
        requires
            old(self).inv_open(*ir, Set::empty(), open_groups),
            ir.wf(),
            ir.supported(),
            target < ir.groups@.len(),
        ensures
            final(self).inv_open(*ir, Set::empty(), open_groups),
            final(self).extends(*old(self)),
            final(self).group_map@.contains_key(target),
            h == final(self).group_map@[target],
            old(self).group_map@.contains_key(target) ==> *final(self) == *old(self),
            !old(self).group_map@.contains_key(target) ==> h == old(self).graph.groups@.len(),
            final(self).comb_group_map == old(self).comb_group_map,
        decreases pending(old(self).group_map@, ir.groups@.len() as nat), 0nat, 0nat,
    {
        let known = self.group_map.get(target);
        match known {
            Some(h) => {
                return h;
            },
            None => {},
        }
        let ghost entry = *self;
        let h = self.open_group(ir, target, Ghost(open_groups));
        let ghost opened = *self;
        let ghost inner = open_groups.insert(target);
        proof {
            lemma_pending_insert(entry.group_map@, ir.groups.len(), target, h);
        }
        let holes = self.translate_owned_ports(
            ir,
            ir.groups[target].holes.as_slice(),
            Ghost(SourceParent::Group(target)),
            Ghost(Set::empty()),
            Ghost(inner),
        );
        let ghost listed = *self;
        proof {
            listed.lemma_extends_transitive(opened, entry);
        }
        let assignments = self.translate_assignments(ir, &ir.groups[target].assignments, Ghost(inner));
        let ghost filled = *self;
        proof {
            filled.lemma_extends_transitive(listed, entry);
            let original = ir.groups@[target as int].holes@;
            assert forall|i: int| 0 <= i < original.len() implies filled.port_map@.contains_key(
                #[trigger] original[i],
            ) && holes@[i] == filled.port_map@[original[i]] by {
                assert(listed.port_map@.contains_key(original[i]));
            }
            assert(entry.group_map@.contains_key(target) == false);
            assert(opened.group_map@.contains_key(target));
            assert(listed.group_map@.contains_key(target));
            assert(filled.group_map@.contains_key(target));
        }
        self.close_group(ir, target, holes, assignments, Ghost(open_groups));
        proof {
            assert(self.extends(entry)) by {
                assert forall|i: int| 0 <= i < entry.graph.groups@.len() implies #[trigger] self.graph.groups@[i]
                    == entry.graph.groups@[i] by {
                    assert(filled.graph.groups@[i] == entry.graph.groups@[i]);
                }
            }
        }
        h
    }

    /// Enters the translation `group` of combinational group `g`, which the
    /// table does not know yet.
    fn add_comb_group(&mut self, ir: &SourceIr, g: usize, group: CombGroup) -> (h: CombGroupId)
        requires
            old(self).inv(*ir),
            g < ir.comb_groups@.len(),
            !old(self).comb_group_map@.contains_key(g),
            group.name@ == ir.comb_groups@[g as int].name@,
            attributes_map(group.attributes) == attributes_map(
                ir.comb_groups@[g as int].attributes,
            ),
            assignments_mirror(
                ir.comb_groups@[g as int].assignments@,
                group.assignments@,
                old(self).port_map@,
            ),
        ensures
            final(self).inv(*ir),
            final(self).extends(*old(self)),
            final(self).comb_group_map@ == old(self).comb_group_map@.insert(g, h),
            h == old(self).graph.comb_groups@.len(),
            final(self).port_map == old(self).port_map,
            final(self).cell_map == old(self).cell_map,
            final(self).group_map == old(self).group_map,
            final(self).graph.ports == old(self).graph.ports,
            final(self).graph.cells == old(self).graph.cells,
            final(self).graph.groups == old(self).graph.groups,
    {
        let h = self.graph.comb_groups.len();
        self.graph.comb_groups.push(group);
        self.comb_group_map.insert(g, h);
        proof {
            let before = *old(self);
            lemma_covers_insert(before.comb_group_map@, h, g);
            let none = Set::<usize>::empty();
            before.lemma_port_values_below(*ir, none, none);
            assert(submap(before.comb_group_map@, self.comb_group_map@));
            assert forall|d: int|
                0 <= d < self.graph.comb_groups@.len() implies assignments_in_range(
                (#[trigger] self.graph.comb_groups@[d]).assignments@,
                self.graph.ports@.len() as nat,
            ) by {
                if d == h {
                    lemma_assignments_mirror_in_range(
                        ir.comb_groups@[g as int].assignments@,
                        group.assignments@,
                        before.port_map@,
                        self.graph.ports@.len() as nat,
                    );
                } else {
                    assert(assignments_in_range(
                        before.graph.comb_groups@[d].assignments@,
                        before.graph.ports@.len() as nat,
                    ));
                }
            }
            assert(self.graph.wf());
            assert(injective(self.comb_group_map@)) by {
                assert forall|a: usize, b: usize|
                    self.comb_group_map@.contains_key(a) && self.comb_group_map@.contains_key(b)
                        && self.comb_group_map@[a] == self.comb_group_map@[b] implies a == b by {
                    if a != g {
                        assert(before.comb_group_map@.contains_key(a));
                        assert(before.comb_group_mirror(*ir, a));
                    }
                    if b != g {
                        assert(before.comb_group_map@.contains_key(b));
                        assert(before.comb_group_mirror(*ir, b));
                    }
                }
            }
            assert forall|k: usize| #[trigger] self.port_map@.contains_key(k) implies self.port_mirror(
                *ir,
                k,
            ) by {
                assert(before.port_mirror(*ir, k));
            }
            assert forall|k: usize| #[trigger] self.cell_map@.contains_key(k) implies self.cell_base_mirror(
                *ir,
                k,
            ) && (!none.contains(k) ==> self.cell_ports_mirror(*ir, k)) by {
                assert(before.cell_base_mirror(*ir, k));
                assert(before.cell_ports_mirror(*ir, k));
            }
            assert forall|k: usize| #[trigger] self.group_map@.contains_key(k) implies self.group_base_mirror(
                *ir,
                k,
            ) && (!none.contains(k) ==> self.group_body_mirror(*ir, k)) by {
                assert(before.group_base_mirror(*ir, k));
                assert(before.group_body_mirror(*ir, k));
            }
            assert forall|k: usize| #[trigger]
                self.comb_group_map@.contains_key(k) implies self.comb_group_mirror(*ir, k) by {
                if k != g {
                    assert(before.comb_group_map@.contains_key(k));
                    assert(before.comb_group_mirror(*ir, k));
                }
            }
        }
        h
    }

    /// The handle of port `target`. A port that was translated before keeps
    /// its handle and nothing is built; otherwise its parent is translated
    /// first, and the port is built unless its parent's translation built it.
    pub fn get_port(&mut self, ir: &SourceIr, target: usize) -> (h: PortId)
        requires
            old(self).inv(*ir),
            ir.wf(),
            ir.supported(),
            target < ir.ports@.len(),
        ensures
            final(self).inv(*ir),
            final(self).extends(*old(self)),
            final(self).port_map@.contains_key(target),
            h == final(self).port_map@[target],
            old(self).port_map@.contains_key(target) ==> *final(self) == *old(self),
            final(self).comb_group_map@ == old(self).comb_group_map@,
    {
        self.get_port_rec(ir, target, Ghost(Set::empty()))
    }

    /// The handle of cell `target`. A cell that was translated before keeps
    /// its handle and nothing is built; otherwise the cell is built, under
    /// the next free handle, together with its ports and with nothing else.
    pub fn get_cell(&mut self, ir: &SourceIr, target: usize) -> (h: CellId)
        requires
            old(self).inv(*ir),
            ir.wf(),
            target < ir.cells@.len(),
        ensures
            final(self).inv(*ir),
            final(self).extends(*old(self)),
            final(self).cell_map@.contains_key(target),
            h == final(self).cell_map@[target],
            old(self).cell_map@.contains_key(target) ==> *final(self) == *old(self),
            !old(self).cell_map@.contains_key(target) ==> h == old(self).graph.cells@.len(),
            final(self).cell_map@ == old(self).cell_map@.insert(target, h),
            forall|k: usize| #[trigger]
                final(self).port_map@.contains_key(k) ==> old(self).port_map@.contains_key(k)
                    || ir.cells@[target as int].ports@.contains(k),
            final(self).graph.cells@.len() <= old(self).graph.cells@.len() + 1,
            final(self).group_map == old(self).group_map,
            final(self).comb_group_map == old(self).comb_group_map,
            final(self).graph.groups == old(self).graph.groups,
            final(self).graph.comb_groups == old(self).graph.comb_groups,
    {
        self.get_cell_in(ir, target, Ghost(Set::empty()))
    }

    /// The handle of group `target`. A group that was translated before
    /// keeps its handle and nothing is built; otherwise the group is built
    /// together with its holes and assignments, and with whatever they name.
    pub fn get_group(&mut self, ir: &SourceIr, target: usize) -> (h: GroupId)
        requires
            old(self).inv(*ir),
            ir.wf(),
            ir.supported(),
            target < ir.groups@.len(),
        ensures
            final(self).inv(*ir),
            final(self).extends(*old(self)),
            final(self).group_map@.contains_key(target),
            h == final(self).group_map@[target],
            old(self).group_map@.contains_key(target) ==> *final(self) == *old(self),
            !old(self).group_map@.contains_key(target) ==> h == old(self).graph.groups@.len(),
            final(self).comb_group_map@ == old(self).comb_group_map@,
    {
        self.get_group_rec(ir, target, Ghost(Set::empty()))
    }

    /// The handle of combinational group `target`. A group that was
    /// translated before keeps its handle and nothing is built; otherwise
    /// the group is built together with its assignments, and no other
    /// combinational group with it.
    pub fn get_comb_group(&mut self, ir: &SourceIr, target: usize) -> (h: CombGroupId)
        requires
            old(self).inv(*ir),
            ir.wf(),
            ir.supported(),
            target < ir.comb_groups@.len(),
        ensures
            final(self).inv(*ir),
            final(self).extends(*old(self)),
            final(self).comb_group_map@.contains_key(target),
            h == final(self).comb_group_map@[target],
            old(self).comb_group_map@.contains_key(target) ==> *final(self) == *old(self),
            final(self).comb_group_map@ == old(self).comb_group_map@.insert(target, h),
    {
        let known = self.comb_group_map.get(target);
        match known {
            Some(h) => {
                assert(self.comb_group_map@.insert(target, h) =~= self.comb_group_map@);
                return h;
            },
            None => {},
        }
        let ghost entry = *self;
        let group = CombGroup::from_ir(&ir.comb_groups[target], ir, self);
        let ghost middle = *self;
        let h = self.add_comb_group(ir, target, group);
        proof {
            self.lemma_extends_transitive(middle, entry);
        }
        h
    }

    /// The translations of the continuous assignments `originals`, in
    /// order.
    pub fn translate_continuous(&mut self, ir: &SourceIr, originals: &Vec<Assignment<()>>) -> (assignments:
        Vec<Assignment<()>>)
        requires
            old(self).inv(*ir),
            ir.wf(),
            ir.supported(),
            assignments_in_range(originals@, ir.ports@.len() as nat),
        ensures
            final(self).inv(*ir),
            final(self).extends(*old(self)),
            assignments_mirror(originals@, assignments@, final(self).port_map@),
    {
        self.translate_assignments(ir, originals, Ghost(Set::empty()))
    }

    /// The translation of `target`: the assignment that connects the
    /// translations of its ports under the translation of its guard.
    pub fn get_assignment<T: Clone>(&mut self, ir: &SourceIr, target: &Assignment<T>) -> (assignment:
        Assignment<T>)
        requires
            old(self).inv(*ir),
            ir.wf(),
            ir.supported(),
            target.in_range(ir.ports@.len() as nat),
        ensures
            final(self).inv(*ir),
            final(self).extends(*old(self)),
            assignment_mirror(*target, assignment, final(self).port_map@),
            final(self).comb_group_map == old(self).comb_group_map,
    {
        Assignment::from_ir(target, ir, self)
    }
}

impl Port {
    /// The translation of port `original`: a port of its name, width,
    /// direction and attributes whose back-reference is the translation of
    /// its parent. The parent is translated on the way, if it was not
    /// before. A port of a statically scheduled group has no translation.
    pub fn from_ir(original: usize, ir: &SourceIr, translator: &mut TranslationMap) -> (port: Port)
        requires
            old(translator).inv(*ir),
            ir.wf(),
            ir.supported(),
            original < ir.ports@.len(),
        ensures
            final(translator).inv(*ir),
            final(translator).extends(*old(translator)),
            port.name@ == ir.ports@[original as int].name@,
            port.width == ir.ports@[original as int].width,
            port.direction == ir.ports@[original as int].direction,
            attributes_map(port.attributes) == attributes_map(
                ir.ports@[original as int].attributes,
            ),
            final(translator).parent_mapped(ir.ports@[original as int].parent),
            port.parent == final(translator).parent_handle(ir.ports@[original as int].parent),
    {
        proof {
            assert(ir.parent_valid(ir.ports@[original as int].parent));
        }
        let parent = match ir.ports[original].parent {
            SourceParent::Cell(c) => PortParent::Cell(translator.get_cell(ir, c)),
            SourceParent::Group(g) => PortParent::Group(translator.get_group(ir, g)),
            SourceParent::StaticGroup(_) => vstd::pervasive::unreached(),
        };
        port_record(&ir.ports[original], parent)
    }
}

impl<T: Clone> Guard<T> {
    /// The translation of `original`: the same expression over the handles
    /// of the ports that `original` reads. Each port is translated on the
    /// way, if it was not before.
    pub fn from_ir(original: &Guard<T>, ir: &SourceIr, translator: &mut TranslationMap) -> (guard:
        Guard<T>)
        requires
            old(translator).inv(*ir),
            ir.wf(),
            ir.supported(),
            original.in_range(ir.ports@.len() as nat),
        ensures
            final(translator).inv(*ir),
            final(translator).extends(*old(translator)),
            guard_mirror(*original, guard, final(translator).port_map@),
            final(translator).comb_group_map == old(translator).comb_group_map,
    {
        translator.guard_from_ir(ir, original, Ghost(Set::empty()))
    }
}

impl<T: Clone> Assignment<T> {
    /// The translation of `original`: the assignment that connects the
    /// translations of its ports under the translation of its guard. Each
    /// port is translated on the way, if it was not before.
    pub fn from_ir(original: &Assignment<T>, ir: &SourceIr, translator: &mut TranslationMap) -> (assignment:
        Assignment<T>)
        requires
            old(translator).inv(*ir),
            ir.wf(),
            ir.supported(),
            original.in_range(ir.ports@.len() as nat),
        ensures
            final(translator).inv(*ir),
            final(translator).extends(*old(translator)),
            assignment_mirror(*original, assignment, final(translator).port_map@),
            final(translator).comb_group_map == old(translator).comb_group_map,
    {
        translator.assignment_from_ir(ir, original, Ghost(Set::empty()))
    }
}

impl CombGroup {
    /// The translation of `original`: the combinational group of its name
    /// and attributes that holds the translations of its assignments.
    pub fn from_ir(original: &CombGroup, ir: &SourceIr, translator: &mut TranslationMap) -> (group:
        CombGroup)
        requires
            old(translator).inv(*ir),
            ir.wf(),
            ir.supported(),
            assignments_in_range(original.assignments@, ir.ports@.len() as nat),
        ensures
            final(translator).inv(*ir),
            final(translator).extends(*old(translator)),
            group.name@ == original.name@,
            attributes_map(group.attributes) == attributes_map(original.attributes),
            assignments_mirror(original.assignments@, group.assignments@, final(translator).port_map@),
            final(translator).comb_group_map == old(translator).comb_group_map,
    {
        let assignments = translator.translate_assignments(
            ir,
            &original.assignments,
            Ghost(Set::empty()),
        );
        CombGroup {
            name: original.name.clone(),
            assignments,
            attributes: clone_attributes(&original.attributes),
        }
    }
}

} // verus!
