//! The arena that holds the nodes of the concurrent graph, and the lookups
//! that resolve a handle through it.

use crate::attributes::has_attribute;
use crate::structure::{
    assignments_in_range, check_assignments_in_range, find_named, ids_in_range, ports_with_attr,
    Canonical, Cell, CombGroup, Error, Group, Port, PortId, PortParent,
};
use calyx_frontend::Attribute;
use vstd::prelude::*;

verus! {

/// The nodes of the concurrent graph. A handle is an index into one of the
/// four vectors, so every edge of the graph is a shared, non-owning reference
/// and the arena alone decides how long a node lives.
#[derive(Debug)]
pub struct Graph {
    pub ports: Vec<Port>,
    pub cells: Vec<Cell>,
    pub groups: Vec<Group>,
    pub comb_groups: Vec<CombGroup>,
}

impl Graph {
    /// `parent` is the handle of a node of this graph.
    pub open spec fn parent_valid(&self, parent: PortParent) -> bool {
        match parent {
            PortParent::Cell(c) => c < self.cells@.len(),
            PortParent::Group(g) => g < self.groups@.len(),
        }
    }

    /// The name of the cell or group `parent`.
    pub open spec fn parent_name(&self, parent: PortParent) -> Seq<char> {
        match parent {
            PortParent::Cell(c) => self.cells@[c as int].name@,
            PortParent::Group(g) => self.groups@[g as int].name@,
        }
    }

    /// Every handle of `ids` is a port of this graph whose parent is `parent`.
    pub open spec fn owns(&self, parent: PortParent, ids: Seq<PortId>) -> bool {
        forall|i: int|
            0 <= i < ids.len() ==> (#[trigger] ids[i]) < self.ports@.len()
                && self.ports@[ids[i] as int].parent == parent
    }

    /// The graph is well formed: every port has a parent in the graph, every
    /// port that a cell or a group lists is in the graph and names that cell
    /// or group as its parent, and every assignment connects ports of the
    /// graph.
    pub open spec fn wf(&self) -> bool {
        &&& forall|p: int|
            0 <= p < self.ports@.len() ==> self.parent_valid((#[trigger] self.ports@[p]).parent)
        &&& forall|c: int|
            0 <= c < self.cells@.len() ==> self.owns(
                PortParent::Cell(c as usize),
                (#[trigger] self.cells@[c]).ports@,
            )
        &&& forall|g: int|
            0 <= g < self.groups@.len() ==> self.owns(
                PortParent::Group(g as usize),
                (#[trigger] self.groups@[g]).holes@,
            )
        &&& forall|g: int|
            0 <= g < self.groups@.len() ==> assignments_in_range(
                (#[trigger] self.groups@[g]).assignments@,
                self.ports@.len(),
            )
        &&& forall|g: int|
            0 <= g < self.comb_groups@.len() ==> assignments_in_range(
                (#[trigger] self.comb_groups@[g]).assignments@,
                self.ports@.len(),
            )
    }

    /// A graph without nodes.
    pub fn new() -> (graph: Graph)
        ensures
            graph.ports@.len() == 0,
            graph.cells@.len() == 0,
            graph.groups@.len() == 0,
            graph.comb_groups@.len() == 0,
            graph.wf(),
    {
        Graph { ports: Vec::new(), cells: Vec::new(), groups: Vec::new(), comb_groups: Vec::new() }
    }

    /// Tests [`Graph::parent_valid`].
    pub fn check_parent(&self, parent: PortParent) -> (ok: bool)
        ensures
            ok == self.parent_valid(parent),
    {
        match parent {
            PortParent::Cell(c) => c < self.cells.len(),
            PortParent::Group(g) => g < self.groups.len(),
        }
    }

    /// Tests [`Graph::owns`].
    pub fn check_owns(&self, parent: PortParent, ids: &[PortId]) -> (ok: bool)
        ensures
            ok == self.owns(parent, ids@),
    {
        let mut i: usize = 0;
        while i < ids.len()
            invariant
                i <= ids@.len(),
                forall|j: int|
                    0 <= j < i ==> (#[trigger] ids@[j]) < self.ports@.len()
                        && self.ports@[ids@[j] as int].parent == parent,
            decreases ids@.len() - i,
        {
            let id = ids[i];
            if id >= self.ports.len() {
                return false;
            }
            if self.ports[id].parent != parent {
                return false;
            }
            i = i + 1;
        }
        true
    }

    /// Tests [`Graph::wf`].
    pub fn check(&self) -> (ok: bool)
        ensures
            ok == self.wf(),
    {
        let mut p: usize = 0;
        while p < self.ports.len()
            invariant
                p <= self.ports@.len(),
                forall|q: int| 0 <= q < p ==> self.parent_valid((#[trigger] self.ports@[q]).parent),
            decreases self.ports@.len() - p,
        {
            if !self.check_parent(self.ports[p].parent) {
                return false;
            }
            p = p + 1;
        }
        let mut c: usize = 0;
        while c < self.cells.len()
            invariant
                c <= self.cells@.len(),
                forall|d: int|
                    0 <= d < c ==> self.owns(
                        PortParent::Cell(d as usize),
                        (#[trigger] self.cells@[d]).ports@,
                    ),
            decreases self.cells@.len() - c,
        {
            if !self.check_owns(PortParent::Cell(c), self.cells[c].ports.as_slice()) {
                return false;
            }
            c = c + 1;
        }
        let mut g: usize = 0;
        while g < self.groups.len()
            invariant
                g <= self.groups@.len(),
                forall|h: int|
                    0 <= h < g ==> self.owns(
                        PortParent::Group(h as usize),
                        (#[trigger] self.groups@[h]).holes@,
                    ),
                forall|h: int|
                    0 <= h < g ==> assignments_in_range(
                        (#[trigger] self.groups@[h]).assignments@,
                        self.ports@.len(),
                    ),
            decreases self.groups@.len() - g,
        {
            if !self.check_owns(PortParent::Group(g), self.groups[g].holes.as_slice()) {
                return false;
            }
            if !check_assignments_in_range(&self.groups[g].assignments, self.ports.len()) {
                return false;
            }
            g = g + 1;
        }
        let mut k: usize = 0;
        while k < self.comb_groups.len()
            invariant
                k <= self.comb_groups@.len(),
                forall|h: int|
                    0 <= h < k ==> assignments_in_range(
                        (#[trigger] self.comb_groups@[h]).assignments@,
                        self.ports@.len(),
                    ),
            decreases self.comb_groups@.len() - k,
        {
            if !check_assignments_in_range(&self.comb_groups[k].assignments, self.ports.len()) {
                return false;
            }
            k = k + 1;
        }
        true
    }

    /// The first handle of `ids` whose port is named `name`.
    pub fn find_port(&self, ids: &[PortId], name: &str) -> (found: Option<PortId>)
        requires
            ids_in_range(ids@, self.ports@.len()),
        ensures
            found == find_named(self.ports@, ids@, name@, 0),
    {
        let wanted = name.to_owned();
        let mut i: usize = 0;
        while i < ids.len()
            invariant
                i <= ids@.len(),
                wanted@ == name@,
                ids_in_range(ids@, self.ports@.len()),
                find_named(self.ports@, ids@, name@, 0) == find_named(
                    self.ports@,
                    ids@,
                    name@,
                    i as int,
                ),
            decreases ids@.len() - i,
        {
            let id = ids[i];
            if self.ports[id].name == wanted {
                return Some(id);
            }
            i = i + 1;
        }
        None
    }

    /// The handles of `ids`, in order, whose ports carry `attr`.
    pub fn find_ports_with_attr(&self, ids: &[PortId], attr: Attribute) -> (found: Vec<PortId>)
        requires
            ids_in_range(ids@, self.ports@.len()),
        ensures
            found@ == ports_with_attr(self.ports@, ids@, attr, 0),
    {
        let mut found: Vec<PortId> = Vec::new();
        let mut i: usize = 0;
        while i < ids.len()
            invariant
                i <= ids@.len(),
                ids_in_range(ids@, self.ports@.len()),
                ports_with_attr(self.ports@, ids@, attr, 0) == found@ + ports_with_attr(
                    self.ports@,
                    ids@,
                    attr,
                    i as int,
                ),
            decreases ids@.len() - i,
        {
            let id = ids[i];
            let ghost before = found@;
            if has_attribute(&self.ports[id].attributes, attr) {
                found.push(id);
                assert(found@ + ports_with_attr(self.ports@, ids@, attr, i as int + 1) =~= before
                    + (seq![id] + ports_with_attr(self.ports@, ids@, attr, i as int + 1)));
            }
            i = i + 1;
        }
        assert(found@ + Seq::<PortId>::empty() =~= found@);
        found
    }
}

/// A port has one owner: two cells of a well-formed graph that list the same
/// port are the same cell, and no group lists a port that a cell lists.
pub proof fn lemma_port_has_one_owner(graph: Graph, port: PortId, first: usize, second: usize)
    requires
        graph.wf(),
        first < graph.cells@.len(),
        graph.cells@[first as int].ports@.contains(port),
    ensures
        graph.ports@[port as int].parent == PortParent::Cell(first),
        second < graph.cells@.len() && graph.cells@[second as int].ports@.contains(port) ==> second
            == first,
        second < graph.groups@.len() ==> !graph.groups@[second as int].holes@.contains(port),
{
    let listed = graph.cells@[first as int].ports@;
    assert(graph.owns(PortParent::Cell(first), listed));
    let i = choose|i: int| 0 <= i < listed.len() && listed[i] == port;
    assert(graph.ports@[listed[i] as int].parent == PortParent::Cell(first));
    if second < graph.cells@.len() && graph.cells@[second as int].ports@.contains(port) {
        let others = graph.cells@[second as int].ports@;
        assert(graph.owns(PortParent::Cell(second), others));
        let j = choose|j: int| 0 <= j < others.len() && others[j] == port;
        assert(graph.ports@[others[j] as int].parent == PortParent::Cell(second));
    }
    if second < graph.groups@.len() && graph.groups@[second as int].holes@.contains(port) {
        let holes = graph.groups@[second as int].holes@;
        assert(graph.owns(PortParent::Group(second), holes));
        let j = choose|j: int| 0 <= j < holes.len() && holes[j] == port;
        assert(graph.ports@[holes[j] as int].parent == PortParent::Group(second));
    }
}

impl Port {
    /// The name of the cell or group that owns this port.
    pub fn get_parent_name(&self, graph: &Graph) -> (name: String)
        requires
            graph.parent_valid(self.parent),
        ensures
            name@ == graph.parent_name(self.parent),
    {
        match self.parent {
            PortParent::Cell(c) => graph.cells[c].name.clone(),
            PortParent::Group(g) => graph.groups[g].name.clone(),
        }
    }

    /// The canonical name of this port.
    pub fn canonical(&self, graph: &Graph) -> (canonical: Canonical)
        requires
            graph.parent_valid(self.parent),
        ensures
            canonical.cell@ == graph.parent_name(self.parent),
            canonical.port@ == self.name@,
    {
        Canonical { cell: self.get_parent_name(graph), port: self.name.clone() }
    }
}

impl Group {
    /// The first hole named `name`, if there is one.
    pub fn find(&self, graph: &Graph, name: &str) -> (found: Option<PortId>)
        requires
            ids_in_range(self.holes@, graph.ports@.len()),
        ensures
            found == find_named(graph.ports@, self.holes@, name@, 0),
    {
        graph.find_port(self.holes.as_slice(), name)
    }

    /// The first hole named `name`. The group must have such a hole.
    pub fn get(&self, graph: &Graph, name: &str) -> (hole: PortId)
        requires
            ids_in_range(self.holes@, graph.ports@.len()),
            find_named(graph.ports@, self.holes@, name@, 0) is Some,
        ensures
            Some(hole) == find_named(graph.ports@, self.holes@, name@, 0),
    {
        match self.find(graph, name) {
            Some(hole) => hole,
            None => vstd::pervasive::unreached(),
        }
    }
}

impl Cell {
    /// The first port named `name`, if there is one.
    pub fn find(&self, graph: &Graph, name: &str) -> (found: Option<PortId>)
        requires
            ids_in_range(self.ports@, graph.ports@.len()),
        ensures
            found == find_named(graph.ports@, self.ports@, name@, 0),
    {
        graph.find_port(self.ports.as_slice(), name)
    }

    /// The first port named `name`. The cell must have such a port.
    pub fn get(&self, graph: &Graph, name: &str) -> (port: PortId)
        requires
            ids_in_range(self.ports@, graph.ports@.len()),
            find_named(graph.ports@, self.ports@, name@, 0) is Some,
        ensures
            Some(port) == find_named(graph.ports@, self.ports@, name@, 0),
    {
        match self.find(graph, name) {
            Some(port) => port,
            None => vstd::pervasive::unreached(),
        }
    }

    /// All ports that carry `attr`, in the order the cell lists them.
    pub fn find_all_with_attr(&self, graph: &Graph, attr: Attribute) -> (found: Vec<PortId>)
        requires
            ids_in_range(self.ports@, graph.ports@.len()),
        ensures
            found@ == ports_with_attr(graph.ports@, self.ports@, attr, 0),
    {
        graph.find_ports_with_attr(self.ports.as_slice(), attr)
    }

    /// The one port that carries `attr`: `Ok(None)` where no port carries it,
    /// and an error that names this cell where more than one does.
    pub fn find_unique_with_attr(&self, graph: &Graph, attr: Attribute) -> (found: Result<
        Option<PortId>,
        Error,
    >)
        requires
            ids_in_range(self.ports@, graph.ports@.len()),
        ensures
            match found {
                Ok(None) => ports_with_attr(graph.ports@, self.ports@, attr, 0).len() == 0,
                Ok(Some(port)) => ports_with_attr(graph.ports@, self.ports@, attr, 0) == seq![port],
                Err(Error::MultiplePortsWithAttribute { attribute, cell }) => {
                    &&& ports_with_attr(graph.ports@, self.ports@, attr, 0).len() >= 2
                    &&& attribute == attr
                    &&& cell@ == self.name@
                },
            },
    {
        let all = self.find_all_with_attr(graph, attr);
        if all.len() == 0 {
            Ok(None)
        } else if all.len() == 1 {
            assert(all@ =~= seq![all@[0]]);
            Ok(Some(all[0]))
        } else {
            Err(Error::MultiplePortsWithAttribute { attribute: attr, cell: self.name.clone() })
        }
    }

    /// The one port that carries `attr`, or an error that names this cell
    /// where more than one does. At least one port must carry it.
    pub fn get_unique_with_attr(&self, graph: &Graph, attr: Attribute) -> (found: Result<
        PortId,
        Error,
    >)
        requires
            ids_in_range(self.ports@, graph.ports@.len()),
            ports_with_attr(graph.ports@, self.ports@, attr, 0).len() > 0,
        ensures
            match found {
                Ok(port) => ports_with_attr(graph.ports@, self.ports@, attr, 0) == seq![port],
                Err(Error::MultiplePortsWithAttribute { attribute, cell }) => {
                    &&& ports_with_attr(graph.ports@, self.ports@, attr, 0).len() >= 2
                    &&& attribute == attr
                    &&& cell@ == self.name@
                },
            },
    {
        match self.find_unique_with_attr(graph, attr) {
            Ok(Some(port)) => Ok(port),
            Ok(None) => vstd::pervasive::unreached(),
            Err(e) => Err(e),
        }
    }
}

} // verus!
