//! The entity and wiring model: ports, cells, groups, combinational groups,
//! guards and assignments.

use crate::attributes::{attribute_value, attributes_map};
use crate::port_list::PortList;
use calyx_frontend::{Attribute, Attributes};
use vstd::prelude::*;

verus! {

/// Handle of a port: its index in [`crate::graph::Graph::ports`].
pub type PortId = usize;

/// Handle of a cell: its index in [`crate::graph::Graph::cells`].
pub type CellId = usize;

/// Handle of a group: its index in [`crate::graph::Graph::groups`].
pub type GroupId = usize;

/// Handle of a combinational group: its index in
/// [`crate::graph::Graph::comb_groups`].
pub type CombGroupId = usize;

/// Direction of a port on a cell.
#[derive(Clone, Copy, Debug, PartialEq, Eq, Structural)]
pub enum Direction {
    /// Input port.
    Input,
    /// Output port.
    Output,
    /// Input-output port, used by holes.
    Inout,
}

/// Comparison that a guard applies to the values of two ports.
#[derive(Clone, Copy, Debug, PartialEq, Eq, Structural)]
pub enum PortComp {
    /// `left == right`
    Eq,
    /// `left != right`
    Neq,
    /// `left > right`
    Gt,
    /// `left < right`
    Lt,
    /// `left >= right`
    Geq,
    /// `left <= right`
    Leq,
}

/// The owner of a port. The reference is the owner's handle: it does not keep
/// the owner alive.
#[derive(Clone, Copy, Debug, PartialEq, Eq, Structural)]
pub enum PortParent {
    Cell(CellId),
    Group(GroupId),
}

/// The prototype of a cell.
#[derive(Debug)]
pub enum CellType {
    /// Cell constructed from a primitive definition.
    Primitive {
        /// Name of the primitive.
        name: String,
        /// Bindings for the parameters, in the order they were given.
        param_binding: Vec<(String, u64)>,
        /// True iff this is a combinational primitive.
        is_comb: bool,
        /// Latency of the primitive, where it has one.
        latency: Option<u64>,
    },
    /// Cell constructed from a component.
    Component {
        /// Name of the component.
        name: String,
    },
    /// The cell that stands for the component itself.
    ThisComponent,
    /// Cell representing a constant.
    Constant {
        /// Value of the constant.
        val: u64,
        /// Width of the constant.
        width: u64,
    },
}

/// What a [`CellType`] is, with names as character sequences.
pub enum CellTypeView {
    Primitive {
        name: Seq<char>,
        param_binding: Seq<(Seq<char>, u64)>,
        is_comb: bool,
        latency: Option<u64>,
    },
    Component { name: Seq<char> },
    ThisComponent,
    Constant { val: u64, width: u64 },
}

/// A parameter binding list with its names as character sequences.
pub open spec fn binding_view(bindings: Seq<(String, u64)>) -> Seq<(Seq<char>, u64)> {
    Seq::new(bindings.len(), |i: int| (bindings[i].0@, bindings[i].1))
}

/// The value bound to the first parameter named `param` at or after position
/// `start`.
pub open spec fn binding_lookup(bindings: Seq<(Seq<char>, u64)>, param: Seq<char>, start: int)
    -> Option<u64>
    decreases bindings.len() - start,
{
    if start < 0 || start >= bindings.len() {
        None
    } else if bindings[start].0 == param {
        Some(bindings[start].1)
    } else {
        binding_lookup(bindings, param, start + 1)
    }
}

impl View for CellType {
    type V = CellTypeView;

    open spec fn view(&self) -> CellTypeView {
        match *self {
            CellType::Primitive { name, param_binding, is_comb, latency } => CellTypeView::Primitive {
                name: name@,
                param_binding: binding_view(param_binding@),
                is_comb,
                latency,
            },
            CellType::Component { name } => CellTypeView::Component { name: name@ },
            CellType::ThisComponent => CellTypeView::ThisComponent,
            CellType::Constant { val, width } => CellTypeView::Constant { val, width },
        }
    }
}

/// A copy of a parameter binding list.
pub fn clone_bindings(bindings: &Vec<(String, u64)>) -> (copy: Vec<(String, u64)>)
    ensures
        binding_view(copy@) == binding_view(bindings@),
{
    let mut copy: Vec<(String, u64)> = Vec::new();
    let mut i: usize = 0;
    while i < bindings.len()
        invariant
            i <= bindings@.len(),
            copy@.len() == i,
            forall|j: int| 0 <= j < i ==> copy@[j].0@ == bindings@[j].0@ && copy@[j].1 == bindings@[j].1,
        decreases bindings@.len() - i,
    {
        let name = bindings[i].0.clone();
        copy.push((name, bindings[i].1));
        i = i + 1;
    }
    assert(binding_view(copy@) =~= binding_view(bindings@));
    copy
}

impl Clone for CellType {
    fn clone(&self) -> (copy: CellType)
        ensures
            copy@ == self@,
    {
        match self {
            CellType::Primitive { name, param_binding, is_comb, latency } => CellType::Primitive {
                name: name.clone(),
                param_binding: clone_bindings(param_binding),
                is_comb: *is_comb,
                latency: *latency,
            },
            CellType::Component { name } => CellType::Component { name: name.clone() },
            CellType::ThisComponent => CellType::ThisComponent,
            CellType::Constant { val, width } => CellType::Constant { val: *val, width: *width },
        }
    }
}

/// A port of a cell or a hole of a group.
#[derive(Debug)]
pub struct Port {
    /// Name of the port.
    pub name: String,
    /// Width of the port in bits.
    pub width: u64,
    /// Direction of the port.
    pub direction: Direction,
    /// The cell or group that owns this port.
    pub parent: PortParent,
    /// Attributes of this port.
    pub attributes: Attributes,
}

/// Canonical name of a port: its owner's name and its own.
#[derive(Debug)]
pub struct Canonical {
    pub cell: String,
    pub port: String,
}

/// A boolean expression over ports that gates an assignment.
#[derive(Debug)]
pub enum Guard<T> {
    /// `c1 || c2`
    Or(Box<Guard<T>>, Box<Guard<T>>),
    /// `c1 && c2`
    And(Box<Guard<T>>, Box<Guard<T>>),
    /// `!c1`
    Not(Box<Guard<T>>),
    /// The constant true.
    True,
    /// A comparison of the values on two ports.
    CompOp(PortComp, PortId, PortId),
    /// The value on a port, read as a condition.
    Port(PortId),
    /// A payload for passes that extend guards.
    Info(T),
}

impl<T> Guard<T> {
    /// The number of nodes of the expression.
    pub open spec fn size(self) -> nat
        decreases self,
    {
        match self {
            Guard::Or(l, r) => 1 + l.size() + r.size(),
            Guard::And(l, r) => 1 + l.size() + r.size(),
            Guard::Not(n) => 1 + n.size(),
            _ => 1,
        }
    }

    /// Every port that the guard reads is a handle below `ports`.
    pub open spec fn in_range(self, ports: nat) -> bool
        decreases self,
    {
        match self {
            Guard::Or(l, r) => l.in_range(ports) && r.in_range(ports),
            Guard::And(l, r) => l.in_range(ports) && r.in_range(ports),
            Guard::Not(n) => n.in_range(ports),
            Guard::True => true,
            Guard::CompOp(_, l, r) => l < ports && r < ports,
            Guard::Port(p) => p < ports,
            Guard::Info(_) => true,
        }
    }

    /// Tests [`Guard::in_range`].
    pub fn check_in_range(&self, ports: usize) -> (ok: bool)
        ensures
            ok == self.in_range(ports as nat),
        decreases *self,
    {
        match self {
            Guard::Or(l, r) => l.check_in_range(ports) && r.check_in_range(ports),
            Guard::And(l, r) => l.check_in_range(ports) && r.check_in_range(ports),
            Guard::Not(n) => n.check_in_range(ports),
            Guard::True => true,
            Guard::CompOp(_, l, r) => *l < ports && *r < ports,
            Guard::Port(p) => *p < ports,
            Guard::Info(_) => true,
        }
    }
}

/// A guarded connection from a source port to a destination port.
#[derive(Debug)]
pub struct Assignment<T> {
    /// The destination of the assignment.
    pub dst: PortId,
    /// The source of the assignment.
    pub src: PortId,
    /// The assignment is active while this guard holds.
    pub guard: Box<Guard<T>>,
    /// Attributes of this assignment.
    pub attributes: Attributes,
}

impl<T> Assignment<T> {
    /// Every port that the assignment names is a handle below `ports`.
    pub open spec fn in_range(self, ports: nat) -> bool {
        self.dst < ports && self.src < ports && self.guard.in_range(ports)
    }

    /// Tests [`Assignment::in_range`].
    pub fn check_in_range(&self, ports: usize) -> (ok: bool)
        ensures
            ok == self.in_range(ports as nat),
    {
        self.dst < ports && self.src < ports && self.guard.check_in_range(ports)
    }
}

/// Every assignment of the list names ports below `ports` only.
pub open spec fn assignments_in_range<T>(assignments: Seq<Assignment<T>>, ports: nat) -> bool {
    forall|i: int| 0 <= i < assignments.len() ==> (#[trigger] assignments[i]).in_range(ports)
}

/// Tests [`assignments_in_range`].
pub fn check_assignments_in_range<T>(assignments: &Vec<Assignment<T>>, ports: usize) -> (ok: bool)
    ensures
        ok == assignments_in_range(assignments@, ports as nat),
{
    let mut i: usize = 0;
    while i < assignments.len()
        invariant
            i <= assignments@.len(),
            forall|j: int| 0 <= j < i ==> (#[trigger] assignments@[j]).in_range(ports as nat),
        decreases assignments@.len() - i,
    {
        if !assignments[i].check_in_range(ports) {
            return false;
        }
        i = i + 1;
    }
    true
}

/// A named group of assignments that performs one logical action and signals
/// through its holes when it is done.
#[derive(Debug)]
pub struct Group {
    /// Name of this group.
    pub name: String,
    /// The assignments of this group.
    pub assignments: Vec<Assignment<()>>,
    /// The holes of this group.
    pub holes: PortList,
    /// Attributes of this group.
    pub attributes: Attributes,
}

/// A group of assignments that is purely combinational: it has no holes.
#[derive(Debug)]
pub struct CombGroup {
    /// Name of this group.
    pub name: String,
    /// The assignments of this group.
    pub assignments: Vec<Assignment<()>>,
    /// Attributes of this group.
    pub attributes: Attributes,
}

/// An instantiated cell.
#[derive(Debug)]
pub struct Cell {
    /// Name of this cell.
    pub name: String,
    /// The ports of this cell.
    pub ports: PortList,
    /// The prototype of this cell.
    pub prototype: CellType,
    /// Attributes of this cell.
    pub attributes: Attributes,
    /// Whether the cell is passed by reference.
    pub reference: bool,
}

/// The graph is malformed.
#[derive(Debug)]
pub enum Error {
    /// More than one port of cell `cell` carries `attribute`.
    MultiplePortsWithAttribute { attribute: Attribute, cell: String },
}

/// The first handle of `ids`, at or after position `start`, whose port is
/// named `name`.
pub open spec fn find_named(ports: Seq<Port>, ids: Seq<PortId>, name: Seq<char>, start: int)
    -> Option<PortId>
    decreases ids.len() - start,
{
    if start < 0 || start >= ids.len() {
        None
    } else if ports[ids[start] as int].name@ == name {
        Some(ids[start])
    } else {
        find_named(ports, ids, name, start + 1)
    }
}

/// The handles of `ids`, from position `start` on and in order, whose ports
/// carry `attribute`.
pub open spec fn ports_with_attr(ports: Seq<Port>, ids: Seq<PortId>, attribute: Attribute, start: int)
    -> Seq<PortId>
    decreases ids.len() - start,
{
    if start < 0 || start >= ids.len() {
        Seq::empty()
    } else if attributes_map(ports[ids[start] as int].attributes).contains_key(attribute) {
        seq![ids[start]] + ports_with_attr(ports, ids, attribute, start + 1)
    } else {
        ports_with_attr(ports, ids, attribute, start + 1)
    }
}

/// Every handle of `ids` is an index of `ports`.
pub open spec fn ids_in_range(ids: Seq<PortId>, ports: nat) -> bool {
    forall|i: int| 0 <= i < ids.len() ==> #[trigger] ids[i] < ports
}

impl CombGroup {
    /// The name of this group.
    pub fn name(&self) -> (name: &str)
        ensures
            name@ == self.name@,
    {
        self.name.as_str()
    }
}

impl Cell {
    /// The name of this cell.
    pub fn name(&self) -> (name: &str)
        ensures
            name@ == self.name@,
    {
        self.name.as_str()
    }

    /// The ports of this cell.
    pub fn ports(&self) -> (ports: &PortList)
        ensures
            *ports == self.ports,
    {
        &self.ports
    }

    /// The value that the prototype binds to parameter `param`: that of the
    /// first binding of that name where the cell is a primitive, and `None`
    /// for every other prototype.
    #[verifier::loop_isolation(false)]
    pub fn get_parameter(&self, param: &str) -> (value: Option<u64>)
        ensures
            value == match self.prototype@ {
                CellTypeView::Primitive { param_binding, .. } => binding_lookup(
                    param_binding,
                    param@,
                    0,
                ),
                _ => None,
            },
    {
        match &self.prototype {
            CellType::Primitive { param_binding, .. } => {
                let wanted = param.to_owned();
                let ghost bindings = binding_view(param_binding@);
                let mut i: usize = 0;
                while i < param_binding.len()
                    invariant
                        i <= param_binding@.len(),
                        bindings == binding_view(param_binding@),
                        wanted@ == param@,
                        binding_lookup(bindings, param@, 0) == binding_lookup(
                            bindings,
                            param@,
                            i as int,
                        ),
                    decreases param_binding@.len() - i,
                {
                    assert(bindings[i as int] == (param_binding@[i as int].0@, param_binding@[i as int].1));
                    if param_binding[i].0 == wanted {
                        return Some(param_binding[i].1);
                    }
                    i = i + 1;
                }
                None
            },
            CellType::Component { .. } => None,
            CellType::ThisComponent => None,
            CellType::Constant { .. } => None,
        }
    }

    /// The value stored under `attr` in this cell's attributes.
    pub fn get_attribute(&self, attr: Attribute) -> (value: Option<u64>)
        ensures
            value == if attributes_map(self.attributes).contains_key(attr) {
                Some(attributes_map(self.attributes)[attr])
            } else {
                None
            },
    {
        attribute_value(&self.attributes, attr)
    }
}

impl Group {
    /// The name of this group.
    pub fn name(&self) -> (name: &str)
        ensures
            name@ == self.name@,
    {
        self.name.as_str()
    }
}

} // verus!
