//! The compiler-side netlist that the translator reads.
//!
//! Every node has a stable identity of its own, its index in [`SourceIr`],
//! and every reference between nodes is such an identity. Cells, groups and
//! assignments use the records of [`crate::structure`]; the handles in them
//! are identities of this netlist, not handles of a
//! [`crate::graph::Graph`].

use crate::structure::{
    assignments_in_range, check_assignments_in_range, Assignment, Cell, CombGroup, Direction,
    Group, PortId,
};
use calyx_frontend::Attributes;
use vstd::prelude::*;

verus! {

/// The owner of a compiler-side port.
#[derive(Clone, Copy, Debug, PartialEq, Eq, Structural)]
pub enum SourceParent {
    Cell(usize),
    Group(usize),
    /// A statically scheduled group. The concurrent graph has no such node.
    StaticGroup(usize),
}

/// A port of the compiler-side netlist.
#[derive(Debug)]
pub struct SourcePort {
    /// Name of the port.
    pub name: String,
    /// Width of the port in bits.
    pub width: u64,
    /// Direction of the port.
    pub direction: Direction,
    /// The node that owns this port.
    pub parent: SourceParent,
    /// Attributes of this port.
    pub attributes: Attributes,
}

/// A control program of the compiler-side netlist.
#[derive(Debug)]
pub enum SourceControl {
    Sequence { stmts: Vec<SourceControl>, attributes: Attributes },
    Par { stmts: Vec<SourceControl>, attributes: Attributes },
    If {
        port: usize,
        cond: Option<usize>,
        tbranch: Box<SourceControl>,
        fbranch: Box<SourceControl>,
        attributes: Attributes,
    },
    While { port: usize, cond: Option<usize>, body: Box<SourceControl>, attributes: Attributes },
    Invoke {
        comp: usize,
        inputs: Vec<(String, usize)>,
        outputs: Vec<(String, usize)>,
        attributes: Attributes,
        comb_group: Option<usize>,
        ref_cells: Vec<(String, usize)>,
    },
    Enable { group: usize, attributes: Attributes },
    /// Statically scheduled control. The concurrent graph has no such node.
    Static,
    /// Bounded repetition. The concurrent graph has no such node.
    Repeat,
    Empty { attributes: Attributes },
}

/// A component of the compiler-side netlist.
#[derive(Debug)]
pub struct SourceComponent {
    /// Name of the component.
    pub name: String,
    /// The cell that is the component's own interface.
    pub signature: usize,
    /// The cells instantiated for this component.
    pub cells: Vec<usize>,
    /// The groups of this component.
    pub groups: Vec<usize>,
    /// The combinational groups of this component.
    pub comb_groups: Vec<usize>,
    /// The assignments that are always active.
    pub continuous_assignments: Vec<Assignment<()>>,
    /// The control program of this component.
    pub control: SourceControl,
    /// Attributes of this component.
    pub attributes: Attributes,
}

/// The nodes of the compiler-side netlist.
#[derive(Debug)]
pub struct SourceIr {
    pub ports: Vec<SourcePort>,
    pub cells: Vec<Cell>,
    pub groups: Vec<Group>,
    pub comb_groups: Vec<CombGroup>,
}

/// Every identity bound in `bindings` is below `bound`.
pub open spec fn bindings_in_range(bindings: Seq<(String, usize)>, bound: nat) -> bool {
    forall|i: int| 0 <= i < bindings.len() ==> (#[trigger] bindings[i]).1 < bound
}

/// Tests [`bindings_in_range`].
pub fn check_bindings_in_range(bindings: &Vec<(String, usize)>, bound: usize) -> (ok: bool)
    ensures
        ok == bindings_in_range(bindings@, bound as nat),
{
    let mut i: usize = 0;
    while i < bindings.len()
        invariant
            i <= bindings@.len(),
            forall|j: int| 0 <= j < i ==> (#[trigger] bindings@[j]).1 < bound,
        decreases bindings@.len() - i,
    {
        if bindings[i].1 >= bound {
            return false;
        }
        i = i + 1;
    }
    true
}

/// Every identity of `ids` is below `bound`.
pub open spec fn all_below(ids: Seq<usize>, bound: nat) -> bool {
    forall|i: int| 0 <= i < ids.len() ==> (#[trigger] ids[i]) < bound
}

/// Tests [`all_below`].
pub fn check_all_below(ids: &Vec<usize>, bound: usize) -> (ok: bool)
    ensures
        ok == all_below(ids@, bound as nat),
{
    let mut i: usize = 0;
    while i < ids.len()
        invariant
            i <= ids@.len(),
            forall|j: int| 0 <= j < i ==> (#[trigger] ids@[j]) < bound,
        decreases ids@.len() - i,
    {
        if ids[i] >= bound {
            return false;
        }
        i = i + 1;
    }
    true
}

/// `cond` names no combinational group, or one below `bound`.
pub open spec fn option_below(cond: Option<usize>, bound: nat) -> bool {
    match cond {
        Some(g) => g < bound,
        None => true,
    }
}

impl SourceControl {
    /// The program holds no statically scheduled control and no bounded
    /// repetition, at any depth.
    pub open spec fn supported(self) -> bool
        decreases self,
    {
        match self {
            SourceControl::Sequence { stmts, .. } => forall|i: int|
                0 <= i < stmts@.len() ==> (#[trigger] stmts@[i]).supported(),
            SourceControl::Par { stmts, .. } => forall|i: int|
                0 <= i < stmts@.len() ==> (#[trigger] stmts@[i]).supported(),
            SourceControl::If { tbranch, fbranch, .. } => tbranch.supported() && fbranch.supported(),
            SourceControl::While { body, .. } => body.supported(),
            SourceControl::Invoke { .. } => true,
            SourceControl::Enable { .. } => true,
            SourceControl::Static => false,
            SourceControl::Repeat => false,
            SourceControl::Empty { .. } => true,
        }
    }

    /// Every identity that the program names is a node of `ir`.
    pub open spec fn in_range(self, ir: SourceIr) -> bool
        decreases self,
    {
        match self {
            SourceControl::Sequence { stmts, .. } => forall|i: int|
                0 <= i < stmts@.len() ==> (#[trigger] stmts@[i]).in_range(ir),
            SourceControl::Par { stmts, .. } => forall|i: int|
                0 <= i < stmts@.len() ==> (#[trigger] stmts@[i]).in_range(ir),
            SourceControl::If { port, cond, tbranch, fbranch, .. } => {
                &&& port < ir.ports@.len()
                &&& option_below(cond, ir.comb_groups@.len())
                &&& tbranch.in_range(ir)
                &&& fbranch.in_range(ir)
            },
            SourceControl::While { port, cond, body, .. } => {
                &&& port < ir.ports@.len()
                &&& option_below(cond, ir.comb_groups@.len())
                &&& body.in_range(ir)
            },
            SourceControl::Invoke { comp, inputs, outputs, comb_group, ref_cells, .. } => {
                &&& comp < ir.cells@.len()
                &&& bindings_in_range(inputs@, ir.ports@.len())
                &&& bindings_in_range(outputs@, ir.ports@.len())
                &&& option_below(comb_group, ir.comb_groups@.len())
                &&& bindings_in_range(ref_cells@, ir.cells@.len())
            },
            SourceControl::Enable { group, .. } => group < ir.groups@.len(),
            SourceControl::Static => true,
            SourceControl::Repeat => true,
            SourceControl::Empty { .. } => true,
        }
    }

    /// Tests [`SourceControl::supported`].
    #[verifier::loop_isolation(false)]
    pub fn is_supported(&self) -> (ok: bool)
        ensures
            ok == self.supported(),
        decreases *self,
    {
        match self {
            SourceControl::Sequence { stmts, .. } | SourceControl::Par { stmts, .. } => {
                let mut i: usize = 0;
                while i < stmts.len()
                    invariant
                        i <= stmts@.len(),
                        forall|j: int| 0 <= j < i ==> (#[trigger] stmts@[j]).supported(),
                    decreases stmts@.len() - i,
                {
                    if !stmts[i].is_supported() {
                        return false;
                    }
                    i = i + 1;
                }
                true
            },
            SourceControl::If { tbranch, fbranch, .. } => tbranch.is_supported()
                && fbranch.is_supported(),
            SourceControl::While { body, .. } => body.is_supported(),
            SourceControl::Invoke { .. } => true,
            SourceControl::Enable { .. } => true,
            SourceControl::Static => false,
            SourceControl::Repeat => false,
            SourceControl::Empty { .. } => true,
        }
    }

    /// Tests [`SourceControl::in_range`].
    #[verifier::loop_isolation(false)]
    pub fn check_in_range(&self, ir: &SourceIr) -> (ok: bool)
        ensures
            ok == self.in_range(*ir),
        decreases *self,
    {
        match self {
            SourceControl::Sequence { stmts, .. } | SourceControl::Par { stmts, .. } => {
                let mut i: usize = 0;
                while i < stmts.len()
                    invariant
                        i <= stmts@.len(),
                        forall|j: int| 0 <= j < i ==> (#[trigger] stmts@[j]).in_range(*ir),
                    decreases stmts@.len() - i,
                {
                    if !stmts[i].check_in_range(ir) {
                        return false;
                    }
                    i = i + 1;
                }
                true
            },
            SourceControl::If { port, cond, tbranch, fbranch, .. } => {
                *port < ir.ports.len() && check_option_below(cond, ir.comb_groups.len())
                    && tbranch.check_in_range(ir) && fbranch.check_in_range(ir)
            },
            SourceControl::While { port, cond, body, .. } => {
                *port < ir.ports.len() && check_option_below(cond, ir.comb_groups.len())
                    && body.check_in_range(ir)
            },
            SourceControl::Invoke { comp, inputs, outputs, comb_group, ref_cells, .. } => {
                *comp < ir.cells.len() && check_bindings_in_range(inputs, ir.ports.len())
                    && check_bindings_in_range(outputs, ir.ports.len()) && check_option_below(
                    comb_group,
                    ir.comb_groups.len(),
                ) && check_bindings_in_range(ref_cells, ir.cells.len())
            },
            SourceControl::Enable { group, .. } => *group < ir.groups.len(),
            SourceControl::Static => true,
            SourceControl::Repeat => true,
            SourceControl::Empty { .. } => true,
        }
    }
}

/// Tests [`option_below`].
pub fn check_option_below(cond: &Option<usize>, bound: usize) -> (ok: bool)
    ensures
        ok == option_below(*cond, bound as nat),
{
    match cond {
        Some(g) => *g < bound,
        None => true,
    }
}

impl SourceIr {
    /// `parent` is a node of this netlist. Statically scheduled groups are
    /// not kept here, so nothing is asked of one.
    pub open spec fn parent_valid(&self, parent: SourceParent) -> bool {
        match parent {
            SourceParent::Cell(c) => c < self.cells@.len(),
            SourceParent::Group(g) => g < self.groups@.len(),
            SourceParent::StaticGroup(_) => true,
        }
    }

    /// Every identity of `ids` is a port of this netlist whose parent is
    /// `parent`.
    pub open spec fn owns(&self, parent: SourceParent, ids: Seq<PortId>) -> bool {
        forall|i: int|
            0 <= i < ids.len() ==> (#[trigger] ids[i]) < self.ports@.len()
                && self.ports@[ids[i] as int].parent == parent
    }

    /// The netlist is well formed: every port has exactly one parent, which
    /// is in the netlist; every port that a cell or a group lists is in the
    /// netlist and names that cell or group as its parent; and every
    /// assignment connects ports of the netlist.
    pub open spec fn wf(&self) -> bool {
        &&& forall|p: int|
            0 <= p < self.ports@.len() ==> self.parent_valid((#[trigger] self.ports@[p]).parent)
        &&& forall|c: int|
            0 <= c < self.cells@.len() ==> self.owns(
                SourceParent::Cell(c as usize),
                (#[trigger] self.cells@[c]).ports@,
            )
        &&& forall|g: int|
            0 <= g < self.groups@.len() ==> self.owns(
                SourceParent::Group(g as usize),
                (#[trigger] self.groups@[g]).holes@,
            )
        &&& forall|g: int|
            0 <= g < self.groups@.len() ==> assignments_in_range(
                (#[trigger] self.groups@[g]).assignments@,
                self.ports@.len(),
            )
        &&& forall|g: int|
            0 <= g < self.comb_groups@.len() ==> assignments_in_range(
                (#[trigger] self.comb_groups@[g]).assignments@,
                self.ports@.len(),
            )
    }

    /// No port of the netlist belongs to a statically scheduled group.
    pub open spec fn supported(&self) -> bool {
        forall|p: int|
            0 <= p < self.ports@.len() ==> !((#[trigger] self.ports@[p]).parent is StaticGroup)
    }

    /// Tests [`SourceIr::supported`].
    pub fn is_supported(&self) -> (ok: bool)
        ensures
            ok == self.supported(),
    {
        let mut p: usize = 0;
        while p < self.ports.len()
            invariant
                p <= self.ports@.len(),
                forall|q: int|
                    0 <= q < p ==> !((#[trigger] self.ports@[q]).parent is StaticGroup),
            decreases self.ports@.len() - p,
        {
            match self.ports[p].parent {
                SourceParent::StaticGroup(_) => {
                    return false;
                },
                _ => {},
            }
            p = p + 1;
        }
        true
    }

    /// Tests [`SourceIr::owns`].
    pub fn check_owns(&self, parent: SourceParent, ids: &[PortId]) -> (ok: bool)
        ensures
            ok == self.owns(parent, ids@),
    {
        let mut i: usize = 0;
        while i < ids.len()
            invariant
                i <= ids@.len(),
                forall|j: int|
                    0 <= j < i ==> (#[trigger] ids@[j]) < self.ports@.len()
                        && self.ports@[ids@[j] as int].parent == parent,
            decreases ids@.len() - i,
        {
            let id = ids[i];
            if id >= self.ports.len() {
                return false;
            }
            if self.ports[id].parent != parent {
                return false;
            }
            i = i + 1;
        }
        true
    }

    /// Tests [`SourceIr::wf`].
    pub fn check(&self) -> (ok: bool)
        ensures
            ok == self.wf(),
    {
        let mut p: usize = 0;
        while p < self.ports.len()
            invariant
                p <= self.ports@.len(),
                forall|q: int| 0 <= q < p ==> self.parent_valid((#[trigger] self.ports@[q]).parent),
            decreases self.ports@.len() - p,
        {
            let valid = match self.ports[p].parent {
                SourceParent::Cell(c) => c < self.cells.len(),
                SourceParent::Group(g) => g < self.groups.len(),
                SourceParent::StaticGroup(_) => true,
            };
            if !valid {
                return false;
            }
            p = p + 1;
        }
        let mut c: usize = 0;
        while c < self.cells.len()
            invariant
                c <= self.cells@.len(),
                forall|d: int|
                    0 <= d < c ==> self.owns(
                        SourceParent::Cell(d as usize),
                        (#[trigger] self.cells@[d]).ports@,
                    ),
            decreases self.cells@.len() - c,
        {
            if !self.check_owns(SourceParent::Cell(c), self.cells[c].ports.as_slice()) {
                return false;
            }
            c = c + 1;
        }
        let mut g: usize = 0;
        while g < self.groups.len()
            invariant
                g <= self.groups@.len(),
                forall|h: int|
                    0 <= h < g ==> self.owns(
                        SourceParent::Group(h as usize),
                        (#[trigger] self.groups@[h]).holes@,
                    ),
                forall|h: int|
                    0 <= h < g ==> assignments_in_range(
                        (#[trigger] self.groups@[h]).assignments@,
                        self.ports@.len(),
                    ),
            decreases self.groups@.len() - g,
        {
            if !self.check_owns(SourceParent::Group(g), self.groups[g].holes.as_slice()) {
                return false;
            }
            if !check_assignments_in_range(&self.groups[g].assignments, self.ports.len()) {
                return false;
            }
            g = g + 1;
        }
        let mut k: usize = 0;
        while k < self.comb_groups.len()
            invariant
                k <= self.comb_groups@.len(),
                forall|h: int|
                    0 <= h < k ==> assignments_in_range(
                        (#[trigger] self.comb_groups@[h]).assignments@,
                        self.ports@.len(),
                    ),
            decreases self.comb_groups@.len() - k,
        {
            if !check_assignments_in_range(&self.comb_groups[k].assignments, self.ports.len()) {
                return false;
            }
            k = k + 1;
        }
        true
    }
}

impl SourceComponent {
    /// Every identity that the component names is a node of `ir`.
    pub open spec fn in_range(&self, ir: SourceIr) -> bool {
        &&& self.signature < ir.cells@.len()
        &&& all_below(self.cells@, ir.cells@.len())
        &&& all_below(self.groups@, ir.groups@.len())
        &&& all_below(self.comb_groups@, ir.comb_groups@.len())
        &&& assignments_in_range(self.continuous_assignments@, ir.ports@.len())
        &&& self.control.in_range(ir)
    }

    /// Tests [`SourceComponent::in_range`].
    pub fn check_in_range(&self, ir: &SourceIr) -> (ok: bool)
        ensures
            ok == self.in_range(*ir),
    {
        self.signature < ir.cells.len() && check_all_below(&self.cells, ir.cells.len())
            && check_all_below(&self.groups, ir.groups.len()) && check_all_below(
            &self.comb_groups,
            ir.comb_groups.len(),
        ) && check_assignments_in_range(&self.continuous_assignments, ir.ports.len())
            && self.control.check_in_range(ir)
    }
}

} // verus!
