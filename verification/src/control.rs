//! The control tree: the hierarchical schedule that says which groups run
//! when.

use crate::structure::{CellId, CombGroupId, GroupId, PortId};
use calyx_frontend::Attributes;
use std::sync::Arc;
use vstd::prelude::*;

verus! {

/// Data for the `empty` control statement.
#[derive(Debug)]
pub struct Empty {
    /// Attributes attached to this control statement.
    pub attributes: Attributes,
}

/// Data for the `enable` control statement.
#[derive(Debug)]
pub struct Enable {
    /// The group to run.
    pub group: GroupId,
    /// Attributes attached to this control statement.
    pub attributes: Attributes,
}

/// Data for the `seq` control statement.
#[derive(Debug)]
pub struct Sequence {
    /// Control statements to run one after the other.
    pub stmts: Vec<Control>,
    /// Attributes attached to this control statement.
    pub attributes: Attributes,
}

/// Data for the `par` control statement.
#[derive(Debug)]
pub struct Par {
    /// Control statements to run in parallel.
    pub stmts: Vec<Control>,
    /// Attributes attached to this control statement.
    pub attributes: Attributes,
}

/// Data for the `if` control statement.
#[derive(Debug)]
pub struct If {
    /// Port that carries the condition.
    pub port: PortId,
    /// Combinational group that makes the condition port valid.
    pub cond: Option<CombGroupId>,
    /// Control for the true branch.
    pub tbranch: Control,
    /// Control for the false branch.
    pub fbranch: Control,
    /// Attributes attached to this control statement.
    pub attributes: Attributes,
}

/// Data for the `while` control statement.
#[derive(Debug)]
pub struct While {
    /// Port that carries the condition.
    pub port: PortId,
    /// Combinational group that makes the condition port valid.
    pub cond: Option<CombGroupId>,
    /// Control for the loop body.
    pub body: Control,
    /// Attributes attached to this control statement.
    pub attributes: Attributes,
}

/// Data for the `invoke` control statement.
#[derive(Debug)]
pub struct Invoke {
    /// Cell that is being invoked.
    pub comp: CellId,
    /// Name of each input port of `comp`, with the port connected to it. Names
    /// are kept as given: a name that occurs twice stays twice.
    pub inputs: Vec<(String, PortId)>,
    /// Name of each output port of `comp`, with the port connected to it.
    pub outputs: Vec<(String, PortId)>,
    /// Attributes attached to this control statement.
    pub attributes: Attributes,
    /// Combinational group that is active while the invoke is active.
    pub comb_group: Option<CombGroupId>,
    /// Name of each reference cell of `comp`, with the cell bound to it.
    pub ref_cells: Vec<(String, CellId)>,
}

/// Control tree nodes. A node owns its children; groups, cells and ports are
/// named by handle and may be named from elsewhere too.
#[derive(Debug, Clone)]
pub enum Control {
    /// Sequential composition of control statements.
    Sequence(Arc<Sequence>),
    /// Parallel composition of control statements.
    Par(Arc<Par>),
    /// Conditional.
    If(Arc<If>),
    /// Loop.
    While(Arc<While>),
    /// Invocation of a sub-component with the given port bindings.
    Invoke(Arc<Invoke>),
    /// Runs one group until it is done.
    Enable(Arc<Enable>),
    /// Control statement that does nothing.
    Empty(Arc<Empty>),
}

/// The node does nothing: it is `Empty`, or a `Sequence` or `Par` whose every
/// child does nothing. A conditional, a loop, an invocation and an enable are
/// never empty, whatever they hold.
pub open spec fn control_empty(control: Control) -> bool
    decreases control,
{
    match control {
        Control::Sequence(s) => forall|i: int|
            0 <= i < s.stmts@.len() ==> control_empty(#[trigger] s.stmts@[i]),
        Control::Par(p) => forall|i: int|
            0 <= i < p.stmts@.len() ==> control_empty(#[trigger] p.stmts@[i]),
        Control::If(_) => false,
        Control::While(_) => false,
        Control::Invoke(_) => false,
        Control::Enable(_) => false,
        Control::Empty(_) => true,
    }
}

/// Tells whether every statement of `stmts` does nothing.
#[verifier::loop_isolation(false)]
fn all_empty(stmts: &Vec<Control>) -> (empty: bool)
    ensures
        empty == forall|i: int| 0 <= i < stmts@.len() ==> control_empty(#[trigger] stmts@[i]),
    decreases stmts,
{
    let mut i: usize = 0;
    while i < stmts.len()
        invariant
            i <= stmts@.len(),
            forall|j: int| 0 <= j < i ==> control_empty(#[trigger] stmts@[j]),
        decreases stmts@.len() - i,
    {
        if !control_is_empty(&stmts[i]) {
            return false;
        }
        i = i + 1;
    }
    true
}

/// Tells whether `control` does nothing.
pub fn control_is_empty(control: &Control) -> (empty: bool)
    ensures
        empty == control_empty(*control),
    decreases *control,
{
    match control {
        Control::Sequence(s) => all_empty(&s.stmts),
        Control::Par(p) => all_empty(&p.stmts),
        Control::If(_) => false,
        Control::While(_) => false,
        Control::Invoke(_) => false,
        Control::Enable(_) => false,
        Control::Empty(_) => true,
    }
}

} // verus!
