//! What it means for a control tree of the concurrent graph to be the
//! translation of a compiler-side control program.

use crate::attributes::attributes_map;
use crate::control::Control;
use crate::mirror::{bindings_mapped, option_mapped, submap, Table};
use crate::source::SourceControl;
use vstd::prelude::*;

verus! {

/// The four translation tables of a session.
pub ghost struct Tables {
    pub ports: Table,
    pub cells: Table,
    pub groups: Table,
    pub comb_groups: Table,
}

/// Every table of `small` is part of the same table of `large`.
pub open spec fn tables_grow(small: Tables, large: Tables) -> bool {
    &&& submap(small.ports, large.ports)
    &&& submap(small.cells, large.cells)
    &&& submap(small.groups, large.groups)
    &&& submap(small.comb_groups, large.comb_groups)
}

/// `translated` has the shape of `original`, carries its attributes node by
/// node, and names the translation of every port, cell, group and
/// combinational group that `original` names. A program with statically
/// scheduled control or bounded repetition has no translation.
pub open spec fn control_mirror(original: SourceControl, translated: Control, tables: Tables) -> bool
    decreases original,
{
    match original {
        SourceControl::Sequence { stmts, attributes } => {
            &&& translated matches Control::Sequence(node)
            &&& attributes_map(node.attributes) == attributes_map(attributes)
            &&& node.stmts@.len() == stmts@.len()
            &&& forall|i: int|
                0 <= i < stmts@.len() ==> control_mirror(
                    #[trigger] stmts@[i],
                    node.stmts@[i],
                    tables,
                )
        },
        SourceControl::Par { stmts, attributes } => {
            &&& translated matches Control::Par(node)
            &&& attributes_map(node.attributes) == attributes_map(attributes)
            &&& node.stmts@.len() == stmts@.len()
            &&& forall|i: int|
                0 <= i < stmts@.len() ==> control_mirror(
                    #[trigger] stmts@[i],
                    node.stmts@[i],
                    tables,
                )
        },
        SourceControl::If { port, cond, tbranch, fbranch, attributes } => {
            &&& translated matches Control::If(node)
            &&& attributes_map(node.attributes) == attributes_map(attributes)
            &&& tables.ports.contains_key(port)
            &&& node.port == tables.ports[port]
            &&& option_mapped(cond, tables.comb_groups, node.cond)
            &&& control_mirror(*tbranch, node.tbranch, tables)
            &&& control_mirror(*fbranch, node.fbranch, tables)
        },
        SourceControl::While { port, cond, body, attributes } => {
            &&& translated matches Control::While(node)
            &&& attributes_map(node.attributes) == attributes_map(attributes)
            &&& tables.ports.contains_key(port)
            &&& node.port == tables.ports[port]
            &&& option_mapped(cond, tables.comb_groups, node.cond)
            &&& control_mirror(*body, node.body, tables)
        },
        SourceControl::Invoke { comp, inputs, outputs, attributes, comb_group, ref_cells } => {
            &&& translated matches Control::Invoke(node)
            &&& attributes_map(node.attributes) == attributes_map(attributes)
            &&& tables.cells.contains_key(comp)
            &&& node.comp == tables.cells[comp]
            &&& bindings_mapped(inputs@, tables.ports, node.inputs@)
            &&& bindings_mapped(outputs@, tables.ports, node.outputs@)
            &&& option_mapped(comb_group, tables.comb_groups, node.comb_group)
            &&& bindings_mapped(ref_cells@, tables.cells, node.ref_cells@)
        },
        SourceControl::Enable { group, attributes } => {
            &&& translated matches Control::Enable(node)
            &&& attributes_map(node.attributes) == attributes_map(attributes)
            &&& tables.groups.contains_key(group)
            &&& node.group == tables.groups[group]
        },
        SourceControl::Static => false,
        SourceControl::Repeat => false,
        SourceControl::Empty { attributes } => {
            &&& translated matches Control::Empty(node)
            &&& attributes_map(node.attributes) == attributes_map(attributes)
        },
    }
}

/// The true branch of a conditional.
pub open spec fn true_branch(control: Control) -> Control {
    control->If_0.tbranch
}

/// The false branch of a conditional.
pub open spec fn false_branch(control: Control) -> Control {
    control->If_0.fbranch
}

/// The body of a loop.
pub open spec fn loop_body(control: Control) -> Control {
    control->While_0.body
}

/// `translated` is `original` translated statement by statement.
pub open spec fn stmts_mirror(original: Seq<SourceControl>, translated: Seq<Control>, tables: Tables)
    -> bool {
    &&& translated.len() == original.len()
    &&& forall|i: int|
        0 <= i < original.len() ==> control_mirror(#[trigger] original[i], translated[i], tables)
}

/// Translated bindings stay translations when the table learns more.
pub proof fn lemma_bindings_mapped_grow(
    bindings: Seq<(String, usize)>,
    small: Table,
    large: Table,
    bound: Seq<(String, usize)>,
)
    requires
        bindings_mapped(bindings, small, bound),
        submap(small, large),
    ensures
        bindings_mapped(bindings, large, bound),
{
    assert forall|i: int| 0 <= i < bindings.len() implies {
        &&& large.contains_key((#[trigger] bindings[i]).1)
        &&& bound[i].1 == large[bindings[i].1]
        &&& bound[i].0@ == bindings[i].0@
    } by {
        assert(small.contains_key(bindings[i].1));
    }
}

/// A translated optional handle stays a translation when the table learns
/// more.
pub proof fn lemma_option_mapped_grow(
    id: Option<usize>,
    small: Table,
    large: Table,
    handle: Option<usize>,
)
    requires
        option_mapped(id, small, handle),
        submap(small, large),
    ensures
        option_mapped(id, large, handle),
{
    match id {
        Some(g) => {
            assert(small.contains_key(g));
        },
        None => {},
    }
}

/// A translated control tree stays a translation when the tables learn
/// more.
pub proof fn lemma_control_mirror_grows(
    original: SourceControl,
    translated: Control,
    small: Tables,
    large: Tables,
)
    requires
        control_mirror(original, translated, small),
        tables_grow(small, large),
    ensures
        control_mirror(original, translated, large),
    decreases original,
{
    match original {
        SourceControl::Sequence { stmts, .. } => {
            let node = translated->Sequence_0;
            assert forall|i: int| 0 <= i < stmts@.len() implies control_mirror(
                #[trigger] stmts@[i],
                node.stmts@[i],
                large,
            ) by {
                lemma_control_mirror_grows(stmts@[i], node.stmts@[i], small, large);
            }
        },
        SourceControl::Par { stmts, .. } => {
            let node = translated->Par_0;
            assert forall|i: int| 0 <= i < stmts@.len() implies control_mirror(
                #[trigger] stmts@[i],
                node.stmts@[i],
                large,
            ) by {
                lemma_control_mirror_grows(stmts@[i], node.stmts@[i], small, large);
            }
        },
        SourceControl::If { port, cond, tbranch, fbranch, .. } => {
            let node = translated->If_0;
            assert(small.ports.contains_key(port));
            lemma_option_mapped_grow(cond, small.comb_groups, large.comb_groups, node.cond);
            lemma_control_mirror_grows(*tbranch, true_branch(translated), small, large);
            lemma_control_mirror_grows(*fbranch, false_branch(translated), small, large);
        },
        SourceControl::While { port, cond, body, .. } => {
            let node = translated->While_0;
            assert(small.ports.contains_key(port));
            lemma_option_mapped_grow(cond, small.comb_groups, large.comb_groups, node.cond);
            lemma_control_mirror_grows(*body, loop_body(translated), small, large);
        },
        SourceControl::Invoke { comp, inputs, outputs, comb_group, ref_cells, .. } => {
            let node = translated->Invoke_0;
            assert(small.cells.contains_key(comp));
            lemma_bindings_mapped_grow(inputs@, small.ports, large.ports, node.inputs@);
            lemma_bindings_mapped_grow(outputs@, small.ports, large.ports, node.outputs@);
            lemma_option_mapped_grow(
                comb_group,
                small.comb_groups,
                large.comb_groups,
                node.comb_group,
            );
            lemma_bindings_mapped_grow(ref_cells@, small.cells, large.cells, node.ref_cells@);
        },
        SourceControl::Enable { group, .. } => {
            assert(small.groups.contains_key(group));
        },
        SourceControl::Static => {},
        SourceControl::Repeat => {},
        SourceControl::Empty { .. } => {},
    }
}

} // verus!
