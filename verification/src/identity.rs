//! What the translator guarantees about identity: one handle per identity,
//! for the whole session, and edges that close into the cycles of the
//! netlist.

use crate::component::{named, Component};
use crate::control::Control;
use crate::id_list::{entry_value, lemma_filed_distinct, lemma_lookup_distinct, names_distinct};
use crate::mirror::{assignment_mirror, has_source, injective, Table};
use crate::source::{SourceComponent, SourceControl, SourceIr, SourceParent};
use crate::structure::PortParent;
use crate::translator::TranslationMap;
use vstd::prelude::*;

verus! {

/// An identity keeps its handle: in every later state of the session, each
/// port, cell, group and combinational group that was translated has the
/// handle that it was given first. Translating it again, from any place that
/// names it, gives that handle.
pub proof fn lemma_handles_are_stable(first: TranslationMap, later: TranslationMap, id: usize)
    requires
        later.extends(first),
    ensures
        first.port_map@.contains_key(id) ==> later.port_map@.contains_key(id)
            && later.port_map@[id] == first.port_map@[id],
        first.cell_map@.contains_key(id) ==> later.cell_map@.contains_key(id)
            && later.cell_map@[id] == first.cell_map@[id],
        first.group_map@.contains_key(id) ==> later.group_map@.contains_key(id)
            && later.group_map@[id] == first.group_map@[id],
        first.comb_group_map@.contains_key(id) ==> later.comb_group_map@.contains_key(id)
            && later.comb_group_map@[id] == first.comb_group_map@[id],
{
}

/// Translating an identity again builds nothing and returns the handle of
/// the first time. `first` is the session when the identity had been
/// translated, `start` a later state in which it is asked for again, and
/// `end` with `handle` what that request returns, as the contracts of
/// `get_port`, `get_cell`, `get_group` and `get_comb_group` state it.
pub proof fn lemma_translating_again(
    first: TranslationMap,
    start: TranslationMap,
    end: TranslationMap,
    id: usize,
    handle: usize,
)
    requires
        start.extends(first),
    ensures
        first.port_map@.contains_key(id) && end.port_map@.contains_key(id) && handle
            == end.port_map@[id] && (start.port_map@.contains_key(id) ==> end == start) ==> end
            == start && handle == first.port_map@[id],
        first.cell_map@.contains_key(id) && end.cell_map@.contains_key(id) && handle
            == end.cell_map@[id] && (start.cell_map@.contains_key(id) ==> end == start) ==> end
            == start && handle == first.cell_map@[id],
        first.group_map@.contains_key(id) && end.group_map@.contains_key(id) && handle
            == end.group_map@[id] && (start.group_map@.contains_key(id) ==> end == start) ==> end
            == start && handle == first.group_map@[id],
        first.comb_group_map@.contains_key(id) && end.comb_group_map@.contains_key(id) && handle
            == end.comb_group_map@[id] && (start.comb_group_map@.contains_key(id) ==> end == start)
            ==> end == start && handle == first.comb_group_map@[id],
{
}

/// A node that was built is never rebuilt: in every later state of the
/// session, the node behind a handle is the node that was put there.
pub proof fn lemma_nodes_are_stable(first: TranslationMap, later: TranslationMap, handle: int)
    requires
        later.extends(first),
    ensures
        0 <= handle < first.graph.ports@.len() ==> later.graph.ports@[handle]
            == first.graph.ports@[handle],
        0 <= handle < first.graph.cells@.len() ==> later.graph.cells@[handle]
            == first.graph.cells@[handle],
        0 <= handle < first.graph.groups@.len() ==> later.graph.groups@[handle]
            == first.graph.groups@[handle],
        0 <= handle < first.graph.comb_groups@.len() ==> later.graph.comb_groups@[handle]
            == first.graph.comb_groups@[handle],
{
}

/// Different identities have different handles, also where the nodes behind
/// them hold the same: the tables go by identity, not by content.
pub proof fn lemma_identities_stay_apart(session: TranslationMap, ir: SourceIr, a: usize, b: usize)
    requires
        session.inv(ir),
        a != b,
    ensures
        session.port_map@.contains_key(a) && session.port_map@.contains_key(b)
            ==> session.port_map@[a] != session.port_map@[b],
        session.cell_map@.contains_key(a) && session.cell_map@.contains_key(b)
            ==> session.cell_map@[a] != session.cell_map@[b],
        session.group_map@.contains_key(a) && session.group_map@.contains_key(b)
            ==> session.group_map@[a] != session.group_map@[b],
        session.comb_group_map@.contains_key(a) && session.comb_group_map@.contains_key(b)
            ==> session.comb_group_map@[a] != session.comb_group_map@[b],
{
    assert(injective(session.port_map@));
    assert(injective(session.cell_map@));
    assert(injective(session.group_map@));
    assert(injective(session.comb_group_map@));
}

/// Every node of the graph was built for an identity: no node is built
/// that no identity has, and by [`lemma_identities_stay_apart`] none is built
/// twice for one.
pub proof fn lemma_every_node_has_an_identity(session: TranslationMap, ir: SourceIr, handle: usize)
    requires
        session.inv(ir),
    ensures
        handle < session.graph.ports@.len() ==> has_source(session.port_map@, handle),
        handle < session.graph.cells@.len() ==> has_source(session.cell_map@, handle),
        handle < session.graph.groups@.len() ==> has_source(session.group_map@, handle),
        handle < session.graph.comb_groups@.len() ==> has_source(
            session.comb_group_map@,
            handle,
        ),
{
}

/// The cycle between a cell and its port closes: where port `port` names
/// cell `cell` as its parent and `cell` lists `port`, the parent of the
/// translated port is the translated cell, and the translated cell lists the
/// translated port.
pub proof fn lemma_cell_cycle_closes(
    session: TranslationMap,
    ir: SourceIr,
    port: usize,
    cell: usize,
)
    requires
        session.inv(ir),
        session.port_map@.contains_key(port),
        ir.ports@[port as int].parent == SourceParent::Cell(cell),
        ir.cells@[cell as int].ports@.contains(port),
    ensures
        session.cell_map@.contains_key(cell),
        session.graph.ports@[session.port_map@[port] as int].parent == PortParent::Cell(
            session.cell_map@[cell],
        ),
        session.graph.cells@[session.cell_map@[cell] as int].ports@.contains(
            session.port_map@[port],
        ),
{
    assert(session.port_mirror(ir, port));
    assert(session.cell_base_mirror(ir, cell));
    assert(session.cell_ports_mirror(ir, cell));
    let listed = ir.cells@[cell as int].ports@;
    let i = choose|i: int| 0 <= i < listed.len() && listed[i] == port;
    let handles = session.graph.cells@[session.cell_map@[cell] as int].ports@;
    assert(handles[i] == session.port_map@[listed[i]]);
}

/// The cycle between a group and its hole closes: where hole `port` names
/// group `group` as its parent and `group` lists `port`, the parent of the
/// translated hole is the translated group, and the translated group lists
/// the translated hole.
pub proof fn lemma_group_cycle_closes(
    session: TranslationMap,
    ir: SourceIr,
    port: usize,
    group: usize,
)
    requires
        session.inv(ir),
        session.port_map@.contains_key(port),
        ir.ports@[port as int].parent == SourceParent::Group(group),
        ir.groups@[group as int].holes@.contains(port),
    ensures
        session.group_map@.contains_key(group),
        session.graph.ports@[session.port_map@[port] as int].parent == PortParent::Group(
            session.group_map@[group],
        ),
        session.graph.groups@[session.group_map@[group] as int].holes@.contains(
            session.port_map@[port],
        ),
{
    assert(session.port_mirror(ir, port));
    assert(session.group_base_mirror(ir, group));
    assert(session.group_body_mirror(ir, group));
    let listed = ir.groups@[group as int].holes@;
    let i = choose|i: int| 0 <= i < listed.len() && listed[i] == port;
    let handles = session.graph.groups@[session.group_map@[group] as int].holes@;
    assert(handles[i] == session.port_map@[listed[i]]);
}

/// Nodes filed under distinct names are found under their names: the
/// lookup answers with the handle that the table gives the node.
pub proof fn lemma_listed_by_identity(names: Seq<Seq<char>>, ids: Seq<usize>, table: Table, i: int)
    requires
        names_distinct(named(names, ids, table)),
        0 <= i < ids.len(),
    ensures
        entry_value(crate::id_list::filed(named(names, ids, table)), names[ids[i] as int]) == Some(
            table[ids[i]],
        ),
{
    let items = named(names, ids, table);
    lemma_filed_distinct(items);
    lemma_lookup_distinct(items, i);
}

/// Identity holds across a whole component: where the cells, the groups and
/// the combinational groups of `cc` have distinct names, the component
/// lists each of them, under its name, with the very handle that the tables
/// give it. Every place of the translated component that names the node
/// holds that handle too, since a translated control program or assignment
/// names nodes by the handles of the tables.
pub proof fn lemma_component_lists_by_identity(
    component: Component,
    cc: SourceComponent,
    ir: SourceIr,
    session: TranslationMap,
    i: int,
)
    requires
        component.translation_of(cc, ir, session),
        cc.in_range(ir),
    ensures
        names_distinct(named(ir.cell_names(), cc.cells@, session.cell_map@)) && 0 <= i
            < cc.cells@.len() ==> entry_value(
            component.cells@,
            ir.cells@[cc.cells@[i] as int].name@,
        ) == Some(session.cell_map@[cc.cells@[i]]),
        names_distinct(named(ir.group_names(), cc.groups@, session.group_map@)) && 0 <= i
            < cc.groups@.len() ==> entry_value(
            component.groups@,
            ir.groups@[cc.groups@[i] as int].name@,
        ) == Some(session.group_map@[cc.groups@[i]]),
        names_distinct(named(ir.comb_group_names(), cc.comb_groups@, session.comb_group_map@))
            && 0 <= i < cc.comb_groups@.len() ==> entry_value(
            component.comb_groups@,
            ir.comb_groups@[cc.comb_groups@[i] as int].name@,
        ) == Some(session.comb_group_map@[cc.comb_groups@[i]]),
{
    if names_distinct(named(ir.cell_names(), cc.cells@, session.cell_map@)) && 0 <= i
        < cc.cells@.len() {
        lemma_listed_by_identity(ir.cell_names(), cc.cells@, session.cell_map@, i);
    }
    if names_distinct(named(ir.group_names(), cc.groups@, session.group_map@)) && 0 <= i
        < cc.groups@.len() {
        lemma_listed_by_identity(ir.group_names(), cc.groups@, session.group_map@, i);
    }
    if names_distinct(named(ir.comb_group_names(), cc.comb_groups@, session.comb_group_map@))
        && 0 <= i < cc.comb_groups@.len() {
        lemma_listed_by_identity(
            ir.comb_group_names(),
            cc.comb_groups@,
            session.comb_group_map@,
            i,
        );
    }
}

/// The group that an enable names.
pub open spec fn enabled_group(control: Control) -> usize {
    control->Enable_0.group
}

/// An enable at the root of the control program holds the handle under
/// which the component lists the enabled group.
pub proof fn lemma_enable_names_listed_group(
    component: Component,
    cc: SourceComponent,
    ir: SourceIr,
    session: TranslationMap,
    i: int,
)
    requires
        component.translation_of(cc, ir, session),
        cc.in_range(ir),
        names_distinct(named(ir.group_names(), cc.groups@, session.group_map@)),
        0 <= i < cc.groups@.len(),
        cc.control matches SourceControl::Enable { group, .. } && group == cc.groups@[i],
    ensures
        component.control is Enable,
        entry_value(component.groups@, ir.groups@[cc.groups@[i] as int].name@) == Some(
            enabled_group(component.control),
        ),
{
    lemma_component_lists_by_identity(component, cc, ir, session, i);
}

/// A continuous assignment that writes a port of a listed cell writes a
/// port whose parent is the handle under which the component lists that
/// cell.
pub proof fn lemma_written_port_names_listed_cell(
    component: Component,
    cc: SourceComponent,
    ir: SourceIr,
    session: TranslationMap,
    k: int,
    j: int,
)
    requires
        component.translation_of(cc, ir, session),
        session.inv(ir),
        cc.in_range(ir),
        names_distinct(named(ir.cell_names(), cc.cells@, session.cell_map@)),
        0 <= k < cc.continuous_assignments@.len(),
        0 <= j < cc.cells@.len(),
        ir.ports@[cc.continuous_assignments@[k].dst as int].parent == SourceParent::Cell(
            cc.cells@[j],
        ),
    ensures
        match session.graph.ports@[component.continuous_assignments@[k].dst as int].parent {
            PortParent::Cell(cell) => entry_value(
                component.cells@,
                ir.cells@[cc.cells@[j] as int].name@,
            ) == Some(cell),
            PortParent::Group(_) => false,
        },
{
    lemma_component_lists_by_identity(component, cc, ir, session, j);
    let original = cc.continuous_assignments@[k];
    let translated = component.continuous_assignments@[k];
    assert(assignment_mirror(original, translated, session.port_map@));
    assert(session.port_map@.contains_key(original.dst));
    assert(session.port_mirror(ir, original.dst));
}

} // verus!
