//! The component aggregate: a named unit that bundles cells, groups,
//! combinational groups, continuous assignments and one control tree.

use crate::attributes::{attributes_map, clone_attributes};
use crate::control::Control;
use crate::control_mirror::control_mirror;
use crate::id_list::{entry_value, filed, items_view, Entry, IdListArcTex};
use crate::mirror::{assignments_mirror, lemma_assignments_mirror_grow, Table};
use crate::source::{all_below, SourceComponent, SourceIr};
use crate::structure::{Assignment, CellId};
use crate::translator::TranslationMap;
use calyx_frontend::Attributes;
use std::sync::Arc;
use vstd::prelude::*;

verus! {

/// A component of the concurrent graph.
#[derive(Debug)]
pub struct Component {
    /// Name of the component.
    pub name: String,
    /// The cell that is the component's own interface.
    pub signature: CellId,
    /// The cells instantiated for this component, by name.
    pub cells: IdListArcTex,
    /// The groups of this component, by name.
    pub groups: IdListArcTex,
    /// The combinational groups of this component, by name.
    pub comb_groups: IdListArcTex,
    /// The assignments that are always active, whatever the control tree is
    /// running.
    pub continuous_assignments: Arc<Vec<Assignment<()>>>,
    /// The control program of this component.
    pub control: Control,
    /// Attributes of this component.
    pub attributes: Attributes,
}

/// The nodes `ids`, each as its name with its translation.
pub open spec fn named(names: Seq<Seq<char>>, ids: Seq<usize>, table: Table) -> Seq<Entry> {
    Seq::new(ids.len(), |i: int| (names[ids[i] as int], table[ids[i]]))
}

/// Every identity of `ids` has a translation in `table`.
pub open spec fn all_known(ids: Seq<usize>, table: Table) -> bool {
    forall|i: int| 0 <= i < ids.len() ==> table.contains_key(#[trigger] ids[i])
}

impl SourceIr {
    /// The names of the cells, by identity.
    pub open spec fn cell_names(&self) -> Seq<Seq<char>> {
        Seq::new(self.cells@.len(), |c: int| self.cells@[c].name@)
    }

    /// The names of the groups, by identity.
    pub open spec fn group_names(&self) -> Seq<Seq<char>> {
        Seq::new(self.groups@.len(), |g: int| self.groups@[g].name@)
    }

    /// The names of the combinational groups, by identity.
    pub open spec fn comb_group_names(&self) -> Seq<Seq<char>> {
        Seq::new(self.comb_groups@.len(), |g: int| self.comb_groups@[g].name@)
    }
}

impl TranslationMap {
    /// The cells `ids`, translated in order, each with its name.
    pub fn translate_cells(&mut self, ir: &SourceIr, ids: &Vec<usize>) -> (items: Vec<
        (String, usize),
    >)
        requires
            old(self).inv(*ir),
            ir.wf(),
            all_below(ids@, ir.cells@.len() as nat),
        ensures
            final(self).inv(*ir),
            final(self).extends(*old(self)),
            all_known(ids@, final(self).cell_map@),
            items_view(items@) == named(ir.cell_names(), ids@, final(self).cell_map@),
    {
        let ghost entry = *self;
        let mut items: Vec<(String, usize)> = Vec::new();
        let mut i: usize = 0;
        while i < ids.len()
            invariant
                i <= ids@.len(),
                ir.wf(),
                all_below(ids@, ir.cells@.len() as nat),
                self.inv(*ir),
                self.extends(entry),
                items@.len() == i,
                forall|j: int|
                    0 <= j < i ==> {
                        &&& self.cell_map@.contains_key(#[trigger] ids@[j])
                        &&& items@[j].1 == self.cell_map@[ids@[j]]
                        &&& items@[j].0@ == ir.cells@[ids@[j] as int].name@
                    },
            decreases ids@.len() - i,
        {
            let ghost middle = *self;
            let handle = self.get_cell(ir, ids[i]);
            items.push((ir.cells[ids[i]].name.clone(), handle));
            proof {
                self.lemma_extends_chain(middle, entry);
                assert forall|j: int| 0 <= j < i implies self.cell_map@.contains_key(
                    #[trigger] ids@[j],
                ) && items@[j].1 == self.cell_map@[ids@[j]] by {
                    assert(middle.cell_map@.contains_key(ids@[j]));
                }
            }
            i = i + 1;
        }
        proof {
            assert(items_view(items@) =~= named(ir.cell_names(), ids@, self.cell_map@));
        }
        items
    }

    /// The groups `ids`, translated in order, each with its name.
    pub fn translate_groups(&mut self, ir: &SourceIr, ids: &Vec<usize>) -> (items: Vec<
        (String, usize),
    >)
        requires
            old(self).inv(*ir),
            ir.wf(),
            ir.supported(),
            all_below(ids@, ir.groups@.len() as nat),
        ensures
            final(self).inv(*ir),
            final(self).extends(*old(self)),
            all_known(ids@, final(self).group_map@),
            items_view(items@) == named(ir.group_names(), ids@, final(self).group_map@),
    {
        let ghost entry = *self;
        let mut items: Vec<(String, usize)> = Vec::new();
        let mut i: usize = 0;
        while i < ids.len()
            invariant
                i <= ids@.len(),
                ir.wf(),
                ir.supported(),
                all_below(ids@, ir.groups@.len() as nat),
                self.inv(*ir),
                self.extends(entry),
                items@.len() == i,
                forall|j: int|
                    0 <= j < i ==> {
                        &&& self.group_map@.contains_key(#[trigger] ids@[j])
                        &&& items@[j].1 == self.group_map@[ids@[j]]
                        &&& items@[j].0@ == ir.groups@[ids@[j] as int].name@
                    },
            decreases ids@.len() - i,
        {
            let ghost middle = *self;
            let handle = self.get_group(ir, ids[i]);
            items.push((ir.groups[ids[i]].name.clone(), handle));
            proof {
                self.lemma_extends_chain(middle, entry);
                assert forall|j: int| 0 <= j < i implies self.group_map@.contains_key(
                    #[trigger] ids@[j],
                ) && items@[j].1 == self.group_map@[ids@[j]] by {
                    assert(middle.group_map@.contains_key(ids@[j]));
                }
            }
            i = i + 1;
        }
        proof {
            assert(items_view(items@) =~= named(ir.group_names(), ids@, self.group_map@));
        }
        items
    }

    /// The combinational groups `ids`, translated in order, each with its
    /// name.
    pub fn translate_comb_groups(&mut self, ir: &SourceIr, ids: &Vec<usize>) -> (items: Vec<
        (String, usize),
    >)
        requires
            old(self).inv(*ir),
            ir.wf(),
            ir.supported(),
            all_below(ids@, ir.comb_groups@.len() as nat),
        ensures
            final(self).inv(*ir),
            final(self).extends(*old(self)),
            all_known(ids@, final(self).comb_group_map@),
            items_view(items@) == named(ir.comb_group_names(), ids@, final(self).comb_group_map@),
    {
        let ghost entry = *self;
        let mut items: Vec<(String, usize)> = Vec::new();
        let mut i: usize = 0;
        while i < ids.len()
            invariant
                i <= ids@.len(),
                ir.wf(),
                ir.supported(),
                all_below(ids@, ir.comb_groups@.len() as nat),
                self.inv(*ir),
                self.extends(entry),
                items@.len() == i,
                forall|j: int|
                    0 <= j < i ==> {
                        &&& self.comb_group_map@.contains_key(#[trigger] ids@[j])
                        &&& items@[j].1 == self.comb_group_map@[ids@[j]]
                        &&& items@[j].0@ == ir.comb_groups@[ids@[j] as int].name@
                    },
            decreases ids@.len() - i,
        {
            let ghost middle = *self;
            let handle = self.get_comb_group(ir, ids[i]);
            items.push((ir.comb_groups[ids[i]].name.clone(), handle));
            proof {
                self.lemma_extends_chain(middle, entry);
                assert forall|j: int| 0 <= j < i implies self.comb_group_map@.contains_key(
                    #[trigger] ids@[j],
                ) && items@[j].1 == self.comb_group_map@[ids@[j]] by {
                    assert(middle.comb_group_map@.contains_key(ids@[j]));
                }
            }
            i = i + 1;
        }
        proof {
            assert(items_view(items@) =~= named(
                ir.comb_group_names(),
                ids@,
                self.comb_group_map@,
            ));
        }
        items
    }
}

/// Names of nodes with their translations stay the same when the table
/// learns more.
pub proof fn lemma_named_grows(names: Seq<Seq<char>>, ids: Seq<usize>, small: Table, large: Table)
    requires
        all_known(ids, small),
        crate::mirror::submap(small, large),
    ensures
        named(names, ids, large) == named(names, ids, small),
        all_known(ids, large),
{
    assert forall|i: int| 0 <= i < ids.len() implies large.contains_key(#[trigger] ids[i])
        && large[ids[i]] == small[ids[i]] by {
        assert(small.contains_key(ids[i]));
    }
    assert(named(names, ids, large) =~= named(names, ids, small));
}

impl Component {
    /// `self` is the translation of component `cc` in the session
    /// `session`: it has the name and attributes of `cc`; its signature is
    /// the translation of that of `cc`; its three lists file the translations
    /// of the cells, groups and combinational groups of `cc` under their
    /// names, in order; and its continuous assignments and control program
    /// are the translations of those of `cc`.
    pub open spec fn translation_of(
        &self,
        cc: SourceComponent,
        ir: SourceIr,
        session: TranslationMap,
    ) -> bool {
        &&& self.name@ == cc.name@
        &&& session.cell_map@.contains_key(cc.signature)
        &&& self.signature == session.cell_map@[cc.signature]
        &&& all_known(cc.cells@, session.cell_map@)
        &&& self.cells@ == filed(named(ir.cell_names(), cc.cells@, session.cell_map@))
        &&& all_known(cc.groups@, session.group_map@)
        &&& self.groups@ == filed(named(ir.group_names(), cc.groups@, session.group_map@))
        &&& all_known(cc.comb_groups@, session.comb_group_map@)
        &&& self.comb_groups@ == filed(
            named(ir.comb_group_names(), cc.comb_groups@, session.comb_group_map@),
        )
        &&& assignments_mirror(
            cc.continuous_assignments@,
            self.continuous_assignments@,
            session.port_map@,
        )
        &&& control_mirror(cc.control, self.control, session.tables())
        &&& attributes_map(self.attributes) == attributes_map(cc.attributes)
    }

    /// The handle of the cell named `name`, if the component has one.
    pub fn find_cell(&self, name: &str) -> (cell: Option<CellId>)
        ensures
            cell == entry_value(self.cells@, name@),
    {
        self.cells.find(name)
    }

    /// The translation of component `cc`: its signature, cells, groups,
    /// combinational groups, continuous assignments and control program,
    /// translated in that order.
    pub fn from_ir(cc: &SourceComponent, ir: &SourceIr, translator: &mut TranslationMap) -> (component:
        Component)
        requires
            old(translator).inv(*ir),
            ir.wf(),
            ir.supported(),
            cc.in_range(*ir),
            cc.control.supported(),
        ensures
            final(translator).inv(*ir),
            final(translator).extends(*old(translator)),
            component.translation_of(*cc, *ir, *final(translator)),
    {
        let ghost s0 = *translator;
        let signature = translator.get_cell(ir, cc.signature);
        let ghost s1 = *translator;
        let cells = translator.translate_cells(ir, &cc.cells);
        let ghost s2 = *translator;
        let groups = translator.translate_groups(ir, &cc.groups);
        let ghost s3 = *translator;
        let comb_groups = translator.translate_comb_groups(ir, &cc.comb_groups);
        let ghost s4 = *translator;
        let continuous = translator.translate_continuous(ir, &cc.continuous_assignments);
        let ghost s5 = *translator;
        let control = Control::from_ir(&cc.control, ir, translator);
        proof {
            let s6 = *translator;
            s6.lemma_extends_chain(s5, s4);
            s6.lemma_extends_chain(s4, s3);
            s6.lemma_extends_chain(s3, s2);
            s6.lemma_extends_chain(s2, s1);
            s6.lemma_extends_chain(s1, s0);
            assert(s1.cell_map@.contains_key(cc.signature));
            lemma_named_grows(ir.cell_names(), cc.cells@, s2.cell_map@, s6.cell_map@);
            lemma_named_grows(ir.group_names(), cc.groups@, s3.group_map@, s6.group_map@);
            lemma_named_grows(
                ir.comb_group_names(),
                cc.comb_groups@,
                s4.comb_group_map@,
                s6.comb_group_map@,
            );
            lemma_assignments_mirror_grow(
                cc.continuous_assignments@,
                continuous@,
                s5.port_map@,
                s6.port_map@,
            );
        }
        Component {
            name: cc.name.clone(),
            signature,
            cells: IdListArcTex::from_items(cells),
            groups: IdListArcTex::from_items(groups),
            comb_groups: IdListArcTex::from_items(comb_groups),
            continuous_assignments: Arc::new(continuous),
            control,
            attributes: clone_attributes(&cc.attributes),
        }
    }
}

} // verus!
