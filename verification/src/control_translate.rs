//! Translation of control programs.

use crate::attributes::{attributes_map, clone_attributes};
use crate::control::{Control, Empty, Enable, If, Invoke, Par, Sequence, While};
use crate::control_mirror::{
    control_mirror, lemma_bindings_mapped_grow, lemma_control_mirror_grows,
    lemma_option_mapped_grow, stmts_mirror, tables_grow, Tables,
};
use crate::mirror::{bindings_mapped, option_mapped};
use crate::source::{bindings_in_range, option_below, SourceControl, SourceIr};
use crate::structure::{CellId, CombGroupId, PortId};
use crate::translator::TranslationMap;
use std::sync::Arc;
use vstd::prelude::*;

verus! {

impl TranslationMap {
    /// The translation tables of the session, as maps.
    pub open spec fn tables(&self) -> Tables {
        Tables {
            ports: self.port_map@,
            cells: self.cell_map@,
            groups: self.group_map@,
            comb_groups: self.comb_group_map@,
        }
    }

    /// Later translation of later translation is later translation, and
    /// only adds to the tables.
    pub proof fn lemma_extends_chain(&self, middle: TranslationMap, before: TranslationMap)
        requires
            self.extends(middle),
            middle.extends(before),
        ensures
            self.extends(before),
            tables_grow(before.tables(), self.tables()),
            tables_grow(middle.tables(), self.tables()),
    {
        self.lemma_extends_transitive(middle, before);
    }

    /// The bindings of `bindings` with each port translated.
    pub fn translate_port_bindings(&mut self, ir: &SourceIr, bindings: &Vec<(String, usize)>) -> (bound:
        Vec<(String, PortId)>)
        requires
            old(self).inv(*ir),
            ir.wf(),
            ir.supported(),
            bindings_in_range(bindings@, ir.ports@.len() as nat),
        ensures
            final(self).inv(*ir),
            final(self).extends(*old(self)),
            bindings_mapped(bindings@, final(self).port_map@, bound@),
    {
        let ghost entry = *self;
        let mut bound: Vec<(String, PortId)> = Vec::new();
        let mut i: usize = 0;
        while i < bindings.len()
            invariant
                i <= bindings@.len(),
                ir.wf(),
                ir.supported(),
                bindings_in_range(bindings@, ir.ports@.len() as nat),
                self.inv(*ir),
                self.extends(entry),
                bindings_mapped(bindings@.take(i as int), self.port_map@, bound@),
            decreases bindings@.len() - i,
        {
            let ghost middle = *self;
            let ghost done = bound@;
            let handle = self.get_port(ir, bindings[i].1);
            bound.push((bindings[i].0.clone(), handle));
            proof {
                self.lemma_extends_chain(middle, entry);
                lemma_bindings_mapped_grow(
                    bindings@.take(i as int),
                    middle.port_map@,
                    self.port_map@,
                    done,
                );
                let prefix = bindings@.take(i as int + 1);
                assert forall|j: int| 0 <= j < prefix.len() implies {
                    &&& self.port_map@.contains_key((#[trigger] prefix[j]).1)
                    &&& bound@[j].1 == self.port_map@[prefix[j].1]
                    &&& bound@[j].0@ == prefix[j].0@
                } by {
                    if j < i {
                        assert(bindings@.take(i as int)[j] == prefix[j]);
                    }
                }
            }
            i = i + 1;
        }
        proof {
            assert(bindings@.take(i as int) == bindings@);
        }
        bound
    }

    /// The bindings of `bindings` with each cell translated.
    pub fn translate_cell_bindings(&mut self, ir: &SourceIr, bindings: &Vec<(String, usize)>) -> (bound:
        Vec<(String, CellId)>)
        requires
            old(self).inv(*ir),
            ir.wf(),
            bindings_in_range(bindings@, ir.cells@.len() as nat),
        ensures
            final(self).inv(*ir),
            final(self).extends(*old(self)),
            bindings_mapped(bindings@, final(self).cell_map@, bound@),
    {
        let ghost entry = *self;
        let mut bound: Vec<(String, CellId)> = Vec::new();
        let mut i: usize = 0;
        while i < bindings.len()
            invariant
                i <= bindings@.len(),
                ir.wf(),
                bindings_in_range(bindings@, ir.cells@.len() as nat),
                self.inv(*ir),
                self.extends(entry),
                bindings_mapped(bindings@.take(i as int), self.cell_map@, bound@),
            decreases bindings@.len() - i,
        {
            let ghost middle = *self;
            let ghost done = bound@;
            let handle = self.get_cell(ir, bindings[i].1);
            bound.push((bindings[i].0.clone(), handle));
            proof {
                self.lemma_extends_chain(middle, entry);
                lemma_bindings_mapped_grow(
                    bindings@.take(i as int),
                    middle.cell_map@,
                    self.cell_map@,
                    done,
                );
                let prefix = bindings@.take(i as int + 1);
                assert forall|j: int| 0 <= j < prefix.len() implies {
                    &&& self.cell_map@.contains_key((#[trigger] prefix[j]).1)
                    &&& bound@[j].1 == self.cell_map@[prefix[j].1]
                    &&& bound@[j].0@ == prefix[j].0@
                } by {
                    if j < i {
                        assert(bindings@.take(i as int)[j] == prefix[j]);
                    }
                }
            }
            i = i + 1;
        }
        proof {
            assert(bindings@.take(i as int) == bindings@);
        }
        bound
    }

    /// The translation of the combinational group that `cond` names, where
    /// it names one.
    pub fn translate_cond(&mut self, ir: &SourceIr, cond: &Option<usize>) -> (handle: Option<
        CombGroupId,
    >)
        requires
            old(self).inv(*ir),
            ir.wf(),
            ir.supported(),
            option_below(*cond, ir.comb_groups@.len() as nat),
        ensures
            final(self).inv(*ir),
            final(self).extends(*old(self)),
            option_mapped(*cond, final(self).comb_group_map@, handle),
    {
        match cond {
            Some(g) => Some(self.get_comb_group(ir, *g)),
            None => None,
        }
    }
}

impl Enable {
    /// The translation of the enable `original`: the enable of the
    /// translation of its group.
    pub fn from_ir(original: &SourceControl, ir: &SourceIr, translator: &mut TranslationMap) -> (node:
        Enable)
        requires
            old(translator).inv(*ir),
            ir.wf(),
            ir.supported(),
            *original is Enable,
            original.in_range(*ir),
        ensures
            final(translator).inv(*ir),
            final(translator).extends(*old(translator)),
            match *original {
                SourceControl::Enable { group, attributes } => {
                    &&& final(translator).group_map@.contains_key(group)
                    &&& node.group == final(translator).group_map@[group]
                    &&& attributes_map(node.attributes) == attributes_map(attributes)
                },
                _ => true,
            },
    {
        match original {
            SourceControl::Enable { group, attributes } => Enable {
                group: translator.get_group(ir, *group),
                attributes: clone_attributes(attributes),
            },
            _ => vstd::pervasive::unreached(),
        }
    }
}

impl Invoke {
    /// The translation of the invocation `original`: the invocation of the
    /// translation of its cell, with every bound port and cell translated
    /// and every name kept, in order. A name bound twice stays bound twice.
    pub fn from_ir(original: &SourceControl, ir: &SourceIr, translator: &mut TranslationMap) -> (node:
        Invoke)
        requires
            old(translator).inv(*ir),
            ir.wf(),
            ir.supported(),
            *original is Invoke,
            original.in_range(*ir),
        ensures
            final(translator).inv(*ir),
            final(translator).extends(*old(translator)),
            match *original {
                SourceControl::Invoke { comp, inputs, outputs, attributes, comb_group, ref_cells } => {
                    &&& final(translator).cell_map@.contains_key(comp)
                    &&& node.comp == final(translator).cell_map@[comp]
                    &&& bindings_mapped(inputs@, final(translator).port_map@, node.inputs@)
                    &&& bindings_mapped(outputs@, final(translator).port_map@, node.outputs@)
                    &&& attributes_map(node.attributes) == attributes_map(attributes)
                    &&& option_mapped(
                        comb_group,
                        final(translator).comb_group_map@,
                        node.comb_group,
                    )
                    &&& bindings_mapped(ref_cells@, final(translator).cell_map@, node.ref_cells@)
                },
                _ => true,
            },
    {
        let ghost s0 = *translator;
        match original {
            SourceControl::Invoke { comp, inputs, outputs, attributes, comb_group, ref_cells } => {
                let comp_handle = translator.get_cell(ir, *comp);
                let ghost s1 = *translator;
                let bound_inputs = translator.translate_port_bindings(ir, inputs);
                let ghost s2 = *translator;
                let bound_outputs = translator.translate_port_bindings(ir, outputs);
                let ghost s3 = *translator;
                let comb_handle = translator.translate_cond(ir, comb_group);
                let ghost s4 = *translator;
                let bound_cells = translator.translate_cell_bindings(ir, ref_cells);
                proof {
                    let s5 = *translator;
                    s5.lemma_extends_chain(s4, s3);
                    s5.lemma_extends_chain(s3, s2);
                    s5.lemma_extends_chain(s2, s1);
                    s5.lemma_extends_chain(s1, s0);
                    assert(s1.cell_map@.contains_key(*comp));
                    lemma_bindings_mapped_grow(inputs@, s2.port_map@, s5.port_map@, bound_inputs@);
                    lemma_bindings_mapped_grow(
                        outputs@,
                        s3.port_map@,
                        s5.port_map@,
                        bound_outputs@,
                    );
                    lemma_option_mapped_grow(
                        *comb_group,
                        s4.comb_group_map@,
                        s5.comb_group_map@,
                        comb_handle,
                    );
                }
                Invoke {
                    comp: comp_handle,
                    inputs: bound_inputs,
                    outputs: bound_outputs,
                    attributes: clone_attributes(attributes),
                    comb_group: comb_handle,
                    ref_cells: bound_cells,
                }
            },
            _ => vstd::pervasive::unreached(),
        }
    }
}

/// The translations of `stmts`, in order.
fn translate_stmts(stmts: &Vec<SourceControl>, ir: &SourceIr, translator: &mut TranslationMap) -> (translated:
    Vec<Control>)
    requires
        old(translator).inv(*ir),
        ir.wf(),
        ir.supported(),
        forall|i: int| 0 <= i < stmts@.len() ==> (#[trigger] stmts@[i]).in_range(*ir),
        forall|i: int| 0 <= i < stmts@.len() ==> (#[trigger] stmts@[i]).supported(),
    ensures
        final(translator).inv(*ir),
        final(translator).extends(*old(translator)),
        stmts_mirror(stmts@, translated@, final(translator).tables()),
    decreases stmts, 0nat,
{
    let ghost entry = *translator;
    let mut translated: Vec<Control> = Vec::new();
    let mut i: usize = 0;
    while i < stmts.len()
        invariant
            i <= stmts@.len(),
            ir.wf(),
            ir.supported(),
            forall|j: int| 0 <= j < stmts@.len() ==> (#[trigger] stmts@[j]).in_range(*ir),
            forall|j: int| 0 <= j < stmts@.len() ==> (#[trigger] stmts@[j]).supported(),
            translator.inv(*ir),
            translator.extends(entry),
            translated@.len() == i,
            forall|j: int|
                0 <= j < i ==> control_mirror(#[trigger] stmts@[j], translated@[j], translator.tables()),
        decreases stmts@.len() - i,
    {
        let ghost middle = *translator;
        let ghost done = translated@;
        let node = Control::from_ir(&stmts[i], ir, translator);
        translated.push(node);
        proof {
            translator.lemma_extends_chain(middle, entry);
            assert forall|j: int| 0 <= j < i + 1 implies control_mirror(
                #[trigger] stmts@[j],
                translated@[j],
                translator.tables(),
            ) by {
                if j < i {
                    lemma_control_mirror_grows(
                        stmts@[j],
                        done[j],
                        middle.tables(),
                        translator.tables(),
                    );
                }
            }
        }
        i = i + 1;
    }
    translated
}

impl Sequence {
    /// The translation of the sequence `original`: its statements translated
    /// in order, under its attributes.
    pub fn from_ir(original: &SourceControl, ir: &SourceIr, translator: &mut TranslationMap) -> (node:
        Sequence)
        requires
            old(translator).inv(*ir),
            ir.wf(),
            ir.supported(),
            *original is Sequence,
            original.in_range(*ir),
            original.supported(),
        ensures
            final(translator).inv(*ir),
            final(translator).extends(*old(translator)),
            match *original {
                SourceControl::Sequence { stmts, attributes } => {
                    &&& stmts_mirror(stmts@, node.stmts@, final(translator).tables())
                    &&& attributes_map(node.attributes) == attributes_map(attributes)
                },
                _ => true,
            },
        decreases *original, 0nat,
    {
        match original {
            SourceControl::Sequence { stmts, attributes } => {
                let translated = translate_stmts(stmts, ir, translator);
                Sequence { stmts: translated, attributes: clone_attributes(attributes) }
            },
            _ => vstd::pervasive::unreached(),
        }
    }
}

impl Par {
    /// The translation of the parallel block `original`: its statements
    /// translated in order, under its attributes.
    pub fn from_ir(original: &SourceControl, ir: &SourceIr, translator: &mut TranslationMap) -> (node:
        Par)
        requires
            old(translator).inv(*ir),
            ir.wf(),
            ir.supported(),
            *original is Par,
            original.in_range(*ir),
            original.supported(),
        ensures
            final(translator).inv(*ir),
            final(translator).extends(*old(translator)),
            match *original {
                SourceControl::Par { stmts, attributes } => {
                    &&& stmts_mirror(stmts@, node.stmts@, final(translator).tables())
                    &&& attributes_map(node.attributes) == attributes_map(attributes)
                },
                _ => true,
            },
        decreases *original, 0nat,
    {
        match original {
            SourceControl::Par { stmts, attributes } => {
                let translated = translate_stmts(stmts, ir, translator);
                Par { stmts: translated, attributes: clone_attributes(attributes) }
            },
            _ => vstd::pervasive::unreached(),
        }
    }
}

impl If {
    /// The translation of the conditional `original`: the translations of
    /// its condition port, of the combinational group that makes the port
    /// valid, and of its two branches.
    pub fn from_ir(original: &SourceControl, ir: &SourceIr, translator: &mut TranslationMap) -> (node:
        If)
        requires
            old(translator).inv(*ir),
            ir.wf(),
            ir.supported(),
            *original is If,
            original.in_range(*ir),
            original.supported(),
        ensures
            final(translator).inv(*ir),
            final(translator).extends(*old(translator)),
            match *original {
                SourceControl::If { port, cond, tbranch, fbranch, attributes } => {
                    &&& final(translator).port_map@.contains_key(port)
                    &&& node.port == final(translator).port_map@[port]
                    &&& option_mapped(cond, final(translator).comb_group_map@, node.cond)
                    &&& control_mirror(*tbranch, node.tbranch, final(translator).tables())
                    &&& control_mirror(*fbranch, node.fbranch, final(translator).tables())
                    &&& attributes_map(node.attributes) == attributes_map(attributes)
                },
                _ => true,
            },
        decreases *original, 0nat,
    {
        let ghost s0 = *translator;
        match original {
            SourceControl::If { port, cond, tbranch, fbranch, attributes } => {
                let port_handle = translator.get_port(ir, *port);
                let ghost s1 = *translator;
                let cond_handle = translator.translate_cond(ir, cond);
                let ghost s2 = *translator;
                let tnode = Control::from_ir(tbranch, ir, translator);
                let ghost s3 = *translator;
                let fnode = Control::from_ir(fbranch, ir, translator);
                proof {
                    let s4 = *translator;
                    s4.lemma_extends_chain(s3, s2);
                    s4.lemma_extends_chain(s2, s1);
                    s4.lemma_extends_chain(s1, s0);
                    assert(s1.port_map@.contains_key(*port));
                    lemma_option_mapped_grow(
                        *cond,
                        s2.comb_group_map@,
                        s4.comb_group_map@,
                        cond_handle,
                    );
                    lemma_control_mirror_grows(**tbranch, tnode, s3.tables(), s4.tables());
                }
                If {
                    port: port_handle,
                    cond: cond_handle,
                    tbranch: tnode,
                    fbranch: fnode,
                    attributes: clone_attributes(attributes),
                }
            },
            _ => vstd::pervasive::unreached(),
        }
    }
}

impl While {
    /// The translation of the loop `original`: the translations of its
    /// condition port, of the combinational group that makes the port valid,
    /// and of its body.
    pub fn from_ir(original: &SourceControl, ir: &SourceIr, translator: &mut TranslationMap) -> (node:
        While)
        requires
            old(translator).inv(*ir),
            ir.wf(),
            ir.supported(),
            *original is While,
            original.in_range(*ir),
            original.supported(),
        ensures
            final(translator).inv(*ir),
            final(translator).extends(*old(translator)),
            match *original {
                SourceControl::While { port, cond, body, attributes } => {
                    &&& final(translator).port_map@.contains_key(port)
                    &&& node.port == final(translator).port_map@[port]
                    &&& option_mapped(cond, final(translator).comb_group_map@, node.cond)
                    &&& control_mirror(*body, node.body, final(translator).tables())
                    &&& attributes_map(node.attributes) == attributes_map(attributes)
                },
                _ => true,
            },
        decreases *original, 0nat,
    {
        let ghost s0 = *translator;
        match original {
            SourceControl::While { port, cond, body, attributes } => {
                let port_handle = translator.get_port(ir, *port);
                let ghost s1 = *translator;
                let cond_handle = translator.translate_cond(ir, cond);
                let ghost s2 = *translator;
                let bnode = Control::from_ir(body, ir, translator);
                proof {
                    let s3 = *translator;
                    s3.lemma_extends_chain(s2, s1);
                    s3.lemma_extends_chain(s1, s0);
                    assert(s1.port_map@.contains_key(*port));
                    lemma_option_mapped_grow(
                        *cond,
                        s2.comb_group_map@,
                        s3.comb_group_map@,
                        cond_handle,
                    );
                }
                While {
                    port: port_handle,
                    cond: cond_handle,
                    body: bnode,
                    attributes: clone_attributes(attributes),
                }
            },
            _ => vstd::pervasive::unreached(),
        }
    }
}

impl Control {
    /// The translation of the control program `cc`: a tree of the same
    /// shape over the translations of what `cc` names. Every port, cell,
    /// group and combinational group that `cc` names is translated on the
    /// way, if it was not before.
    pub fn from_ir(cc: &SourceControl, ir: &SourceIr, translator: &mut TranslationMap) -> (control:
        Control)
        requires
            old(translator).inv(*ir),
            ir.wf(),
            ir.supported(),
            cc.in_range(*ir),
            cc.supported(),
        ensures
            final(translator).inv(*ir),
            final(translator).extends(*old(translator)),
            control_mirror(*cc, control, final(translator).tables()),
        decreases *cc, 1nat,
    {
        match cc {
            SourceControl::Sequence { .. } => Control::Sequence(
                Arc::new(Sequence::from_ir(cc, ir, translator)),
            ),
            SourceControl::Par { .. } => Control::Par(Arc::new(Par::from_ir(cc, ir, translator))),
            SourceControl::If { .. } => Control::If(Arc::new(If::from_ir(cc, ir, translator))),
            SourceControl::While { .. } => Control::While(
                Arc::new(While::from_ir(cc, ir, translator)),
            ),
            SourceControl::Invoke { .. } => Control::Invoke(
                Arc::new(Invoke::from_ir(cc, ir, translator)),
            ),
            SourceControl::Enable { .. } => Control::Enable(
                Arc::new(Enable::from_ir(cc, ir, translator)),
            ),
            SourceControl::Static => vstd::pervasive::unreached(),
            SourceControl::Repeat => vstd::pervasive::unreached(),
            SourceControl::Empty { attributes } => Control::Empty(
                Arc::new(Empty { attributes: clone_attributes(attributes) }),
            ),
        }
    }
}

} // verus!
