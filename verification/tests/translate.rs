use calyx_frontend::{Attribute, Attributes, BoolAttr, NumAttr};
use interp::component::Component;
use interp::control::{control_is_empty, Control};
use interp::port_list::PortList;
use interp::source::{SourceComponent, SourceControl, SourceIr, SourceParent, SourcePort};
use interp::structure::{
    Assignment, Cell, CellType, CombGroup, Direction, Group, Guard, Port, PortComp, PortParent,
};
use interp::translator::TranslationMap;
use interp::utils::{construct_bindings, get_dest_cells, get_done_port, get_go_port};

fn attrs(entries: &[(Attribute, u64)]) -> Attributes {
    let mut attributes = Attributes::default();
    for (key, value) in entries {
        attributes.insert(*key, *value);
    }
    attributes
}

fn port(name: &str, width: u64, direction: Direction, parent: SourceParent) -> SourcePort {
    SourcePort {
        name: name.to_string(),
        width,
        direction,
        parent,
        attributes: Attributes::default(),
    }
}

fn cell(name: &str, ports: Vec<usize>, prototype: CellType) -> Cell {
    Cell {
        name: name.to_string(),
        ports: PortList::from_vec(ports),
        prototype,
        attributes: Attributes::default(),
        reference: false,
    }
}

fn assign(dst: usize, src: usize, guard: Guard<()>) -> Assignment<()> {
    Assignment { dst, src, guard: Box::new(guard), attributes: Attributes::default() }
}

/// Ports: 0 `reg.in`, 1 `reg.out`, 2 `reg.write_en`, 3 `reg.done`,
/// 4 `const5.out`, 5 `g[go]`, 6 `g[done]`, 7 `main.go`.
/// Cells: 0 `reg`, 1 `const5`, 2 `main` (the component itself).
/// Group 0 `g`: `reg.in = const5.out`, `g[done] = reg.done`.
fn netlist() -> SourceIr {
    let mut reg_done = port("done", 1, Direction::Output, SourceParent::Cell(0));
    reg_done.attributes = attrs(&[(Attribute::Num(NumAttr::Done), 1)]);
    let mut reg = cell(
        "reg",
        vec![0, 1, 2, 3],
        CellType::Primitive {
            name: "std_reg".to_string(),
            param_binding: construct_bindings([("WIDTH", 32)]),
            is_comb: false,
            latency: Some(1),
        },
    );
    reg.attributes = attrs(&[(Attribute::Bool(BoolAttr::External), 1)]);
    SourceIr {
        ports: vec![
            port("in", 32, Direction::Input, SourceParent::Cell(0)),
            port("out", 32, Direction::Output, SourceParent::Cell(0)),
            port("write_en", 1, Direction::Input, SourceParent::Cell(0)),
            reg_done,
            port("out", 32, Direction::Output, SourceParent::Cell(1)),
            port("go", 1, Direction::Inout, SourceParent::Group(0)),
            port("done", 1, Direction::Inout, SourceParent::Group(0)),
            port("go", 1, Direction::Input, SourceParent::Cell(2)),
        ],
        cells: vec![
            reg,
            cell("const5", vec![4], CellType::Constant { val: 5, width: 32 }),
            cell("main", vec![7], CellType::ThisComponent),
        ],
        groups: vec![Group {
            name: "g".to_string(),
            assignments: vec![assign(0, 4, Guard::True), assign(6, 3, Guard::True)],
            holes: PortList::from_vec(vec![5, 6]),
            attributes: attrs(&[(Attribute::Num(NumAttr::Promotable), 2)]),
        }],
        comb_groups: vec![],
    }
}

fn component() -> SourceComponent {
    SourceComponent {
        name: "main".to_string(),
        signature: 2,
        cells: vec![0, 1],
        groups: vec![0],
        comb_groups: vec![],
        continuous_assignments: vec![],
        control: SourceControl::Enable { group: 0, attributes: Attributes::default() },
        attributes: Attributes::default(),
    }
}

#[test]
fn netlist_is_well_formed() {
    let ir = netlist();
    assert!(ir.check());
    assert!(ir.is_supported());
    assert!(component().check_in_range(&ir));
    assert!(component().control.is_supported());
}

#[test]
fn end_to_end_component() {
    let ir = netlist();
    let mut translator = TranslationMap::new();
    let comp = Component::from_ir(&component(), &ir, &mut translator);
    let graph = &translator.graph;
    assert!(graph.check());
    let reg = comp.find_cell("reg").expect("reg is a cell of the component");
    let const5 = comp.find_cell("const5").expect("const5 is a cell of the component");
    assert_ne!(reg, const5);
    assert_eq!(graph.cells[reg].name(), "reg");
    assert_eq!(graph.cells[const5].name(), "const5");
    assert_eq!(comp.find_cell("main"), None);
    assert_eq!(graph.cells[comp.signature].name(), "main");
    let g = comp.groups.find("g").expect("g is a group of the component");
    assert_eq!(get_dest_cells(graph, &graph.groups[g].assignments, None), vec![reg]);
    assert!(!control_is_empty(&comp.control));
    match &comp.control {
        Control::Enable(node) => assert_eq!(node.group, g),
        _ => panic!("the control program is an enable"),
    }
    assert_eq!(comp.name, "main");
    assert_eq!(comp.cells.iter(), vec![reg, const5]);
    assert!(comp.continuous_assignments.is_empty());
}

#[test]
fn translated_nodes_keep_what_they_held() {
    let ir = netlist();
    let mut translator = TranslationMap::new();
    let reg = translator.get_cell(&ir, 0);
    let graph = &translator.graph;
    let cell = &graph.cells[reg];
    assert_eq!(cell.get_parameter("WIDTH"), Some(32));
    assert_eq!(cell.get_attribute(Attribute::Bool(BoolAttr::External)), Some(1));
    assert_eq!(cell.get_attribute(Attribute::Num(NumAttr::Go)), None);
    assert!(!cell.reference);
    assert_eq!(cell.ports().len(), 4);
    let done = cell.get(graph, "done");
    assert_eq!(graph.ports[done].width, 1);
    assert_eq!(graph.ports[done].direction, Direction::Output);
    assert!(matches!(
        cell.find_unique_with_attr(graph, Attribute::Num(NumAttr::Done)),
        Ok(Some(p)) if p == done
    ));
    let input = cell.get(graph, "in");
    assert_eq!(graph.ports[input].width, 32);
    assert_eq!(graph.ports[input].direction, Direction::Input);
}

#[test]
fn same_identity_same_handle() {
    let ir = netlist();
    let mut translator = TranslationMap::new();
    let first = translator.get_port(&ir, 4);
    let ports_after_first = translator.graph.ports.len();
    let cells_after_first = translator.graph.cells.len();
    let other = translator.get_port(&ir, 1);
    let second = translator.get_port(&ir, 4);
    assert_eq!(first, second);
    assert_ne!(first, other);
    assert_eq!(translator.get_port(&ir, 1), other);
    assert_eq!(translator.graph.ports.len(), ports_after_first + 4);
    assert_eq!(translator.graph.cells.len(), cells_after_first + 1);
    let group = translator.get_group(&ir, 0);
    let size = (translator.graph.ports.len(), translator.graph.groups.len());
    assert_eq!(translator.get_group(&ir, 0), group);
    assert_eq!((translator.graph.ports.len(), translator.graph.groups.len()), size);
}

#[test]
fn ports_with_equal_content_stay_apart() {
    let mut ir = netlist();
    ir.ports.push(port("out", 32, Direction::Output, SourceParent::Cell(1)));
    ir.cells[1].ports = PortList::from_vec(vec![4, 8]);
    assert!(ir.check());
    let mut translator = TranslationMap::new();
    let a = translator.get_port(&ir, 4);
    let b = translator.get_port(&ir, 8);
    assert_ne!(a, b);
    assert_eq!(translator.graph.ports[a].name, translator.graph.ports[b].name);
}

#[test]
fn port_and_cell_close_their_cycle() {
    let ir = netlist();
    let mut translator = TranslationMap::new();
    let out = translator.get_port(&ir, 1);
    let reg = translator.get_cell(&ir, 0);
    let graph = &translator.graph;
    assert_eq!(graph.ports[out].parent, PortParent::Cell(reg));
    assert!(graph.cells[reg].ports().as_slice().contains(&out));
    assert_eq!(graph.cells[reg].find(graph, "out"), Some(out));
    assert_eq!(graph.ports[out].get_parent_name(graph), "reg");
    assert_eq!(graph.ports.len(), 4);
    assert_eq!(graph.cells.len(), 1);
}

#[test]
fn hole_and_group_close_their_cycle() {
    let ir = netlist();
    let mut translator = TranslationMap::new();
    let done = translator.get_port(&ir, 6);
    let g = translator.get_group(&ir, 0);
    let graph = &translator.graph;
    assert_eq!(graph.ports[done].parent, PortParent::Group(g));
    assert_eq!(get_done_port(&graph.groups[g], graph), done);
    assert_ne!(get_go_port(&graph.groups[g], graph), done);
    assert_eq!(graph.groups[g].assignments.len(), 2);
    assert_eq!(graph.groups[g].assignments[1].dst, done);
    assert_eq!(graph.ports[done].get_parent_name(graph), "g");
}

#[test]
fn port_from_ir_translates_the_parent() {
    let ir = netlist();
    let mut translator = TranslationMap::new();
    let out = Port::from_ir(4, &ir, &mut translator);
    let const5 = translator.get_cell(&ir, 1);
    assert_eq!(out.parent, PortParent::Cell(const5));
    assert_eq!(out.name, "out");
    assert_eq!(out.width, 32);
    assert_eq!(out.direction, Direction::Output);
    assert_eq!(translator.graph.cells.len(), 1);
    let done = Port::from_ir(3, &ir, &mut translator);
    let reg = translator.get_cell(&ir, 0);
    assert_eq!(done.parent, PortParent::Cell(reg));
    assert_eq!(done.attributes.get(Attribute::Num(NumAttr::Done)), Some(1));
    let hole = Port::from_ir(5, &ir, &mut translator);
    let g = translator.get_group(&ir, 0);
    assert_eq!(hole.parent, PortParent::Group(g));
    assert_eq!(hole.name, "go");
    assert_eq!(hole.direction, Direction::Inout);
}

#[test]
fn handles_follow_the_order_of_requests() {
    let ir = netlist();
    let mut translator = TranslationMap::new();
    assert_eq!(translator.get_cell(&ir, 1), 0);
    assert_eq!(translator.get_cell(&ir, 0), 1);
    assert_eq!(translator.get_port(&ir, 4), 0);
    assert_eq!(translator.get_port(&ir, 0), 1);
}

#[test]
fn groups_that_write_each_other_terminate() {
    let mut ir = netlist();
    ir.ports.push(port("go", 1, Direction::Inout, SourceParent::Group(1)));
    ir.ports.push(port("done", 1, Direction::Inout, SourceParent::Group(1)));
    ir.groups.push(Group {
        name: "h".to_string(),
        assignments: vec![assign(5, 9, Guard::Port(6))],
        holes: PortList::from_vec(vec![8, 9]),
        attributes: Attributes::default(),
    });
    ir.groups[0].assignments.push(assign(8, 6, Guard::Not(Box::new(Guard::Port(9)))));
    assert!(ir.check());
    let mut translator = TranslationMap::new();
    let g = translator.get_group(&ir, 0);
    let h = translator.get_group(&ir, 1);
    let graph = &translator.graph;
    assert!(graph.check());
    assert_ne!(g, h);
    assert_eq!(graph.groups.len(), 2);
    let to_h = &graph.groups[g].assignments[2];
    assert_eq!(graph.ports[to_h.dst].parent, PortParent::Group(h));
    let to_g = &graph.groups[h].assignments[0];
    assert_eq!(graph.ports[to_g.dst].parent, PortParent::Group(g));
    assert_eq!(to_g.dst, get_go_port(&graph.groups[g], graph));
    match &*to_g.guard {
        Guard::Port(p) => assert_eq!(*p, get_done_port(&graph.groups[g], graph)),
        _ => panic!("the guard reads one port"),
    }
}

#[test]
fn guards_keep_their_shape() {
    let ir = netlist();
    let mut translator = TranslationMap::new();
    let original: Guard<u8> = Guard::Or(
        Box::new(Guard::And(
            Box::new(Guard::CompOp(PortComp::Geq, 1, 4)),
            Box::new(Guard::Info(7)),
        )),
        Box::new(Guard::Not(Box::new(Guard::Port(3)))),
    );
    let translated = Guard::from_ir(&original, &ir, &mut translator);
    let reg_out = translator.get_port(&ir, 1);
    let const_out = translator.get_port(&ir, 4);
    let reg_done = translator.get_port(&ir, 3);
    match translated {
        Guard::Or(left, right) => {
            match *left {
                Guard::And(cmp, info) => {
                    assert!(matches!(*cmp, Guard::CompOp(PortComp::Geq, l, r)
                        if l == reg_out && r == const_out));
                    assert!(matches!(*info, Guard::Info(7)));
                }
                _ => panic!("the left side is a conjunction"),
            }
            match *right {
                Guard::Not(inner) => assert!(matches!(*inner, Guard::Port(p) if p == reg_done)),
                _ => panic!("the right side is a negation"),
            }
        }
        _ => panic!("the guard is a disjunction"),
    }
}

#[test]
fn get_assignment_translates_ports_and_guard() {
    let ir = netlist();
    let mut translator = TranslationMap::new();
    let mut original = assign(2, 3, Guard::True);
    original.attributes = attrs(&[(Attribute::Num(NumAttr::Bound), 3)]);
    let translated = translator.get_assignment(&ir, &original);
    assert_eq!(translated.dst, translator.get_port(&ir, 2));
    assert_eq!(translated.src, translator.get_port(&ir, 3));
    assert!(matches!(*translated.guard, Guard::True));
    assert_eq!(translated.attributes.get(Attribute::Num(NumAttr::Bound)), Some(3));
}

#[test]
fn comb_groups_and_conditionals() {
    let mut ir = netlist();
    ir.comb_groups.push(CombGroup {
        name: "cond".to_string(),
        assignments: vec![assign(2, 4, Guard::True)],
        attributes: Attributes::default(),
    });
    let program = SourceControl::While {
        port: 1,
        cond: Some(0),
        body: Box::new(SourceControl::If {
            port: 3,
            cond: None,
            tbranch: Box::new(SourceControl::Sequence {
                stmts: vec![
                    SourceControl::Enable { group: 0, attributes: Attributes::default() },
                    SourceControl::Empty { attributes: Attributes::default() },
                ],
                attributes: Attributes::default(),
            }),
            fbranch: Box::new(SourceControl::Par {
                stmts: vec![],
                attributes: attrs(&[(Attribute::Num(NumAttr::Bound), 9)]),
            }),
            attributes: Attributes::default(),
        }),
        attributes: Attributes::default(),
    };
    assert!(program.check_in_range(&ir));
    assert!(program.is_supported());
    let mut translator = TranslationMap::new();
    let control = Control::from_ir(&program, &ir, &mut translator);
    let cond = translator.get_comb_group(&ir, 0);
    assert_eq!(translator.graph.comb_groups.len(), 1);
    assert_eq!(translator.graph.comb_groups[cond].name(), "cond");
    assert_eq!(translator.graph.comb_groups[cond].assignments.len(), 1);
    let g = translator.get_group(&ir, 0);
    let reg_out = translator.get_port(&ir, 1);
    let reg_done = translator.get_port(&ir, 3);
    match control {
        Control::While(node) => {
            assert_eq!(node.port, reg_out);
            assert_eq!(node.cond, Some(cond));
            match &node.body {
                Control::If(branch) => {
                    assert_eq!(branch.port, reg_done);
                    assert_eq!(branch.cond, None);
                    match &branch.tbranch {
                        Control::Sequence(s) => {
                            assert_eq!(s.stmts.len(), 2);
                            assert!(matches!(&s.stmts[0], Control::Enable(e) if e.group == g));
                            assert!(matches!(&s.stmts[1], Control::Empty(_)));
                        }
                        _ => panic!("the true branch is a sequence"),
                    }
                    match &branch.fbranch {
                        Control::Par(p) => {
                            assert!(p.stmts.is_empty());
                            assert_eq!(p.attributes.get(Attribute::Num(NumAttr::Bound)), Some(9));
                        }
                        _ => panic!("the false branch is a parallel block"),
                    }
                    assert!(control_is_empty(&branch.fbranch));
                    assert!(!control_is_empty(&branch.tbranch));
                }
                _ => panic!("the body is a conditional"),
            }
        }
        _ => panic!("the program is a loop"),
    }
}

#[test]
fn invoke_keeps_duplicate_names() {
    let ir = netlist();
    let program = SourceControl::Invoke {
        comp: 0,
        inputs: vec![("in".to_string(), 4), ("in".to_string(), 1)],
        outputs: vec![("out".to_string(), 2)],
        attributes: Attributes::default(),
        comb_group: None,
        ref_cells: vec![("mem".to_string(), 1), ("mem".to_string(), 1)],
    };
    let mut translator = TranslationMap::new();
    let control = Control::from_ir(&program, &ir, &mut translator);
    let reg = translator.get_cell(&ir, 0);
    let const5 = translator.get_cell(&ir, 1);
    let const_out = translator.get_port(&ir, 4);
    let reg_out = translator.get_port(&ir, 1);
    let write_en = translator.get_port(&ir, 2);
    match control {
        Control::Invoke(node) => {
            assert_eq!(node.comp, reg);
            assert_eq!(
                node.inputs,
                vec![("in".to_string(), const_out), ("in".to_string(), reg_out)]
            );
            assert_eq!(node.outputs, vec![("out".to_string(), write_en)]);
            assert_eq!(node.comb_group, None);
            assert_eq!(
                node.ref_cells,
                vec![("mem".to_string(), const5), ("mem".to_string(), const5)]
            );
        }
        _ => panic!("the program is an invocation"),
    }
}

#[test]
fn unsupported_shapes_are_recognised() {
    let mut ir = netlist();
    ir.ports.push(port("go", 1, Direction::Inout, SourceParent::StaticGroup(0)));
    assert!(ir.check());
    assert!(!ir.is_supported());
    let nested = SourceControl::Sequence {
        stmts: vec![
            SourceControl::Empty { attributes: Attributes::default() },
            SourceControl::Par {
                stmts: vec![SourceControl::Repeat],
                attributes: Attributes::default(),
            },
        ],
        attributes: Attributes::default(),
    };
    assert!(!nested.is_supported());
    assert!(!SourceControl::Static.is_supported());
    assert!(!SourceControl::If {
        port: 0,
        cond: None,
        tbranch: Box::new(SourceControl::Empty { attributes: Attributes::default() }),
        fbranch: Box::new(SourceControl::Static),
        attributes: Attributes::default(),
    }
    .is_supported());
}

#[test]
fn malformed_netlists_are_recognised() {
    let mut dangling = netlist();
    dangling.groups[0].assignments.push(assign(0, 99, Guard::True));
    assert!(!dangling.check());
    let mut stolen = netlist();
    stolen.cells[1].ports = PortList::from_vec(vec![4, 0]);
    assert!(!stolen.check());
    let mut orphan = netlist();
    orphan.ports.push(port("x", 1, Direction::Input, SourceParent::Cell(17)));
    assert!(!orphan.check());
    let ir = netlist();
    let mut bad = component();
    bad.cells.push(3);
    assert!(!bad.check_in_range(&ir));
    let far = SourceControl::Enable { group: 1, attributes: Attributes::default() };
    assert!(!far.check_in_range(&ir));
}

#[test]
fn a_port_that_its_parent_does_not_list_is_still_translated() {
    let mut ir = netlist();
    ir.ports.push(port("extra", 1, Direction::Input, SourceParent::Cell(1)));
    assert!(ir.check());
    let mut translator = TranslationMap::new();
    let extra = translator.get_port(&ir, 8);
    let const5 = translator.get_cell(&ir, 1);
    let graph = &translator.graph;
    assert_eq!(graph.ports[extra].parent, PortParent::Cell(const5));
    assert_eq!(graph.ports[extra].name, "extra");
    assert!(!graph.cells[const5].ports().as_slice().contains(&extra));
    assert!(graph.check());
}
