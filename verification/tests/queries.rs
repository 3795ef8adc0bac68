use calyx_frontend::Attributes;
use interp::control::{Control, Empty, Enable, If, Invoke, Par, Sequence, While};
use interp::graph::Graph;
use interp::port_list::PortList;
use interp::structure::{Assignment, Cell, CellType, Direction, Group, Guard, Port, PortParent};
use interp::utils::{
    control_is_empty, get_dest_cells, get_done_port, get_go_port, is_signal_high,
};
use interp::values::Value;
use std::sync::Arc;

fn port(name: &str, parent: PortParent) -> Port {
    Port {
        name: name.to_string(),
        width: 1,
        direction: Direction::Inout,
        parent,
        attributes: Attributes::default(),
    }
}

fn cell(name: &str, ports: Vec<usize>, prototype: CellType) -> Cell {
    Cell {
        name: name.to_string(),
        ports: PortList::from_vec(ports),
        prototype,
        attributes: Attributes::default(),
        reference: false,
    }
}

fn assign(dst: usize, src: usize) -> Assignment<()> {
    Assignment { dst, src, guard: Box::new(Guard::True), attributes: Attributes::default() }
}

fn empty() -> Control {
    Control::Empty(Arc::new(Empty { attributes: Attributes::default() }))
}

fn seq(stmts: Vec<Control>) -> Control {
    Control::Sequence(Arc::new(Sequence { stmts, attributes: Attributes::default() }))
}

fn par(stmts: Vec<Control>) -> Control {
    Control::Par(Arc::new(Par { stmts, attributes: Attributes::default() }))
}

fn enable(group: usize) -> Control {
    Control::Enable(Arc::new(Enable { group, attributes: Attributes::default() }))
}

/// Cells: 0 `a` (ports 0 `in`, 1 `done`), 1 `b` (port 2 `in`), 2 the
/// component itself (port 3 `out`). Group 0 `g` with holes 4 `go`, 5 `done`.
fn wired_graph() -> Graph {
    let mut graph = Graph::new();
    graph.ports.push(port("in", PortParent::Cell(0)));
    graph.ports.push(port("done", PortParent::Cell(0)));
    graph.ports.push(port("in", PortParent::Cell(1)));
    graph.ports.push(port("out", PortParent::Cell(2)));
    graph.ports.push(port("go", PortParent::Group(0)));
    graph.ports.push(port("done", PortParent::Group(0)));
    graph.cells.push(cell("a", vec![0, 1], CellType::Component { name: "comp".to_string() }));
    graph.cells.push(cell("b", vec![2], CellType::Constant { val: 1, width: 1 }));
    graph.cells.push(cell("main", vec![3], CellType::ThisComponent));
    graph.groups.push(Group {
        name: "g".to_string(),
        assignments: vec![],
        holes: PortList::from_vec(vec![4, 5]),
        attributes: Attributes::default(),
    });
    graph
}

#[test]
fn empty_control_is_empty() {
    assert!(control_is_empty(&empty()));
}

#[test]
fn seq_without_children_is_empty() {
    assert!(control_is_empty(&seq(vec![])));
}

#[test]
fn nested_seq_of_empty_is_empty() {
    assert!(control_is_empty(&seq(vec![empty(), seq(vec![empty()])])));
}

#[test]
fn par_of_empty_is_empty() {
    assert!(control_is_empty(&par(vec![empty(), empty()])));
    assert!(control_is_empty(&par(vec![])));
}

#[test]
fn seq_with_enable_is_not_empty() {
    assert!(!control_is_empty(&seq(vec![empty(), enable(0)])));
    assert!(!control_is_empty(&par(vec![seq(vec![empty(), seq(vec![enable(3)])])])));
    assert!(!control_is_empty(&enable(0)));
}

#[test]
fn if_is_never_empty() {
    let node = Control::If(Arc::new(If {
        port: 0,
        cond: None,
        tbranch: empty(),
        fbranch: empty(),
        attributes: Attributes::default(),
    }));
    assert!(!control_is_empty(&node));
    assert!(!control_is_empty(&seq(vec![node])));
}

#[test]
fn while_is_never_empty() {
    let node = Control::While(Arc::new(While {
        port: 0,
        cond: Some(0),
        body: empty(),
        attributes: Attributes::default(),
    }));
    assert!(!control_is_empty(&node));
}

#[test]
fn invoke_is_never_empty() {
    let node = Control::Invoke(Arc::new(Invoke {
        comp: 0,
        inputs: vec![],
        outputs: vec![],
        attributes: Attributes::default(),
        comb_group: None,
        ref_cells: vec![],
    }));
    assert!(!control_is_empty(&node));
}

#[test]
fn dest_cells_seeded_by_done_port() {
    let graph = wired_graph();
    assert!(graph.check());
    let assignments = vec![assign(0, 2), assign(2, 0), assign(3, 0), assign(5, 1)];
    assert_eq!(get_dest_cells(&graph, &assignments, Some(1)), vec![0, 1]);
}

#[test]
fn dest_cells_without_seed_in_first_seen_order() {
    let graph = wired_graph();
    let assignments = vec![assign(2, 0), assign(0, 2), assign(2, 0), assign(1, 2)];
    assert_eq!(get_dest_cells(&graph, &assignments, None), vec![1, 0]);
}

#[test]
fn dest_cells_skip_holes_and_the_component_itself() {
    let graph = wired_graph();
    let assignments = vec![assign(3, 0), assign(4, 0), assign(5, 0)];
    assert_eq!(get_dest_cells(&graph, &assignments, None), Vec::<usize>::new());
}

#[test]
fn dest_cells_of_nothing() {
    let graph = wired_graph();
    assert_eq!(get_dest_cells(&graph, &[], None), Vec::<usize>::new());
    assert_eq!(get_dest_cells(&graph, &[], Some(2)), vec![1]);
}

#[test]
fn dest_cells_seed_of_the_component_itself_brings_in_nothing() {
    let graph = wired_graph();
    assert_eq!(get_dest_cells(&graph, &[], Some(3)), Vec::<usize>::new());
    assert_eq!(get_dest_cells(&graph, &[assign(2, 0)], Some(3)), vec![1]);
}

#[test]
fn dest_cells_seed_of_a_hole_brings_in_nothing() {
    let graph = wired_graph();
    assert_eq!(get_dest_cells(&graph, &[assign(0, 2)], Some(5)), vec![0]);
}

#[test]
fn go_and_done_ports_of_a_group() {
    let graph = wired_graph();
    assert_eq!(get_go_port(&graph.groups[0], &graph), 4);
    assert_eq!(get_done_port(&graph.groups[0], &graph), 5);
}

#[test]
fn signal_level_of_one_bit() {
    assert!(is_signal_high(&Value::from_bits(vec![true])));
    assert!(!is_signal_high(&Value::from_bits(vec![false])));
    assert_eq!(Value::from_bits(vec![true, false, true]).width(), 3);
    assert!(Value::from_bits(vec![true]).as_bool());
}
