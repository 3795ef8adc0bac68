use calyx_frontend::{Attribute, Attributes, BoolAttr, NumAttr};
use interp::graph::Graph;
use interp::id_list::IdListArcTex;
use interp::port_assignment::PortAssignment;
use interp::port_list::PortList;
use interp::reference_holder::ReferenceHolder;
use interp::structure::{
    Assignment, Cell, CellType, Direction, Error, Group, Guard, Port, PortParent,
};
use interp::utils::construct_bindings;
use std::cell::RefCell;
use std::collections::HashSet;

fn attrs(entries: &[(Attribute, u64)]) -> Attributes {
    let mut attributes = Attributes::default();
    for (key, value) in entries {
        attributes.insert(*key, *value);
    }
    attributes
}

fn port(name: &str, parent: PortParent, attributes: Attributes) -> Port {
    Port { name: name.to_string(), width: 32, direction: Direction::Input, parent, attributes }
}

fn cell(name: &str, ports: Vec<usize>, prototype: CellType) -> Cell {
    Cell {
        name: name.to_string(),
        ports: PortList::from_vec(ports),
        prototype,
        attributes: Attributes::default(),
        reference: false,
    }
}

/// A cell `adder` with ports `left`, `right`, `out`, of which the ports named
/// in `marked` carry `@go`.
fn graph_with_marks(marked: &[&str]) -> Graph {
    let mut graph = Graph::new();
    for name in ["left", "right", "out"] {
        let attributes = if marked.contains(&name) {
            attrs(&[(Attribute::Num(NumAttr::Go), 1)])
        } else {
            Attributes::default()
        };
        graph.ports.push(port(name, PortParent::Cell(0), attributes));
    }
    graph.cells.push(cell("adder", vec![0, 1, 2], CellType::Component { name: "add".to_string() }));
    graph
}

#[test]
fn port_list_keeps_order() {
    let list = PortList::from_vec(vec![7, 3, 9]);
    assert_eq!(list.len(), 3);
    assert_eq!(list.get(0), 7);
    assert_eq!(list.get(2), 9);
    assert_eq!(list.as_slice(), &[7, 3, 9]);
    assert_eq!(list.to_vec(), vec![7, 3, 9]);
    assert_eq!(PortList::new().len(), 0);
}

#[test]
fn find_returns_first_port_of_that_name() {
    let graph = graph_with_marks(&[]);
    assert!(graph.check());
    assert_eq!(graph.cells[0].find(&graph, "right"), Some(1));
    assert_eq!(graph.cells[0].find(&graph, "missing"), None);
    assert_eq!(graph.cells[0].get(&graph, "out"), 2);
    assert_eq!(graph.cells[0].name(), "adder");
    assert_eq!(graph.cells[0].ports().len(), 3);
}

#[test]
fn find_prefers_the_earlier_of_two_equal_names() {
    let mut graph = Graph::new();
    graph.ports.push(port("x", PortParent::Cell(0), Attributes::default()));
    graph.ports.push(port("x", PortParent::Cell(0), Attributes::default()));
    graph.cells.push(cell("c", vec![1, 0], CellType::ThisComponent));
    assert_eq!(graph.cells[0].find(&graph, "x"), Some(1));
}

#[test]
fn group_find_and_get_look_among_holes() {
    let mut graph = Graph::new();
    graph.ports.push(port("go", PortParent::Group(0), Attributes::default()));
    graph.ports.push(port("done", PortParent::Group(0), Attributes::default()));
    graph.groups.push(Group {
        name: "g".to_string(),
        assignments: vec![],
        holes: PortList::from_vec(vec![0, 1]),
        attributes: Attributes::default(),
    });
    assert!(graph.check());
    assert_eq!(graph.groups[0].find(&graph, "done"), Some(1));
    assert_eq!(graph.groups[0].find(&graph, "in"), None);
    assert_eq!(graph.groups[0].get(&graph, "go"), 0);
    assert_eq!(graph.groups[0].name(), "g");
}

#[test]
fn attribute_uniqueness_no_port() {
    let graph = graph_with_marks(&[]);
    let found = graph.cells[0].find_unique_with_attr(&graph, Attribute::Num(NumAttr::Go));
    assert!(matches!(found, Ok(None)));
    assert_eq!(
        graph.cells[0].find_all_with_attr(&graph, Attribute::Num(NumAttr::Go)),
        Vec::<usize>::new()
    );
}

#[test]
fn attribute_uniqueness_one_port() {
    let graph = graph_with_marks(&["right"]);
    let found = graph.cells[0].find_unique_with_attr(&graph, Attribute::Num(NumAttr::Go));
    assert!(matches!(found, Ok(Some(1))));
    let got = graph.cells[0].get_unique_with_attr(&graph, Attribute::Num(NumAttr::Go));
    assert!(matches!(got, Ok(1)));
}

#[test]
fn attribute_uniqueness_two_ports_names_the_cell() {
    let graph = graph_with_marks(&["left", "out"]);
    assert_eq!(
        graph.cells[0].find_all_with_attr(&graph, Attribute::Num(NumAttr::Go)),
        vec![0, 2]
    );
    let found = graph.cells[0].find_unique_with_attr(&graph, Attribute::Num(NumAttr::Go));
    match found {
        Err(Error::MultiplePortsWithAttribute { attribute, cell }) => {
            assert_eq!(cell, "adder");
            assert_eq!(attribute, Attribute::Num(NumAttr::Go));
        }
        _ => panic!("two ports carry the attribute"),
    }
    let got = graph.cells[0].get_unique_with_attr(&graph, Attribute::Num(NumAttr::Go));
    assert!(matches!(got, Err(Error::MultiplePortsWithAttribute { .. })));
}

#[test]
fn attribute_lookup_tells_attributes_apart() {
    let graph = graph_with_marks(&["left"]);
    let done = graph.cells[0].find_unique_with_attr(&graph, Attribute::Num(NumAttr::Done));
    assert!(matches!(done, Ok(None)));
}

#[test]
fn get_attribute_reads_the_cell() {
    let mut c = cell("c", vec![], CellType::ThisComponent);
    c.attributes =
        attrs(&[(Attribute::Num(NumAttr::Bound), 12), (Attribute::Bool(BoolAttr::External), 1)]);
    assert_eq!(c.get_attribute(Attribute::Num(NumAttr::Bound)), Some(12));
    assert_eq!(c.get_attribute(Attribute::Bool(BoolAttr::External)), Some(1));
    assert_eq!(c.get_attribute(Attribute::Num(NumAttr::Go)), None);
}

#[test]
fn get_parameter_reads_primitive_bindings_only() {
    let primitive = cell(
        "r",
        vec![],
        CellType::Primitive {
            name: "std_reg".to_string(),
            param_binding: construct_bindings([("WIDTH", 32), ("DEPTH", 4), ("WIDTH", 8)]),
            is_comb: false,
            latency: Some(1),
        },
    );
    assert_eq!(primitive.get_parameter("WIDTH"), Some(32));
    assert_eq!(primitive.get_parameter("DEPTH"), Some(4));
    assert_eq!(primitive.get_parameter("SIZE"), None);
    let component = cell("c", vec![], CellType::Component { name: "WIDTH".to_string() });
    assert_eq!(component.get_parameter("WIDTH"), None);
    assert_eq!(cell("t", vec![], CellType::ThisComponent).get_parameter("WIDTH"), None);
    let constant = cell("k", vec![], CellType::Constant { val: 5, width: 32 });
    assert_eq!(constant.get_parameter("WIDTH"), None);
}

#[test]
fn construct_bindings_keeps_names_and_values() {
    let bindings = construct_bindings([("a", 1), ("b", 2)]);
    assert_eq!(bindings, vec![("a".to_string(), 1), ("b".to_string(), 2)]);
    let none: [(&str, u64); 0] = [];
    assert!(construct_bindings(none).is_empty());
}

#[test]
fn cell_type_clone_is_the_same_prototype() {
    let original = CellType::Primitive {
        name: "std_add".to_string(),
        param_binding: construct_bindings([("WIDTH", 16)]),
        is_comb: true,
        latency: None,
    };
    match original.clone() {
        CellType::Primitive { name, param_binding, is_comb, latency } => {
            assert_eq!(name, "std_add");
            assert_eq!(param_binding, vec![("WIDTH".to_string(), 16)]);
            assert!(is_comb);
            assert_eq!(latency, None);
        }
        _ => panic!("a primitive stays a primitive"),
    }
}

#[test]
fn parent_name_and_canonical_name() {
    let graph = graph_with_marks(&[]);
    assert_eq!(graph.ports[2].get_parent_name(&graph), "adder");
    let canonical = graph.ports[2].canonical(&graph);
    assert_eq!(canonical.cell, "adder");
    assert_eq!(canonical.port, "out");
}

#[test]
fn graph_check_rejects_a_port_without_parent() {
    let mut graph = Graph::new();
    graph.ports.push(port("p", PortParent::Cell(0), Attributes::default()));
    assert!(!graph.check());
}

#[test]
fn graph_check_rejects_a_port_listed_by_a_stranger() {
    let mut graph = graph_with_marks(&[]);
    graph.cells.push(cell("other", vec![0], CellType::ThisComponent));
    assert!(!graph.check());
}

#[test]
fn graph_check_rejects_an_assignment_to_nowhere() {
    let mut graph = graph_with_marks(&[]);
    graph.groups.push(Group {
        name: "g".to_string(),
        assignments: vec![Assignment {
            dst: 0,
            src: 1,
            guard: Box::new(Guard::Not(Box::new(Guard::Port(17)))),
            attributes: Attributes::default(),
        }],
        holes: PortList::new(),
        attributes: Attributes::default(),
    });
    assert!(!graph.check());
}

#[test]
fn id_list_finds_by_name_and_keeps_order() {
    let list = IdListArcTex::from_items(vec![
        ("b".to_string(), 20),
        ("a".to_string(), 10),
        ("c".to_string(), 30),
    ]);
    assert_eq!(list.find("a"), Some(10));
    assert_eq!(list.find("c"), Some(30));
    assert_eq!(list.find("d"), None);
    assert_eq!(list.iter(), vec![20, 10, 30]);
}

#[test]
fn id_list_later_item_replaces_and_moves_to_the_end() {
    let list = IdListArcTex::from_items(vec![
        ("a".to_string(), 1),
        ("b".to_string(), 2),
        ("a".to_string(), 3),
    ]);
    assert_eq!(list.find("a"), Some(3));
    assert_eq!(list.iter(), vec![2, 3]);
}

#[test]
fn reference_holder_derefs_both_kinds() {
    let plain = 7u32;
    let holder = ReferenceHolder::from(&plain);
    assert_eq!(*holder, 7);
    let shared = RefCell::new(9u32);
    let holder = ReferenceHolder::from(shared.borrow());
    assert_eq!(*holder, 9);
}

#[test]
fn port_assignment_goes_by_destination() {
    let make = |dst: usize, src: usize| Assignment::<()> {
        dst,
        src,
        guard: Box::new(Guard::True),
        attributes: Attributes::default(),
    };
    let first = make(4, 1);
    let second = make(4, 2);
    let third = make(5, 1);
    assert_eq!(PortAssignment::new(&first).get_port(), 4);
    assert_eq!(PortAssignment::new(&second).get_assignment().src, 2);
    assert!(PortAssignment::new(&first) == PortAssignment::new(&second));
    assert!(PortAssignment::new(&first) != PortAssignment::new(&third));
}

#[test]
fn port_assignment_hashes_by_destination() {
    let make = |dst: usize, src: usize| Assignment::<()> {
        dst,
        src,
        guard: Box::new(Guard::True),
        attributes: Attributes::default(),
    };
    let assignments = vec![make(4, 1), make(4, 2), make(5, 1), make(6, 1), make(5, 9)];
    let mut by_port = HashSet::new();
    for assignment in &assignments {
        by_port.insert(PortAssignment::new(assignment));
    }
    assert_eq!(by_port.len(), 3);
    assert!(by_port.contains(&PortAssignment::new(&make(6, 0))));
    assert!(!by_port.contains(&PortAssignment::new(&make(7, 1))));
}
