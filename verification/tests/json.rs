use yosys_isim::common::ArgumentFault;
use yosys_isim::common::ConstructionFault;
use yosys_isim::common::FormatFault;
use yosys_isim::common::SimError;
use yosys_isim::json::find_connection;
use yosys_isim::json::parse_add;
use yosys_isim::json::parse_binary;
use yosys_isim::json::parse_cell;
use yosys_isim::json::parse_connections;
use yosys_isim::json::parse_flipflop;
use yosys_isim::json::parse_module;
use yosys_isim::json::parse_netlist;
use yosys_isim::json::parse_ternary;
use yosys_isim::json::parse_unary;
use yosys_isim::json::parse_wires;
use yosys_isim::json::Cell;
use yosys_isim::json::CellType;
use yosys_isim::json::Module;
use yosys_isim::json::Net;
use yosys_isim::json::Netlist;
use yosys_isim::json::Port;
use yosys_isim::json::PortDirection;
use yosys_isim::json::Value;
use yosys_isim::model;
use yosys_isim::model::Edge;
use yosys_isim::model::HWireOrLogic;
use yosys_isim::model::Logic;
use yosys_isim::ops::BinaryMapOp;
use yosys_isim::ops::TernaryMapOp;
use yosys_isim::ops::UnaryMapOp;
use yosys_isim::sim::Sim;

fn numbers(h_wires: &[u64]) -> Vec<Value> {
    h_wires.iter().map(|h_wire| Value::Number(*h_wire)).collect()
}

fn cell(
    cell_type: CellType,
    connections: &[(&str, Vec<Value>)],
    directions: &[(&str, PortDirection)],
    parameters: &[(&str, Value)],
) -> Cell {
    Cell {
        cell_type,
        port_directions: directions
            .iter()
            .map(|(name, direction)| (name.to_string(), *direction))
            .collect(),
        connections: connections
            .iter()
            .map(|(name, wires)| (name.to_string(), wires.clone()))
            .collect(),
        parameters: parameters
            .iter()
            .map(|(name, value)| (name.to_string(), value.clone()))
            .collect(),
    }
}

fn and_cell() -> Cell {
    cell(
        CellType::SyntAND,
        &[("A", numbers(&[2])), ("B", numbers(&[3])), ("Y", numbers(&[4]))],
        &[
            ("A", PortDirection::Input),
            ("B", PortDirection::Input),
            ("Y", PortDirection::Output),
        ],
        &[],
    )
}

fn format(fault: FormatFault) -> SimError {
    SimError::FormatError(fault)
}

#[test]
fn wires_are_handles_and_tied_values() {
    let wires = parse_wires(&vec![
        Value::Number(7),
        Value::String("0".to_string()),
        Value::String("1".to_string()),
        Value::String("X".to_string()),
        Value::Number(0),
    ])
    .ok()
    .unwrap();
    let port = model::CellInPort {
        name: "p".to_string(),
        wires,
        dir: std::marker::PhantomData,
    };
    assert_eq!(
        port.items(),
        &[
            HWireOrLogic::HWire(7),
            HWireOrLogic::Logic(Logic::_0),
            HWireOrLogic::Logic(Logic::_1),
            HWireOrLogic::Logic(Logic::X),
            HWireOrLogic::HWire(0)
        ]
    );
    assert!(parse_wires(&vec![]).is_ok());
}

#[test]
fn the_first_illegal_wire_is_reported() {
    assert_eq!(
        parse_wires(&vec![Value::Number(1), Value::String("z".to_string()), Value::Other]).err(),
        Some(format(FormatFault::IllegalWireConstant { position: 1 }))
    );
    assert_eq!(
        parse_wires(&vec![Value::Number(1), Value::Other, Value::String("z".to_string())]).err(),
        Some(format(FormatFault::IllegalWire { position: 1 }))
    );
    assert_eq!(
        parse_wires(&vec![Value::String("".to_string())]).err(),
        Some(format(FormatFault::IllegalWireConstant { position: 0 }))
    );
}

#[test]
fn connections_start_as_unsigned_inputs_of_width_one() {
    let json_cell = cell(CellType::SyntAND, &[("A", numbers(&[2, 3])), ("Y", numbers(&[4]))], &[], &[]);
    let connections = parse_connections(&json_cell).ok().unwrap();
    assert_eq!(connections.len(), 2);
    assert_eq!(connections[0].name, "A");
    assert_eq!(connections[0].direction, PortDirection::Input);
    assert!(!connections[0].signed);
    assert_eq!(connections[0].polarity, 1);
    assert_eq!(connections[0].width, 1);
    assert_eq!(connections[1].name, "Y");
    let port = connections[0].to_in_port::<2>().ok().unwrap();
    assert_eq!(port.items(), &[HWireOrLogic::HWire(2), HWireOrLogic::HWire(3)]);
    assert_eq!(port.name, "A");
}

#[test]
fn directions_and_parameters_are_entered_at_their_connections() {
    let json_cell = cell(
        CellType::DFF,
        &[("CLK", numbers(&[2])), ("D", numbers(&[3, 4])), ("Q", numbers(&[5, 6]))],
        &[("Q", PortDirection::Output), ("CLK", PortDirection::Input)],
        &[
            ("WIDTH", Value::Number(2)),
            ("CLK_POLARITY", Value::Number(0)),
            ("D_WIDTH", Value::Number(2)),
            ("Q_WIDTH", Value::Number(0x1_0000_0002)),
            ("D_SIGNED", Value::Number(1)),
            ("Q_SIGNED", Value::Number(0)),
        ],
    );
    let connections = parse_connections(&json_cell).ok().unwrap();
    let clk = find_connection(&connections, "CLK").ok().unwrap();
    assert_eq!(clk.polarity, 0);
    assert_eq!(clk.direction, PortDirection::Input);
    let d = find_connection(&connections, "D").ok().unwrap();
    assert_eq!(d.width, 2);
    assert!(d.signed);
    let q = find_connection(&connections, "Q").ok().unwrap();
    assert_eq!(q.width, 2);
    assert!(!q.signed);
    assert_eq!(q.direction, PortDirection::Output);
    assert_eq!(
        find_connection(&connections, "X").err(),
        Some(SimError::NotFound { name: "X".to_string() })
    );
}

#[test]
fn every_fault_of_the_connections_is_reported() {
    let connections = [("A", numbers(&[2])), ("Y", numbers(&[4]))];
    let cases: Vec<(Cell, FormatFault)> = vec![
        (
            cell(CellType::SyntNOT, &[("A", vec![Value::Other])], &[], &[]),
            FormatFault::IllegalWire { position: 0 },
        ),
        (
            cell(
                CellType::SyntNOT,
                &connections,
                &[("A", PortDirection::Input), ("B", PortDirection::Input)],
                &[],
            ),
            FormatFault::DirectionWithoutConnection { position: 1 },
        ),
        (
            cell(CellType::SyntNOT, &connections, &[], &[("SIGNED", Value::Number(1))]),
            FormatFault::UnrecognizedProperty { position: 0 },
        ),
        (
            cell(
                CellType::SyntNOT,
                &connections,
                &[],
                &[("A_WIDTH", Value::Number(1)), ("B_WIDTH", Value::Number(1))],
            ),
            FormatFault::PropertyWithoutConnection { position: 1 },
        ),
        (
            cell(CellType::SyntNOT, &connections, &[], &[("A_SIGNED", Value::Number(2))]),
            FormatFault::IllegalSigned { position: 0 },
        ),
        (
            cell(CellType::SyntNOT, &connections, &[], &[("A_SIGNED", Value::Other)]),
            FormatFault::IllegalSigned { position: 0 },
        ),
        (
            cell(
                CellType::SyntNOT,
                &connections,
                &[],
                &[("A_WIDTH", Value::String("1".to_string()))],
            ),
            FormatFault::IllegalWidth { position: 0 },
        ),
        (
            cell(CellType::SyntNOT, &connections, &[], &[("Y_POLARITY", Value::Other)]),
            FormatFault::IllegalPolarity { position: 0 },
        ),
        (
            cell(CellType::SyntNOT, &connections, &[], &[("A_DEPTH", Value::Number(1))]),
            FormatFault::UnknownProperty { position: 0 },
        ),
        (
            cell(CellType::SyntNOT, &connections, &[], &[("A_WIDTH_MAX", Value::Number(1))]),
            FormatFault::UnknownProperty { position: 0 },
        ),
    ];
    for (json_cell, fault) in cases {
        assert_eq!(parse_connections(&json_cell).err(), Some(format(fault)));
        assert_eq!(parse_cell("n", &json_cell).err(), Some(format(fault)));
    }
}

#[test]
fn a_binary_cell_is_mapped_with_its_operator() {
    let mapped = parse_binary("g", &and_cell(), ("A", "B", "Y"), BinaryMapOp::XOR)
        .ok()
        .unwrap();
    match mapped {
        model::Cell::BinaryMapOpCell(gate) => {
            assert_eq!(gate.name, "g");
            assert_eq!(gate.op, BinaryMapOp::XOR);
            assert_eq!(gate.port_a.name, "A");
            assert_eq!(gate.port_a.items(), &[HWireOrLogic::HWire(2)]);
            assert_eq!(gate.port_b.items(), &[HWireOrLogic::HWire(3)]);
            assert_eq!(gate.port_y.name, "Y");
            assert_eq!(gate.port_y.items(), &[4]);
        }
        other => panic!("expected a binary cell, got {:?}", other),
    }
}

#[test]
fn a_missing_connection_is_not_found() {
    let json_cell = cell(CellType::SyntAND, &[("A", numbers(&[2])), ("Y", numbers(&[4]))], &[], &[]);
    assert_eq!(
        parse_binary("g", &json_cell, ("A", "B", "Y"), BinaryMapOp::AND).err(),
        Some(SimError::NotFound { name: "B".to_string() })
    );
    assert_eq!(
        parse_add("g", &json_cell, ("A", "B", "Y")).err(),
        Some(SimError::NotFound { name: "B".to_string() })
    );
    assert_eq!(
        parse_unary("g", &json_cell, ("B", "Y"), UnaryMapOp::NOT).err(),
        Some(SimError::NotFound { name: "B".to_string() })
    );
    assert_eq!(
        parse_flipflop("g", &json_cell, ("C", "A", "Y"), None).err(),
        Some(SimError::NotFound { name: "C".to_string() })
    );
    assert_eq!(
        parse_ternary("g", &json_cell, ("A", "Y", "C", "Y"), TernaryMapOp::AND_OR_INV).err(),
        Some(SimError::NotFound { name: "C".to_string() })
    );
}

#[test]
fn declared_widths_have_to_agree() {
    let json_cell = cell(
        CellType::Add,
        &[("A", numbers(&[2])), ("B", numbers(&[3])), ("Y", numbers(&[4]))],
        &[],
        &[("B_WIDTH", Value::Number(2))],
    );
    assert_eq!(
        parse_add("a", &json_cell, ("A", "B", "Y")).err(),
        Some(format(FormatFault::WidthsNotMatching))
    );
    assert_eq!(
        parse_binary("a", &json_cell, ("A", "B", "Y"), BinaryMapOp::OR).err(),
        Some(format(FormatFault::WidthsNotMatching))
    );
    // a flip-flop does not compare the width of its clock
    assert!(parse_flipflop("a", &json_cell, ("B", "A", "Y"), None).is_ok());
    assert_eq!(
        parse_flipflop("a", &json_cell, ("A", "B", "Y"), None).err(),
        Some(format(FormatFault::WidthsNotMatching))
    );
    // a cell of one operand compares no widths
    assert!(parse_unary("a", &json_cell, ("B", "Y"), UnaryMapOp::NOT).is_ok());
}

#[test]
fn a_tied_output_is_turned_down() {
    let json_cell = cell(
        CellType::SyntNOT,
        &[("A", numbers(&[2])), ("Y", vec![Value::Number(3), Value::String("1".to_string())])],
        &[],
        &[],
    );
    assert_eq!(
        parse_cell("n", &json_cell).err(),
        Some(SimError::ConstructionError(ConstructionFault::ConstantOutput { position: 1 }))
    );
    let connections = parse_connections(&json_cell).ok().unwrap();
    assert_eq!(
        connections[1].to_out_port().err(),
        Some(SimError::ConstructionError(ConstructionFault::ConstantOutput { position: 1 }))
    );
    assert!(connections[0].to_out_port().is_ok());
}

#[test]
fn an_input_port_of_a_given_width_checks_the_width() {
    let json_cell = cell(CellType::SyntNOT, &[("A", numbers(&[2, 3]))], &[], &[]);
    let connections = parse_connections(&json_cell).ok().unwrap();
    assert!(connections[0].to_in_port::<0>().is_ok());
    assert!(connections[0].to_in_port::<2>().is_ok());
    assert_eq!(
        connections[0].to_in_port::<1>().err(),
        Some(SimError::InvalidArgument(ArgumentFault::WrongWidth { requested: 1, actual: 2 }))
    );
}

#[test]
fn the_edge_of_a_flip_flop_follows_the_polarity_of_its_clock() {
    let with_polarity = |polarity: u64| {
        cell(
            CellType::DFF,
            &[("CLK", numbers(&[1])), ("D", numbers(&[2])), ("Q", numbers(&[3]))],
            &[],
            &[("CLK_POLARITY", Value::Number(polarity))],
        )
    };
    let edge_of = |mapped: model::Cell| match mapped {
        model::Cell::DFlipFlopCell(ff) => ff.polarity,
        other => panic!("expected a flip-flop, got {:?}", other),
    };
    assert_eq!(edge_of(parse_cell("ff", &with_polarity(1)).ok().unwrap()), Edge::POSITIVE);
    assert_eq!(edge_of(parse_cell("ff", &with_polarity(0)).ok().unwrap()), Edge::NEGATIVE);
    assert_eq!(
        edge_of(
            parse_flipflop("ff", &with_polarity(0), ("CLK", "D", "Q"), Some(Edge::POSITIVE))
                .ok()
                .unwrap()
        ),
        Edge::POSITIVE
    );
    let synthesised = cell(
        CellType::SyntDFFPos,
        &[("C", numbers(&[1])), ("D", numbers(&[2])), ("Q", numbers(&[3]))],
        &[],
        &[("C_POLARITY", Value::Number(0))],
    );
    assert_eq!(edge_of(parse_cell("ff", &synthesised).ok().unwrap()), Edge::POSITIVE);
}

#[test]
fn every_kind_of_cell_is_mapped_onto_its_cell() {
    let three = [("A", numbers(&[1])), ("B", numbers(&[2])), ("Y", numbers(&[3]))];
    let binaries = [
        (CellType::AND, BinaryMapOp::AND),
        (CellType::SyntAND, BinaryMapOp::AND),
        (CellType::OR, BinaryMapOp::OR),
        (CellType::SyntOR, BinaryMapOp::OR),
        (CellType::SyntXOR, BinaryMapOp::XOR),
        (CellType::SyntNAND, BinaryMapOp::NAND),
        (CellType::SyntNOR, BinaryMapOp::NOR),
        (CellType::SyntXNOR, BinaryMapOp::XNOR),
        (CellType::SyntAND_NOT, BinaryMapOp::AND_NOT),
        (CellType::SyntOR_NOT, BinaryMapOp::OR_NOT),
    ];
    for (cell_type, op) in binaries {
        match parse_cell("g", &cell(cell_type, &three, &[], &[])).ok().unwrap() {
            model::Cell::BinaryMapOpCell(gate) => assert_eq!(gate.op, op),
            other => panic!("expected a binary cell, got {:?}", other),
        }
    }
    for cell_type in [CellType::NOT, CellType::SyntNOT] {
        match parse_cell("g", &cell(cell_type, &three, &[], &[])).ok().unwrap() {
            model::Cell::UnaryMapOpCell(gate) => assert_eq!(gate.op, UnaryMapOp::NOT),
            other => panic!("expected a unary cell, got {:?}", other),
        }
    }
    assert!(matches!(
        parse_cell("g", &cell(CellType::Add, &three, &[], &[])),
        Ok(model::Cell::AddCell(_))
    ));
    let four = [
        ("A", numbers(&[1])),
        ("B", numbers(&[2])),
        ("C", numbers(&[3])),
        ("Y", numbers(&[4])),
    ];
    for (cell_type, op) in [
        (CellType::SyntAOI3, TernaryMapOp::AND_OR_INV),
        (CellType::SyntOAI3, TernaryMapOp::OR_AND_INV),
    ] {
        match parse_cell("g", &cell(cell_type, &four, &[], &[])).ok().unwrap() {
            model::Cell::TernaryMapOpCell(gate) => {
                assert_eq!(gate.op, op);
                assert_eq!(gate.port_c.items(), &[HWireOrLogic::HWire(3)]);
            }
            other => panic!("expected a ternary cell, got {:?}", other),
        }
    }
}

fn and_module() -> Module {
    Module {
        ports: vec![
            (
                "y".to_string(),
                Port { direction: PortDirection::Output, bits: numbers(&[4]) },
            ),
            (
                "a".to_string(),
                Port { direction: PortDirection::Input, bits: numbers(&[2]) },
            ),
            (
                "b".to_string(),
                Port { direction: PortDirection::Input, bits: numbers(&[3]) },
            ),
        ],
        cells: vec![("and0".to_string(), and_cell())],
        netnames: vec![("a".to_string(), Net { bits: vec![2] })],
    }
}

#[test]
fn a_module_is_mapped_and_simulated() {
    let module = parse_module("And", &and_module()).ok().unwrap();
    assert_eq!(module.name, "And");
    let in_names: Vec<&str> = module.in_ports.iter().map(|port| port.name.as_str()).collect();
    assert_eq!(in_names, vec!["a", "b"]);
    assert_eq!(module.out_ports.len(), 1);
    assert_eq!(module.out_ports[0].items(), &[4]);
    assert_eq!(module.cells.len(), 1);

    let mut sim = Sim::create(&module).unwrap();
    sim.set_by_name("a", &[Logic::_1]).unwrap();
    sim.set_by_name("b", &[Logic::_1]).unwrap();
    sim.simulate().unwrap();
    assert_eq!(sim.get_by_name("y", 1), Ok(vec![Logic::_1]));
    sim.set_by_name("b", &[Logic::_0]).unwrap();
    sim.simulate().unwrap();
    assert_eq!(sim.get_by_name("y", 1), Ok(vec![Logic::_0]));
}

#[test]
fn a_port_of_a_module_must_be_wires_only() {
    let mut described = and_module();
    described.ports[1].1.bits = vec![Value::String("1".to_string())];
    assert_eq!(
        parse_module("And", &described).err(),
        Some(SimError::ConstructionError(ConstructionFault::ConstantOutput { position: 0 }))
    );
    described.ports[1].1.bits = vec![Value::Number(1), Value::Other];
    assert_eq!(
        parse_module("And", &described).err(),
        Some(format(FormatFault::IllegalWire { position: 1 }))
    );
}

#[test]
fn faults_of_ports_come_before_faults_of_cells() {
    let mut described = and_module();
    described.cells[0].1.connections.pop();
    assert_eq!(
        parse_module("And", &described).err(),
        Some(format(FormatFault::DirectionWithoutConnection { position: 2 }))
    );
    described.cells[0].1.port_directions.pop();
    assert_eq!(
        parse_module("And", &described).err(),
        Some(SimError::NotFound { name: "Y".to_string() })
    );
    described.ports[2].1.bits = vec![Value::Other];
    assert_eq!(
        parse_module("And", &described).err(),
        Some(format(FormatFault::IllegalWire { position: 0 }))
    );
}

#[test]
fn a_netlist_is_mapped_module_by_module() {
    let netlist = Netlist {
        modules: vec![("First".to_string(), and_module()), ("Second".to_string(), and_module())],
    };
    let modules = parse_netlist(&netlist).ok().unwrap();
    let names: Vec<&str> = modules.iter().map(|module| module.name.as_str()).collect();
    assert_eq!(names, vec!["First", "Second"]);

    let mut broken = and_module();
    broken.cells[0].1.parameters.push(("A_B".to_string(), Value::Number(1)));
    let netlist = Netlist {
        modules: vec![("First".to_string(), and_module()), ("Second".to_string(), broken)],
    };
    assert_eq!(
        parse_netlist(&netlist).err(),
        Some(format(FormatFault::UnknownProperty { position: 0 }))
    );
    assert!(parse_netlist(&Netlist { modules: vec![] }).ok().unwrap().is_empty());
}
