use yosys_isim::common::find_by_name;
use yosys_isim::common::ArgumentFault;
use yosys_isim::common::ConstructionFault;
use yosys_isim::common::HasName;
use yosys_isim::common::SimError;
use yosys_isim::model::BinaryMapOpCell;
use yosys_isim::model::Cell;
use yosys_isim::model::Edge;
use yosys_isim::model::HWireOrLogic;
use yosys_isim::model::Logic;
use yosys_isim::model::Module;
use yosys_isim::model::Port;
use yosys_isim::ops::BinaryMapOp;
use yosys_isim::sim::CellSimModel;
use yosys_isim::sim::Sim;
use yosys_isim::sim::SimState;
use yosys_isim::sim::StateRef;

fn and2() -> Module {
    Module {
        name: "And2".to_string(),
        cells: vec![Cell::BinaryMapOpCell(BinaryMapOpCell {
            name: "and".to_string(),
            op: BinaryMapOp::AND,
            port_a: Port::from_wires_or_logic(
                "A",
                vec![HWireOrLogic::HWire(0), HWireOrLogic::HWire(1)],
            ),
            port_b: Port::from_wires_or_logic(
                "B",
                vec![HWireOrLogic::HWire(2), HWireOrLogic::HWire(3)],
            ),
            port_y: Port::from_h_wires("Y", vec![4, 5]),
        })],
        in_ports: vec![
            Port::from_h_wires("a", vec![0, 1]),
            Port::from_h_wires("b", vec![2, 3]),
            Port::from_h_wires("a", vec![9]),
        ],
        out_ports: vec![Port::from_h_wires("y", vec![4, 5]), Port::from_h_wires("b", vec![8])],
    }
}

#[test]
fn ports_are_found_by_name_and_width() {
    let module = and2();
    assert_eq!(module.name(), "And2");
    let port = module.get_in_port::<2>("a").unwrap();
    assert_eq!(port.name(), "a");
    assert_eq!(port.items(), &[0, 1]);
    let port = module.get_out_port::<2>("y").unwrap();
    assert_eq!(port.items(), &[4, 5]);
    let port = module.get_port_dynamic(&module.in_ports, "b", 2).unwrap();
    assert_eq!(port.items(), &[2, 3]);
}

#[test]
fn a_port_that_is_not_there_is_not_found() {
    let module = and2();
    assert_eq!(
        module.get_in_port::<2>("y").err(),
        Some(SimError::NotFound { name: "y".to_string() })
    );
    assert_eq!(
        module.get_out_port::<1>("a").err(),
        Some(SimError::NotFound { name: "a".to_string() })
    );
    assert_eq!(
        module.get_port_dynamic(&module.out_ports, "", 0).err(),
        Some(SimError::NotFound { name: "".to_string() })
    );
}

#[test]
fn the_first_port_with_the_name_decides_on_the_width() {
    let module = and2();
    assert_eq!(
        module.get_in_port::<1>("a").err(),
        Some(SimError::InvalidArgument(ArgumentFault::WrongWidth { requested: 1, actual: 2 }))
    );
    assert_eq!(
        module.get_in_port::<3>("b").err(),
        Some(SimError::InvalidArgument(ArgumentFault::WrongWidth { requested: 3, actual: 2 }))
    );
}

#[test]
fn find_by_name_gives_the_first_match() {
    let modules = vec![and2(), and2()];
    let found = find_by_name(&modules, "And2").unwrap();
    assert!(std::ptr::eq(found, &modules[0]));
    assert_eq!(
        find_by_name(&modules, "and2").err(),
        Some(SimError::NotFound { name: "and2".to_string() })
    );
    let none: Vec<Module> = Vec::new();
    assert_eq!(
        find_by_name(&none, "And2").err(),
        Some(SimError::NotFound { name: "And2".to_string() })
    );
}

#[test]
fn set_and_get_by_name() {
    let module = and2();
    let mut sim = Sim::create(&module).unwrap();
    assert_eq!(sim.get_by_name("y", 2), Ok(vec![Logic::X, Logic::X]));
    assert_eq!(sim.set_by_name("a", &[Logic::_1, Logic::_1]), Ok(()));
    assert_eq!(sim.set_by_name("b", &[Logic::_0, Logic::_1]), Ok(()));
    assert_eq!(sim.simulate(), Ok(()));
    assert_eq!(sim.get_by_name("y", 2), Ok(vec![Logic::_0, Logic::_1]));
    // inputs can be read back
    assert_eq!(sim.get_by_name("a", 2), Ok(vec![Logic::_1, Logic::_1]));
}

#[test]
fn set_looks_among_the_inputs_first_and_get_among_the_outputs() {
    let module = and2();
    let mut sim = Sim::create(&module).unwrap();
    // "b" names an input of two wires and an output of one wire
    assert_eq!(sim.set_by_name("b", &[Logic::_1, Logic::_0]), Ok(()));
    assert_eq!(sim.get_by_name("b", 1), Ok(vec![Logic::X]));
    assert_eq!(
        sim.get_by_name("b", 2),
        Err(SimError::InvalidArgument(ArgumentFault::WrongWidth { requested: 2, actual: 1 }))
    );
    assert_eq!(
        sim.set_by_name("b", &[Logic::_1]),
        Err(SimError::InvalidArgument(ArgumentFault::WrongWidth { requested: 1, actual: 2 }))
    );
    // an output can be written
    assert_eq!(sim.set_by_name("y", &[Logic::_1, Logic::_0]), Ok(()));
    assert_eq!(sim.get_by_name("y", 2), Ok(vec![Logic::_1, Logic::_0]));
}

#[test]
fn by_name_errors_leave_the_wires_alone() {
    let module = and2();
    let mut sim = Sim::create(&module).unwrap();
    sim.set_by_name("a", &[Logic::_1, Logic::_0]).unwrap();
    assert_eq!(
        sim.set_by_name("nope", &[Logic::_1]),
        Err(SimError::NotFound { name: "nope".to_string() })
    );
    assert_eq!(
        sim.set_by_name("a", &[Logic::_0]),
        Err(SimError::InvalidArgument(ArgumentFault::WrongWidth { requested: 1, actual: 2 }))
    );
    assert_eq!(
        sim.get_by_name("nope", 1),
        Err(SimError::NotFound { name: "nope".to_string() })
    );
    assert_eq!(sim.get_by_name("a", 2), Ok(vec![Logic::_1, Logic::_0]));
}

#[test]
fn set_and_get_by_port() {
    let module = and2();
    let a = module.get_in_port::<2>("a").unwrap();
    let b = module.get_in_port::<2>("b").unwrap();
    let y = module.get_out_port::<2>("y").unwrap();
    let mut sim = Sim::new(&module).ok().unwrap();
    sim.set(a, [Logic::_1, Logic::X]);
    sim.set_dynamic(b, &[Logic::_1, Logic::_0]);
    sim.simulate().unwrap();
    assert_eq!(sim.get::<2>(y), [Logic::_1, Logic::_0]);
    assert_eq!(sim.get_dynamic(y), vec![Logic::_1, Logic::_0]);
}

#[test]
fn where_a_wire_stands_twice_the_later_value_stays() {
    let mut state = SimState::new(3);
    state.set_wires(StateRef::Cur, &[1, 2, 1], &[Logic::_0, Logic::_1, Logic::_1]);
    let mut logics = [Logic::X; 3];
    state.get_wires(StateRef::Cur, &[0, 1, 2], &mut logics);
    assert_eq!(logics, [Logic::X, Logic::_1, Logic::_1]);
    state.get_wires(StateRef::Prev, &[0, 1, 2], &mut logics);
    assert_eq!(logics, [Logic::X; 3]);
}

#[test]
fn state_reads_edges_inputs_and_queues_writes() {
    let mut state = SimState::new(4);
    state.set_wires(
        StateRef::Prev,
        &[0, 1, 2, 3],
        &[Logic::_0, Logic::_1, Logic::_0, Logic::X],
    );
    state.set_wires(
        StateRef::Cur,
        &[0, 1, 2, 3],
        &[Logic::_1, Logic::_0, Logic::_0, Logic::_1],
    );
    let elements = [
        HWireOrLogic::HWire(0),
        HWireOrLogic::HWire(1),
        HWireOrLogic::HWire(2),
        HWireOrLogic::HWire(3),
        HWireOrLogic::Logic(Logic::_1),
    ];
    let mut edges = [Edge::X; 5];
    state.get_edges(&elements, &mut edges);
    assert_eq!(
        edges,
        [Edge::POSITIVE, Edge::NEGATIVE, Edge::NONE, Edge::X, Edge::NONE]
    );
    let mut logics = [Logic::X; 5];
    state.get_wires_or_logic(StateRef::Cur, &elements, &mut logics);
    assert_eq!(logics, [Logic::_1, Logic::_0, Logic::_0, Logic::_1, Logic::_1]);
    state.get_wires_or_logic(StateRef::Prev, &elements, &mut logics);
    assert_eq!(logics, [Logic::_0, Logic::_1, Logic::_0, Logic::X, Logic::_1]);

    state.set_wires_deferred(&[2, 2], &[Logic::_1, Logic::X]);
    state.set_wires_deferred(&[0], &[Logic::_0]);
    assert_eq!(
        state.set_wires_deferred,
        vec![(2, Logic::_1), (2, Logic::X), (0, Logic::_0)]
    );
    state.latch();
    let mut wires = [Logic::X; 4];
    state.get_wires(StateRef::Prev, &[0, 1, 2, 3], &mut wires);
    assert_eq!(wires, [Logic::_1, Logic::_0, Logic::_0, Logic::_1]);
    state.commit();
    assert!(state.set_wires_deferred.is_empty());
    state.get_wires(StateRef::Cur, &[0, 1, 2, 3], &mut wires);
    assert_eq!(wires, [Logic::_0, Logic::_0, Logic::X, Logic::_1]);
    state.get_wires(StateRef::Prev, &[0, 1, 2, 3], &mut wires);
    assert_eq!(wires, [Logic::_1, Logic::_0, Logic::_0, Logic::_1]);
}

#[test]
fn a_cell_tells_its_name_and_ports() {
    let module = and2();
    let cell = &module.cells[0];
    assert_eq!(CellSimModel::name(cell), "and");
    let in_ports = cell.in_ports();
    assert_eq!(in_ports.len(), 2);
    assert_eq!(in_ports[0].name(), "A");
    assert_eq!(in_ports[1].name(), "B");
    let out_ports = cell.out_ports();
    assert_eq!(out_ports.len(), 1);
    assert_eq!(out_ports[0].name(), "Y");
    assert!(cell.check_widths());
    assert!(!cell.clocked());
    assert!(cell.is_below(6));
    assert!(!cell.is_below(5));
}

#[test]
fn an_output_tied_to_a_value_is_turned_down() {
    assert_eq!(
        HWireOrLogic::only_HWires(&[HWireOrLogic::HWire(3), HWireOrLogic::HWire(1)])
            .ok()
            .map(|list| Port::<yosys_isim::model::Out, usize> {
                name: String::new(),
                wires: list,
                dir: std::marker::PhantomData
            }
            .items()
            .to_vec()),
        Some(vec![3, 1])
    );
    assert_eq!(
        HWireOrLogic::only_HWires(&[
            HWireOrLogic::HWire(3),
            HWireOrLogic::Logic(Logic::_1),
            HWireOrLogic::Logic(Logic::_0)
        ])
        .err(),
        Some(SimError::ConstructionError(ConstructionFault::ConstantOutput { position: 1 }))
    );
    assert!(HWireOrLogic::only_HWires(&[]).is_ok());
}
