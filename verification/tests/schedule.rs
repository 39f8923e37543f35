use yosys_isim::common::ConstructionFault;
use yosys_isim::common::SimError;
use yosys_isim::model::BinaryMapOpCell;
use yosys_isim::model::Cell;
use yosys_isim::model::DFlipFlopCell;
use yosys_isim::model::Edge;
use yosys_isim::model::HWire;
use yosys_isim::model::HWireOrLogic;
use yosys_isim::model::Logic;
use yosys_isim::model::Module;
use yosys_isim::model::Port;
use yosys_isim::model::UnaryMapOpCell;
use yosys_isim::ops::BinaryMapOp;
use yosys_isim::ops::UnaryMapOp;
use yosys_isim::sim::schedule::compute_cell_graph;
use yosys_isim::sim::schedule::compute_cell_update_order;
use yosys_isim::sim::schedule::compute_input_cells;
use yosys_isim::sim::schedule::compute_num_wires;
use yosys_isim::sim::schedule::compute_wire_graph;
use yosys_isim::sim::CellWires;
use yosys_isim::sim::Sim;
use yosys_isim::sim::MAX_DELTA_CYCLES;

fn ins(h_wires: &[HWire]) -> Vec<HWireOrLogic> {
    h_wires.iter().map(|h_wire| HWireOrLogic::HWire(*h_wire)).collect()
}

fn not(name: &str, a: HWire, y: HWire) -> Cell {
    Cell::UnaryMapOpCell(UnaryMapOpCell {
        name: name.to_string(),
        op: UnaryMapOp::NOT,
        port_a: Port::from_wires_or_logic("A", ins(&[a])),
        port_y: Port::from_h_wires("Y", vec![y]),
    })
}

fn gate(name: &str, op: BinaryMapOp, a: HWire, b: HWire, y: HWire) -> Cell {
    Cell::BinaryMapOpCell(BinaryMapOpCell {
        name: name.to_string(),
        op,
        port_a: Port::from_wires_or_logic("A", ins(&[a])),
        port_b: Port::from_wires_or_logic("B", ins(&[b])),
        port_y: Port::from_h_wires("Y", vec![y]),
    })
}

fn dff(name: &str, polarity: Edge, clk: HWire, d: HWire, q: HWire) -> Cell {
    Cell::DFlipFlopCell(DFlipFlopCell {
        name: name.to_string(),
        polarity,
        port_clk: Port::from_wires_or_logic("CLK", ins(&[clk])),
        port_d: Port::from_wires_or_logic("D", ins(&[d])),
        port_q: Port::from_h_wires("Q", vec![q]),
    })
}

fn module(cells: Vec<Cell>, inputs: &[(&str, HWire)], outputs: &[(&str, HWire)]) -> Module {
    Module {
        name: "m".to_string(),
        cells,
        in_ports: inputs
            .iter()
            .map(|(name, h_wire)| Port::from_h_wires(name, vec![*h_wire]))
            .collect(),
        out_ports: outputs
            .iter()
            .map(|(name, h_wire)| Port::from_h_wires(name, vec![*h_wire]))
            .collect(),
    }
}

/// Whether the order holds every cell once and no cell before a cell that
/// drives one of its inputs without being clocked.
fn is_valid_order(module: &Module, order: &[usize]) -> bool {
    let n = module.cells.len();
    let mut position = vec![usize::MAX; n];
    if order.len() != n {
        return false;
    }
    for (at, h_cell) in order.iter().enumerate() {
        if *h_cell >= n || position[*h_cell] != usize::MAX {
            return false;
        }
        position[*h_cell] = at;
    }
    for a in 0..n {
        if matches!(module.cells[a], Cell::DFlipFlopCell(_)) {
            continue;
        }
        let driven = CellWires::get_out_port_h_wires(&module.cells[a]);
        for b in 0..n {
            let read = CellWires::get_in_port_h_wires(&module.cells[b]);
            if driven.iter().any(|h_wire| read.contains(h_wire)) && position[a] >= position[b] {
                return false;
            }
        }
    }
    true
}

#[test]
fn two_cells_driving_one_wire_fail_construction() {
    let m = module(
        vec![not("n0", 0, 2), not("n1", 1, 2)],
        &[("a", 0), ("b", 1)],
        &[("y", 2)],
    );
    assert_eq!(
        Sim::create(&m).err(),
        Some(SimError::ConstructionError(ConstructionFault::DuplicateDriver { wire: 2 }))
    );
}

#[test]
fn one_cell_driving_a_wire_twice_fails_construction() {
    let cell = Cell::UnaryMapOpCell(UnaryMapOpCell {
        name: "n".to_string(),
        op: UnaryMapOp::NOT,
        port_a: Port::from_wires_or_logic("A", ins(&[0, 1])),
        port_y: Port::from_h_wires("Y", vec![3, 3]),
    });
    let m = module(vec![cell], &[("a", 0), ("b", 1)], &[("y", 3)]);
    assert_eq!(
        Sim::create(&m).err(),
        Some(SimError::ConstructionError(ConstructionFault::DuplicateDriver { wire: 3 }))
    );
}

#[test]
fn the_first_doubly_driven_wire_is_reported() {
    let m = module(
        vec![not("n0", 0, 5), not("n1", 0, 4), not("n2", 0, 4), not("n3", 0, 5)],
        &[("a", 0)],
        &[("y", 4)],
    );
    assert_eq!(
        Sim::create(&m).err(),
        Some(SimError::ConstructionError(ConstructionFault::DuplicateDriver { wire: 4 }))
    );
}

#[test]
fn a_duplicate_driver_is_reported_before_a_cycle() {
    let m = module(
        vec![not("n0", 1, 2), not("n1", 2, 1), not("n2", 0, 2)],
        &[("a", 0)],
        &[("y", 2)],
    );
    assert_eq!(
        Sim::create(&m).err(),
        Some(SimError::ConstructionError(ConstructionFault::DuplicateDriver { wire: 2 }))
    );
}

#[test]
fn two_gates_that_wait_for_each_other_fail_construction() {
    let m = module(
        vec![gate("g0", BinaryMapOp::AND, 0, 2, 1), not("n", 1, 2)],
        &[("a", 0)],
        &[("y", 1)],
    );
    assert_eq!(
        Sim::create(&m).err(),
        Some(SimError::ConstructionError(ConstructionFault::CombinationalCycle))
    );
}

#[test]
fn a_gate_that_reads_its_own_output_fails_construction() {
    let m = module(vec![gate("g", BinaryMapOp::OR, 0, 1, 1)], &[("a", 0)], &[("y", 1)]);
    assert_eq!(
        Sim::create(&m).err(),
        Some(SimError::ConstructionError(ConstructionFault::CombinationalCycle))
    );
}

#[test]
fn cells_behind_a_cycle_do_not_hide_it() {
    let m = module(
        vec![not("front", 0, 1), not("n0", 2, 3), not("n1", 3, 2), not("behind", 3, 4)],
        &[("a", 0)],
        &[("y", 4)],
    );
    assert_eq!(
        Sim::create(&m).err(),
        Some(SimError::ConstructionError(ConstructionFault::CombinationalCycle))
    );
}

#[test]
fn order_of_a_chain_follows_the_wires_not_the_listing() {
    let m = module(
        vec![not("n2", 2, 3), not("n1", 1, 2), not("n0", 0, 1)],
        &[("a", 0)],
        &[("y", 3)],
    );
    let sim = Sim::create(&m).unwrap();
    assert_eq!(sim.update_order(), &[2, 1, 0]);
    assert!(is_valid_order(&m, sim.update_order()));
    assert_eq!(sim.wire_count(), 4);
    assert_eq!(sim.frame(), 0);
}

#[test]
fn order_of_a_diamond_is_valid() {
    // a -> n0 -> (g1, g2) -> g3 -> y, with g3 listed first
    let m = module(
        vec![
            gate("g3", BinaryMapOp::XOR, 2, 3, 4),
            gate("g2", BinaryMapOp::OR, 1, 0, 3),
            gate("g1", BinaryMapOp::AND, 1, 0, 2),
            not("n0", 0, 1),
        ],
        &[("a", 0)],
        &[("y", 4)],
    );
    let sim = Sim::create(&m).unwrap();
    let order = sim.update_order();
    assert!(is_valid_order(&m, order));
    assert_eq!(order[0], 3);
    assert_eq!(order[3], 0);
}

#[test]
fn feedback_through_a_flip_flop_is_scheduled_and_toggles() {
    // q toggles on every rising edge of c: d = not q
    let m = module(
        vec![dff("ff", Edge::POSITIVE, 0, 2, 1), not("inv", 1, 2)],
        &[("c", 0)],
        &[("q", 1)],
    );
    let mut sim = Sim::create(&m).unwrap();
    assert!(is_valid_order(&m, sim.update_order()));

    sim.set_by_name("q", &[Logic::_0]).unwrap();
    sim.set_by_name("c", &[Logic::_0]).unwrap();
    sim.simulate().unwrap();
    assert_eq!(sim.get_by_name("q", 1), Ok(vec![Logic::_0]));

    let mut expected = Logic::_0;
    for _ in 0..4 {
        sim.set_by_name("c", &[Logic::_1]).unwrap();
        sim.simulate().unwrap();
        expected = if expected == Logic::_0 { Logic::_1 } else { Logic::_0 };
        assert_eq!(sim.get_by_name("q", 1), Ok(vec![expected]));

        sim.set_by_name("c", &[Logic::_0]).unwrap();
        sim.simulate().unwrap();
        assert_eq!(sim.get_by_name("q", 1), Ok(vec![expected]));
    }
}

#[test]
fn negative_edge_flip_flop_samples_on_the_falling_clock() {
    let m = module(
        vec![dff("ff", Edge::NEGATIVE, 0, 1, 2)],
        &[("c", 0), ("d", 1)],
        &[("q", 2)],
    );
    let mut sim = Sim::create(&m).unwrap();
    sim.set_by_name("c", &[Logic::_0]).unwrap();
    sim.set_by_name("d", &[Logic::_1]).unwrap();
    sim.simulate().unwrap();
    sim.set_by_name("c", &[Logic::_1]).unwrap();
    sim.simulate().unwrap();
    assert_eq!(sim.get_by_name("q", 1), Ok(vec![Logic::X]));
    sim.set_by_name("c", &[Logic::_0]).unwrap();
    sim.simulate().unwrap();
    assert_eq!(sim.get_by_name("q", 1), Ok(vec![Logic::_1]));
}

#[test]
fn an_unknown_clock_never_triggers() {
    let m = module(
        vec![dff("ff", Edge::POSITIVE, 0, 1, 2)],
        &[("c", 0), ("d", 1)],
        &[("q", 2)],
    );
    let mut sim = Sim::create(&m).unwrap();
    sim.set_by_name("d", &[Logic::_1]).unwrap();
    // X -> 1 is no rising edge
    sim.set_by_name("c", &[Logic::_1]).unwrap();
    sim.simulate().unwrap();
    assert_eq!(sim.get_by_name("q", 1), Ok(vec![Logic::X]));
    // 1 -> X and X -> 1 neither
    sim.set_by_name("c", &[Logic::X]).unwrap();
    sim.simulate().unwrap();
    sim.set_by_name("c", &[Logic::_1]).unwrap();
    sim.simulate().unwrap();
    assert_eq!(sim.get_by_name("q", 1), Ok(vec![Logic::X]));
}

#[test]
fn a_cell_behind_a_flip_flop_sees_the_new_value_within_the_frame() {
    // y = not q, where q takes d on the rising clock
    let m = module(
        vec![not("inv", 2, 3), dff("ff", Edge::POSITIVE, 0, 1, 2)],
        &[("c", 0), ("d", 1)],
        &[("y", 3)],
    );
    let mut sim = Sim::create(&m).unwrap();
    sim.set_by_name("c", &[Logic::_0]).unwrap();
    sim.set_by_name("d", &[Logic::_1]).unwrap();
    sim.simulate().unwrap();
    assert_eq!(sim.get_by_name("y", 1), Ok(vec![Logic::X]));
    sim.set_by_name("c", &[Logic::_1]).unwrap();
    sim.simulate().unwrap();
    assert_eq!(sim.get_by_name("y", 1), Ok(vec![Logic::_0]));
    assert_eq!(sim.frame(), 2);
}

#[test]
fn a_cell_that_reads_only_tied_values_runs_too() {
    let tied = Cell::UnaryMapOpCell(UnaryMapOpCell {
        name: "one".to_string(),
        op: UnaryMapOp::NOT,
        port_a: Port::from_wires_or_logic("A", vec![HWireOrLogic::Logic(Logic::_0)]),
        port_y: Port::from_h_wires("Y", vec![1]),
    });
    let m = module(
        vec![gate("g", BinaryMapOp::AND, 0, 1, 2), tied],
        &[("a", 0)],
        &[("y", 2)],
    );
    let mut sim = Sim::create(&m).unwrap();
    assert!(is_valid_order(&m, sim.update_order()));
    sim.set_by_name("a", &[Logic::_1]).unwrap();
    sim.simulate().unwrap();
    assert_eq!(sim.get_by_name("y", 1), Ok(vec![Logic::_1]));
}

#[test]
fn flip_flops_that_clock_each_other_for_ever_are_given_up() {
    // c = qa xor qb; a toggles qa on the rising c, b toggles qb on the falling c.
    let m = module(
        vec![
            gate("clock", BinaryMapOp::XOR, 0, 1, 2),
            not("na", 0, 3),
            not("nb", 1, 4),
            dff("a", Edge::POSITIVE, 2, 3, 0),
            dff("b", Edge::NEGATIVE, 2, 4, 1),
        ],
        &[],
        &[("qa", 0), ("qb", 1)],
    );
    let mut sim = Sim::create(&m).unwrap();
    sim.set_by_name("qa", &[Logic::_0]).unwrap();
    sim.set_by_name("qb", &[Logic::_0]).unwrap();
    assert_eq!(sim.simulate(), Ok(()));
    assert_eq!(sim.frame(), 1);
    sim.set_by_name("qa", &[Logic::_1]).unwrap();
    assert_eq!(
        sim.simulate(),
        Err(SimError::SimulationError { cycles: MAX_DELTA_CYCLES })
    );
    assert_eq!(MAX_DELTA_CYCLES, 1024);
    assert_eq!(sim.frame(), 1);
}

#[test]
fn module_without_cells_has_an_empty_order() {
    let m = module(vec![], &[("a", 3)], &[("y", 3)]);
    let mut sim = Sim::create(&m).unwrap();
    assert_eq!(sim.update_order(), &[] as &[usize]);
    assert_eq!(sim.wire_count(), 4);
    sim.set_by_name("a", &[Logic::_1]).unwrap();
    sim.simulate().unwrap();
    assert_eq!(sim.get_by_name("y", 1), Ok(vec![Logic::_1]));
}

#[test]
fn widths_are_checked_before_a_simulation_is_made() {
    let bad = Cell::UnaryMapOpCell(UnaryMapOpCell {
        name: "n".to_string(),
        op: UnaryMapOp::NOT,
        port_a: Port::from_wires_or_logic("A", ins(&[0, 1])),
        port_y: Port::from_h_wires("Y", vec![2]),
    });
    let m = module(vec![not("ok", 0, 3), bad], &[("a", 0)], &[("y", 2)]);
    assert_eq!(
        m.validate(),
        Err(SimError::ConstructionError(ConstructionFault::WidthMismatch { cell: 1 }))
    );
    assert_eq!(
        Sim::create(&m).err(),
        Some(SimError::ConstructionError(ConstructionFault::WidthMismatch { cell: 1 }))
    );

    let wide_clock = Cell::DFlipFlopCell(DFlipFlopCell {
        name: "ff".to_string(),
        polarity: Edge::POSITIVE,
        port_clk: Port::from_wires_or_logic("CLK", ins(&[0, 1])),
        port_d: Port::from_wires_or_logic("D", ins(&[2])),
        port_q: Port::from_h_wires("Q", vec![3]),
    });
    let m = module(vec![wide_clock], &[("a", 0)], &[("y", 3)]);
    assert_eq!(
        m.validate(),
        Err(SimError::ConstructionError(ConstructionFault::WidthMismatch { cell: 0 }))
    );
}

#[test]
fn the_largest_handle_is_turned_down() {
    let m = module(vec![not("n", 0, usize::MAX)], &[("a", 0)], &[]);
    assert_eq!(
        m.validate(),
        Err(SimError::ConstructionError(ConstructionFault::WireOutOfRange))
    );
    let m = module(vec![], &[("a", usize::MAX)], &[]);
    assert_eq!(
        m.validate(),
        Err(SimError::ConstructionError(ConstructionFault::WireOutOfRange))
    );
    let m = module(vec![not("n", 0, 1)], &[("a", 0)], &[("y", 1)]);
    assert_eq!(m.validate(), Ok(()));
}

#[test]
fn graphs_of_a_small_module() {
    // n0: 0 -> 1, g: (1, 0) -> 2, ff: clk 2, d 1 -> 3, n1: 3 -> 4
    let m = module(
        vec![
            not("n0", 0, 1),
            gate("g", BinaryMapOp::AND, 1, 0, 2),
            dff("ff", Edge::POSITIVE, 2, 1, 3),
            not("n1", 3, 4),
        ],
        &[("a", 0)],
        &[("y", 4), ("spare", 6)],
    );
    assert_eq!(m.validate(), Ok(()));
    let num_wires = compute_num_wires(&m);
    assert_eq!(num_wires, 7);

    let wire_nodes = compute_wire_graph(&m, num_wires).ok().unwrap();
    assert_eq!(wire_nodes.len(), 7);
    let drivers: Vec<Option<usize>> = wire_nodes.iter().map(|node| node.h_in_cell).collect();
    assert_eq!(drivers, vec![None, Some(0), Some(1), Some(2), Some(3), None, None]);
    let readers: Vec<Vec<usize>> = wire_nodes
        .iter()
        .map(|node| node.h_out_cells.iter().copied().collect())
        .collect();
    assert_eq!(
        readers,
        vec![vec![0, 1], vec![1, 2], vec![2], vec![3], vec![], vec![], vec![]]
    );

    let cell_nodes = compute_cell_graph(&m, &wire_nodes);
    let names: Vec<&str> = cell_nodes.iter().map(|node| node.name.as_str()).collect();
    assert_eq!(names, vec!["n0", "g", "ff", "n1"]);
    let nexts: Vec<Vec<usize>> = cell_nodes
        .iter()
        .map(|node| node.h_next_cells.iter().copied().collect())
        .collect();
    // nothing waits for the flip-flop
    assert_eq!(nexts, vec![vec![1, 2], vec![2], vec![], vec![]]);
    let prevs: Vec<Vec<usize>> = cell_nodes
        .iter()
        .map(|node| node.h_prev_cells.iter().copied().collect())
        .collect();
    assert_eq!(prevs, vec![vec![], vec![0], vec![0, 1], vec![]]);

    let input_cells: Vec<usize> = compute_input_cells(&m, &wire_nodes).iter().copied().collect();
    assert_eq!(input_cells, vec![0, 1]);

    let order = compute_cell_update_order(&m, &wire_nodes, &cell_nodes).ok().unwrap();
    assert_eq!(order, vec![0, 3, 1, 2]);
    assert!(is_valid_order(&m, &order));
}

#[test]
fn wires_of_a_cell_are_listed_inputs_first() {
    let cell = Cell::BinaryMapOpCell(BinaryMapOpCell {
        name: "g".to_string(),
        op: BinaryMapOp::AND,
        port_a: Port::from_wires_or_logic(
            "A",
            vec![HWireOrLogic::HWire(4), HWireOrLogic::Logic(Logic::_1)],
        ),
        port_b: Port::from_wires_or_logic("B", ins(&[2, 4])),
        port_y: Port::from_h_wires("Y", vec![7, 8]),
    });
    assert_eq!(CellWires::get_in_port_h_wires(&cell), vec![4, 2, 4]);
    assert_eq!(CellWires::get_out_port_h_wires(&cell), vec![7, 8]);
    assert_eq!(CellWires::get_all_h_wires(&cell), vec![4, 2, 4, 7, 8]);
}
