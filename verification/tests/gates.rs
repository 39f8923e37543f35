use yosys_isim::common::find_by_name;
use yosys_isim::common::SimError;
use yosys_isim::model::AddCell;
use yosys_isim::model::BinaryMapOpCell;
use yosys_isim::model::Cell;
use yosys_isim::model::DFlipFlopCell;
use yosys_isim::model::Edge;
use yosys_isim::model::HWire;
use yosys_isim::model::HWireOrLogic;
use yosys_isim::model::Logic;
use yosys_isim::model::Module;
use yosys_isim::model::MuxCell;
use yosys_isim::model::Port;
use yosys_isim::model::TernaryMapOpCell;
use yosys_isim::model::UnaryMapOpCell;
use yosys_isim::ops::BinaryMapOp;
use yosys_isim::ops::TernaryMapOp;
use yosys_isim::ops::UnaryMapOp;
use yosys_isim::sim::Sim;

fn wires(from: usize, width: usize) -> Vec<HWire> {
    (from..from + width).collect()
}

fn inputs(from: usize, width: usize) -> Vec<HWireOrLogic> {
    (from..from + width).map(HWireOrLogic::HWire).collect()
}

/// A module `name(a[width], b[width]) -> y[width]` of one gate per bit.
fn binary_module(name: &str, op: BinaryMapOp, width: usize) -> Module {
    let mut cells = Vec::new();
    for bit in 0..width {
        cells.push(Cell::BinaryMapOpCell(BinaryMapOpCell {
            name: format!("{}_{}", name, bit),
            op,
            port_a: Port::from_wires_or_logic("A", inputs(bit, 1)),
            port_b: Port::from_wires_or_logic("B", inputs(width + bit, 1)),
            port_y: Port::from_h_wires("Y", wires(2 * width + bit, 1)),
        }));
    }
    Module {
        name: name.to_string(),
        cells,
        in_ports: vec![Port::from_h_wires("a", wires(0, width)), Port::from_h_wires("b", wires(width, width))],
        out_ports: vec![Port::from_h_wires("y", wires(2 * width, width))],
    }
}

/// The module `Dff(c, d[2]) -> q[2]`, one flip-flop per bit.
fn dff_module() -> Module {
    let mut cells = Vec::new();
    for bit in 0..2 {
        cells.push(Cell::DFlipFlopCell(DFlipFlopCell {
            name: format!("dff_{}", bit),
            polarity: Edge::POSITIVE,
            port_clk: Port::from_wires_or_logic("C", inputs(0, 1)),
            port_d: Port::from_wires_or_logic("D", inputs(1 + bit, 1)),
            port_q: Port::from_h_wires("Q", wires(3 + bit, 1)),
        }));
    }
    Module {
        name: "Dff".to_string(),
        cells,
        in_ports: vec![Port::from_h_wires("c", wires(0, 1)), Port::from_h_wires("d", wires(1, 2))],
        out_ports: vec![Port::from_h_wires("q", wires(3, 2))],
    }
}

/// The module `Add(a[8], b[8]) -> y[8]`.
fn add_module() -> Module {
    Module {
        name: "Add".to_string(),
        cells: vec![Cell::AddCell(AddCell {
            name: "add".to_string(),
            port_a: Port::from_wires_or_logic("A", inputs(0, 8)),
            port_b: Port::from_wires_or_logic("B", inputs(8, 8)),
            port_y: Port::from_h_wires("Y", wires(16, 8)),
        })],
        in_ports: vec![Port::from_h_wires("a", wires(0, 8)), Port::from_h_wires("b", wires(8, 8))],
        out_ports: vec![Port::from_h_wires("y", wires(16, 8))],
    }
}

/// The module `Mux(a, b, s) -> y`.
fn mux_module() -> Module {
    Module {
        name: "Mux".to_string(),
        cells: vec![Cell::MuxCell(MuxCell {
            name: "mux".to_string(),
            port_a: Port::from_wires_or_logic("A", inputs(0, 1)),
            port_b: Port::from_wires_or_logic("B", inputs(1, 1)),
            port_s: Port::from_wires_or_logic("S", inputs(2, 1)),
            port_y: Port::from_h_wires("Y", wires(3, 1)),
        })],
        in_ports: vec![
            Port::from_h_wires("a", wires(0, 1)),
            Port::from_h_wires("b", wires(1, 1)),
            Port::from_h_wires("s", wires(2, 1)),
        ],
        out_ports: vec![Port::from_h_wires("y", wires(3, 1))],
    }
}

/// The module `Not(a) -> y` of a chain of `length` inverters, listed from
/// the output back to the input.
fn not_chain_module(length: usize) -> Module {
    let mut cells = Vec::new();
    for stage in (0..length).rev() {
        cells.push(Cell::UnaryMapOpCell(UnaryMapOpCell {
            name: format!("not_{}", stage),
            op: UnaryMapOp::NOT,
            port_a: Port::from_wires_or_logic("A", inputs(stage, 1)),
            port_y: Port::from_h_wires("Y", wires(stage + 1, 1)),
        }));
    }
    Module {
        name: "NotChain".to_string(),
        cells,
        in_ports: vec![Port::from_h_wires("a", wires(0, 1))],
        out_ports: vec![Port::from_h_wires("y", wires(length, 1))],
    }
}

/// The module `Aoi(a, b, c) -> y` with an and-or-invert gate.
fn ternary_module(name: &str, op: TernaryMapOp) -> Module {
    Module {
        name: name.to_string(),
        cells: vec![Cell::TernaryMapOpCell(TernaryMapOpCell {
            name: "gate".to_string(),
            op,
            port_a: Port::from_wires_or_logic("A", inputs(0, 1)),
            port_b: Port::from_wires_or_logic("B", inputs(1, 1)),
            port_c: Port::from_wires_or_logic("C", inputs(2, 1)),
            port_y: Port::from_h_wires("Y", wires(3, 1)),
        })],
        in_ports: vec![
            Port::from_h_wires("a", wires(0, 1)),
            Port::from_h_wires("b", wires(1, 1)),
            Port::from_h_wires("c", wires(2, 1)),
        ],
        out_ports: vec![Port::from_h_wires("y", wires(3, 1))],
    }
}

fn test_gates() -> Vec<Module> {
    vec![
        binary_module("And", BinaryMapOp::AND, 1),
        binary_module("And32", BinaryMapOp::AND, 32),
        binary_module("Or", BinaryMapOp::OR, 1),
        binary_module("Or32", BinaryMapOp::OR, 32),
        binary_module("Nand", BinaryMapOp::NAND, 1),
        binary_module("Nor", BinaryMapOp::NOR, 1),
        binary_module("Xor", BinaryMapOp::XOR, 1),
        binary_module("Xnor", BinaryMapOp::XNOR, 1),
        binary_module("AndNot", BinaryMapOp::AND_NOT, 1),
        binary_module("OrNot", BinaryMapOp::OR_NOT, 1),
        dff_module(),
        add_module(),
        mux_module(),
    ]
}

fn is_slice_eq(a: &[Logic], b: &[Logic], equality: impl Fn(Logic, Logic) -> bool) -> bool {
    let len_a = a.len();
    let len_b = b.len();
    if len_a != len_b {
        return false;
    }
    for i in 0..len_a {
        if !equality(a[i], b[i]) {
            return false;
        }
    }
    true
}

fn assert_in_out_expected(name: &str, input: &[Logic], actual: &[Logic], expected: &[Logic]) {
    if !is_slice_eq(actual, expected, Logic::is_eq_physical) {
        panic!(
            "Error: {}({:?}) = {:?}, actually expected {:?}",
            name, input, actual, expected
        );
    }
}

fn logic(bit: isize) -> Logic {
    assert!(bit == 0 || bit == 1);
    Logic::from_int(bit)
}

fn bits<const L: usize>(integer: isize) -> [Logic; L] {
    Logic::to_bits::<L>(integer)
}

fn do_test_binary_op<const L: usize>(
    module_name: &str,
    eval: fn(bool, bool) -> bool,
) -> Result<(), SimError> {
    let modules = test_gates();
    let module = find_by_name(&modules, module_name)?;

    for (a, b) in [(0, 0), (0, 1), (1, 0), (1, 1)] {
        let port_a = module.get_in_port::<L>("a")?;
        let port_b = module.get_in_port::<L>("b")?;
        let port_y = module.get_out_port::<L>("y")?;
        let mut sim = Sim::create(module)?;

        sim.set(port_a, [logic(a); L]);
        sim.set(port_b, [logic(b); L]);
        sim.simulate()?;
        let y: [Logic; L] = sim.get(port_y);

        assert_in_out_expected(
            module_name,
            &[logic(a), logic(b)],
            &y,
            &[Logic::from_bool(eval(a > 0, b > 0)); L],
        );
    }

    Ok(())
}

#[test]
pub fn test_and() {
    do_test_binary_op::<1>("And", |a, b| a & b).unwrap();
}

#[test]
pub fn test_and2() {
    do_test_binary_op::<32>("And32", |a, b| a & b).unwrap();
}

#[test]
pub fn test_or() {
    do_test_binary_op::<1>("Or", |a, b| a | b).unwrap();
}

#[test]
pub fn test_or2() {
    do_test_binary_op::<32>("Or32", |a, b| a | b).unwrap();
}

#[test]
pub fn test_nand() {
    do_test_binary_op::<1>("Nand", |a, b| !(a & b)).unwrap();
}

#[test]
pub fn test_nor() {
    do_test_binary_op::<1>("Nor", |a, b| !(a | b)).unwrap();
}

#[test]
pub fn test_xor_family() {
    do_test_binary_op::<1>("Xor", |a, b| a ^ b).unwrap();
    do_test_binary_op::<1>("Xnor", |a, b| !(a ^ b)).unwrap();
    do_test_binary_op::<1>("AndNot", |a, b| a & !b).unwrap();
    do_test_binary_op::<1>("OrNot", |a, b| a | !b).unwrap();
}

#[test]
pub fn test_dff() {
    (|| -> Result<(), SimError> {
        let modules = test_gates();
        let module = find_by_name(&modules, "Dff")?;

        let port_c = module.get_in_port::<1>("c")?;
        let port_d = module.get_in_port::<2>("d")?;
        let port_q = module.get_out_port::<2>("q")?;
        let mut sim: Sim<'_> = Sim::create(module)?;

        assert_eq!(sim.get::<2>(port_q), [Logic::X; 2]);

        sim.set(port_c, [logic(0)]);
        sim.set(port_d, [logic(1), logic(0)]);
        sim.simulate()?;

        assert_eq!(sim.get::<2>(port_q), [Logic::X; 2]);

        sim.set(port_c, [logic(1)]);
        sim.simulate()?;

        assert_eq!(sim.get::<2>(port_q), [Logic::_1, Logic::_0]);

        sim.set(port_c, [logic(0)]);
        sim.set(port_d, [logic(0), logic(1)]);
        sim.simulate()?;

        sim.set(port_c, [logic(1)]);
        sim.simulate()?;

        assert_eq!(sim.get::<2>(port_q), [Logic::_0, Logic::_1]);

        Ok(())
    })()
    .unwrap()
}

#[test]
pub fn test_add() {
    (|| -> Result<(), SimError> {
        let modules = test_gates();
        let module = find_by_name(&modules, "Add")?;

        let port_a = module.get_in_port::<8>("a")?;
        let port_b = module.get_in_port::<8>("b")?;
        let port_y = module.get_out_port::<8>("y")?;
        let mut sim: Sim<'_> = Sim::create(module)?;

        for int_a in 0..15 {
            for int_b in 0..15 {
                let a = bits::<8>(int_a);
                let b = bits::<8>(int_b);
                let expected = bits::<8>(int_a + int_b);

                sim.set(port_a, a);
                sim.set(port_b, b);
                sim.simulate()?;

                assert_eq!(sim.get::<8>(port_y), expected);
            }
        }

        Ok(())
    })()
    .unwrap()
}

#[test]
fn add_wraps_and_covers_every_pair_of_nibbles() {
    let module = add_module();
    let port_a = module.get_in_port::<8>("a").unwrap();
    let port_b = module.get_in_port::<8>("b").unwrap();
    let port_y = module.get_out_port::<8>("y").unwrap();
    let mut sim = Sim::create(&module).unwrap();
    for int_a in 0..=15 {
        for int_b in 0..=15 {
            sim.set(port_a, bits::<8>(int_a));
            sim.set(port_b, bits::<8>(int_b));
            sim.simulate().unwrap();
            assert_eq!(sim.get::<8>(port_y), bits::<8>((int_a + int_b) % 256));
        }
    }
    sim.set(port_a, bits::<8>(200));
    sim.set(port_b, bits::<8>(100));
    sim.simulate().unwrap();
    assert_eq!(sim.get::<8>(port_y), bits::<8>(44));
}

#[test]
fn add_lets_an_unknown_bit_spread_through_the_carry() {
    let module = add_module();
    let port_a = module.get_in_port::<8>("a").unwrap();
    let port_b = module.get_in_port::<8>("b").unwrap();
    let port_y = module.get_out_port::<8>("y").unwrap();
    let mut sim = Sim::create(&module).unwrap();
    let mut a = bits::<8>(0b0000_0111);
    a[1] = Logic::X;
    sim.set(port_a, a);
    sim.set(port_b, bits::<8>(0b0000_0001));
    sim.simulate().unwrap();
    // 1 + 1 carries into bit 1; X + 0 + carry is unknown and its carry too;
    // bit 2: 1 + 0 + unknown carry is unknown, and so on until both addends are 0.
    assert_eq!(
        sim.get::<8>(port_y),
        [
            Logic::_0,
            Logic::X,
            Logic::X,
            Logic::X,
            Logic::_0,
            Logic::_0,
            Logic::_0,
            Logic::_0
        ]
    );
}

#[test]
fn mux_follows_a_known_select() {
    let module = mux_module();
    let port_a = module.get_in_port::<1>("a").unwrap();
    let port_b = module.get_in_port::<1>("b").unwrap();
    let port_s = module.get_in_port::<1>("s").unwrap();
    let port_y = module.get_out_port::<1>("y").unwrap();
    let mut sim = Sim::create(&module).unwrap();
    sim.set(port_a, [Logic::_0]);
    sim.set(port_b, [Logic::_1]);

    sim.set(port_s, [Logic::_0]);
    sim.simulate().unwrap();
    assert_eq!(sim.get::<1>(port_y), [Logic::_0]);

    sim.set(port_s, [Logic::_1]);
    sim.simulate().unwrap();
    assert_eq!(sim.get::<1>(port_y), [Logic::_1]);
}

#[test]
fn mux_with_unknown_select_keeps_only_what_both_inputs_agree_on() {
    let module = mux_module();
    let port_a = module.get_in_port::<1>("a").unwrap();
    let port_b = module.get_in_port::<1>("b").unwrap();
    let port_s = module.get_in_port::<1>("s").unwrap();
    let port_y = module.get_out_port::<1>("y").unwrap();
    let mut sim = Sim::create(&module).unwrap();
    let cases = [
        (Logic::_0, Logic::_1, Logic::X),
        (Logic::_1, Logic::_0, Logic::X),
        (Logic::_0, Logic::_0, Logic::_0),
        (Logic::_1, Logic::_1, Logic::_1),
        (Logic::X, Logic::_1, Logic::X),
        (Logic::_1, Logic::X, Logic::X),
        (Logic::X, Logic::X, Logic::X),
    ];
    for (a, b, expected) in cases {
        sim.set(port_a, [a]);
        sim.set(port_b, [b]);
        sim.set(port_s, [Logic::X]);
        sim.simulate().unwrap();
        assert_eq!(sim.get::<1>(port_y), [expected]);
    }
}

#[test]
fn chain_of_inverters_settles_in_one_frame_whatever_the_order_of_the_cells() {
    let module = not_chain_module(5);
    let port_a = module.get_in_port::<1>("a").unwrap();
    let port_y = module.get_out_port::<1>("y").unwrap();
    let mut sim = Sim::create(&module).unwrap();
    sim.set(port_a, [Logic::_0]);
    sim.simulate().unwrap();
    assert_eq!(sim.get::<1>(port_y), [Logic::_1]);
    sim.set(port_a, [Logic::_1]);
    sim.simulate().unwrap();
    assert_eq!(sim.get::<1>(port_y), [Logic::_0]);
    assert_eq!(sim.frame(), 2);
}

#[test]
fn buffer_cell_hands_its_input_on() {
    let module = Module {
        name: "Buf".to_string(),
        cells: vec![Cell::UnaryMapOpCell(UnaryMapOpCell {
            name: "buf".to_string(),
            op: UnaryMapOp::BUF,
            port_a: Port::from_wires_or_logic("A", inputs(0, 1)),
            port_y: Port::from_h_wires("Y", wires(1, 1)),
        })],
        in_ports: vec![Port::from_h_wires("a", wires(0, 1))],
        out_ports: vec![Port::from_h_wires("y", wires(1, 1))],
    };
    let port_a = module.get_in_port::<1>("a").unwrap();
    let port_y = module.get_out_port::<1>("y").unwrap();
    let mut sim = Sim::create(&module).unwrap();
    for value in [Logic::_0, Logic::_1, Logic::X] {
        sim.set(port_a, [value]);
        sim.simulate().unwrap();
        assert_eq!(sim.get::<1>(port_y), [value]);
    }
}

#[test]
fn ternary_gates_follow_their_boolean_functions() {
    let aoi = ternary_module("Aoi", TernaryMapOp::AND_OR_INV);
    let oai = ternary_module("Oai", TernaryMapOp::OR_AND_INV);
    for (module, eval) in [
        (&aoi, (|a, b, c| !((a & b) | c)) as fn(bool, bool, bool) -> bool),
        (&oai, (|a, b, c| !((a | b) & c)) as fn(bool, bool, bool) -> bool),
    ] {
        let port_a = module.get_in_port::<1>("a").unwrap();
        let port_b = module.get_in_port::<1>("b").unwrap();
        let port_c = module.get_in_port::<1>("c").unwrap();
        let port_y = module.get_out_port::<1>("y").unwrap();
        let mut sim = Sim::create(module).unwrap();
        for code in 0..8 {
            let (a, b, c) = (code & 1 > 0, code & 2 > 0, code & 4 > 0);
            sim.set(port_a, [Logic::from_bool(a)]);
            sim.set(port_b, [Logic::from_bool(b)]);
            sim.set(port_c, [Logic::from_bool(c)]);
            sim.simulate().unwrap();
            assert_eq!(sim.get::<1>(port_y), [Logic::from_bool(eval(a, b, c))]);
        }
    }
}

#[test]
fn tied_input_of_a_cell_is_read_as_its_value() {
    let module = Module {
        name: "AndOne".to_string(),
        cells: vec![Cell::BinaryMapOpCell(BinaryMapOpCell {
            name: "and".to_string(),
            op: BinaryMapOp::AND,
            port_a: Port::from_wires_or_logic("A", inputs(0, 1)),
            port_b: Port::from_wires_or_logic("B", vec![HWireOrLogic::Logic(Logic::_1)]),
            port_y: Port::from_h_wires("Y", wires(1, 1)),
        })],
        in_ports: vec![Port::from_h_wires("a", wires(0, 1))],
        out_ports: vec![Port::from_h_wires("y", wires(1, 1))],
    };
    let port_a = module.get_in_port::<1>("a").unwrap();
    let port_y = module.get_out_port::<1>("y").unwrap();
    let mut sim = Sim::create(&module).unwrap();
    sim.set(port_a, [Logic::_1]);
    sim.simulate().unwrap();
    assert_eq!(sim.get::<1>(port_y), [Logic::_1]);
    sim.set(port_a, [Logic::_0]);
    sim.simulate().unwrap();
    assert_eq!(sim.get::<1>(port_y), [Logic::_0]);
}
