use yosys_isim::common::find_by_name;
use yosys_isim::common::SimError;
use yosys_isim::model::BinaryMapOpCell;
use yosys_isim::model::Cell;
use yosys_isim::model::DFlipFlopCell;
use yosys_isim::model::Edge;
use yosys_isim::model::HWire;
use yosys_isim::model::HWireOrLogic;
use yosys_isim::model::Logic;
use yosys_isim::model::Module;
use yosys_isim::model::MuxCell;
use yosys_isim::model::Port;
use yosys_isim::model::UnaryMapOpCell;
use yosys_isim::ops::BinaryMapOp;
use yosys_isim::ops::UnaryMapOp;
use yosys_isim::sim::Sim;

const CLK: HWire = 0;
const WRITE_ENABLE: HWire = 1;
const ADDR: HWire = 2;
const DATA_IN: HWire = 6;
const DATA_OUT: HWire = 7;

struct Builder {
    cells: Vec<Cell>,
    next_wire: HWire,
}

impl Builder {
    fn wire(&mut self) -> HWire {
        self.next_wire += 1;
        self.next_wire - 1
    }

    fn input(h_wire: HWire) -> Port<yosys_isim::model::In, HWireOrLogic> {
        Port::from_wires_or_logic("I", vec![HWireOrLogic::HWire(h_wire)])
    }

    fn not(&mut self, a: HWire) -> HWire {
        let y = self.wire();
        self.cells.push(Cell::UnaryMapOpCell(UnaryMapOpCell {
            name: format!("not_{}", y),
            op: UnaryMapOp::NOT,
            port_a: Self::input(a),
            port_y: Port::from_h_wires("Y", vec![y]),
        }));
        y
    }

    fn and(&mut self, a: HWire, b: HWire) -> HWire {
        let y = self.wire();
        self.cells.push(Cell::BinaryMapOpCell(BinaryMapOpCell {
            name: format!("and_{}", y),
            op: BinaryMapOp::AND,
            port_a: Self::input(a),
            port_b: Self::input(b),
            port_y: Port::from_h_wires("Y", vec![y]),
        }));
        y
    }

    fn mux_into(&mut self, a: HWire, b: HWire, s: HWire, y: HWire) {
        self.cells.push(Cell::MuxCell(MuxCell {
            name: format!("mux_{}", y),
            port_a: Self::input(a),
            port_b: Self::input(b),
            port_s: Self::input(s),
            port_y: Port::from_h_wires("Y", vec![y]),
        }));
    }

    fn mux(&mut self, a: HWire, b: HWire, s: HWire) -> HWire {
        let y = self.wire();
        self.mux_into(a, b, s, y);
        y
    }

    fn dff_into(&mut self, d: HWire, q: HWire) {
        self.cells.push(Cell::DFlipFlopCell(DFlipFlopCell {
            name: format!("dff_{}", q),
            polarity: Edge::POSITIVE,
            port_clk: Self::input(CLK),
            port_d: Self::input(d),
            port_q: Port::from_h_wires("Q", vec![q]),
        }));
    }
}

/// A memory of sixteen bits: what stands on `data_in` is taken over by the
/// bit that `addr` selects on the rising clock while `write_enable` is
/// high, and `data_out` shows the bit that `addr` selects.
fn test_bit_mem() -> Vec<Module> {
    let mut b = Builder { cells: Vec::new(), next_wire: 8 };
    let addr: Vec<HWire> = (0..4).map(|bit| ADDR + bit).collect();
    let not_addr: Vec<HWire> = addr.iter().map(|h_wire| b.not(*h_wire)).collect();
    let mut level: Vec<HWire> = Vec::new();
    for word in 0..16usize {
        let q = b.wire();
        let mut select = WRITE_ENABLE;
        for bit in 0..4 {
            let literal = if word >> bit & 1 == 1 { addr[bit] } else { not_addr[bit] };
            select = b.and(select, literal);
        }
        let d = b.mux(q, DATA_IN, select);
        b.dff_into(d, q);
        level.push(q);
    }
    for bit in 0..4 {
        let mut next = Vec::new();
        for pair in 0..level.len() / 2 {
            if level.len() == 2 {
                b.mux_into(level[0], level[1], addr[bit], DATA_OUT);
            } else {
                next.push(b.mux(level[2 * pair], level[2 * pair + 1], addr[bit]));
            }
        }
        level = next;
    }
    vec![Module {
        name: "test_bit_mem".to_string(),
        cells: b.cells,
        in_ports: vec![
            Port::from_h_wires("clk", vec![CLK]),
            Port::from_h_wires("write_enable", vec![WRITE_ENABLE]),
            Port::from_h_wires("addr", vec![ADDR, ADDR + 1, ADDR + 2, ADDR + 3]),
            Port::from_h_wires("data_in", vec![DATA_IN]),
        ],
        out_ports: vec![Port::from_h_wires("data_out", vec![DATA_OUT])],
    }]
}

fn logic(bit: isize) -> Logic {
    Logic::from_int(bit)
}

#[test]
pub fn foo() {
    || -> Result<(), SimError> {
        let modules = test_bit_mem();
        let module = find_by_name(&modules, "test_bit_mem")?;
        let _clk = module.get_in_port::<1>("clk")?;
        let write_enable = module.get_in_port::<1>("write_enable")?;
        let addr = module.get_in_port::<4>("addr")?;
        let data_in = module.get_in_port::<1>("data_in")?;
        let _data_out = module.get_out_port::<1>("data_out")?;
        let mut sim = Sim::create(module)?;

        sim.set(addr, [logic(1), logic(0), logic(0), logic(0)]);
        sim.set(data_in, [logic(1)]);
        sim.simulate()?;

        sim.set(write_enable, [logic(1)]);
        sim.simulate()?;
        sim.set(write_enable, [logic(0)]);

        Ok(())
    }()
    .unwrap()
}

fn clock(sim: &mut Sim) {
    sim.set_by_name("clk", &[Logic::_0]).unwrap();
    sim.simulate().unwrap();
    sim.set_by_name("clk", &[Logic::_1]).unwrap();
    sim.simulate().unwrap();
}

fn address(sim: &mut Sim, word: isize) {
    sim.set_by_name("addr", &Logic::to_bits::<4>(word)).unwrap();
}

#[test]
fn memory_keeps_what_was_written_to_each_word() {
    let modules = test_bit_mem();
    let module = &modules[0];
    let mut sim = Sim::create(module).unwrap();
    let pattern = |word: isize| Logic::from_bool((word * 7 + 3) % 5 < 2);

    sim.set_by_name("write_enable", &[Logic::_1]).unwrap();
    for word in 0..16 {
        address(&mut sim, word);
        sim.set_by_name("data_in", &[pattern(word)]).unwrap();
        clock(&mut sim);
        assert_eq!(sim.get_by_name("data_out", 1), Ok(vec![pattern(word)]));
    }

    sim.set_by_name("write_enable", &[Logic::_0]).unwrap();
    sim.set_by_name("data_in", &[Logic::X]).unwrap();
    for word in 0..16 {
        address(&mut sim, word);
        clock(&mut sim);
        assert_eq!(sim.get_by_name("data_out", 1), Ok(vec![pattern(word)]));
    }
}

#[test]
fn a_word_that_was_never_written_reads_unknown() {
    let modules = test_bit_mem();
    let mut sim = Sim::create(&modules[0]).unwrap();
    sim.set_by_name("write_enable", &[Logic::_1]).unwrap();
    sim.set_by_name("data_in", &[Logic::_1]).unwrap();
    address(&mut sim, 5);
    clock(&mut sim);
    assert_eq!(sim.get_by_name("data_out", 1), Ok(vec![Logic::_1]));
    address(&mut sim, 6);
    sim.set_by_name("write_enable", &[Logic::_0]).unwrap();
    sim.simulate().unwrap();
    assert_eq!(sim.get_by_name("data_out", 1), Ok(vec![Logic::X]));
}
