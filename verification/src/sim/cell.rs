use crate::model::AddCell;
use crate::model::BinaryMapOpCell;
use crate::model::Cell;
use crate::model::CellInPort;
use crate::model::CellOutPort;
use crate::model::DFlipFlopCell;
use crate::model::Edge;
use crate::model::HWire;
use crate::model::HWireOrLogic;
use crate::model::Logic;
use crate::model::MuxCell;
use crate::model::TernaryMapOpCell;
use crate::model::UnaryMapOpCell;
use crate::ops::lemma_and_values;
use crate::ops::lemma_or_values;
use crate::ops::lemma_xor_values;
use crate::ops::BinaryMapOp;
use crate::ops::TernaryMapOp;
use crate::ops::UnaryMapOp;
use crate::sim::state::paired;
use crate::sim::state::read_edges;
use crate::sim::state::read_inputs;
use crate::sim::state::wires_below;
use crate::sim::state::write_wires;
use crate::sim::SimState;
use crate::sim::StateRef;
use crate::sim::WireState;
use vstd::prelude::*;

verus! {

/// An operator of one operand, element by element.
pub open spec fn map_unary(op: UnaryMapOp, a: Seq<Logic>) -> Seq<Logic> {
    Seq::new(a.len(), |i: int| op.lift(a[i]))
}

/// An operator of two operands, element by element.
pub open spec fn map_binary(op: BinaryMapOp, a: Seq<Logic>, b: Seq<Logic>) -> Seq<Logic> {
    Seq::new(a.len(), |i: int| op.lift(a[i], b[i]))
}

/// An operator of three operands, element by element.
pub open spec fn map_ternary(op: TernaryMapOp, a: Seq<Logic>, b: Seq<Logic>, c: Seq<Logic>) -> Seq<
    Logic,
> {
    Seq::new(a.len(), |i: int| op.lift(a[i], b[i], c[i]))
}

/// The carry that goes into position `i` of a sum: none into the lowest
/// position, then what the full adder below hands up.
pub open spec fn carry_into(a: Seq<Logic>, b: Seq<Logic>, i: int) -> Logic
    decreases i,
{
    if i <= 0 {
        Logic::_0
    } else {
        let a_xor_b = BinaryMapOp::XOR.lift(a[i - 1], b[i - 1]);
        BinaryMapOp::OR.lift(
            BinaryMapOp::AND.lift(a_xor_b, carry_into(a, b, i - 1)),
            BinaryMapOp::AND.lift(a[i - 1], b[i - 1]),
        )
    }
}

/// The sum of two numbers given lowest bit first, as wide as the first.
pub open spec fn ripple_sum(a: Seq<Logic>, b: Seq<Logic>) -> Seq<Logic> {
    Seq::new(
        a.len(),
        |i: int| BinaryMapOp::XOR.lift(BinaryMapOp::XOR.lift(a[i], b[i]), carry_into(a, b, i)),
    )
}

/// What the sum of two integers halved `position` times has above the sum
/// of the integers halved as often: the carry into the position, 0 or 1.
pub open spec fn carry_of(a: int, b: int, position: nat) -> int {
    Logic::halved(a + b, position) - Logic::halved(a, position) - Logic::halved(b, position)
}

/// The carry that ripples through the adder is the carry of the integers
/// that the bits stand for, at every position.
pub proof fn lemma_carry(a: int, b: int, width: nat, position: nat)
    requires
        position <= width,
    ensures
        0 <= carry_of(a, b, position) <= 1,
        carry_into(Logic::bits_of(a, width), Logic::bits_of(b, width), position as int)
            == Logic::of_bool(carry_of(a, b, position) == 1),
    decreases position,
{
    if position > 0 {
        let below = (position - 1) as nat;
        lemma_carry(a, b, width, below);
        let bits_a = Logic::bits_of(a, width);
        let bits_b = Logic::bits_of(b, width);
        let carry = carry_into(bits_a, bits_b, below as int);
        lemma_xor_values(bits_a[below as int], bits_b[below as int]);
        let a_xor_b = BinaryMapOp::XOR.lift(bits_a[below as int], bits_b[below as int]);
        lemma_and_values(a_xor_b, carry);
        lemma_and_values(bits_a[below as int], bits_b[below as int]);
        lemma_or_values(
            BinaryMapOp::AND.lift(a_xor_b, carry),
            BinaryMapOp::AND.lift(bits_a[below as int], bits_b[below as int]),
        );
    }
}

/// The ripple-carry adder adds: the sum of the bits of two integers is the
/// bits of the sum of the integers, at every width.
pub proof fn lemma_ripple_sum_adds(a: int, b: int, width: nat)
    ensures
        ripple_sum(Logic::bits_of(a, width), Logic::bits_of(b, width)) == Logic::bits_of(
            a + b,
            width,
        ),
{
    let bits_a = Logic::bits_of(a, width);
    let bits_b = Logic::bits_of(b, width);
    let sum = ripple_sum(bits_a, bits_b);
    assert forall|i: int| 0 <= i < width implies sum[i] == Logic::bits_of(a + b, width)[i] by {
        lemma_carry(a, b, width, i as nat);
        lemma_xor_values(bits_a[i], bits_b[i]);
        lemma_xor_values(
            BinaryMapOp::XOR.lift(bits_a[i], bits_b[i]),
            carry_into(bits_a, bits_b, i),
        );
    }
    assert(sum =~= Logic::bits_of(a + b, width));
}

/// The boolean multiplexer: the first operand where the select is low, the
/// second where it is high.
pub open spec fn pick(a: bool, b: bool, s: bool) -> bool {
    if s {
        b
    } else {
        a
    }
}

/// The multiplexer on logic values: the one outcome where the operands and
/// the select leave no choice, unknown where the outcome depends on what an
/// unknown one stands for.
pub open spec fn mux_value(a: Logic, b: Logic, s: Logic) -> Logic {
    if forall|x: bool, y: bool, z: bool|
        #![trigger pick(x, y, z)]
        a.admits(x) && b.admits(y) && s.admits(z) ==> pick(x, y, z) {
        Logic::_1
    } else if forall|x: bool, y: bool, z: bool|
        #![trigger pick(x, y, z)]
        a.admits(x) && b.admits(y) && s.admits(z) ==> !pick(x, y, z) {
        Logic::_0
    } else {
        Logic::X
    }
}

/// The multiplexer, element by element under one select.
pub open spec fn map_mux(a: Seq<Logic>, b: Seq<Logic>, s: Logic) -> Seq<Logic> {
    Seq::new(a.len(), |i: int| mux_value(a[i], b[i], s))
}

/// The multiplexer, value by value: a low select hands on the first operand, a
/// high select the second, and an unknown select what both operands agree on,
/// which is unknown where they differ or one of them is unknown.
pub proof fn lemma_mux_values(a: Logic, b: Logic, s: Logic)
    ensures
        mux_value(a, b, s) == match s {
            Logic::_0 => a,
            Logic::_1 => b,
            Logic::X => if a == b {
                a
            } else {
                Logic::X
            },
        },
{
    assert(pick(true, true, true) == true);
    assert(pick(true, true, false) == true);
    assert(pick(true, false, true) == false);
    assert(pick(true, false, false) == true);
    assert(pick(false, true, true) == true);
    assert(pick(false, true, false) == false);
    assert(pick(false, false, true) == false);
    assert(pick(false, false, false) == false);
}

/// What the simulation of a cell has in common over all kinds of cells.
pub trait CellSimModel {
    /// The widths of the ports fit the kind of cell, and every wire of the
    /// cell lies below the bound.
    spec fn fits(&self, num_wires: nat) -> bool;

    /// The input ports, in the order of the kind of cell.
    spec fn in_port_seq(&self) -> Seq<CellInPort>;

    /// The output ports.
    spec fn out_port_seq(&self) -> Seq<CellOutPort>;

    /// The wires and the waiting writes after the cell ran once.
    spec fn step(&self, state: WireState) -> WireState;

    /// The characters of the cell's name.
    spec fn name_chars(&self) -> Seq<char>;

    fn name(&self) -> (name: &str)
        ensures
            name@ == self.name_chars(),
    ;

    fn in_ports(&self) -> (ports: Vec<&CellInPort>)
        ensures
            ports@.len() == self.in_port_seq().len(),
            forall|i: int| 0 <= i < ports@.len() ==> *ports@[i] == self.in_port_seq()[i],
    ;

    fn out_ports(&self) -> (ports: Vec<&CellOutPort>)
        ensures
            ports@.len() == self.out_port_seq().len(),
            forall|i: int| 0 <= i < ports@.len() ==> *ports@[i] == self.out_port_seq()[i],
    ;

    fn simulate(&self, sim: &mut SimState)
        requires
            old(sim).wf(),
            self.fits(old(sim).num_wires()),
        ensures
            final(sim)@ == self.step(old(sim)@),
            final(sim).wf(),
            final(sim).num_wires() == old(sim).num_wires(),
            final(sim).ops == old(sim).ops,
    ;
}

/// A buffer of `len` unknown values.
fn unknowns(len: usize) -> (buffer: Vec<Logic>)
    ensures
        buffer@.len() == len,
{
    let mut buffer: Vec<Logic> = Vec::new();
    let mut i: usize = 0;
    while i < len
        invariant
            i <= len,
            buffer@.len() == i,
        decreases len - i,
    {
        buffer.push(Logic::X);
        i += 1;
    }
    buffer
}

impl CellSimModel for UnaryMapOpCell {
    open spec fn fits(&self, num_wires: nat) -> bool {
        &&& self.wf()
        &&& self.port_a.below(num_wires)
        &&& self.port_y.below(num_wires)
    }

    open spec fn in_port_seq(&self) -> Seq<CellInPort> {
        seq![self.port_a]
    }

    open spec fn out_port_seq(&self) -> Seq<CellOutPort> {
        seq![self.port_y]
    }

    open spec fn step(&self, state: WireState) -> WireState {
        WireState {
            cur: write_wires(
                state.cur,
                self.port_y.wires@,
                map_unary(self.op, read_inputs(state.cur, self.port_a.wires@)),
            ),
            ..state
        }
    }

    open spec fn name_chars(&self) -> Seq<char> {
        self.name@
    }

    fn name(&self) -> (name: &str) {
        self.name.as_str()
    }

    fn in_ports(&self) -> (ports: Vec<&CellInPort>) {
        let mut ports: Vec<&CellInPort> = Vec::new();
        ports.push(&self.port_a);
        ports
    }

    fn out_ports(&self) -> (ports: Vec<&CellOutPort>) {
        let mut ports: Vec<&CellOutPort> = Vec::new();
        ports.push(&self.port_y);
        ports
    }

    fn simulate(&self, sim: &mut SimState) {
        let a_wires = self.port_a.items();
        let y_wires = self.port_y.items();
        let mut a: Vec<Logic> = unknowns(a_wires.len());
        let mut y: Vec<Logic> = unknowns(y_wires.len());

        sim.get_wires_or_logic(StateRef::Cur, a_wires, a.as_mut_slice());

        let mut i: usize = 0;
        while i < a.len()
            invariant
                i <= a@.len(),
                a@.len() == y@.len(),
                sim.ops.wf(),
                forall|k: int| 0 <= k < i ==> y@[k] == self.op.lift(a@[k]),
            decreases a@.len() - i,
        {
            y[i] = sim.ops.apply_unary(self.op, a[i]);
            i += 1;
        }
        assert(y@ == map_unary(self.op, a@));
        sim.set_wires(StateRef::Cur, y_wires, y.as_slice());
    }
}

impl CellSimModel for BinaryMapOpCell {
    open spec fn fits(&self, num_wires: nat) -> bool {
        &&& self.wf()
        &&& self.port_a.below(num_wires)
        &&& self.port_b.below(num_wires)
        &&& self.port_y.below(num_wires)
    }

    open spec fn in_port_seq(&self) -> Seq<CellInPort> {
        seq![self.port_a, self.port_b]
    }

    open spec fn out_port_seq(&self) -> Seq<CellOutPort> {
        seq![self.port_y]
    }

    open spec fn step(&self, state: WireState) -> WireState {
        WireState {
            cur: write_wires(
                state.cur,
                self.port_y.wires@,
                map_binary(
                    self.op,
                    read_inputs(state.cur, self.port_a.wires@),
                    read_inputs(state.cur, self.port_b.wires@),
                ),
            ),
            ..state
        }
    }

    open spec fn name_chars(&self) -> Seq<char> {
        self.name@
    }

    fn name(&self) -> (name: &str) {
        self.name.as_str()
    }

    fn in_ports(&self) -> (ports: Vec<&CellInPort>) {
        let mut ports: Vec<&CellInPort> = Vec::new();
        ports.push(&self.port_a);
        ports.push(&self.port_b);
        ports
    }

    fn out_ports(&self) -> (ports: Vec<&CellOutPort>) {
        let mut ports: Vec<&CellOutPort> = Vec::new();
        ports.push(&self.port_y);
        ports
    }

    fn simulate(&self, sim: &mut SimState) {
        let a_wires = self.port_a.items();
        let b_wires = self.port_b.items();
        let y_wires = self.port_y.items();
        let mut a: Vec<Logic> = unknowns(a_wires.len());
        let mut b: Vec<Logic> = unknowns(b_wires.len());
        let mut y: Vec<Logic> = unknowns(y_wires.len());

        sim.get_wires_or_logic(StateRef::Cur, a_wires, a.as_mut_slice());
        sim.get_wires_or_logic(StateRef::Cur, b_wires, b.as_mut_slice());

        let mut i: usize = 0;
        while i < a.len()
            invariant
                i <= a@.len(),
                a@.len() == y@.len(),
                b@.len() == y@.len(),
                sim.ops.wf(),
                forall|k: int| 0 <= k < i ==> y@[k] == self.op.lift(a@[k], b@[k]),
            decreases a@.len() - i,
        {
            y[i] = sim.ops.apply_binary(self.op, a[i], b[i]);
            i += 1;
        }
        assert(y@ == map_binary(self.op, a@, b@));
        sim.set_wires(StateRef::Cur, y_wires, y.as_slice());
    }
}

impl CellSimModel for DFlipFlopCell {
    open spec fn fits(&self, num_wires: nat) -> bool {
        &&& self.wf()
        &&& self.port_clk.below(num_wires)
        &&& self.port_d.below(num_wires)
        &&& self.port_q.below(num_wires)
    }

    open spec fn in_port_seq(&self) -> Seq<CellInPort> {
        seq![self.port_clk, self.port_d]
    }

    open spec fn out_port_seq(&self) -> Seq<CellOutPort> {
        seq![self.port_q]
    }

    open spec fn step(&self, state: WireState) -> WireState {
        if self.triggers(state) {
            WireState {
                deferred: state.deferred + paired(
                    self.port_q.wires@,
                    read_inputs(state.cur, self.port_d.wires@),
                ),
                ..state
            }
        } else {
            state
        }
    }

    open spec fn name_chars(&self) -> Seq<char> {
        self.name@
    }

    fn name(&self) -> (name: &str) {
        self.name.as_str()
    }

    fn in_ports(&self) -> (ports: Vec<&CellInPort>) {
        let mut ports: Vec<&CellInPort> = Vec::new();
        ports.push(&self.port_clk);
        ports.push(&self.port_d);
        ports
    }

    fn out_ports(&self) -> (ports: Vec<&CellOutPort>) {
        let mut ports: Vec<&CellOutPort> = Vec::new();
        ports.push(&self.port_q);
        ports
    }

    fn simulate(&self, sim: &mut SimState) {
        let clk_wires = self.port_clk.items();
        let mut clk: [Edge; 1] = [Edge::X; 1];
        sim.get_edges(clk_wires, &mut clk);

        match clk[0] {
            Edge::NONE => (),
            Edge::X => (),
            Edge::POSITIVE | Edge::NEGATIVE => {
                if clk[0] == self.polarity {
                    let d_wires = self.port_d.items();
                    let q_wires = self.port_q.items();
                    let mut d: Vec<Logic> = unknowns(d_wires.len());
                    sim.get_wires_or_logic(StateRef::Cur, d_wires, d.as_mut_slice());
                    sim.set_wires_deferred(q_wires, d.as_slice());
                }
            },
        }
    }
}

impl DFlipFlopCell {
    /// The clock shows the edge that the flip-flop waits for. An unknown
    /// clock, or one that does not move, never does.
    pub open spec fn triggers(&self, state: WireState) -> bool {
        let edge = read_edges(state.prev, state.cur, self.port_clk.wires@)[0];
        (edge == Edge::POSITIVE || edge == Edge::NEGATIVE) && edge == self.polarity
    }
}

impl CellSimModel for AddCell {
    open spec fn fits(&self, num_wires: nat) -> bool {
        &&& self.wf()
        &&& self.port_a.below(num_wires)
        &&& self.port_b.below(num_wires)
        &&& self.port_y.below(num_wires)
    }

    open spec fn in_port_seq(&self) -> Seq<CellInPort> {
        seq![self.port_a, self.port_b]
    }

    open spec fn out_port_seq(&self) -> Seq<CellOutPort> {
        seq![self.port_y]
    }

    open spec fn step(&self, state: WireState) -> WireState {
        WireState {
            cur: write_wires(
                state.cur,
                self.port_y.wires@,
                ripple_sum(
                    read_inputs(state.cur, self.port_a.wires@),
                    read_inputs(state.cur, self.port_b.wires@),
                ),
            ),
            ..state
        }
    }

    open spec fn name_chars(&self) -> Seq<char> {
        self.name@
    }

    fn name(&self) -> (name: &str) {
        self.name.as_str()
    }

    fn in_ports(&self) -> (ports: Vec<&CellInPort>) {
        let mut ports: Vec<&CellInPort> = Vec::new();
        ports.push(&self.port_a);
        ports.push(&self.port_b);
        ports
    }

    fn out_ports(&self) -> (ports: Vec<&CellOutPort>) {
        let mut ports: Vec<&CellOutPort> = Vec::new();
        ports.push(&self.port_y);
        ports
    }

    fn simulate(&self, sim: &mut SimState) {
        let a_wires = self.port_a.items();
        let b_wires = self.port_b.items();
        let y_wires = self.port_y.items();
        let mut a: Vec<Logic> = unknowns(a_wires.len());
        let mut b: Vec<Logic> = unknowns(b_wires.len());
        let mut y: Vec<Logic> = unknowns(y_wires.len());

        sim.get_wires_or_logic(StateRef::Cur, a_wires, a.as_mut_slice());
        sim.get_wires_or_logic(StateRef::Cur, b_wires, b.as_mut_slice());

        let mut c = Logic::_0;

        let mut i: usize = 0;
        while i < y.len()
            invariant
                i <= y@.len(),
                a@.len() == y@.len(),
                b@.len() == y@.len(),
                sim.ops.wf(),
                c == carry_into(a@, b@, i as int),
                forall|k: int|
                    0 <= k < i ==> y@[k] == BinaryMapOp::XOR.lift(
                        BinaryMapOp::XOR.lift(a@[k], b@[k]),
                        carry_into(a@, b@, k),
                    ),
            decreases y@.len() - i,
        {
            let a_xor_b = sim.ops.apply_binary(BinaryMapOp::XOR, a[i], b[i]);
            y[i] = sim.ops.apply_binary(BinaryMapOp::XOR, a_xor_b, c);
            c =
            sim.ops.apply_binary(
                BinaryMapOp::OR,
                sim.ops.apply_binary(BinaryMapOp::AND, a_xor_b, c),
                sim.ops.apply_binary(BinaryMapOp::AND, a[i], b[i]),
            );
            i += 1;
        }
        assert(y@ == ripple_sum(a@, b@));
        sim.set_wires(StateRef::Cur, y_wires, y.as_slice());
    }
}

impl CellSimModel for TernaryMapOpCell {
    open spec fn fits(&self, num_wires: nat) -> bool {
        &&& self.wf()
        &&& self.port_a.below(num_wires)
        &&& self.port_b.below(num_wires)
        &&& self.port_c.below(num_wires)
        &&& self.port_y.below(num_wires)
    }

    open spec fn in_port_seq(&self) -> Seq<CellInPort> {
        seq![self.port_a, self.port_b, self.port_c]
    }

    open spec fn out_port_seq(&self) -> Seq<CellOutPort> {
        seq![self.port_y]
    }

    open spec fn step(&self, state: WireState) -> WireState {
        WireState {
            cur: write_wires(
                state.cur,
                self.port_y.wires@,
                map_ternary(
                    self.op,
                    read_inputs(state.cur, self.port_a.wires@),
                    read_inputs(state.cur, self.port_b.wires@),
                    read_inputs(state.cur, self.port_c.wires@),
                ),
            ),
            ..state
        }
    }

    open spec fn name_chars(&self) -> Seq<char> {
        self.name@
    }

    fn name(&self) -> (name: &str) {
        self.name.as_str()
    }

    fn in_ports(&self) -> (ports: Vec<&CellInPort>) {
        let mut ports: Vec<&CellInPort> = Vec::new();
        ports.push(&self.port_a);
        ports.push(&self.port_b);
        ports.push(&self.port_c);
        ports
    }

    fn out_ports(&self) -> (ports: Vec<&CellOutPort>) {
        let mut ports: Vec<&CellOutPort> = Vec::new();
        ports.push(&self.port_y);
        ports
    }

    fn simulate(&self, sim: &mut SimState) {
        let a_wires = self.port_a.items();
        let b_wires = self.port_b.items();
        let c_wires = self.port_c.items();
        let y_wires = self.port_y.items();
        let mut a: Vec<Logic> = unknowns(a_wires.len());
        let mut b: Vec<Logic> = unknowns(b_wires.len());
        let mut c: Vec<Logic> = unknowns(c_wires.len());
        let mut y: Vec<Logic> = unknowns(y_wires.len());

        sim.get_wires_or_logic(StateRef::Cur, a_wires, a.as_mut_slice());
        sim.get_wires_or_logic(StateRef::Cur, b_wires, b.as_mut_slice());
        sim.get_wires_or_logic(StateRef::Cur, c_wires, c.as_mut_slice());

        let mut i: usize = 0;
        while i < y.len()
            invariant
                i <= y@.len(),
                a@.len() == y@.len(),
                b@.len() == y@.len(),
                c@.len() == y@.len(),
                sim.ops.wf(),
                forall|k: int| 0 <= k < i ==> y@[k] == self.op.lift(a@[k], b@[k], c@[k]),
            decreases y@.len() - i,
        {
            y[i] = sim.ops.apply_ternary(self.op, a[i], b[i], c[i]);
            i += 1;
        }
        assert(y@ == map_ternary(self.op, a@, b@, c@));
        sim.set_wires(StateRef::Cur, y_wires, y.as_slice());
    }
}

impl CellSimModel for MuxCell {
    open spec fn fits(&self, num_wires: nat) -> bool {
        &&& self.wf()
        &&& self.port_a.below(num_wires)
        &&& self.port_b.below(num_wires)
        &&& self.port_s.below(num_wires)
        &&& self.port_y.below(num_wires)
    }

    open spec fn in_port_seq(&self) -> Seq<CellInPort> {
        seq![self.port_a, self.port_b, self.port_s]
    }

    open spec fn out_port_seq(&self) -> Seq<CellOutPort> {
        seq![self.port_y]
    }

    open spec fn step(&self, state: WireState) -> WireState {
        WireState {
            cur: write_wires(
                state.cur,
                self.port_y.wires@,
                map_mux(
                    read_inputs(state.cur, self.port_a.wires@),
                    read_inputs(state.cur, self.port_b.wires@),
                    read_inputs(state.cur, self.port_s.wires@)[0],
                ),
            ),
            ..state
        }
    }

    open spec fn name_chars(&self) -> Seq<char> {
        self.name@
    }

    fn name(&self) -> (name: &str) {
        self.name.as_str()
    }

    fn in_ports(&self) -> (ports: Vec<&CellInPort>) {
        let mut ports: Vec<&CellInPort> = Vec::new();
        ports.push(&self.port_a);
        ports.push(&self.port_b);
        ports.push(&self.port_s);
        ports
    }

    fn out_ports(&self) -> (ports: Vec<&CellOutPort>) {
        let mut ports: Vec<&CellOutPort> = Vec::new();
        ports.push(&self.port_y);
        ports
    }

    fn simulate(&self, sim: &mut SimState) {
        let a_wires = self.port_a.items();
        let b_wires = self.port_b.items();
        let s_wires = self.port_s.items();
        let y_wires = self.port_y.items();
        let mut a: Vec<Logic> = unknowns(a_wires.len());
        let mut b: Vec<Logic> = unknowns(b_wires.len());
        let mut s: Vec<Logic> = unknowns(1);
        let mut y: Vec<Logic> = unknowns(y_wires.len());

        sim.get_wires_or_logic(StateRef::Cur, s_wires, s.as_mut_slice());
        sim.get_wires_or_logic(StateRef::Cur, a_wires, a.as_mut_slice());
        sim.get_wires_or_logic(StateRef::Cur, b_wires, b.as_mut_slice());

        let select = s[0];
        let mut i: usize = 0;
        while i < y.len()
            invariant
                i <= y@.len(),
                a@.len() == y@.len(),
                b@.len() == y@.len(),
                forall|k: int| 0 <= k < i ==> y@[k] == mux_value(a@[k], b@[k], select),
            decreases y@.len() - i,
        {
            proof {
                lemma_mux_values(a@[i as int], b@[i as int], select);
            }
            y[i] = match select {
                Logic::_0 => a[i],
                Logic::_1 => b[i],
                Logic::X => if Logic::is_eq_logical(a[i], b[i]) {
                    a[i]
                } else {
                    Logic::X
                },
            };
            i += 1;
        }
        assert(y@ == map_mux(a@, b@, select));
        sim.set_wires(StateRef::Cur, y_wires, y.as_slice());
    }
}

impl CellSimModel for Cell {
    open spec fn fits(&self, num_wires: nat) -> bool {
        match self {
            Cell::UnaryMapOpCell(cell) => cell.fits(num_wires),
            Cell::BinaryMapOpCell(cell) => cell.fits(num_wires),
            Cell::TernaryMapOpCell(cell) => cell.fits(num_wires),
            Cell::DFlipFlopCell(cell) => cell.fits(num_wires),
            Cell::AddCell(cell) => cell.fits(num_wires),
            Cell::MuxCell(cell) => cell.fits(num_wires),
        }
    }

    open spec fn in_port_seq(&self) -> Seq<CellInPort> {
        match self {
            Cell::UnaryMapOpCell(cell) => cell.in_port_seq(),
            Cell::BinaryMapOpCell(cell) => cell.in_port_seq(),
            Cell::TernaryMapOpCell(cell) => cell.in_port_seq(),
            Cell::DFlipFlopCell(cell) => cell.in_port_seq(),
            Cell::AddCell(cell) => cell.in_port_seq(),
            Cell::MuxCell(cell) => cell.in_port_seq(),
        }
    }

    open spec fn out_port_seq(&self) -> Seq<CellOutPort> {
        match self {
            Cell::UnaryMapOpCell(cell) => cell.out_port_seq(),
            Cell::BinaryMapOpCell(cell) => cell.out_port_seq(),
            Cell::TernaryMapOpCell(cell) => cell.out_port_seq(),
            Cell::DFlipFlopCell(cell) => cell.out_port_seq(),
            Cell::AddCell(cell) => cell.out_port_seq(),
            Cell::MuxCell(cell) => cell.out_port_seq(),
        }
    }

    open spec fn step(&self, state: WireState) -> WireState {
        match self {
            Cell::UnaryMapOpCell(cell) => cell.step(state),
            Cell::BinaryMapOpCell(cell) => cell.step(state),
            Cell::TernaryMapOpCell(cell) => cell.step(state),
            Cell::DFlipFlopCell(cell) => cell.step(state),
            Cell::AddCell(cell) => cell.step(state),
            Cell::MuxCell(cell) => cell.step(state),
        }
    }

    open spec fn name_chars(&self) -> Seq<char> {
        match self {
            Cell::UnaryMapOpCell(cell) => cell.name_chars(),
            Cell::BinaryMapOpCell(cell) => cell.name_chars(),
            Cell::TernaryMapOpCell(cell) => cell.name_chars(),
            Cell::DFlipFlopCell(cell) => cell.name_chars(),
            Cell::AddCell(cell) => cell.name_chars(),
            Cell::MuxCell(cell) => cell.name_chars(),
        }
    }

    fn name(&self) -> (name: &str) {
        match self {
            Cell::UnaryMapOpCell(cell) => cell.name(),
            Cell::BinaryMapOpCell(cell) => cell.name(),
            Cell::TernaryMapOpCell(cell) => cell.name(),
            Cell::DFlipFlopCell(cell) => cell.name(),
            Cell::AddCell(cell) => cell.name(),
            Cell::MuxCell(cell) => cell.name(),
        }
    }

    fn in_ports(&self) -> (ports: Vec<&CellInPort>) {
        match self {
            Cell::UnaryMapOpCell(cell) => cell.in_ports(),
            Cell::BinaryMapOpCell(cell) => cell.in_ports(),
            Cell::TernaryMapOpCell(cell) => cell.in_ports(),
            Cell::DFlipFlopCell(cell) => cell.in_ports(),
            Cell::AddCell(cell) => cell.in_ports(),
            Cell::MuxCell(cell) => cell.in_ports(),
        }
    }

    fn out_ports(&self) -> (ports: Vec<&CellOutPort>) {
        match self {
            Cell::UnaryMapOpCell(cell) => cell.out_ports(),
            Cell::BinaryMapOpCell(cell) => cell.out_ports(),
            Cell::TernaryMapOpCell(cell) => cell.out_ports(),
            Cell::DFlipFlopCell(cell) => cell.out_ports(),
            Cell::AddCell(cell) => cell.out_ports(),
            Cell::MuxCell(cell) => cell.out_ports(),
        }
    }

    fn simulate(&self, sim: &mut SimState) {
        match self {
            Cell::UnaryMapOpCell(cell) => cell.simulate(sim),
            Cell::BinaryMapOpCell(cell) => cell.simulate(sim),
            Cell::TernaryMapOpCell(cell) => cell.simulate(sim),
            Cell::DFlipFlopCell(cell) => cell.simulate(sim),
            Cell::AddCell(cell) => cell.simulate(sim),
            Cell::MuxCell(cell) => cell.simulate(sim),
        }
    }
}

impl Cell {
    /// Whether every wire of the cell lies below the bound.
    pub fn is_below(&self, num_wires: usize) -> (ok: bool)
        ensures
            self.wf() ==> ok == self.fits(num_wires as nat),
            self.fits(num_wires as nat) ==> ok,
    {
        match self {
            Cell::UnaryMapOpCell(cell) => cell.port_a.is_below(num_wires) && cell.port_y.is_below(
                num_wires,
            ),
            Cell::BinaryMapOpCell(cell) => cell.port_a.is_below(num_wires) && cell.port_b.is_below(
                num_wires,
            ) && cell.port_y.is_below(num_wires),
            Cell::TernaryMapOpCell(cell) => cell.port_a.is_below(num_wires)
                && cell.port_b.is_below(num_wires) && cell.port_c.is_below(num_wires)
                && cell.port_y.is_below(num_wires),
            Cell::DFlipFlopCell(cell) => cell.port_clk.is_below(num_wires) && cell.port_d.is_below(
                num_wires,
            ) && cell.port_q.is_below(num_wires),
            Cell::AddCell(cell) => cell.port_a.is_below(num_wires) && cell.port_b.is_below(
                num_wires,
            ) && cell.port_y.is_below(num_wires),
            Cell::MuxCell(cell) => cell.port_a.is_below(num_wires) && cell.port_b.is_below(
                num_wires,
            ) && cell.port_s.is_below(num_wires) && cell.port_y.is_below(num_wires),
        }
    }
}

/// The wires among a list of input elements, in their order.
pub open spec fn only_wires(wires: Seq<HWireOrLogic>) -> Seq<HWire>
    decreases wires.len(),
{
    if wires.len() == 0 {
        Seq::empty()
    } else {
        match wires.last() {
            HWireOrLogic::HWire(h_wire) => only_wires(wires.drop_last()).push(h_wire),
            HWireOrLogic::Logic(_) => only_wires(wires.drop_last()),
        }
    }
}

/// The wires of a list of input ports, port after port.
pub open spec fn input_wires(ports: Seq<CellInPort>) -> Seq<HWire>
    decreases ports.len(),
{
    if ports.len() == 0 {
        Seq::empty()
    } else {
        input_wires(ports.drop_last()) + only_wires(ports.last().wires@)
    }
}

/// The wires of a list of output ports, port after port.
pub open spec fn output_wires(ports: Seq<CellOutPort>) -> Seq<HWire>
    decreases ports.len(),
{
    if ports.len() == 0 {
        Seq::empty()
    } else {
        output_wires(ports.drop_last()) + ports.last().wires@
    }
}

/// The wires that a cell touches.
pub struct CellWires {}

impl CellWires {
    /// The wires that the cell reads, in the order of its input ports.
    pub open spec fn in_wires(cell: Cell) -> Seq<HWire> {
        input_wires(cell.in_port_seq())
    }

    /// The wires that the cell drives, in the order of its output ports.
    pub open spec fn out_wires(cell: Cell) -> Seq<HWire> {
        output_wires(cell.out_port_seq())
    }

    /// The wires that the cell reads, then those that it drives.
    pub open spec fn all_wires(cell: Cell) -> Seq<HWire> {
        Self::in_wires(cell) + Self::out_wires(cell)
    }

    /// The wires that the cell reads, in the order of its input ports.
    pub fn get_in_port_h_wires(cell: &Cell) -> (h_wires: Vec<HWire>)
        ensures
            h_wires@ == Self::in_wires(*cell),
    {
        let ports = cell.in_ports();
        let mut h_wires: Vec<HWire> = Vec::new();
        let mut p: usize = 0;
        assert(cell.in_port_seq().take(0) =~= Seq::<CellInPort>::empty());
        while p < ports.len()
            invariant
                p <= ports@.len(),
                ports@.len() == cell.in_port_seq().len(),
                forall|i: int| 0 <= i < ports@.len() ==> *ports@[i] == cell.in_port_seq()[i],
                h_wires@ == input_wires(cell.in_port_seq().take(p as int)),
            decreases ports@.len() - p,
        {
            let wires = ports[p].items();
            let ghost before = h_wires@;
            let mut i: usize = 0;
            assert(wires@.take(0) =~= Seq::<HWireOrLogic>::empty());
            while i < wires.len()
                invariant
                    i <= wires@.len(),
                    h_wires@ == before + only_wires(wires@.take(i as int)),
                decreases wires@.len() - i,
            {
                proof {
                    assert(wires@.take(i + 1).drop_last() =~= wires@.take(i as int));
                }
                match wires[i] {
                    HWireOrLogic::HWire(h_wire) => {
                        h_wires.push(h_wire);
                    },
                    HWireOrLogic::Logic(_) => {},
                }
                i += 1;
            }
            proof {
                assert(wires@.take(i as int) =~= wires@);
                assert(cell.in_port_seq().take(p + 1).drop_last() =~= cell.in_port_seq().take(
                    p as int,
                ));
            }
            p += 1;
        }
        assert(cell.in_port_seq().take(p as int) =~= cell.in_port_seq());
        h_wires
    }

    /// The wires that the cell drives, in the order of its output ports.
    pub fn get_out_port_h_wires(cell: &Cell) -> (h_wires: Vec<HWire>)
        ensures
            h_wires@ == Self::out_wires(*cell),
    {
        let ports = cell.out_ports();
        let mut h_wires: Vec<HWire> = Vec::new();
        let mut p: usize = 0;
        assert(cell.out_port_seq().take(0) =~= Seq::<CellOutPort>::empty());
        while p < ports.len()
            invariant
                p <= ports@.len(),
                ports@.len() == cell.out_port_seq().len(),
                forall|i: int| 0 <= i < ports@.len() ==> *ports@[i] == cell.out_port_seq()[i],
                h_wires@ == output_wires(cell.out_port_seq().take(p as int)),
            decreases ports@.len() - p,
        {
            let wires = ports[p].items();
            let ghost before = h_wires@;
            let mut i: usize = 0;
            while i < wires.len()
                invariant
                    i <= wires@.len(),
                    h_wires@ == before + wires@.take(i as int),
                decreases wires@.len() - i,
            {
                h_wires.push(wires[i]);
                i += 1;
            }
            proof {
                assert(wires@.take(i as int) =~= wires@);
                assert(cell.out_port_seq().take(p + 1).drop_last() =~= cell.out_port_seq().take(
                    p as int,
                ));
            }
            p += 1;
        }
        assert(cell.out_port_seq().take(p as int) =~= cell.out_port_seq());
        h_wires
    }

    /// The wires that the cell reads, then those that it drives.
    pub fn get_all_h_wires(cell: &Cell) -> (h_wires: Vec<HWire>)
        ensures
            h_wires@ == Self::all_wires(*cell),
    {
        let mut h_wires = Self::get_in_port_h_wires(cell);
        let mut out_wires = Self::get_out_port_h_wires(cell);
        h_wires.append(&mut out_wires);
        h_wires
    }
}

/// A wire is among the wires of a list of input elements exactly if it is one
/// of the elements.
pub proof fn lemma_only_wires_contains(wires: Seq<HWireOrLogic>, h_wire: HWire)
    ensures
        only_wires(wires).contains(h_wire) <==> wires.contains(HWireOrLogic::HWire(h_wire)),
    decreases wires.len(),
{
    let target = HWireOrLogic::HWire(h_wire);
    if wires.len() > 0 {
        let front = wires.drop_last();
        lemma_only_wires_contains(front, h_wire);
        if wires.contains(target) {
            let i = choose|i: int| 0 <= i < wires.len() && wires[i] == target;
            if i < wires.len() - 1 {
                assert(front[i] == target);
                let k = choose|k: int|
                    0 <= k < only_wires(front).len() && only_wires(front)[k] == h_wire;
                assert(only_wires(wires)[k] == h_wire);
            } else {
                assert(only_wires(wires).last() == h_wire);
            }
        }
        if only_wires(wires).contains(h_wire) {
            let k = choose|k: int|
                0 <= k < only_wires(wires).len() && only_wires(wires)[k] == h_wire;
            if k < only_wires(front).len() {
                assert(only_wires(front)[k] == h_wire);
                let i = choose|i: int| 0 <= i < front.len() && front[i] == target;
                assert(wires[i] == target);
            } else {
                assert(wires[wires.len() - 1] == target);
            }
        }
    }
}

/// A wire is among the wires of a list of input ports exactly if it is an
/// element of one of the ports.
pub proof fn lemma_input_wires_contains(ports: Seq<CellInPort>, h_wire: HWire)
    ensures
        input_wires(ports).contains(h_wire) <==> exists|p: int|
            0 <= p < ports.len() && (#[trigger] ports[p]).wires@.contains(
                HWireOrLogic::HWire(h_wire),
            ),
    decreases ports.len(),
{
    let target = HWireOrLogic::HWire(h_wire);
    if ports.len() > 0 {
        let front = ports.drop_last();
        let tail = only_wires(ports.last().wires@);
        lemma_input_wires_contains(front, h_wire);
        lemma_only_wires_contains(ports.last().wires@, h_wire);
        if input_wires(ports).contains(h_wire) {
            let k = choose|k: int|
                0 <= k < input_wires(ports).len() && input_wires(ports)[k] == h_wire;
            if k < input_wires(front).len() {
                assert(input_wires(front)[k] == h_wire);
                let p = choose|p: int|
                    0 <= p < front.len() && (#[trigger] front[p]).wires@.contains(target);
                assert(ports[p].wires@.contains(target));
            } else {
                assert(tail[k - input_wires(front).len()] == h_wire);
                assert(ports[ports.len() - 1].wires@.contains(target));
            }
        }
        if exists|p: int| 0 <= p < ports.len() && (#[trigger] ports[p]).wires@.contains(target) {
            let p = choose|p: int|
                0 <= p < ports.len() && (#[trigger] ports[p]).wires@.contains(target);
            if p < ports.len() - 1 {
                assert(front[p].wires@.contains(target));
                let k = choose|k: int|
                    0 <= k < input_wires(front).len() && input_wires(front)[k] == h_wire;
                assert(input_wires(ports)[k] == h_wire);
            } else {
                let k = choose|k: int| 0 <= k < tail.len() && tail[k] == h_wire;
                assert(input_wires(ports)[input_wires(front).len() + k] == h_wire);
            }
        }
    }
}

/// A wire is among the wires of a list of output ports exactly if it is an
/// element of one of the ports.
pub proof fn lemma_output_wires_contains(ports: Seq<CellOutPort>, h_wire: HWire)
    ensures
        output_wires(ports).contains(h_wire) <==> exists|p: int|
            0 <= p < ports.len() && (#[trigger] ports[p]).wires@.contains(h_wire),
    decreases ports.len(),
{
    if ports.len() > 0 {
        let front = ports.drop_last();
        let tail = ports.last().wires@;
        lemma_output_wires_contains(front, h_wire);
        if output_wires(ports).contains(h_wire) {
            let k = choose|k: int|
                0 <= k < output_wires(ports).len() && output_wires(ports)[k] == h_wire;
            if k < output_wires(front).len() {
                assert(output_wires(front)[k] == h_wire);
                let p = choose|p: int|
                    0 <= p < front.len() && (#[trigger] front[p]).wires@.contains(h_wire);
                assert(ports[p].wires@.contains(h_wire));
            } else {
                assert(tail[k - output_wires(front).len()] == h_wire);
                assert(ports[ports.len() - 1].wires@.contains(h_wire));
            }
        }
        if exists|p: int| 0 <= p < ports.len() && (#[trigger] ports[p]).wires@.contains(h_wire) {
            let p = choose|p: int|
                0 <= p < ports.len() && (#[trigger] ports[p]).wires@.contains(h_wire);
            if p < ports.len() - 1 {
                assert(front[p].wires@.contains(h_wire));
                let k = choose|k: int|
                    0 <= k < output_wires(front).len() && output_wires(front)[k] == h_wire;
                assert(output_wires(ports)[k] == h_wire);
            } else {
                let k = choose|k: int| 0 <= k < tail.len() && tail[k] == h_wire;
                assert(output_wires(ports)[output_wires(front).len() + k] == h_wire);
            }
        }
    }
}

/// A cell whose port widths fit its kind and whose wires all lie below a
/// bound fits that bound.
pub proof fn lemma_cell_fits(cell: Cell, num_wires: nat)
    requires
        cell.wf(),
        wires_below(CellWires::all_wires(cell), num_wires),
    ensures
        cell.fits(num_wires),
{
    let ins = cell.in_port_seq();
    let outs = cell.out_port_seq();
    let all = CellWires::all_wires(cell);
    assert forall|p: int| 0 <= p < ins.len() implies (#[trigger] ins[p]).below(num_wires) by {
        let port = ins[p];
        assert forall|i: int| 0 <= i < port.wires@.len() implies ((
        #[trigger] port.wires@[i]) matches HWireOrLogic::HWire(h_wire) ==> h_wire < num_wires) by {
            if let HWireOrLogic::HWire(h_wire) = port.wires@[i] {
                lemma_input_wires_contains(ins, h_wire);
                assert(port.wires@.contains(HWireOrLogic::HWire(h_wire)));
                let k = choose|k: int|
                    0 <= k < CellWires::in_wires(cell).len() && CellWires::in_wires(cell)[k]
                        == h_wire;
                assert(all[k] == h_wire);
            }
        }
    }
    assert forall|p: int| 0 <= p < outs.len() implies (#[trigger] outs[p]).below(num_wires) by {
        let port = outs[p];
        assert forall|i: int| 0 <= i < port.wires@.len() implies (#[trigger] port.wires@[i])
            < num_wires by {
            let h_wire = port.wires@[i];
            lemma_output_wires_contains(outs, h_wire);
            assert(port.wires@.contains(h_wire));
            let k = choose|k: int|
                0 <= k < CellWires::out_wires(cell).len() && CellWires::out_wires(cell)[k]
                    == h_wire;
            assert(all[CellWires::in_wires(cell).len() + k] == h_wire);
        }
    }
    match cell {
        Cell::UnaryMapOpCell(c) => {
            assert(ins[0] == c.port_a);
            assert(outs[0] == c.port_y);
        },
        Cell::BinaryMapOpCell(c) => {
            assert(ins[0] == c.port_a);
            assert(ins[1] == c.port_b);
            assert(outs[0] == c.port_y);
        },
        Cell::TernaryMapOpCell(c) => {
            assert(ins[0] == c.port_a);
            assert(ins[1] == c.port_b);
            assert(ins[2] == c.port_c);
            assert(outs[0] == c.port_y);
        },
        Cell::DFlipFlopCell(c) => {
            assert(ins[0] == c.port_clk);
            assert(ins[1] == c.port_d);
            assert(outs[0] == c.port_q);
        },
        Cell::AddCell(c) => {
            assert(ins[0] == c.port_a);
            assert(ins[1] == c.port_b);
            assert(outs[0] == c.port_y);
        },
        Cell::MuxCell(c) => {
            assert(ins[0] == c.port_a);
            assert(ins[1] == c.port_b);
            assert(ins[2] == c.port_s);
            assert(outs[0] == c.port_y);
        },
    }
}

/// Every wire of a cell that fits a bound lies below the bound.
pub proof fn lemma_fits_below(cell: Cell, num_wires: nat)
    requires
        cell.fits(num_wires),
    ensures
        wires_below(CellWires::all_wires(cell), num_wires),
        wires_below(CellWires::in_wires(cell), num_wires),
        wires_below(CellWires::out_wires(cell), num_wires),
{
    let ins = cell.in_port_seq();
    let outs = cell.out_port_seq();
    match cell {
        Cell::UnaryMapOpCell(c) => {
            assert(ins[0] == c.port_a);
            assert(outs[0] == c.port_y);
        },
        Cell::BinaryMapOpCell(c) => {
            assert(ins[0] == c.port_a);
            assert(ins[1] == c.port_b);
            assert(outs[0] == c.port_y);
        },
        Cell::TernaryMapOpCell(c) => {
            assert(ins[0] == c.port_a);
            assert(ins[1] == c.port_b);
            assert(ins[2] == c.port_c);
            assert(outs[0] == c.port_y);
        },
        Cell::DFlipFlopCell(c) => {
            assert(ins[0] == c.port_clk);
            assert(ins[1] == c.port_d);
            assert(outs[0] == c.port_q);
        },
        Cell::AddCell(c) => {
            assert(ins[0] == c.port_a);
            assert(ins[1] == c.port_b);
            assert(outs[0] == c.port_y);
        },
        Cell::MuxCell(c) => {
            assert(ins[0] == c.port_a);
            assert(ins[1] == c.port_b);
            assert(ins[2] == c.port_s);
            assert(outs[0] == c.port_y);
        },
    }
    assert forall|p: int| 0 <= p < ins.len() implies (#[trigger] ins[p]).below(num_wires) by {}
    assert forall|p: int| 0 <= p < outs.len() implies (#[trigger] outs[p]).below(num_wires) by {}
    let in_wires = CellWires::in_wires(cell);
    let out_wires = CellWires::out_wires(cell);
    assert forall|k: int| 0 <= k < in_wires.len() implies (#[trigger] in_wires[k]) < num_wires by {
        let h_wire = in_wires[k];
        lemma_input_wires_contains(ins, h_wire);
        assert(in_wires.contains(h_wire));
        let p = choose|p: int|
            0 <= p < ins.len() && (#[trigger] ins[p]).wires@.contains(HWireOrLogic::HWire(h_wire));
        assert(ins[p].below(num_wires));
        let i = choose|i: int|
            0 <= i < ins[p].wires@.len() && ins[p].wires@[i] == HWireOrLogic::HWire(h_wire);
        assert(ins[p].wires@[i] matches HWireOrLogic::HWire(h) ==> h < num_wires);
    }
    assert forall|k: int| 0 <= k < out_wires.len() implies (#[trigger] out_wires[k])
        < num_wires by {
        let h_wire = out_wires[k];
        lemma_output_wires_contains(outs, h_wire);
        assert(out_wires.contains(h_wire));
        let p = choose|p: int| 0 <= p < outs.len() && (#[trigger] outs[p]).wires@.contains(h_wire);
        assert(outs[p].below(num_wires));
        let i = choose|i: int| 0 <= i < outs[p].wires@.len() && outs[p].wires@[i] == h_wire;
        assert(outs[p].wires@[i] < num_wires);
    }
}

} // verus!
