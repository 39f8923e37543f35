use crate::model::Edge;
use crate::model::HWire;
use crate::model::HWireOrLogic;
use crate::model::Logic;
use crate::sim::OpFns;
use vstd::prelude::*;

verus! {

/// Which of the two samples of the wires is meant.
#[derive(Copy, Clone, Debug, PartialEq, Eq, Structural)]
pub enum StateRef {
    Prev,
    Cur,
}

impl StateRef {
    /// The position of the sample in the pair of wire arrays.
    pub open spec fn ordinal(self) -> int {
        match self {
            StateRef::Prev => 0,
            StateRef::Cur => 1,
        }
    }

    /// The position of the sample in the pair of wire arrays.
    pub fn index_of(self) -> (i: usize)
        ensures
            i == self.ordinal(),
    {
        match self {
            StateRef::Prev => 0,
            StateRef::Cur => 1,
        }
    }
}

/// The value that an input element shows: the wire's value, or the value it is
/// tied to.
pub open spec fn input_value(values: Seq<Logic>, wire: HWireOrLogic) -> Logic {
    match wire {
        HWireOrLogic::HWire(h_wire) => values[h_wire as int],
        HWireOrLogic::Logic(logic) => logic,
    }
}

/// The edge that an input element shows between two samples; a tied element
/// never moves.
pub open spec fn input_edge(prev: Seq<Logic>, cur: Seq<Logic>, wire: HWireOrLogic) -> Edge {
    match wire {
        HWireOrLogic::HWire(h_wire) => Edge::between(prev[h_wire as int], cur[h_wire as int]),
        HWireOrLogic::Logic(_) => Edge::NONE,
    }
}

/// The values of a list of wires.
pub open spec fn read_wires(values: Seq<Logic>, h_wires: Seq<HWire>) -> Seq<Logic> {
    Seq::new(h_wires.len(), |i: int| values[h_wires[i] as int])
}

/// The values of a list of input elements.
pub open spec fn read_inputs(values: Seq<Logic>, wires: Seq<HWireOrLogic>) -> Seq<Logic> {
    Seq::new(wires.len(), |i: int| input_value(values, wires[i]))
}

/// The edges of a list of input elements.
pub open spec fn read_edges(prev: Seq<Logic>, cur: Seq<Logic>, wires: Seq<HWireOrLogic>) -> Seq<
    Edge,
> {
    Seq::new(wires.len(), |i: int| input_edge(prev, cur, wires[i]))
}

/// The wire values after each wire of the list got the value at its
/// position, first to last: where a wire stands twice, the later value stays.
pub open spec fn write_wires(values: Seq<Logic>, h_wires: Seq<HWire>, logics: Seq<Logic>) -> Seq<
    Logic,
>
    decreases h_wires.len(),
{
    if h_wires.len() == 0 {
        values
    } else {
        write_wires(values, h_wires.drop_last(), logics.drop_last()).update(
            h_wires.last() as int,
            logics.last(),
        )
    }
}

/// The writes of a list of values to a list of wires, position by position.
pub open spec fn paired(h_wires: Seq<HWire>, logics: Seq<Logic>) -> Seq<(HWire, Logic)> {
    Seq::new(h_wires.len(), |i: int| (h_wires[i], logics[i]))
}

/// The wire values after a list of writes took place, first to last.
pub open spec fn apply_writes(values: Seq<Logic>, writes: Seq<(HWire, Logic)>) -> Seq<Logic>
    decreases writes.len(),
{
    if writes.len() == 0 {
        values
    } else {
        apply_writes(values, writes.drop_last()).update(writes.last().0 as int, writes.last().1)
    }
}

/// Every wire of the list lies below the bound.
pub open spec fn wires_below(h_wires: Seq<HWire>, num_wires: nat) -> bool {
    forall|i: int| 0 <= i < h_wires.len() ==> (#[trigger] h_wires[i]) < num_wires
}

/// Every wire among the input elements lies below the bound.
pub open spec fn inputs_below(wires: Seq<HWireOrLogic>, num_wires: nat) -> bool {
    forall|i: int|
        0 <= i < wires.len() ==> ((#[trigger] wires[i]) matches HWireOrLogic::HWire(h_wire)
            ==> h_wire < num_wires)
}

/// Every write of the list goes to a wire below the bound.
pub open spec fn writes_below(writes: Seq<(HWire, Logic)>, num_wires: nat) -> bool {
    forall|i: int| 0 <= i < writes.len() ==> (#[trigger] writes[i]).0 < num_wires
}

/// The wires and the waiting writes of a simulation.
pub struct WireState {
    /// The earlier sample of every wire.
    pub prev: Seq<Logic>,
    /// The present sample of every wire.
    pub cur: Seq<Logic>,
    /// The writes that wait for the end of the delta cycle, oldest first.
    pub deferred: Seq<(HWire, Logic)>,
}

/// What a simulation holds between two steps: both samples of every wire, the
/// writes that wait for the end of the delta cycle, and the truth tables.
pub struct SimState {
    pub wires: [Vec<Logic>; 2],
    pub set_wires_deferred: Vec<(HWire, Logic)>,
    pub ops: OpFns,
}

impl View for SimState {
    type V = WireState;

    open spec fn view(&self) -> WireState {
        WireState { prev: self.prev(), cur: self.cur(), deferred: self.deferred() }
    }
}

impl SimState {
    /// The earlier sample of every wire.
    pub open spec fn prev(&self) -> Seq<Logic> {
        self.wires@[0]@
    }

    /// The present sample of every wire.
    pub open spec fn cur(&self) -> Seq<Logic> {
        self.wires@[1]@
    }

    /// One of the two samples of every wire.
    pub open spec fn values(&self, state: StateRef) -> Seq<Logic> {
        self.wires@[state.ordinal()]@
    }

    /// The writes that wait for the end of the delta cycle, oldest first.
    pub open spec fn deferred(&self) -> Seq<(HWire, Logic)> {
        self.set_wires_deferred@
    }

    /// The number of wires.
    pub open spec fn num_wires(&self) -> nat {
        self.cur().len()
    }

    /// Both samples cover the same wires, the waiting writes go to wires that
    /// exist, and the tables are compiled.
    pub open spec fn wf(&self) -> bool {
        &&& self.prev().len() == self.cur().len()
        &&& writes_below(self.deferred(), self.num_wires())
        &&& self.ops.wf()
    }

    /// A state of `num_wires` wires that are all unknown, with no write waiting.
    pub fn new(num_wires: usize) -> (state: SimState)
        ensures
            state.wf(),
            state.prev() == Seq::new(num_wires as nat, |i: int| Logic::X),
            state.cur() == Seq::new(num_wires as nat, |i: int| Logic::X),
            state.deferred() == Seq::<(HWire, Logic)>::empty(),
    {
        let mut prev: Vec<Logic> = Vec::new();
        let mut cur: Vec<Logic> = Vec::new();
        let mut i: usize = 0;
        while i < num_wires
            invariant
                i <= num_wires,
                prev@ == Seq::new(i as nat, |k: int| Logic::X),
                cur@ == Seq::new(i as nat, |k: int| Logic::X),
            decreases num_wires - i,
        {
            prev.push(Logic::X);
            cur.push(Logic::X);
            i += 1;
        }
        SimState { wires: [prev, cur], set_wires_deferred: Vec::new(), ops: OpFns::new() }
    }

    /// Fills `edges` with the edge that each input element shows between
    /// the two samples.
    pub fn get_edges(&self, h_wires: &[HWireOrLogic], edges: &mut [Edge])
        requires
            self.prev().len() == self.cur().len(),
            h_wires@.len() == old(edges)@.len(),
            inputs_below(h_wires@, self.num_wires()),
        ensures
            final(edges)@ == read_edges(self.prev(), self.cur(), h_wires@),
    {
        let mut i: usize = 0;
        while i < h_wires.len()
            invariant
                i <= h_wires@.len(),
                h_wires@.len() == edges@.len(),
                self.prev().len() == self.cur().len(),
                inputs_below(h_wires@, self.num_wires()),
                forall|k: int|
                    0 <= k < i ==> edges@[k] == input_edge(self.prev(), self.cur(), h_wires@[k]),
            decreases h_wires@.len() - i,
        {
            edges[i] = match h_wires[i] {
                HWireOrLogic::HWire(h_wire) => Edge::of(self.wires[0][h_wire],
                    self.wires[1][h_wire]),
                HWireOrLogic::Logic(_) => Edge::NONE,
            };
            i += 1;
        }
    }

    /// Fills `logics` with the value that each input element shows in a
    /// sample.
    pub fn get_wires_or_logic(&self, state: StateRef, h_wires: &[HWireOrLogic],
        logics: &mut [Logic])
        requires
            h_wires@.len() == old(logics)@.len(),
            inputs_below(h_wires@, self.values(state).len()),
        ensures
            final(logics)@ == read_inputs(self.values(state), h_wires@),
    {
        let mut i: usize = 0;
        while i < h_wires.len()
            invariant
                i <= h_wires@.len(),
                h_wires@.len() == logics@.len(),
                inputs_below(h_wires@, self.values(state).len()),
                forall|k: int|
                    0 <= k < i ==> logics@[k] == input_value(self.values(state), h_wires@[k]),
            decreases h_wires@.len() - i,
        {
            logics[i] = match h_wires[i] {
                HWireOrLogic::HWire(h_wire) => self.wires[state.index_of()][h_wire],
                HWireOrLogic::Logic(logic) => logic,
            };
            i += 1;
        }
    }

    /// Fills `logics` with the value of each wire in a sample.
    pub fn get_wires(&self, state: StateRef, h_wires: &[HWire], logics: &mut [Logic])
        requires
            h_wires@.len() == old(logics)@.len(),
            wires_below(h_wires@, self.values(state).len()),
        ensures
            final(logics)@ == read_wires(self.values(state), h_wires@),
    {
        let mut i: usize = 0;
        while i < h_wires.len()
            invariant
                i <= h_wires@.len(),
                h_wires@.len() == logics@.len(),
                wires_below(h_wires@, self.values(state).len()),
                forall|k: int| 0 <= k < i ==> logics@[k] == self.values(state)[h_wires@[k] as int],
            decreases h_wires@.len() - i,
        {
            logics[i] = self.wires[state.index_of()][h_wires[i]];
            i += 1;
        }
    }

    /// Writes each value to the wire at its position, first to last.
    pub fn set_wires(&mut self, state: StateRef, h_wires: &[HWire], logics: &[Logic])
        requires
            h_wires@.len() == logics@.len(),
            wires_below(h_wires@, old(self).values(state).len()),
        ensures
            final(self).values(state) == write_wires(old(self).values(state), h_wires@, logics@),
            final(self).values(state).len() == old(self).values(state).len(),
            state == StateRef::Cur ==> final(self).prev() == old(self).prev(),
            state == StateRef::Prev ==> final(self).cur() == old(self).cur(),
            final(self).set_wires_deferred == old(self).set_wires_deferred,
            final(self).ops == old(self).ops,
    {
        let mut i: usize = 0;
        assert(h_wires@.take(0) =~= Seq::<HWire>::empty());
        while i < h_wires.len()
            invariant
                i <= h_wires@.len(),
                h_wires@.len() == logics@.len(),
                self.values(state).len() == old(self).values(state).len(),
                wires_below(h_wires@, self.values(state).len()),
                self.values(state) == write_wires(
                    old(self).values(state),
                    h_wires@.take(i as int),
                    logics@.take(i as int),
                ),
                state == StateRef::Cur ==> self.prev() == old(self).prev(),
                state == StateRef::Prev ==> self.cur() == old(self).cur(),
                self.set_wires_deferred == old(self).set_wires_deferred,
                self.ops == old(self).ops,
            decreases h_wires@.len() - i,
        {
            proof {
                assert(h_wires@.take(i + 1).drop_last() =~= h_wires@.take(i as int));
                assert(logics@.take(i + 1).drop_last() =~= logics@.take(i as int));
            }
            self.wires[state.index_of()][h_wires[i]] = logics[i];
            i += 1;
        }
        assert(h_wires@.take(i as int) =~= h_wires@);
        assert(logics@.take(i as int) =~= logics@);
    }

    /// Leaves the write of each value to the wire at its position waiting
    /// for the end of the delta cycle.
    pub fn set_wires_deferred(&mut self, h_wires: &[HWire], logics: &[Logic])
        requires
            h_wires@.len() == logics@.len(),
        ensures
            final(self).deferred() == old(self).deferred() + paired(h_wires@, logics@),
            final(self).wires == old(self).wires,
            final(self).ops == old(self).ops,
    {
        let mut i: usize = 0;
        while i < h_wires.len()
            invariant
                i <= h_wires@.len(),
                h_wires@.len() == logics@.len(),
                self.deferred() == old(self).deferred() + paired(
                    h_wires@.take(i as int),
                    logics@.take(i as int),
                ),
                self.wires == old(self).wires,
                self.ops == old(self).ops,
            decreases h_wires@.len() - i,
        {
            self.set_wires_deferred.push((h_wires[i], logics[i]));
            i += 1;
        }
        assert(h_wires@.take(i as int) =~= h_wires@);
        assert(logics@.take(i as int) =~= logics@);
    }
}

impl SimState {
    /// Takes the present sample of every wire over as the earlier sample.
    pub fn latch(&mut self)
        requires
            old(self).prev().len() == old(self).cur().len(),
        ensures
            final(self).prev() == old(self).cur(),
            final(self).cur() == old(self).cur(),
            final(self).set_wires_deferred == old(self).set_wires_deferred,
            final(self).ops == old(self).ops,
    {
        let num_wires = self.wires[1].len();
        let mut h_wire: usize = 0;
        while h_wire < num_wires
            invariant
                h_wire <= num_wires,
                num_wires == self.cur().len(),
                self.prev().len() == num_wires,
                self.cur() == old(self).cur(),
                self.set_wires_deferred == old(self).set_wires_deferred,
                self.ops == old(self).ops,
                forall|k: int| 0 <= k < h_wire ==> self.prev()[k] == self.cur()[k],
            decreases num_wires - h_wire,
        {
            let logic = self.wires[1][h_wire];
            self.wires[0][h_wire] = logic;
            h_wire += 1;
        }
        assert(self.prev() =~= self.cur());
    }

    /// Lets the waiting writes take place, oldest first, and forgets them.
    pub fn commit(&mut self)
        requires
            writes_below(old(self).deferred(), old(self).num_wires()),
        ensures
            final(self).cur() == apply_writes(old(self).cur(), old(self).deferred()),
            final(self).cur().len() == old(self).cur().len(),
            final(self).prev() == old(self).prev(),
            final(self).deferred() == Seq::<(HWire, Logic)>::empty(),
            final(self).ops == old(self).ops,
    {
        let count = self.set_wires_deferred.len();
        let mut i: usize = 0;
        assert(self.deferred().take(0) =~= Seq::<(HWire, Logic)>::empty());
        while i < count
            invariant
                i <= count,
                count == self.deferred().len(),
                self.deferred() == old(self).deferred(),
                writes_below(self.deferred(), self.num_wires()),
                self.cur().len() == old(self).cur().len(),
                self.cur() == apply_writes(old(self).cur(), self.deferred().take(i as int)),
                self.prev() == old(self).prev(),
                self.ops == old(self).ops,
            decreases count - i,
        {
            let (h_wire, logic) = self.set_wires_deferred[i];
            proof {
                assert(self.deferred().take(i + 1).drop_last() =~= self.deferred().take(i as int));
                assert(self.deferred()[i as int].0 < self.num_wires());
            }
            self.wires[1][h_wire] = logic;
            i += 1;
        }
        assert(self.deferred().take(i as int) =~= self.deferred());
        self.set_wires_deferred.clear();
    }
}

} // verus!
