use crate::common::find_by_name;
use crate::common::first_named;
use crate::common::ArgumentFault;
use crate::common::ConstructionFault;
use crate::common::SimError;
use crate::model::Cell;
use crate::model::HCell;
use crate::model::HWire;
use crate::model::Logic;
use crate::model::Module;
use crate::model::ModuleInPort;
use crate::model::ModuleOutPort;
use crate::sim::cell::lemma_cell_fits;
use crate::sim::schedule::compute_cell_graph;
use crate::sim::schedule::compute_cell_update_order;
use crate::sim::schedule::compute_num_wires;
use crate::sim::schedule::compute_wire_graph;
use crate::sim::schedule::is_topological;
use crate::sim::schedule::is_wire_count;
use crate::sim::schedule::no_repeat_before;
use crate::sim::schedule::repeats_at;
use crate::sim::schedule::single_drivers;
use crate::sim::schedule::touches;
use crate::sim::state::apply_writes;
use crate::sim::state::read_wires;
use crate::sim::state::wires_below;
use crate::sim::state::write_wires;
use crate::sim::CellSimModel;
use crate::sim::CellWires;
use crate::sim::SimState;
use crate::sim::StateRef;
use crate::sim::WireState;
use vstd::array::array_fill_for_copy_types;
use vstd::prelude::*;

verus! {

/// The most delta cycles that a frame may take.
pub const MAX_DELTA_CYCLES: usize = 1024;

/// The wires and the waiting writes after the cells of an order ran once, one
/// after the other: a later cell sees what an earlier cell wrote.
pub open spec fn run_cells(cells: Seq<Cell>, order: Seq<HCell>, state: WireState) -> WireState
    decreases order.len(),
{
    if order.len() == 0 {
        state
    } else {
        cells[order.last() as int].step(run_cells(cells, order.drop_last(), state))
    }
}

/// Whether a delta cycle that starts in a state is the last of its frame: no
/// cell leaves a write waiting.
pub open spec fn settles(cells: Seq<Cell>, order: Seq<HCell>, state: WireState) -> bool {
    run_cells(cells, order, state).deferred.len() == 0
}

/// The state after one delta cycle: the cells run in their order, what they
/// leave as the present sample becomes the earlier sample, and then the
/// waiting writes take place.
pub open spec fn delta_cycle(cells: Seq<Cell>, order: Seq<HCell>, state: WireState) -> WireState {
    let ran = run_cells(cells, order, state);
    WireState {
        prev: ran.cur,
        cur: apply_writes(ran.cur, ran.deferred),
        deferred: Seq::empty(),
    }
}

/// Whether a frame that starts in a state comes to an end within a number of
/// delta cycles.
pub open spec fn settles_within(
    cells: Seq<Cell>,
    order: Seq<HCell>,
    state: WireState,
    cycles: nat,
) -> bool
    decreases cycles,
{
    cycles > 0 && (settles(cells, order, state) || settles_within(
        cells,
        order,
        delta_cycle(cells, order, state),
        (cycles - 1) as nat,
    ))
}

/// The state at the end of a frame of at most a number of delta cycles: the
/// state after the first delta cycle that settles, or after all of them.
pub open spec fn frame_end(
    cells: Seq<Cell>,
    order: Seq<HCell>,
    state: WireState,
    cycles: nat,
) -> WireState
    decreases cycles,
{
    if cycles == 0 {
        state
    } else if settles(cells, order, state) {
        delta_cycle(cells, order, state)
    } else {
        frame_end(cells, order, delta_cycle(cells, order, state), (cycles - 1) as nat)
    }
}

/// A simulation of a module: the order in which its cells run, and the state
/// of its wires.
pub struct Sim<'m> {
    frame: usize,
    module: &'m Module,
    update_order: Vec<HCell>,
    sim_state: SimState,
}

impl<'m> Sim<'m> {
    /// The module fits the state, and the cells run in an order in which no
    /// cell stands before a cell it waits for.
    pub closed spec fn wf(&self) -> bool {
        &&& self.sim_state.wf()
        &&& forall|c: int|
            0 <= c < self.module.cells@.len() ==> (#[trigger] self.module.cells@[c]).fits(
                self.sim_state.num_wires(),
            )
        &&& forall|p: int|
            0 <= p < self.module.in_ports@.len() ==> (#[trigger] self.module.in_ports@[p]).below(
                self.sim_state.num_wires(),
            )
        &&& forall|p: int|
            0 <= p < self.module.out_ports@.len() ==> (#[trigger] self.module.out_ports@[p]).below(
                self.sim_state.num_wires(),
            )
        &&& is_topological(self.module.cells@, self.update_order@)
    }

    /// The module that is simulated.
    pub closed spec fn module(&self) -> &Module {
        self.module
    }

    /// The order in which the cells run within a delta cycle.
    pub closed spec fn order(&self) -> Seq<HCell> {
        self.update_order@
    }

    /// The number of frames that came to an end.
    pub closed spec fn frames(&self) -> nat {
        self.frame as nat
    }

    /// The wires and the waiting writes.
    pub closed spec fn state(&self) -> WireState {
        self.sim_state@
    }

    /// The number of wires.
    pub open spec fn num_wires(&self) -> nat {
        self.state().cur.len()
    }

    /// The number of frames that came to an end.
    pub fn frame(&self) -> (frame: usize)
        ensures
            frame == self.frames(),
    {
        self.frame
    }

    /// The order in which the cells run within a delta cycle.
    pub fn update_order(&self) -> (order: &[HCell])
        ensures
            order@ == self.order(),
    {
        self.update_order.as_slice()
    }

    /// The number of wires.
    pub fn wire_count(&self) -> (count: usize)
        ensures
            count == self.num_wires(),
    {
        self.sim_state.wires[1].len()
    }
}

/// The state in which every one of a number of wires is unknown in both
/// samples and no write waits.
pub open spec fn all_unknown(num_wires: nat) -> WireState {
    WireState {
        prev: Seq::new(num_wires, |i: int| Logic::X),
        cur: Seq::new(num_wires, |i: int| Logic::X),
        deferred: Seq::empty(),
    }
}

/// What the making of a simulation of a module comes to: a simulation whose
/// cells run in an order that respects their waiting for each other and
/// whose wires are all unknown, or the reason why there is none. A wire with
/// two drivers is reported before a combinational cycle.
pub open spec fn is_made<'m>(module: &'m Module, made: Result<Sim<'m>, SimError>) -> bool {
    match made {
        Ok(sim) => {
            &&& sim.wf()
            &&& sim.module() == module
            &&& single_drivers(module.cells@)
            &&& is_topological(module.cells@, sim.order())
            &&& sim.frames() == 0
            &&& is_wire_count(module, sim.num_wires())
            &&& sim.state() == all_unknown(sim.num_wires())
        },
        Err(error) => {
            ||| exists|b: int, j: int|
                #![trigger CellWires::out_wires(module.cells@[b])[j]]
                {
                    &&& repeats_at(module.cells@, b, j)
                    &&& no_repeat_before(module.cells@, b, j)
                    &&& error == SimError::ConstructionError(
                        ConstructionFault::DuplicateDriver {
                            wire: CellWires::out_wires(module.cells@[b])[j],
                        },
                    )
                }
            ||| {
                &&& single_drivers(module.cells@)
                &&& error == SimError::ConstructionError(ConstructionFault::CombinationalCycle)
                &&& forall|any: Seq<HCell>| !is_topological(module.cells@, any)
            }
        },
    }
}

/// Every cell and every port of a module fits the number of its wires.
pub proof fn lemma_wire_count_fits(module: &Module, num_wires: nat)
    requires
        module.wf(),
        is_wire_count(module, num_wires),
    ensures
        forall|c: int|
            0 <= c < module.cells@.len() ==> wires_below(
                CellWires::all_wires(#[trigger] module.cells@[c]),
                num_wires,
            ),
        forall|c: int| 0 <= c < module.cells@.len() ==>
            (#[trigger] module.cells@[c]).fits(num_wires),
        forall|p: int|
            0 <= p < module.in_ports@.len() ==> (#[trigger] module.in_ports@[p]).below(num_wires),
        forall|p: int|
            0 <= p < module.out_ports@.len() ==> (#[trigger] module.out_ports@[p]).below(num_wires),
{
    assert forall|c: int| 0 <= c < module.cells@.len() implies wires_below(
        CellWires::all_wires(#[trigger] module.cells@[c]),
        num_wires,
    ) by {
        let all = CellWires::all_wires(module.cells@[c]);
        assert forall|i: int| 0 <= i < all.len() implies (#[trigger] all[i]) < num_wires by {
            assert(all.contains(all[i]));
            assert(touches(module, all[i]));
        }
    }
    assert forall|c: int| 0 <= c < module.cells@.len() implies (#[trigger] module.cells@[c]).fits(
        num_wires,
    ) by {
        assert(module.cells@[c].fits(usize::MAX as nat));
        lemma_cell_fits(module.cells@[c], num_wires);
    }
    assert forall|p: int| 0 <= p < module.in_ports@.len() implies (
    #[trigger] module.in_ports@[p]).below(num_wires) by {
        let wires = module.in_ports@[p].wires@;
        assert forall|i: int| 0 <= i < wires.len() implies (#[trigger] wires[i]) < num_wires by {
            assert(wires.contains(wires[i]));
            assert(touches(module, wires[i]));
        }
    }
    assert forall|p: int| 0 <= p < module.out_ports@.len() implies (
    #[trigger] module.out_ports@[p]).below(num_wires) by {
        let wires = module.out_ports@[p].wires@;
        assert forall|i: int| 0 <= i < wires.len() implies (#[trigger] wires[i]) < num_wires by {
            assert(wires.contains(wires[i]));
            assert(touches(module, wires[i]));
        }
    }
}

impl<'m> Sim<'m> {
    /// Analyses a module once and makes a simulation of it.
    pub fn new(module: &'m Module) -> (made: Result<Sim<'m>, SimError>)
        requires
            module.wf(),
        ensures
            is_made(module, made),
    {
        let num_wires: usize = compute_num_wires(module);
        proof {
            lemma_wire_count_fits(module, num_wires as nat);
        }
        let wire_nodes = match compute_wire_graph(module, num_wires) {
            Ok(wire_nodes) => wire_nodes,
            Err(error) => {
                return Err(error);
            },
        };
        let cell_nodes = compute_cell_graph(module, &wire_nodes);
        let update_order = match compute_cell_update_order(module, &wire_nodes, &cell_nodes) {
            Ok(update_order) => update_order,
            Err(error) => {
                return Err(error);
            },
        };
        let sim = Sim { frame: 0, module, update_order, sim_state: SimState::new(num_wires) };
        assert(sim.state() == all_unknown(sim.num_wires()));
        Ok(sim)
    }

    /// Checks a module and makes a simulation of it.
    pub fn create(module: &'m Module) -> (made: Result<Sim<'m>, SimError>)
        ensures
            module.wf() ==> is_made(module, made),
            !module.wf() ==> made is Err && module.validate_fails_with(made->Err_0),
    {
        match module.validate() {
            Ok(_) => Sim::new(module),
            Err(error) => Err(error),
        }
    }
}

impl<'m> Sim<'m> {
    /// The number of frames after one more frame came to an end; the count
    /// stays where it cannot go on.
    pub open spec fn next_frames(frames: nat) -> nat {
        if frames < usize::MAX {
            frames + 1
        } else {
            frames
        }
    }

    /// Advances the simulation by one frame: delta cycles follow each other
    /// until one leaves no write waiting. A frame that does not come to an
    /// end within `MAX_DELTA_CYCLES` delta cycles is given up.
    pub fn simulate(&mut self) -> (r: Result<(), SimError>)
        requires
            old(self).wf(),
        ensures
            final(self).wf(),
            final(self).module() == old(self).module(),
            final(self).order() == old(self).order(),
            final(self).num_wires() == old(self).num_wires(),
            final(self).state() == frame_end(
                old(self).module().cells@,
                old(self).order(),
                old(self).state(),
                MAX_DELTA_CYCLES as nat,
            ),
            settles_within(
                old(self).module().cells@,
                old(self).order(),
                old(self).state(),
                MAX_DELTA_CYCLES as nat,
            ) ==> r is Ok && final(self).frames() == Self::next_frames(old(self).frames()),
            !settles_within(
                old(self).module().cells@,
                old(self).order(),
                old(self).state(),
                MAX_DELTA_CYCLES as nat,
            ) ==> r == Err::<(), SimError>(SimError::SimulationError { cycles: MAX_DELTA_CYCLES })
                && final(self).frames() == old(self).frames(),
    {
        let ghost cells = self.module.cells@;
        let ghost order = self.update_order@;
        let ghost start = self.sim_state@;
        let mut sub_frame: usize = 0;
        while sub_frame < MAX_DELTA_CYCLES
            invariant
                sub_frame <= MAX_DELTA_CYCLES,
                start == old(self).sim_state@,
                self.wf(),
                self.module == old(self).module,
                self.update_order == old(self).update_order,
                self.frame == old(self).frame,
                self.sim_state.num_wires() == old(self).sim_state.num_wires(),
                cells == self.module.cells@,
                order == self.update_order@,
                frame_end(cells, order, start, MAX_DELTA_CYCLES as nat) == frame_end(
                    cells,
                    order,
                    self.sim_state@,
                    (MAX_DELTA_CYCLES - sub_frame) as nat,
                ),
                settles_within(cells, order, start, MAX_DELTA_CYCLES as nat) == settles_within(
                    cells,
                    order,
                    self.sim_state@,
                    (MAX_DELTA_CYCLES - sub_frame) as nat,
                ),
            decreases MAX_DELTA_CYCLES - sub_frame,
        {
            let ghost entered = self.sim_state@;
            let mut i: usize = 0;
            assert(order.take(0) =~= Seq::<HCell>::empty());
            while i < self.update_order.len()
                invariant
                    i <= order.len(),
                    self.wf(),
                    self.module == old(self).module,
                    self.update_order == old(self).update_order,
                    self.frame == old(self).frame,
                    self.sim_state.num_wires() == old(self).sim_state.num_wires(),
                    cells == self.module.cells@,
                    order == self.update_order@,
                    self.sim_state@ == run_cells(cells, order.take(i as int), entered),
                decreases order.len() - i,
            {
                let h_cell = self.update_order[i];
                proof {
                    assert(order[i as int] < cells.len());
                    assert(order.take(i + 1).drop_last() =~= order.take(i as int));
                }
                let cell = &self.module.cells[h_cell];
                cell.simulate(&mut self.sim_state);
                i += 1;
            }
            proof {
                assert(order.take(i as int) =~= order);
            }
            self.sim_state.latch();
            if self.sim_state.set_wires_deferred.len() > 0 {
                self.sim_state.commit();
                proof {
                    let left = (MAX_DELTA_CYCLES - sub_frame) as nat;
                    assert(!settles(cells, order, entered));
                    assert(self.sim_state@ == delta_cycle(cells, order, entered));
                    assert(frame_end(cells, order, entered, left) == frame_end(
                        cells,
                        order,
                        self.sim_state@,
                        (left - 1) as nat,
                    ));
                    assert(settles_within(cells, order, entered, left) == settles_within(
                        cells,
                        order,
                        self.sim_state@,
                        (left - 1) as nat,
                    ));
                }
                sub_frame += 1;
            } else {
                proof {
                    let ran = run_cells(cells, order, entered);
                    assert(ran.deferred =~= Seq::<(HWire, Logic)>::empty());
                    assert(apply_writes(ran.cur, ran.deferred) == ran.cur);
                    assert(self.sim_state@ == delta_cycle(cells, order, entered));
                    let left = (MAX_DELTA_CYCLES - sub_frame) as nat;
                    assert(settles(cells, order, entered));
                    assert(frame_end(cells, order, entered, left) == delta_cycle(
                        cells,
                        order,
                        entered,
                    ));
                    assert(settles_within(cells, order, entered, left));
                }
                if self.frame < usize::MAX {
                    self.frame += 1;
                }
                return Ok(());
            }
        }
        Err(SimError::SimulationError { cycles: MAX_DELTA_CYCLES })
    }
}

/// What the writing of values to a port found by name comes to: the port
/// is looked for among the input ports and then among the output ports, and
/// the values have to be as many as the port has wires.
pub open spec fn set_by_name_result(
    module: &Module,
    before: WireState,
    name: Seq<char>,
    logics: Seq<Logic>,
    after: WireState,
    r: Result<(), SimError>,
) -> bool {
    let ins = module.in_ports@;
    let outs = module.out_ports@;
    let i = first_named(ins, name);
    let o = first_named(outs, name);
    if i < ins.len() {
        port_written(ins[i].wires@, before, logics, after, r)
    } else if o < outs.len() {
        port_written(outs[o].wires@, before, logics, after, r)
    } else {
        &&& after == before
        &&& r matches Err(error)
        &&& error == (SimError::NotFound { name: error->name })
        &&& error->name@ == name
    }
}

/// What the writing of values to the wires of a port comes to.
pub open spec fn port_written(
    h_wires: Seq<HWire>,
    before: WireState,
    logics: Seq<Logic>,
    after: WireState,
    r: Result<(), SimError>,
) -> bool {
    if h_wires.len() == logics.len() {
        &&& r == Ok::<(), SimError>(())
        &&& after == WireState { cur: write_wires(before.cur, h_wires, logics), ..before }
    } else {
        &&& after == before
        &&& h_wires.len() <= usize::MAX
        &&& r == Err::<(), SimError>(
            SimError::InvalidArgument(
                ArgumentFault::WrongWidth {
                    requested: logics.len() as usize,
                    actual: h_wires.len() as usize,
                },
            ),
        )
    }
}

/// What the reading of a port found by name comes to: the port is looked
/// for among the output ports and then among the input ports, and has to
/// have the width asked for.
pub open spec fn get_by_name_result(
    module: &Module,
    state: WireState,
    name: Seq<char>,
    width: usize,
    r: Result<Vec<Logic>, SimError>,
) -> bool {
    let ins = module.in_ports@;
    let outs = module.out_ports@;
    let i = first_named(ins, name);
    let o = first_named(outs, name);
    if o < outs.len() {
        port_read(outs[o].wires@, state, width, r)
    } else if i < ins.len() {
        port_read(ins[i].wires@, state, width, r)
    } else {
        &&& r matches Err(error)
        &&& error == (SimError::NotFound { name: error->name })
        &&& error->name@ == name
    }
}

/// What the reading of the wires of a port comes to.
pub open spec fn port_read(
    h_wires: Seq<HWire>,
    state: WireState,
    width: usize,
    r: Result<Vec<Logic>, SimError>,
) -> bool {
    if h_wires.len() == width {
        &&& r matches Ok(logics)
        &&& logics@ == read_wires(state.cur, h_wires)
    } else {
        &&& h_wires.len() <= usize::MAX
        &&& r matches Err(error)
        &&& error == SimError::InvalidArgument(
            ArgumentFault::WrongWidth { requested: width, actual: h_wires.len() as usize },
        )
    }
}

impl<'m> Sim<'m> {
    /// Writes a value to each wire of a port of `L` wires.
    pub fn set<const L: usize>(&mut self, port: &ModuleInPort, logics: [Logic; L])
        requires
            old(self).wf(),
            port.width() == L,
            port.below(old(self).num_wires()),
        ensures
            final(self).wf(),
            final(self).module() == old(self).module(),
            final(self).order() == old(self).order(),
            final(self).frames() == old(self).frames(),
            final(self).state() == (WireState {
                cur: write_wires(old(self).state().cur, port.wires@, logics@),
                ..old(self).state()
            }),
    {
        self.sim_state.set_wires(StateRef::Cur, port.items(), logics.as_slice());
    }

    /// Writes a value to each wire of a port.
    pub fn set_dynamic(&mut self, port: &ModuleInPort, logics: &[Logic])
        requires
            old(self).wf(),
            port.width() == logics@.len(),
            port.below(old(self).num_wires()),
        ensures
            final(self).wf(),
            final(self).module() == old(self).module(),
            final(self).order() == old(self).order(),
            final(self).frames() == old(self).frames(),
            final(self).state() == (WireState {
                cur: write_wires(old(self).state().cur, port.wires@, logics@),
                ..old(self).state()
            }),
    {
        self.sim_state.set_wires(StateRef::Cur, port.items(), logics);
    }

    /// Reads the value of each wire of a port of `L` wires.
    pub fn get<const L: usize>(&self, port: &ModuleOutPort) -> (logics: [Logic; L])
        requires
            self.wf(),
            port.width() == L,
            port.below(self.num_wires()),
        ensures
            logics@ == read_wires(self.state().cur, port.wires@),
    {
        let mut logics: [Logic; L] = array_fill_for_copy_types(Logic::X);
        self.sim_state.get_wires(StateRef::Cur, port.items(), &mut logics);
        logics
    }

    /// Reads the value of each wire of a port.
    pub fn get_dynamic(&self, port: &ModuleOutPort) -> (logics: Vec<Logic>)
        requires
            self.wf(),
            port.below(self.num_wires()),
        ensures
            logics@ == read_wires(self.state().cur, port.wires@),
    {
        let h_wires = port.items();
        let mut logics: Vec<Logic> = Vec::new();
        let mut i: usize = 0;
        while i < h_wires.len()
            invariant
                i <= h_wires@.len(),
                logics@.len() == i,
            decreases h_wires@.len() - i,
        {
            logics.push(Logic::X);
            i += 1;
        }
        self.sim_state.get_wires(StateRef::Cur, h_wires, logics.as_mut_slice());
        logics
    }

    /// Writes values to the port with a name.
    pub fn set_by_name(&mut self, name: &str, logics: &[Logic]) -> (r: Result<(), SimError>)
        requires
            old(self).wf(),
        ensures
            final(self).wf(),
            final(self).module() == old(self).module(),
            final(self).order() == old(self).order(),
            final(self).frames() == old(self).frames(),
            set_by_name_result(
                old(self).module(),
                old(self).state(),
                name@,
                logics@,
                final(self).state(),
                r,
            ),
    {
        let module = self.module;
        let h_wires = match find_by_name(module.in_ports.as_slice(), name) {
            Ok(port) => port.items(),
            Err(_) => match find_by_name(module.out_ports.as_slice(), name) {
                Ok(port) => port.items(),
                Err(error) => {
                    return Err(error);
                },
            },
        };
        if h_wires.len() != logics.len() {
            return Err(
                SimError::InvalidArgument(
                    ArgumentFault::WrongWidth { requested: logics.len(), actual: h_wires.len() },
                ),
            );
        }
        self.sim_state.set_wires(StateRef::Cur, h_wires, logics);
        Ok(())
    }

    /// Reads the values of the port with a name, which has to have the width.
    pub fn get_by_name(&self, name: &str, width: usize) -> (r: Result<Vec<Logic>, SimError>)
        requires
            self.wf(),
        ensures
            get_by_name_result(self.module(), self.state(), name@, width, r),
    {
        let module = self.module;
        let h_wires = match find_by_name(module.out_ports.as_slice(), name) {
            Ok(port) => port.items(),
            Err(_) => match find_by_name(module.in_ports.as_slice(), name) {
                Ok(port) => port.items(),
                Err(error) => {
                    return Err(error);
                },
            },
        };
        if h_wires.len() != width {
            return Err(
                SimError::InvalidArgument(
                    ArgumentFault::WrongWidth { requested: width, actual: h_wires.len() },
                ),
            );
        }
        let mut logics: Vec<Logic> = Vec::new();
        let mut i: usize = 0;
        while i < width
            invariant
                i <= width,
                logics@.len() == i,
            decreases width - i,
        {
            logics.push(Logic::X);
            i += 1;
        }
        self.sim_state.get_wires(StateRef::Cur, h_wires, logics.as_mut_slice());
        Ok(logics)
    }
}

/// Cells that are not clocked leave no write waiting: a frame of a module
/// without clocked cells that starts with no write waiting comes to an end
/// with its first delta cycle.
pub proof fn lemma_combinational_settles(cells: Seq<Cell>, order: Seq<HCell>, state: WireState)
    requires
        forall|c: int| 0 <= c < cells.len() ==> !(#[trigger] cells[c]).is_clocked(),
        forall|i: int| 0 <= i < order.len() ==> (#[trigger] order[i]) < cells.len(),
        state.deferred.len() == 0,
    ensures
        run_cells(cells, order, state).deferred == state.deferred,
        run_cells(cells, order, state).prev == state.prev,
        settles(cells, order, state),
        settles_within(cells, order, state, MAX_DELTA_CYCLES as nat),
        frame_end(cells, order, state, MAX_DELTA_CYCLES as nat) == delta_cycle(cells, order, state),
    decreases order.len(),
{
    if order.len() > 0 {
        let front = order.drop_last();
        assert forall|i: int| 0 <= i < front.len() implies (#[trigger] front[i]) < cells.len() by {
            assert(front[i] == order[i]);
        }
        lemma_combinational_settles(cells, front, state);
        let cell = cells[order.last() as int];
        assert(!cell.is_clocked());
    }
}

impl<'m> Sim<'m> {
    /// Every port of the simulated module names wires of the simulation only.
    pub proof fn lemma_ports_fit(&self)
        requires
            self.wf(),
        ensures
            forall|p: int|
                0 <= p < self.module().in_ports@.len() ==> (
                #[trigger] self.module().in_ports@[p]).below(self.num_wires()),
            forall|p: int|
                0 <= p < self.module().out_ports@.len() ==> (
                #[trigger] self.module().out_ports@[p]).below(self.num_wires()),
    {
    }
}

/// A module in which every wire has at most one driver and whose cells can
/// be brought into an order that respects their waiting for each other,
/// which is to say that all feedback runs through clocked cells, gets a
/// simulation, and the cells of the simulation run in such an order.
pub proof fn lemma_schedulable<'m>(
    module: &'m Module,
    made: Result<Sim<'m>, SimError>,
    some_order: Seq<HCell>,
)
    requires
        is_made(module, made),
        single_drivers(module.cells@),
        is_topological(module.cells@, some_order),
    ensures
        made is Ok,
        is_topological(module.cells@, made->Ok_0.order()),
{
    if let Err(error) = made {
        if exists|b: int, j: int|
            #![trigger CellWires::out_wires(module.cells@[b])[j]]
            repeats_at(module.cells@, b, j) {
            let (b, j) = choose|b: int, j: int|
                #![trigger CellWires::out_wires(module.cells@[b])[j]]
                repeats_at(module.cells@, b, j);
            assert(CellWires::out_wires(module.cells@[b])[j] == CellWires::out_wires(
                module.cells@[b],
            )[j]);
        }
    }
}

/// A module in which a wire is the output of two cells, or twice of one,
/// gets no simulation.
pub proof fn lemma_duplicate_driver<'m>(
    module: &'m Module,
    made: Result<Sim<'m>, SimError>,
    cell: int,
    index: int,
)
    requires
        is_made(module, made),
        repeats_at(module.cells@, cell, index),
    ensures
        made matches Err(SimError::ConstructionError(ConstructionFault::DuplicateDriver { .. })),
{
    if single_drivers(module.cells@) {
        assert(CellWires::out_wires(module.cells@[cell])[index] == CellWires::out_wires(
            module.cells@[cell],
        )[index]);
    }
}

} // verus!
