pub mod cell_graph;
pub mod order;
pub mod wire_graph;

pub use cell_graph::compute_cell_graph;
pub use cell_graph::feeds;
pub use cell_graph::is_cell_graph;
pub use cell_graph::CellNode;
pub use order::compute_cell_update_order;
pub use order::compute_input_cells;
pub use order::is_topological;
pub use wire_graph::compute_wire_graph;
pub use wire_graph::is_wire_graph;
pub use wire_graph::no_repeat_before;
pub use wire_graph::repeats_at;
pub use wire_graph::single_drivers;
pub use wire_graph::WireNode;

use crate::model::Cell;
use crate::model::HWire;
use crate::model::Module;
use crate::sim::CellWires;
use crate::sim::cell::lemma_fits_below;
use crate::sim::state::wires_below;
use vstd::prelude::*;

verus! {

/// The cell drives the wire.
pub open spec fn drives(cell: Cell, h_wire: HWire) -> bool {
    CellWires::out_wires(cell).contains(h_wire)
}

/// The cell reads the wire.
pub open spec fn reads(cell: Cell, h_wire: HWire) -> bool {
    CellWires::in_wires(cell).contains(h_wire)
}

/// One of the first `cells` cells, of the first `ins` input ports or of the
/// first `outs` output ports of the module names the wire.
pub open spec fn touches_within(module: &Module, cells: int, ins: int, outs: int,
    h_wire: HWire) -> bool {
    ||| exists|c: int|
        0 <= c < cells && c < module.cells@.len() && CellWires::all_wires(
            #[trigger] module.cells@[c],
        ).contains(h_wire)
    ||| exists|p: int|
        0 <= p < ins && p < module.in_ports@.len() &&
            (#[trigger] module.in_ports@[p]).wires@.contains(
            h_wire,
        )
    ||| exists|p: int|
        0 <= p < outs && p < module.out_ports@.len() && (
        #[trigger] module.out_ports@[p]).wires@.contains(h_wire)
}

/// A cell or a port of the module names the wire.
pub open spec fn touches(module: &Module, h_wire: HWire) -> bool {
    touches_within(
        module,
        module.cells@.len() as int,
        module.in_ports@.len() as int,
        module.out_ports@.len() as int,
        h_wire,
    )
}

/// The number of wires of a module: one more than the largest handle that
/// the module names, none where it names no wire.
pub open spec fn is_wire_count(module: &Module, num_wires: nat) -> bool {
    &&& forall|h_wire: HWire| touches(module, h_wire) ==> h_wire < num_wires
    &&& num_wires > 0 ==> touches(module, (num_wires - 1) as usize)
}

/// Raises a count of wires so that it covers a list of handles.
fn cover(num_wires: usize, h_wires: &[HWire]) -> (covered: usize)
    requires
        wires_below(h_wires@, usize::MAX as nat),
    ensures
        covered >= num_wires,
        wires_below(h_wires@, covered as nat),
        covered == num_wires || h_wires@.contains((covered - 1) as usize),
{
    let mut covered = num_wires;
    let mut i: usize = 0;
    while i < h_wires.len()
        invariant
            i <= h_wires@.len(),
            covered >= num_wires,
            wires_below(h_wires@, usize::MAX as nat),
            forall|k: int| 0 <= k < i ==> (#[trigger] h_wires@[k]) < covered,
            covered == num_wires || h_wires@.contains((covered - 1) as usize),
        decreases h_wires@.len() - i,
    {
        let h_wire = h_wires[i];
        assert(h_wires@[i as int] < usize::MAX);
        if h_wire + 1 > covered {
            covered = h_wire + 1;
        }
        i += 1;
    }
    covered
}

/// The number of wires of a module: one more than the largest handle that a
/// cell or a port of the module names.
pub fn compute_num_wires(module: &Module) -> (num_wires: usize)
    requires
        module.wf(),
    ensures
        is_wire_count(module, num_wires as nat),
{
    let mut num_wires: usize = 0;
    let mut c: usize = 0;
    while c < module.cells.len()
        invariant
            c <= module.cells@.len(),
            module.wf(),
            forall|h_wire: HWire|
                #[trigger] touches_within(module, c as int, 0, 0, h_wire) ==> h_wire < num_wires,
            num_wires > 0 ==> touches_within(module, c as int, 0, 0, (num_wires - 1) as usize),
        decreases module.cells@.len() - c,
    {
        let h_wires = CellWires::get_all_h_wires(&module.cells[c]);
        proof {
            lemma_fits_below(module.cells@[c as int], usize::MAX as nat);
        }
        let ghost before = num_wires;
        num_wires = cover(num_wires, h_wires.as_slice());
        proof {
            assert forall|h_wire: HWire| #[trigger]
                touches_within(module, c + 1, 0, 0, h_wire) implies h_wire < num_wires by {
                if !touches_within(module, c as int, 0, 0, h_wire) {
                    let k = choose|k: int|
                        0 <= k < c + 1 && k < module.cells@.len() && CellWires::all_wires(
                            #[trigger] module.cells@[k],
                        ).contains(h_wire);
                    assert(k == c);
                    let i = choose|i: int| 0 <= i < h_wires@.len() && h_wires@[i] == h_wire;
                    assert(h_wires@[i] < num_wires);
                }
            }
            if num_wires > 0 && num_wires != before {
                assert(CellWires::all_wires(module.cells@[c as int]).contains(
                    (num_wires - 1) as usize,
                ));
            }
        }
        c += 1;
    }
    let mut p: usize = 0;
    while p < module.in_ports.len()
        invariant
            p <= module.in_ports@.len(),
            c == module.cells@.len(),
            module.wf(),
            forall|h_wire: HWire|
                #[trigger] touches_within(module, c as int, p as int, 0, h_wire) ==> h_wire
                    < num_wires,
            num_wires > 0 ==> touches_within(
                module,
                c as int,
                p as int,
                0,
                (num_wires - 1) as usize,
            ),
        decreases module.in_ports@.len() - p,
    {
        let ghost before = num_wires;
        let ghost h_wires = module.in_ports@[p as int].wires@;
        assert(module.in_ports@[p as int].below(usize::MAX as nat));
        num_wires = cover(num_wires, module.in_ports[p].items());
        proof {
            assert forall|h_wire: HWire| #[trigger]
                touches_within(module, c as int, p + 1, 0, h_wire) implies h_wire < num_wires by {
                if !touches_within(module, c as int, p as int, 0, h_wire) {
                    let k = choose|k: int|
                        0 <= k < p + 1 && k < module.in_ports@.len() && (
                        #[trigger] module.in_ports@[k]).wires@.contains(h_wire);
                    assert(k == p);
                    let i = choose|i: int| 0 <= i < h_wires.len() && h_wires[i] == h_wire;
                    assert(h_wires[i] < num_wires);
                }
            }
            if num_wires > 0 && num_wires != before {
                assert(module.in_ports@[p as int].wires@.contains((num_wires - 1) as usize));
            }
        }
        p += 1;
    }
    let ghost ins = p;
    let mut p: usize = 0;
    while p < module.out_ports.len()
        invariant
            p <= module.out_ports@.len(),
            c == module.cells@.len(),
            ins == module.in_ports@.len(),
            module.wf(),
            forall|h_wire: HWire|
                #[trigger] touches_within(module, c as int, ins as int, p as int, h_wire)
                    ==> h_wire < num_wires,
            num_wires > 0 ==> touches_within(
                module,
                c as int,
                ins as int,
                p as int,
                (num_wires - 1) as usize,
            ),
        decreases module.out_ports@.len() - p,
    {
        let ghost before = num_wires;
        let ghost h_wires = module.out_ports@[p as int].wires@;
        assert(module.out_ports@[p as int].below(usize::MAX as nat));
        num_wires = cover(num_wires, module.out_ports[p].items());
        proof {
            assert forall|h_wire: HWire| #[trigger]
                touches_within(module, c as int, ins as int, p + 1, h_wire) implies h_wire
                < num_wires by {
                if !touches_within(module, c as int, ins as int, p as int, h_wire) {
                    let k = choose|k: int|
                        0 <= k < p + 1 && k < module.out_ports@.len() && (
                        #[trigger] module.out_ports@[k]).wires@.contains(h_wire);
                    assert(k == p);
                    let i = choose|i: int| 0 <= i < h_wires.len() && h_wires[i] == h_wire;
                    assert(h_wires[i] < num_wires);
                }
            }
            if num_wires > 0 && num_wires != before {
                assert(module.out_ports@[p as int].wires@.contains((num_wires - 1) as usize));
            }
        }
        p += 1;
    }
    num_wires
}

} // verus!
