use crate::common::ConstructionFault;
use crate::common::Set4;
use crate::common::SimError;
use crate::common::collections::set4_insert;
use crate::common::collections::set4_new;
use crate::common::seqs::lemma_push_no_duplicates;
use crate::common::set4_items;
use crate::model::Cell;
use crate::model::HCell;
use crate::model::HWire;
use crate::model::Module;
use crate::sim::CellWires;
use crate::sim::schedule::drives;
use crate::sim::schedule::reads;
use crate::sim::state::wires_below;
use vstd::prelude::*;

verus! {

/// What the scheduler knows of a wire: the cell that drives it, if any, and
/// the cells that read it.
pub struct WireNode {
    pub h_in_cell: Option<HCell>,
    pub h_out_cells: Set4<HCell>,
}

impl WireNode {
    /// The cells that read the wire, in the order in which they were found.
    pub open spec fn readers(&self) -> Seq<HCell> {
        set4_items(self.h_out_cells)
    }
}

/// Walking the cells in their order and the outputs of each in their order,
/// some output before the one at `index` of the cell `cell` is the wire.
pub open spec fn driven_before(cells: Seq<Cell>, cell: int, index: int, h_wire: HWire) -> bool {
    exists|a: int, i: int|
        #![trigger CellWires::out_wires(cells[a])[i]]
        0 <= a < cells.len() && 0 <= i < CellWires::out_wires(cells[a]).len() && (a < cell || (a
            == cell && i < index)) && CellWires::out_wires(cells[a])[i] == h_wire
}

/// The output at `index` of the cell `cell` is a wire that an earlier output
/// drives already.
pub open spec fn repeats_at(cells: Seq<Cell>, cell: int, index: int) -> bool {
    &&& 0 <= cell < cells.len()
    &&& 0 <= index < CellWires::out_wires(cells[cell]).len()
    &&& driven_before(cells, cell, index, CellWires::out_wires(cells[cell])[index])
}

/// No output before the one at `index` of the cell `cell` is a wire that an
/// earlier output drives already.
pub open spec fn no_repeat_before(cells: Seq<Cell>, cell: int, index: int) -> bool {
    forall|b: int, j: int|
        #![trigger CellWires::out_wires(cells[b])[j]]
        0 <= b < cells.len() && 0 <= j < CellWires::out_wires(cells[b]).len() && (b < cell || (b
            == cell && j < index)) ==> !driven_before(
            cells,
            b,
            j,
            CellWires::out_wires(cells[b])[j],
        )
}

/// Every wire has at most one driver: no output of any cell is a wire that
/// another output drives too.
pub open spec fn single_drivers(cells: Seq<Cell>) -> bool {
    no_repeat_before(cells, cells.len() as int, 0)
}

/// The handles stand in rising order.
pub open spec fn ascending(handles: Seq<HCell>) -> bool {
    forall|i: int, j: int| 0 <= i < j < handles.len() ==> handles[i] < handles[j]
}

/// The nodes tell of every wire which of the first `upto` cells drives it and
/// which of them read it, the readers in rising order.
pub open spec fn wire_graph_upto(cells: Seq<Cell>, nodes: Seq<WireNode>, upto: int) -> bool {
    forall|w: HWire|
        w < nodes.len() ==> {
            let node = #[trigger] nodes[w as int];
            &&& node.h_in_cell is Some <==> driven_before(cells, upto, 0, w)
            &&& node.h_in_cell matches Some(a) ==> a < upto && drives(cells[a as int], w)
            &&& node.readers().no_duplicates()
            &&& ascending(node.readers())
            &&& forall|b: HCell|
                #[trigger] node.readers().contains(b) <==> b < upto && reads(cells[b as int], w)
        }
}

/// The nodes tell of every wire which cell drives it and which cells read
/// it, the readers in rising order.
pub open spec fn is_wire_graph(cells: Seq<Cell>, nodes: Seq<WireNode>) -> bool {
    wire_graph_upto(cells, nodes, cells.len() as int)
}

/// The readers of a wire after a cell was entered as a reader of the wires of a list.
pub open spec fn readers_with(
    before: Seq<HCell>,
    h_wires: Seq<HWire>,
    h_wire: HWire,
    h_cell: HCell,
) -> Seq<HCell> {
    if h_wires.contains(h_wire) && !before.contains(h_cell) {
        before.push(h_cell)
    } else {
        before
    }
}

/// Enters a cell as a reader of each of the wires.
fn add_reader(nodes: &mut Vec<WireNode>, h_wires: &[HWire], h_cell: HCell)
    requires
        wires_below(h_wires@, old(nodes)@.len()),
        forall|w: HWire|
            w < old(nodes)@.len() ==> (#[trigger] old(nodes)@[w as int]).readers().no_duplicates(),
    ensures
        final(nodes)@.len() == old(nodes)@.len(),
        forall|w: HWire|
            w < old(nodes)@.len() ==> {
                let after = #[trigger] final(nodes)@[w as int];
                let before = old(nodes)@[w as int];
                &&& after.h_in_cell == before.h_in_cell
                &&& after.readers().no_duplicates()
                &&& after.readers() == readers_with(before.readers(), h_wires@, w, h_cell)
            },
{
    let mut i: usize = 0;
    while i < h_wires.len()
        invariant
            i <= h_wires@.len(),
            nodes@.len() == old(nodes)@.len(),
            wires_below(h_wires@, nodes@.len()),
            forall|w: HWire|
                w < nodes@.len() ==> {
                    let after = #[trigger] nodes@[w as int];
                    let before = old(nodes)@[w as int];
                    &&& after.h_in_cell == before.h_in_cell
                    &&& after.readers().no_duplicates()
                    &&& after.readers() == readers_with(
                        before.readers(),
                        h_wires@.take(i as int),
                        w,
                        h_cell,
                    )
                },
        decreases h_wires@.len() - i,
    {
        let h_wire = h_wires[i];
        let ghost mid = nodes@;
        assert(h_wires@[i as int] < nodes@.len());
        set4_insert(&mut nodes[h_wire].h_out_cells, h_cell);
        proof {
            let seen = h_wires@.take(i as int);
            let seen_next = h_wires@.take(i + 1);
            assert(seen_next =~= seen.push(h_wire));
            assert forall|w: HWire| seen_next.contains(w) <==> seen.contains(w) || w == h_wire by {
                vstd::seq_lib::lemma_seq_contains_after_push(seen, h_wire, w);
            }
            assert forall|w: HWire| w < nodes@.len() implies {
                let after = #[trigger] nodes@[w as int];
                let before = old(nodes)@[w as int];
                &&& after.h_in_cell == before.h_in_cell
                &&& after.readers().no_duplicates()
                &&& after.readers() == readers_with(before.readers(), seen_next, w, h_cell)
            } by {
                let before = old(nodes)@[w as int];
                if w == h_wire {
                    let between = mid[w as int].readers();
                    assert(between == readers_with(before.readers(), seen, w, h_cell));
                    vstd::seq_lib::lemma_seq_contains_after_push(before.readers(), h_cell, h_cell);
                    if !between.contains(h_cell) {
                        lemma_push_no_duplicates(between, h_cell);
                    }
                } else {
                    assert(nodes@[w as int] == mid[w as int]);
                }
            }
        }
        i += 1;
    }
    assert(h_wires@.take(i as int) =~= h_wires@);
}

/// Neither has one of the first `upto` wires of the list a driver, nor does
/// one of them stand twice among them.
pub open spec fn fresh_upto(nodes: Seq<WireNode>, h_wires: Seq<HWire>, upto: int) -> bool {
    forall|j: int|
        0 <= j < upto ==> nodes[(#[trigger] h_wires[j]) as int].h_in_cell is None
            && !h_wires.take(j).contains(h_wires[j])
}

/// Enters a cell as the driver of each of the wires, up to the first wire
/// that has a driver already; the position of that wire is the error.
fn add_driver(nodes: &mut Vec<WireNode>, h_wires: &[HWire], h_cell: HCell) -> (r: Result<
    (),
    usize,
>)
    requires
        wires_below(h_wires@, old(nodes)@.len()),
    ensures
        final(nodes)@.len() == old(nodes)@.len(),
        forall|w: HWire|
            w < old(nodes)@.len() ==> (#[trigger] final(nodes)@[w as int]).h_out_cells == old(
                nodes,
            )@[w as int].h_out_cells,
        match r {
            Ok(_) => {
                &&& forall|w: HWire|
                    w < old(nodes)@.len() ==> (#[trigger] final(nodes)@[w as int]).h_in_cell
                        == if h_wires@.contains(w) {
                        Some(h_cell)
                    } else {
                        old(nodes)@[w as int].h_in_cell
                    }
                &&& fresh_upto(old(nodes)@, h_wires@, h_wires@.len() as int)
            },
            Err(at) => {
                &&& at < h_wires@.len()
                &&& old(nodes)@[h_wires@[at as int] as int].h_in_cell is Some || h_wires@.take(
                    at as int,
                ).contains(h_wires@[at as int])
                &&& fresh_upto(old(nodes)@, h_wires@, at as int)
            },
        },
{
    let mut j: usize = 0;
    while j < h_wires.len()
        invariant
            j <= h_wires@.len(),
            nodes@.len() == old(nodes)@.len(),
            wires_below(h_wires@, nodes@.len()),
            forall|w: HWire|
                w < nodes@.len() ==> (#[trigger] nodes@[w as int]).h_out_cells == old(
                    nodes,
                )@[w as int].h_out_cells,
            forall|w: HWire|
                w < nodes@.len() ==> (#[trigger] nodes@[w as int]).h_in_cell == if h_wires@.take(
                    j as int,
                ).contains(w) {
                    Some(h_cell)
                } else {
                    old(nodes)@[w as int].h_in_cell
                },
            fresh_upto(old(nodes)@, h_wires@, j as int),
        decreases h_wires@.len() - j,
    {
        let h_wire = h_wires[j];
        let ghost seen = h_wires@.take(j as int);
        let ghost seen_next = h_wires@.take(j + 1);
        let ghost mid = nodes@;
        proof {
            assert(seen_next =~= seen.push(h_wire));
            assert forall|w: HWire| seen_next.contains(w) <==> seen.contains(w) || w == h_wire by {
                vstd::seq_lib::lemma_seq_contains_after_push(seen, h_wire, w);
            }
            assert(h_wires@[j as int] < nodes@.len());
        }
        match nodes[h_wire].h_in_cell {
            Some(_) => {
                return Err(j);
            },
            None => {
                nodes[h_wire].h_in_cell = Some(h_cell);
            },
        }
        proof {
            assert forall|w: HWire| w < nodes@.len() implies (#[trigger] nodes@[w as int]).h_in_cell
                == if seen_next.contains(w) {
                Some(h_cell)
            } else {
                old(nodes)@[w as int].h_in_cell
            } by {
                if w != h_wire {
                    assert(nodes@[w as int] == mid[w as int]);
                }
            }
            assert forall|w: HWire| w < nodes@.len() implies (
            #[trigger] nodes@[w as int]).h_out_cells == old(nodes)@[w as int].h_out_cells by {
                if w != h_wire {
                    assert(nodes@[w as int] == mid[w as int]);
                }
            }
        }
        j += 1;
    }
    assert(h_wires@.take(j as int) =~= h_wires@);
    Ok(())
}

/// An output before the one at `index` of a cell is an output of an earlier
/// cell or one of the first `index` outputs of the cell itself.
pub proof fn lemma_driven_within(cells: Seq<Cell>, cell: int, index: int, h_wire: HWire)
    requires
        0 <= cell < cells.len(),
        0 <= index <= CellWires::out_wires(cells[cell]).len(),
    ensures
        driven_before(cells, cell, index, h_wire) <==> driven_before(cells, cell, 0, h_wire)
            || CellWires::out_wires(cells[cell]).take(index).contains(h_wire),
{
    let outs = CellWires::out_wires(cells[cell]);
    if driven_before(cells, cell, index, h_wire) {
        let (a, i) = choose|a: int, i: int|
            #![trigger CellWires::out_wires(cells[a])[i]]
            0 <= a < cells.len() && 0 <= i < CellWires::out_wires(cells[a]).len() && (a < cell
                || (a == cell && i < index)) && CellWires::out_wires(cells[a])[i] == h_wire;
        if a == cell {
            assert(outs.take(index)[i] == h_wire);
        }
    }
    if outs.take(index).contains(h_wire) {
        let i = choose|i: int| 0 <= i < outs.take(index).len() && outs.take(index)[i] == h_wire;
        assert(CellWires::out_wires(cells[cell])[i] == h_wire);
    }
    if driven_before(cells, cell, 0, h_wire) {
        let (a, i) = choose|a: int, i: int|
            #![trigger CellWires::out_wires(cells[a])[i]]
            0 <= a < cells.len() && 0 <= i < CellWires::out_wires(cells[a]).len() && (a < cell
                || (a == cell && i < 0)) && CellWires::out_wires(cells[a])[i] == h_wire;
        assert(CellWires::out_wires(cells[a])[i] == h_wire);
    }
}

/// An output of one of the first cells up to and with a cell is an output of
/// an earlier cell or of the cell itself.
pub proof fn lemma_driven_step(cells: Seq<Cell>, cell: int, h_wire: HWire)
    requires
        0 <= cell < cells.len(),
    ensures
        driven_before(cells, cell + 1, 0, h_wire) <==> driven_before(cells, cell, 0, h_wire)
            || drives(cells[cell], h_wire),
{
    let outs = CellWires::out_wires(cells[cell]);
    lemma_driven_within(cells, cell, outs.len() as int, h_wire);
    assert(outs.take(outs.len() as int) =~= outs);
    if driven_before(cells, cell + 1, 0, h_wire) {
        let (a, i) = choose|a: int, i: int|
            #![trigger CellWires::out_wires(cells[a])[i]]
            0 <= a < cells.len() && 0 <= i < CellWires::out_wires(cells[a]).len() && (a < cell + 1
                || (a == cell + 1 && i < 0)) && CellWires::out_wires(cells[a])[i] == h_wire;
        assert(CellWires::out_wires(cells[a])[i] == h_wire);
        assert(driven_before(cells, cell, outs.len() as int, h_wire));
    }
    if driven_before(cells, cell, outs.len() as int, h_wire) {
        let (a, i) = choose|a: int, i: int|
            #![trigger CellWires::out_wires(cells[a])[i]]
            0 <= a < cells.len() && 0 <= i < CellWires::out_wires(cells[a]).len() && (a < cell
                || (a == cell && i < outs.len())) && CellWires::out_wires(cells[a])[i] == h_wire;
        assert(CellWires::out_wires(cells[a])[i] == h_wire);
    }
}

/// The wire graph of a module: for every wire the one cell that drives it and
/// the cells that read it. A wire that two outputs drive is an error, and the
/// first one found in the order of the cells and their outputs is reported.
pub fn compute_wire_graph(module: &Module, num_wires: usize) -> (r: Result<
    Vec<WireNode>,
    SimError,
>)
    requires
        forall|c: int|
            0 <= c < module.cells@.len() ==> wires_below(
                CellWires::all_wires(#[trigger] module.cells@[c]),
                num_wires as nat,
            ),
    ensures
        match r {
            Ok(nodes) => {
                &&& nodes@.len() == num_wires
                &&& is_wire_graph(module.cells@, nodes@)
                &&& single_drivers(module.cells@)
            },
            Err(error) => exists|b: int, j: int|
                #![trigger CellWires::out_wires(module.cells@[b])[j]]
                {
                    &&& repeats_at(module.cells@, b, j)
                    &&& no_repeat_before(module.cells@, b, j)
                    &&& error == SimError::ConstructionError(
                        ConstructionFault::DuplicateDriver {
                            wire: CellWires::out_wires(module.cells@[b])[j],
                        },
                    )
                },
        },
{
    let ghost cells = module.cells@;
    let mut wire_nodes: Vec<WireNode> = Vec::new();
    let mut w: usize = 0;
    while w < num_wires
        invariant
            w <= num_wires,
            wire_nodes@.len() == w,
            forall|k: HWire|
                k < wire_nodes@.len() ==> (#[trigger] wire_nodes@[k as int]).h_in_cell is None
                    && wire_nodes@[k as int].readers() == Seq::<HCell>::empty(),
        decreases num_wires - w,
    {
        wire_nodes.push(WireNode { h_in_cell: None, h_out_cells: set4_new() });
        w += 1;
    }
    let mut h_cell: usize = 0;
    while h_cell < module.cells.len()
        invariant
            h_cell <= module.cells@.len(),
            cells == module.cells@,
            wire_nodes@.len() == num_wires,
            forall|c: int|
                0 <= c < module.cells@.len() ==> wires_below(
                    CellWires::all_wires(#[trigger] module.cells@[c]),
                    num_wires as nat,
                ),
            wire_graph_upto(cells, wire_nodes@, h_cell as int),
            no_repeat_before(cells, h_cell as int, 0),
        decreases module.cells@.len() - h_cell,
    {
        let cell = &module.cells[h_cell];
        let ghost before = wire_nodes@;
        let ins = CellWires::get_in_port_h_wires(cell);
        let outs = CellWires::get_out_port_h_wires(cell);
        proof {
            let all = CellWires::all_wires(cells[h_cell as int]);
            assert forall|i: int| 0 <= i < ins@.len() implies (#[trigger] ins@[i]) < num_wires by {
                assert(all[i] == ins@[i]);
            }
            assert forall|i: int| 0 <= i < outs@.len() implies (#[trigger] outs@[i])
                < num_wires by {
                assert(all[ins@.len() + i] == outs@[i]);
            }
        }
        add_reader(&mut wire_nodes, ins.as_slice(), h_cell);
        let ghost mid = wire_nodes@;
        match add_driver(&mut wire_nodes, outs.as_slice(), h_cell) {
            Ok(_) => {},
            Err(at) => {
                proof {
                    let wire = outs@[at as int];
                    lemma_driven_within(cells, h_cell as int, at as int, wire);
                    assert(mid[wire as int].h_in_cell == before[wire as int].h_in_cell);
                    assert(repeats_at(cells, h_cell as int, at as int));
                    assert forall|b: int, j: int|
                        #![trigger CellWires::out_wires(cells[b])[j]]
                        0 <= b < cells.len() && 0 <= j < CellWires::out_wires(cells[b]).len() && (b
                            < h_cell || (b == h_cell && j < at)) implies !driven_before(
                        cells,
                        b,
                        j,
                        CellWires::out_wires(cells[b])[j],
                    ) by {
                        if b == h_cell {
                            let other = outs@[j];
                            lemma_driven_within(cells, h_cell as int, j, other);
                            assert(mid[other as int].h_in_cell == before[other as int].h_in_cell);
                        }
                    }
                }
                return Err(
                    SimError::ConstructionError(
                        ConstructionFault::DuplicateDriver { wire: outs[at] },
                    ),
                );
            },
        }
        proof {
            assert forall|b: int, j: int|
                #![trigger CellWires::out_wires(cells[b])[j]]
                0 <= b < cells.len() && 0 <= j < CellWires::out_wires(cells[b]).len() && (b < h_cell
                    + 1 || (b == h_cell + 1 && j < 0)) implies !driven_before(
                cells,
                b,
                j,
                CellWires::out_wires(cells[b])[j],
            ) by {
                if b == h_cell {
                    let other = outs@[j];
                    lemma_driven_within(cells, h_cell as int, j, other);
                    assert(mid[other as int].h_in_cell == before[other as int].h_in_cell);
                }
            }
            assert forall|k: HWire| k < wire_nodes@.len() implies {
                let node = #[trigger] wire_nodes@[k as int];
                &&& node.h_in_cell is Some <==> driven_before(cells, h_cell + 1, 0, k)
                &&& node.h_in_cell matches Some(a) ==> a < h_cell + 1 && drives(cells[a as int], k)
                &&& node.readers().no_duplicates()
                &&& ascending(node.readers())
                &&& forall|b: HCell|
                    #[trigger] node.readers().contains(b) <==> b < h_cell + 1 && reads(
                        cells[b as int],
                        k,
                    )
            } by {
                let node = wire_nodes@[k as int];
                lemma_driven_step(cells, h_cell as int, k);
                assert(mid[k as int].h_in_cell == before[k as int].h_in_cell);
                assert(node.h_out_cells == mid[k as int].h_out_cells);
                assert(mid[k as int].readers() == readers_with(
                    before[k as int].readers(),
                    ins@,
                    k,
                    h_cell,
                ));
                assert(ascending(node.readers())) by {
                    let old_readers = before[k as int].readers();
                    assert forall|i: int| 0 <= i < old_readers.len() implies old_readers[i]
                        < h_cell by {
                        assert(old_readers.contains(old_readers[i]));
                    }
                }
                assert forall|b: HCell| #[trigger]
                    node.readers().contains(b) <==> b < h_cell + 1 && reads(cells[b as int], k) by {
                    vstd::seq_lib::lemma_seq_contains_after_push(
                        before[k as int].readers(),
                        h_cell,
                        b,
                    );
                    assert(before[k as int].readers().contains(b) <==> b < h_cell && reads(
                        cells[b as int],
                        k,
                    ));
                }
            }
        }
        h_cell += 1;
    }
    Ok(wire_nodes)
}

} // verus!
