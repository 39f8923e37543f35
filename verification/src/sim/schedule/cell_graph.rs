use crate::common::Set4;
use crate::common::collections::set4_get;
use crate::common::collections::set4_insert;
use crate::common::collections::set4_len;
use crate::common::collections::set4_new;
use crate::common::seqs::lemma_push_no_duplicates;
use crate::common::set4_items;
use crate::model::Cell;
use crate::model::HCell;
use crate::model::HWire;
use crate::model::Module;
use crate::sim::CellSimModel;
use crate::sim::CellWires;
use crate::sim::schedule::drives;
use crate::sim::schedule::reads;
use crate::sim::schedule::wire_graph::WireNode;
use crate::sim::schedule::wire_graph::driven_before;
use crate::sim::schedule::wire_graph::is_wire_graph;
use crate::sim::schedule::wire_graph::single_drivers;
use crate::sim::state::wires_below;
use vstd::prelude::*;

verus! {

/// What the scheduler knows of a cell: the cells that it waits for and the
/// cells that wait for it.
pub struct CellNode {
    pub name: String,
    pub h_prev_cells: Set4<HCell>,
    pub h_next_cells: Set4<HCell>,
}

impl CellNode {
    /// The cells that the cell waits for, in the order in which they were found.
    pub open spec fn prevs(&self) -> Seq<HCell> {
        set4_items(self.h_prev_cells)
    }

    /// The cells that wait for the cell, in the order in which they were found.
    pub open spec fn nexts(&self) -> Seq<HCell> {
        set4_items(self.h_next_cells)
    }
}

/// The cell `b` has to wait for the cell `a` within a delta cycle, on account
/// of one of the first `upto` wires: `a` drives the wire, `b` reads it, and
/// `a` is not clocked. What a clocked cell puts out shows only after the
/// delta cycle, so nothing waits for it.
pub open spec fn feeds_via(cells: Seq<Cell>, a: int, b: int, upto: int) -> bool {
    &&& 0 <= a < cells.len()
    &&& 0 <= b < cells.len()
    &&& !cells[a].is_clocked()
    &&& exists|w: HWire| w < upto && #[trigger] drives(cells[a], w) && reads(cells[b], w)
}

/// The cell `b` has to wait for the cell `a` within a delta cycle.
pub open spec fn feeds(cells: Seq<Cell>, a: int, b: int) -> bool {
    &&& 0 <= a < cells.len()
    &&& 0 <= b < cells.len()
    &&& !cells[a].is_clocked()
    &&& exists|w: HWire| #[trigger] drives(cells[a], w) && reads(cells[b], w)
}

/// The nodes tell of every cell which cells it waits for and which cells wait
/// for it, on account of the first `upto` wires.
pub open spec fn cell_graph_upto(cells: Seq<Cell>, nodes: Seq<CellNode>, upto: int) -> bool {
    &&& nodes.len() == cells.len()
    &&& forall|c: HCell|
        c < nodes.len() ==> {
            let node = #[trigger] nodes[c as int];
            &&& node.name@ == cells[c as int].name_chars()
            &&& node.prevs().no_duplicates()
            &&& node.nexts().no_duplicates()
            &&& forall|a: HCell|
                #[trigger] node.prevs().contains(a) <==> feeds_via(cells, a as int, c as int, upto)
            &&& forall|b: HCell|
                #[trigger] node.nexts().contains(b) <==> feeds_via(cells, c as int, b as int, upto)
        }
}

/// The nodes tell of every cell which cells it waits for and which cells wait
/// for it.
pub open spec fn is_cell_graph(cells: Seq<Cell>, nodes: Seq<CellNode>) -> bool {
    &&& nodes.len() == cells.len()
    &&& forall|c: HCell|
        c < nodes.len() ==> {
            let node = #[trigger] nodes[c as int];
            &&& node.name@ == cells[c as int].name_chars()
            &&& node.prevs().no_duplicates()
            &&& node.nexts().no_duplicates()
            &&& forall|a: HCell|
                #[trigger] node.prevs().contains(a) <==> feeds(cells, a as int, c as int)
            &&& forall|b: HCell|
                #[trigger] node.nexts().contains(b) <==> feeds(cells, c as int, b as int)
        }
}

/// A list with an item entered behind the others, unless it holds the item.
pub open spec fn with_item(items: Seq<HCell>, item: HCell) -> Seq<HCell> {
    if items.contains(item) {
        items
    } else {
        items.push(item)
    }
}

/// A list without repetition stays so when an item is entered, and holds
/// the item and what it held before.
pub proof fn lemma_with_item(items: Seq<HCell>, item: HCell)
    requires
        items.no_duplicates(),
    ensures
        with_item(items, item).no_duplicates(),
        forall|x: HCell| #[trigger] with_item(items, item).contains(x) <==>
            items.contains(x) || x == item,
{
    if !items.contains(item) {
        lemma_push_no_duplicates(items, item);
    }
    assert forall|x: HCell| #[trigger]
        with_item(items, item).contains(x) <==> items.contains(x) || x == item by {
        vstd::seq_lib::lemma_seq_contains_after_push(items, item, x);
    }
}

/// Enters that the cell `to` waits for the cell `from`.
fn link(nodes: &mut Vec<CellNode>, from: HCell, to: HCell)
    requires
        from < old(nodes)@.len(),
        to < old(nodes)@.len(),
    ensures
        final(nodes)@.len() == old(nodes)@.len(),
        forall|c: HCell|
            c < old(nodes)@.len() ==> {
                let after = #[trigger] final(nodes)@[c as int];
                let before = old(nodes)@[c as int];
                &&& after.name == before.name
                &&& after.nexts() == if c == from {
                    with_item(before.nexts(), to)
                } else {
                    before.nexts()
                }
                &&& after.prevs() == if c == to {
                    with_item(before.prevs(), from)
                } else {
                    before.prevs()
                }
            },
{
    let ghost start = nodes@;
    set4_insert(&mut nodes[from].h_next_cells, to);
    let ghost mid = nodes@;
    assert forall|c: HCell| c < mid.len() &&
        c != from implies mid[c as int] == start[c as int] by {}
    set4_insert(&mut nodes[to].h_prev_cells, from);
    assert forall|c: HCell| c < mid.len() && c != to implies nodes@[c as int] == mid[c as int] by {}
}

/// Where every wire has at most one driver, two cells that drive one wire
/// are one cell.
pub proof fn lemma_one_driver(cells: Seq<Cell>, a: int, b: int, h_wire: HWire)
    requires
        single_drivers(cells),
        0 <= a < cells.len(),
        0 <= b < cells.len(),
        drives(cells[a], h_wire),
        drives(cells[b], h_wire),
    ensures
        a == b,
{
    let outs_a = CellWires::out_wires(cells[a]);
    let outs_b = CellWires::out_wires(cells[b]);
    let i = choose|i: int| 0 <= i < outs_a.len() && outs_a[i] == h_wire;
    let j = choose|j: int| 0 <= j < outs_b.len() && outs_b[j] == h_wire;
    if a < b {
        assert(CellWires::out_wires(cells[a])[i] == h_wire);
        assert(driven_before(cells, b, j, CellWires::out_wires(cells[b])[j]));
    } else if b < a {
        assert(CellWires::out_wires(cells[b])[j] == h_wire);
        assert(driven_before(cells, a, i, CellWires::out_wires(cells[a])[i]));
    }
}

/// What one more wire adds to the waiting of cells for each other: every
/// reader of the wire waits for its driver, unless the driver is clocked.
pub proof fn lemma_feeds_step(
    cells: Seq<Cell>,
    wire_nodes: Seq<WireNode>,
    w: HWire,
    x: HCell,
    y: HCell,
)
    requires
        is_wire_graph(cells, wire_nodes),
        single_drivers(cells),
        w < wire_nodes.len(),
    ensures
        feeds_via(cells, x as int, y as int, w + 1) <==> feeds_via(
            cells,
            x as int,
            y as int,
            w as int,
        ) || (x < cells.len() && y < cells.len() && !cells[x as int].is_clocked()
            && wire_nodes[w as int].h_in_cell == Some(x) && wire_nodes[w as int].readers().contains(
            y,
        )),
{
    let node = wire_nodes[w as int];
    if feeds_via(cells, x as int, y as int, w + 1) &&
        !feeds_via(cells, x as int, y as int, w as int) {
        let v = choose|v: HWire|
            v < w + 1 && #[trigger] drives(cells[x as int], v) && reads(cells[y as int], v);
        assert(v == w);
        let outs = CellWires::out_wires(cells[x as int]);
        let i = choose|i: int| 0 <= i < outs.len() && outs[i] == w;
        assert(CellWires::out_wires(cells[x as int])[i] == w);
        assert(driven_before(cells, cells.len() as int, 0, w));
        let a = node.h_in_cell->Some_0;
        lemma_one_driver(cells, a as int, x as int, w);
        assert(node.readers().contains(y));
    }
    if x < cells.len() && y < cells.len() && !cells[x as int].is_clocked() && node.h_in_cell
        == Some(x) && node.readers().contains(y) {
        assert(drives(cells[x as int], w) && reads(cells[y as int], w));
    }
    if feeds_via(cells, x as int, y as int, w as int) {
        let v = choose|v: HWire|
            v < w && #[trigger] drives(cells[x as int], v) && reads(cells[y as int], v);
        assert(v < w + 1 && drives(cells[x as int], v) && reads(cells[y as int], v));
    }
}

/// The cell graph while the readers of one wire are linked to its driver:
/// the waiting on account of the wires below `w`, and that of the readers
/// `seen` for the driver `a`.
pub open spec fn cell_graph_within(
    cells: Seq<Cell>,
    nodes: Seq<CellNode>,
    w: int,
    a: HCell,
    seen: Seq<HCell>,
) -> bool {
    &&& nodes.len() == cells.len()
    &&& forall|c: HCell|
        c < nodes.len() ==> {
            let node = #[trigger] nodes[c as int];
            &&& node.name@ == cells[c as int].name_chars()
            &&& node.prevs().no_duplicates()
            &&& node.nexts().no_duplicates()
            &&& forall|x: HCell|
                #[trigger] node.prevs().contains(x) <==> feeds_via(cells, x as int, c as int, w)
                    || (x == a && seen.contains(c))
            &&& forall|b: HCell|
                #[trigger] node.nexts().contains(b) <==> feeds_via(cells, c as int, b as int, w)
                    || (c == a && seen.contains(b))
        }
}

/// The cell graph of a module: for every cell the cells that it waits for
/// within a delta cycle and the cells that wait for it.
pub fn compute_cell_graph(module: &Module, wire_nodes: &Vec<WireNode>) -> (cell_nodes: Vec<
    CellNode,
>)
    requires
        is_wire_graph(module.cells@, wire_nodes@),
        single_drivers(module.cells@),
        forall|c: int|
            0 <= c < module.cells@.len() ==> wires_below(
                CellWires::all_wires(#[trigger] module.cells@[c]),
                wire_nodes@.len(),
            ),
    ensures
        is_cell_graph(module.cells@, cell_nodes@),
{
    let ghost cells = module.cells@;
    let mut cell_nodes: Vec<CellNode> = Vec::new();
    let mut c: usize = 0;
    while c < module.cells.len()
        invariant
            c <= module.cells@.len(),
            cell_nodes@.len() == c,
            forall|k: HCell|
                k < cell_nodes@.len() ==> {
                    let node = #[trigger] cell_nodes@[k as int];
                    &&& node.name@ == module.cells@[k as int].name_chars()
                    &&& node.prevs() == Seq::<HCell>::empty()
                    &&& node.nexts() == Seq::<HCell>::empty()
                },
        decreases module.cells@.len() - c,
    {
        cell_nodes.push(
            CellNode {
                name: module.cells[c].name().to_owned(),
                h_prev_cells: set4_new(),
                h_next_cells: set4_new(),
            },
        );
        c += 1;
    }
    assert(cell_graph_upto(cells, cell_nodes@, 0));
    let mut w: usize = 0;
    while w < wire_nodes.len()
        invariant
            w <= wire_nodes@.len(),
            cells == module.cells@,
            is_wire_graph(cells, wire_nodes@),
            single_drivers(cells),
            cell_graph_upto(cells, cell_nodes@, w as int),
        decreases wire_nodes@.len() - w,
    {
        let wire_node = &wire_nodes[w];
        let ghost readers = wire_node.readers();
        let ghost before = cell_nodes@;
        match wire_node.h_in_cell {
            Some(a) => {
                if !module.cells[a].clocked() {
                    let count = set4_len(&wire_node.h_out_cells);
                    let mut k: usize = 0;
                    assert(readers.take(0) =~= Seq::<HCell>::empty());
                    while k < count
                        invariant
                            k <= count,
                            count == readers.len(),
                            readers == wire_node.readers(),
                            a < cells.len(),
                            w < wire_nodes@.len(),
                            *wire_node == wire_nodes@[w as int],
                            is_wire_graph(cells, wire_nodes@),
                            cell_graph_within(cells, cell_nodes@, w as int, a,
                                readers.take(k as int)),
                        decreases count - k,
                    {
                        let ghost mid = cell_nodes@;
                        let ghost seen = readers.take(k as int);
                        let ghost seen_next = readers.take(k + 1);
                        match set4_get(&wire_node.h_out_cells, k) {
                            Some(b) => {
                                proof {
                                    assert(readers.contains(b));
                                    assert(seen_next =~= seen.push(b));
                                    assert forall|x: HCell|
                                        seen_next.contains(x) <==> seen.contains(x) || x == b by {
                                        vstd::seq_lib::lemma_seq_contains_after_push(seen, b, x);
                                    }
                                }
                                link(&mut cell_nodes, a, b);
                                proof {
                                    assert forall|c: HCell| c < cell_nodes@.len() implies {
                                        let node = #[trigger] cell_nodes@[c as int];
                                        &&& node.name@ == cells[c as int].name_chars()
                                        &&& node.prevs().no_duplicates()
                                        &&& node.nexts().no_duplicates()
                                        &&& forall|x: HCell|
                                            #[trigger] node.prevs().contains(x) <==> feeds_via(
                                                cells,
                                                x as int,
                                                c as int,
                                                w as int,
                                            ) || (x == a && seen_next.contains(c))
                                        &&& forall|y: HCell|
                                            #[trigger] node.nexts().contains(y) <==> feeds_via(
                                                cells,
                                                c as int,
                                                y as int,
                                                w as int,
                                            ) || (c == a && seen_next.contains(y))
                                    } by {
                                        let old_node = mid[c as int];
                                        lemma_with_item(old_node.nexts(), b);
                                        lemma_with_item(old_node.prevs(), a);
                                    }
                                }
                            },
                            None => {},
                        }
                        k += 1;
                    }
                    proof {
                        assert(readers.take(k as int) =~= readers);
                    }
                }
            },
            None => {},
        }
        proof {
            assert forall|c: HCell| c < cell_nodes@.len() implies {
                let node = #[trigger] cell_nodes@[c as int];
                &&& node.name@ == cells[c as int].name_chars()
                &&& node.prevs().no_duplicates()
                &&& node.nexts().no_duplicates()
                &&& forall|x: HCell|
                    #[trigger] node.prevs().contains(x) <==> feeds_via(
                        cells,
                        x as int,
                        c as int,
                        w + 1,
                    )
                &&& forall|y: HCell|
                    #[trigger] node.nexts().contains(y) <==> feeds_via(
                        cells,
                        c as int,
                        y as int,
                        w + 1,
                    )
            } by {
                let node = cell_nodes@[c as int];
                assert forall|x: HCell| #[trigger]
                    node.prevs().contains(x) <==> feeds_via(cells, x as int, c as int, w + 1) by {
                    lemma_feeds_step(cells, wire_nodes@, w, x, c);
                }
                assert forall|y: HCell| #[trigger]
                    node.nexts().contains(y) <==> feeds_via(cells, c as int, y as int, w + 1) by {
                    lemma_feeds_step(cells, wire_nodes@, w, c, y);
                }
            }
        }
        w += 1;
    }
    proof {
        assert forall|c: HCell| c < cell_nodes@.len() implies {
            let node = #[trigger] cell_nodes@[c as int];
            &&& forall|x: HCell|
                #[trigger] node.prevs().contains(x) <==> feeds(cells, x as int, c as int)
            &&& forall|y: HCell|
                #[trigger] node.nexts().contains(y) <==> feeds(cells, c as int, y as int)
        } by {
            assert forall|x: int, y: int|
                feeds(cells, x, y) <==> feeds_via(cells, x, y, w as int) by {
                lemma_feeds_all(cells, x, y, w as int);
            }
        }
    }
    cell_nodes
}

/// Waiting on account of all wires below a bound that covers every wire of
/// every cell is waiting on account of any wire.
pub proof fn lemma_feeds_all(cells: Seq<Cell>, x: int, y: int, num_wires: int)
    requires
        forall|c: int|
            0 <= c < cells.len() ==> wires_below(
                CellWires::all_wires(#[trigger] cells[c]),
                num_wires as nat,
            ),
        num_wires >= 0,
    ensures
        feeds(cells, x, y) <==> feeds_via(cells, x, y, num_wires),
{
    if feeds(cells, x, y) {
        let w = choose|w: HWire| #[trigger] drives(cells[x], w) && reads(cells[y], w);
        let outs = CellWires::out_wires(cells[x]);
        let i = choose|i: int| 0 <= i < outs.len() && outs[i] == w;
        let all = CellWires::all_wires(cells[x]);
        assert(all[CellWires::in_wires(cells[x]).len() + i] == w);
        assert(w < num_wires && drives(cells[x], w) && reads(cells[y], w));
    }
    if feeds_via(cells, x, y, num_wires) {
        let w = choose|w: HWire|
            w < num_wires && #[trigger] drives(cells[x], w) && reads(cells[y], w);
        assert(drives(cells[x], w) && reads(cells[y], w));
    }
}

} // verus!
