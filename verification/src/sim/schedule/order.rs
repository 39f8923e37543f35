use crate::common::ConstructionFault;
use crate::common::Set4;
use crate::common::SimError;
use crate::common::collections::set4_get;
use crate::common::collections::set4_insert;
use crate::common::collections::set4_len;
use crate::common::collections::set4_new;
use crate::common::seqs::all_below;
use crate::common::seqs::lemma_bounded_len;
use crate::common::seqs::lemma_covering_len;
use crate::common::seqs::lemma_first_missing;
use crate::common::seqs::lemma_full;
use crate::common::seqs::lemma_push_no_duplicates;
use crate::common::set4_items;
use crate::model::Cell;
use crate::model::HCell;
use crate::model::Module;
use crate::sim::schedule::cell_graph::CellNode;
use crate::sim::schedule::cell_graph::feeds;
use crate::sim::schedule::cell_graph::is_cell_graph;
use crate::sim::schedule::cell_graph::lemma_with_item;
use crate::sim::schedule::reads;
use crate::sim::schedule::wire_graph::WireNode;
use crate::sim::schedule::wire_graph::is_wire_graph;
use std::collections::VecDeque;
use vstd::prelude::*;

verus! {

/// The cell reads a wire of an input port of the module.
pub open spec fn reads_input(module: &Module, cell: int) -> bool {
    exists|p: int, i: int|
        #![trigger module.in_ports@[p].wires@[i]]
        0 <= p < module.in_ports@.len() && 0 <= i < module.in_ports@[p].wires@.len() && reads(
            module.cells@[cell],
            module.in_ports@[p].wires@[i],
        )
}

/// The cell reads one of the wires of the first `ports` input ports of the
/// module, or one of the first `wires` wires of the input port behind them.
pub open spec fn reads_input_within(module: &Module, cell: int, ports: int, wires: int) -> bool {
    exists|p: int, i: int|
        #![trigger module.in_ports@[p].wires@[i]]
        0 <= p < module.in_ports@.len() && 0 <= i < module.in_ports@[p].wires@.len() && (p < ports
            || (p == ports && i < wires)) && reads(
            module.cells@[cell],
            module.in_ports@[p].wires@[i],
        )
}

/// Enters the readers of a wire into a set of cells.
fn gather(input_cells: &mut Set4<HCell>, readers: &Set4<HCell>)
    requires
        set4_items(*old(input_cells)).no_duplicates(),
    ensures
        set4_items(*final(input_cells)).no_duplicates(),
        forall|c: HCell|
            #[trigger] set4_items(*final(input_cells)).contains(c) <==> set4_items(
                *old(input_cells),
            ).contains(c) || set4_items(*readers).contains(c),
{
    let count = set4_len(readers);
    let mut k: usize = 0;
    let ghost items = set4_items(*readers);
    assert(items.take(0) =~= Seq::<HCell>::empty());
    while k < count
        invariant
            k <= count,
            count == items.len(),
            items == set4_items(*readers),
            set4_items(*input_cells).no_duplicates(),
            forall|c: HCell|
                #[trigger] set4_items(*input_cells).contains(c) <==> set4_items(
                    *old(input_cells),
                ).contains(c) || items.take(k as int).contains(c),
        decreases count - k,
    {
        let ghost seen = items.take(k as int);
        let ghost seen_next = items.take(k + 1);
        let ghost before = set4_items(*input_cells);
        match set4_get(readers, k) {
            Some(h_cell) => {
                set4_insert(input_cells, h_cell);
                proof {
                    assert(seen_next =~= seen.push(h_cell));
                    lemma_with_item(before, h_cell);
                    assert forall|c: HCell| #[trigger]
                        set4_items(*input_cells).contains(c) <==> set4_items(
                            *old(input_cells),
                        ).contains(c) || seen_next.contains(c) by {
                        vstd::seq_lib::lemma_seq_contains_after_push(seen, h_cell, c);
                    }
                }
            },
            None => {},
        }
        k += 1;
    }
    assert(items.take(k as int) =~= items);
}

/// The cells that read a wire of an input port of the module, in the order
/// of the ports, of their wires and of the readers of each wire.
pub fn compute_input_cells(module: &Module, wire_nodes: &Vec<WireNode>) -> (input_cells: Set4<
    HCell,
>)
    requires
        is_wire_graph(module.cells@, wire_nodes@),
        forall|p: int|
            0 <= p < module.in_ports@.len() ==> (#[trigger] module.in_ports@[p]).below(
                wire_nodes@.len(),
            ),
    ensures
        set4_items(input_cells).no_duplicates(),
        forall|c: HCell|
            #[trigger] set4_items(input_cells).contains(c) <==> c < module.cells@.len()
                && reads_input(module, c as int),
{
    let mut input_cells: Set4<HCell> = set4_new();
    let mut p: usize = 0;
    while p < module.in_ports.len()
        invariant
            p <= module.in_ports@.len(),
            is_wire_graph(module.cells@, wire_nodes@),
            forall|q: int|
                0 <= q < module.in_ports@.len() ==> (#[trigger] module.in_ports@[q]).below(
                    wire_nodes@.len(),
                ),
            set4_items(input_cells).no_duplicates(),
            forall|c: HCell|
                #[trigger] set4_items(input_cells).contains(c) <==> c < module.cells@.len()
                    && reads_input_within(module, c as int, p as int, 0),
        decreases module.in_ports@.len() - p,
    {
        let h_wires = module.in_ports[p].items();
        assert(module.in_ports@[p as int].below(wire_nodes@.len()));
        let mut i: usize = 0;
        while i < h_wires.len()
            invariant
                i <= h_wires@.len(),
                p < module.in_ports@.len(),
                h_wires@ == module.in_ports@[p as int].wires@,
                is_wire_graph(module.cells@, wire_nodes@),
                module.in_ports@[p as int].below(wire_nodes@.len()),
                set4_items(input_cells).no_duplicates(),
                forall|c: HCell|
                    #[trigger] set4_items(input_cells).contains(c) <==> c < module.cells@.len()
                        && reads_input_within(module, c as int, p as int, i as int),
            decreases h_wires@.len() - i,
        {
            let h_wire = h_wires[i];
            assert(module.in_ports@[p as int].wires@[i as int] < wire_nodes@.len());
            let ghost before = set4_items(input_cells);
            gather(&mut input_cells, &wire_nodes[h_wire].h_out_cells);
            proof {
                let node = wire_nodes@[h_wire as int];
                assert forall|c: HCell| #[trigger]
                    set4_items(input_cells).contains(c) <==> c < module.cells@.len()
                        && reads_input_within(module, c as int, p as int, i + 1) by {
                    assert(node.readers().contains(c) <==> c < module.cells@.len() && reads(
                        module.cells@[c as int],
                        h_wire,
                    ));
                    assert(before.contains(c) <==> c < module.cells@.len() && reads_input_within(
                        module,
                        c as int,
                        p as int,
                        i as int,
                    ));
                    if c < module.cells@.len() {
                        lemma_reads_input_step(module, c as int, p as int, i as int);
                    }
                }
            }
            i += 1;
        }
        proof {
            assert forall|c: HCell| #[trigger]
                set4_items(input_cells).contains(c) <==> c < module.cells@.len()
                    && reads_input_within(module, c as int, p + 1, 0) by {
                if c < module.cells@.len() {
                    lemma_reads_input_port(module, c as int, p as int);
                }
            }
        }
        p += 1;
    }
    proof {
        assert forall|c: HCell| #[trigger]
            set4_items(input_cells).contains(c) <==> c < module.cells@.len() && reads_input(
                module,
                c as int,
            ) by {
            if c < module.cells@.len() {
                lemma_reads_input_all(module, c as int);
            }
        }
    }
    input_cells
}

/// One more wire of an input port adds the reading of that wire.
pub proof fn lemma_reads_input_step(module: &Module, cell: int, port: int, wire: int)
    requires
        0 <= port < module.in_ports@.len(),
        0 <= wire < module.in_ports@[port].wires@.len(),
    ensures
        reads_input_within(module, cell, port, wire + 1) <==> reads_input_within(
            module,
            cell,
            port,
            wire,
        ) || reads(module.cells@[cell], module.in_ports@[port].wires@[wire]),
{
    if reads_input_within(module, cell, port, wire + 1) {
        let (p, i) = choose|p: int, i: int|
            #![trigger module.in_ports@[p].wires@[i]]
            0 <= p < module.in_ports@.len() && 0 <= i < module.in_ports@[p].wires@.len() && (p
                < port || (p == port && i < wire + 1)) && reads(
                module.cells@[cell],
                module.in_ports@[p].wires@[i],
            );
        assert(reads(module.cells@[cell], module.in_ports@[p].wires@[i]));
    }
    if reads_input_within(module, cell, port, wire) {
        let (p, i) = choose|p: int, i: int|
            #![trigger module.in_ports@[p].wires@[i]]
            0 <= p < module.in_ports@.len() && 0 <= i < module.in_ports@[p].wires@.len() && (p
                < port || (p == port && i < wire)) && reads(
                module.cells@[cell],
                module.in_ports@[p].wires@[i],
            );
        assert(reads(module.cells@[cell], module.in_ports@[p].wires@[i]));
    }
    if reads(module.cells@[cell], module.in_ports@[port].wires@[wire]) {
        assert(reads_input_within(module, cell, port, wire + 1));
    }
}

/// All wires of an input port are as much as none of the next port.
pub proof fn lemma_reads_input_port(module: &Module, cell: int, port: int)
    requires
        0 <= port < module.in_ports@.len(),
    ensures
        reads_input_within(module, cell, port, module.in_ports@[port].wires@.len() as int)
            <==> reads_input_within(module, cell, port + 1, 0),
{
    let width = module.in_ports@[port].wires@.len() as int;
    if reads_input_within(module, cell, port, width) {
        let (p, i) = choose|p: int, i: int|
            #![trigger module.in_ports@[p].wires@[i]]
            0 <= p < module.in_ports@.len() && 0 <= i < module.in_ports@[p].wires@.len() && (p
                < port || (p == port && i < width)) && reads(
                module.cells@[cell],
                module.in_ports@[p].wires@[i],
            );
        assert(reads(module.cells@[cell], module.in_ports@[p].wires@[i]));
    }
    if reads_input_within(module, cell, port + 1, 0) {
        let (p, i) = choose|p: int, i: int|
            #![trigger module.in_ports@[p].wires@[i]]
            0 <= p < module.in_ports@.len() && 0 <= i < module.in_ports@[p].wires@.len() && (p
                < port + 1 || (p == port + 1 && i < 0)) && reads(
                module.cells@[cell],
                module.in_ports@[p].wires@[i],
            );
        assert(reads(module.cells@[cell], module.in_ports@[p].wires@[i]));
    }
}

/// All input ports are all there is to read of the inputs.
pub proof fn lemma_reads_input_all(module: &Module, cell: int)
    ensures
        reads_input_within(module, cell, module.in_ports@.len() as int, 0) <==> reads_input(
            module,
            cell,
        ),
{
    let ports = module.in_ports@.len() as int;
    if reads_input_within(module, cell, ports, 0) {
        let (p, i) = choose|p: int, i: int|
            #![trigger module.in_ports@[p].wires@[i]]
            0 <= p < module.in_ports@.len() && 0 <= i < module.in_ports@[p].wires@.len() && (p
                < ports || (p == ports && i < 0)) && reads(
                module.cells@[cell],
                module.in_ports@[p].wires@[i],
            );
        assert(reads(module.cells@[cell], module.in_ports@[p].wires@[i]));
    }
    if reads_input(module, cell) {
        let (p, i) = choose|p: int, i: int|
            #![trigger module.in_ports@[p].wires@[i]]
            0 <= p < module.in_ports@.len() && 0 <= i < module.in_ports@[p].wires@.len() && reads(
                module.cells@[cell],
                module.in_ports@[p].wires@[i],
            );
        assert(reads(module.cells@[cell], module.in_ports@[p].wires@[i]));
    }
}

/// An order of all cells in which no cell stands before a cell it waits for.
pub open spec fn is_topological(cells: Seq<Cell>, order: Seq<HCell>) -> bool {
    &&& order.len() == cells.len()
    &&& order.no_duplicates()
    &&& all_below(order, cells.len())
    &&& forall|i: int, j: int|
        0 <= i < order.len() && 0 <= j < order.len() && #[trigger] feeds(
            cells,
            order[i] as int,
            order[j] as int,
        ) ==> i < j
}

/// How many of the cells that a cell waits for are not done yet.
pub open spec fn pending(prevs: Seq<HCell>, done: Seq<HCell>) -> nat
    decreases prevs.len(),
{
    if prevs.len() == 0 {
        0
    } else {
        pending(prevs.drop_last(), done) + if done.contains(prevs.last()) {
            0nat
        } else {
            1nat
        }
    }
}

/// While nothing is done, everything is pending.
pub proof fn lemma_pending_start(prevs: Seq<HCell>)
    ensures
        pending(prevs, Seq::<HCell>::empty()) == prevs.len(),
    decreases prevs.len(),
{
    if prevs.len() > 0 {
        lemma_pending_start(prevs.drop_last());
    }
}

/// Nothing is pending exactly if all is done.
pub proof fn lemma_pending_zero(prevs: Seq<HCell>, done: Seq<HCell>)
    ensures
        pending(prevs, done) == 0 <==> forall|i: int|
            0 <= i < prevs.len() ==> done.contains(#[trigger] prevs[i]),
    decreases prevs.len(),
{
    if prevs.len() > 0 {
        let front = prevs.drop_last();
        lemma_pending_zero(front, done);
        if pending(prevs, done) == 0 {
            assert forall|i: int| 0 <= i < prevs.len() implies done.contains(
                #[trigger] prevs[i],
            ) by {
                if i < front.len() {
                    assert(front[i] == prevs[i]);
                }
            }
        }
        if forall|i: int| 0 <= i < prevs.len() ==> done.contains(#[trigger] prevs[i]) {
            assert forall|i: int| 0 <= i < front.len() implies done.contains(
                #[trigger] front[i],
            ) by {
                assert(front[i] == prevs[i]);
            }
            assert(done.contains(prevs[prevs.len() - 1]));
        }
    }
}

/// A cell that gets done takes one off what is pending where it was waited
/// for, and nothing elsewhere.
pub proof fn lemma_pending_push(prevs: Seq<HCell>, done: Seq<HCell>, h_cell: HCell)
    requires
        prevs.no_duplicates(),
        !done.contains(h_cell),
    ensures
        prevs.contains(h_cell) ==> pending(prevs, done) >= 1,
        pending(prevs, done.push(h_cell)) == pending(prevs, done) - if prevs.contains(h_cell) {
            1int
        } else {
            0int
        },
    decreases prevs.len(),
{
    if prevs.len() > 0 {
        let front = prevs.drop_last();
        let last = prevs.last();
        assert forall|i: int, j: int|
            0 <= i < front.len() && 0 <= j < front.len() && i != j implies front[i] != front[j] by {
            assert(front[i] == prevs[i] && front[j] == prevs[j]);
        }
        lemma_pending_push(front, done, h_cell);
        vstd::seq_lib::lemma_seq_contains_after_push(done, h_cell, last);
        vstd::seq_lib::lemma_seq_contains_after_push(front, last, h_cell);
        assert(prevs =~= front.push(last));
        if last == h_cell {
            if front.contains(h_cell) {
                let i = choose|i: int| 0 <= i < front.len() && front[i] == h_cell;
                assert(prevs[i] == prevs[prevs.len() - 1]);
            }
        }
    }
}

/// Where the scheduler is stuck with cells left over, no order of the cells
/// would do: the cells left over wait for each other.
pub proof fn lemma_stuck(
    cells: Seq<Cell>,
    cell_nodes: Seq<CellNode>,
    tokens: Seq<usize>,
    done: Seq<HCell>,
    any: Seq<HCell>,
)
    requires
        is_cell_graph(cells, cell_nodes),
        cells.len() <= usize::MAX,
        tokens.len() == cells.len(),
        done.len() < cells.len(),
        forall|c: HCell|
            c < cells.len() ==> #[trigger] tokens[c as int] == pending(
                cell_nodes[c as int].prevs(),
                done,
            ),
        forall|c: HCell| c < cells.len() ==>
            (#[trigger] tokens[c as int] == 0 <==> done.contains(c)),
    ensures
        !is_topological(cells, any),
{
    let n = cells.len();
    if is_topological(cells, any) {
        if forall|k: int| 0 <= k < n ==> done.contains(#[trigger] any[k]) {
            assert forall|x: usize| x < n implies done.contains(x) by {
                lemma_full(any, n, x);
                let k = choose|k: int| 0 <= k < any.len() && any[k] == x;
                assert(done.contains(any[k]));
            }
            lemma_covering_len(done, n);
        } else {
            let j = lemma_first_missing(any, done, n as int);
            let u = any[j];
            assert(u < n);
            assert(tokens[u as int] != 0);
            let prevs = cell_nodes[u as int].prevs();
            lemma_pending_zero(prevs, done);
            let i = choose|i: int| 0 <= i < prevs.len() && !done.contains(#[trigger] prevs[i]);
            let a = prevs[i];
            assert(prevs.contains(a));
            assert(feeds(cells, a as int, u as int));
            lemma_full(any, n, a);
            let m = choose|m: int| 0 <= m < any.len() && any[m] == a;
            assert(feeds(cells, any[m] as int, any[j] as int));
            assert(m < j);
            assert(done.contains(any[m]));
        }
    }
}

/// The order in which the cells of a module run within a delta cycle, by
/// Kahn's algorithm: every cell counts the cells it still waits for; a cell
/// that waits for none is ready, the readers of the module's inputs first and
/// then the others in the order of the cells; a ready cell is taken into the
/// order and counted off at the cells that wait for it, which get ready in
/// their turn. Cells that never get ready wait for each other: the module
/// has a combinational cycle and no order at all.
pub fn compute_cell_update_order(
    module: &Module,
    wire_nodes: &Vec<WireNode>,
    cell_nodes: &Vec<CellNode>,
) -> (r: Result<Vec<HCell>, SimError>)
    requires
        is_wire_graph(module.cells@, wire_nodes@),
        is_cell_graph(module.cells@, cell_nodes@),
        forall|p: int|
            0 <= p < module.in_ports@.len() ==> (#[trigger] module.in_ports@[p]).below(
                wire_nodes@.len(),
            ),
    ensures
        match r {
            Ok(order) => is_topological(module.cells@, order@),
            Err(error) => {
                &&& error == SimError::ConstructionError(ConstructionFault::CombinationalCycle)
                &&& forall|any: Seq<HCell>| !is_topological(module.cells@, any)
            },
        },
{
    let ghost cells = module.cells@;
    let n = cell_nodes.len();
    let mut tokens: Vec<usize> = Vec::new();
    let mut queued: Vec<bool> = Vec::new();
    let mut c: usize = 0;
    while c < n
        invariant
            c <= n,
            n == cell_nodes@.len(),
            tokens@.len() == c,
            queued@.len() == c,
            forall|k: HCell|
                k < c ==> #[trigger] tokens@[k as int] == pending(
                    cell_nodes@[k as int].prevs(),
                    Seq::<HCell>::empty(),
                ),
            forall|k: HCell| k < c ==> !(#[trigger] queued@[k as int]),
        decreases n - c,
    {
        proof {
            lemma_pending_start(cell_nodes@[c as int].prevs());
        }
        tokens.push(set4_len(&cell_nodes[c].h_prev_cells));
        queued.push(false);
        c += 1;
    }
    let mut queue: VecDeque<HCell> = VecDeque::new();
    let input_cells = compute_input_cells(module, wire_nodes);
    let seeds = set4_len(&input_cells);
    let mut k: usize = 0;
    while k < seeds
        invariant
            k <= seeds,
            n == cell_nodes@.len(),
            n == cells.len(),
            tokens@.len() == n,
            queued@.len() == n,
            forall|x: HCell|
                #[trigger] set4_items(input_cells).contains(x) ==> x < module.cells@.len(),
            cells == module.cells@,
            queue@.no_duplicates(),
            all_below(queue@, n as nat),
            forall|x: HCell| x < n ==> (#[trigger] queued@[x as int] <==> queue@.contains(x)),
            forall|x: HCell| x < n && queue@.contains(x) ==> #[trigger] tokens@[x as int] == 0,
        decreases seeds - k,
    {
        match set4_get(&input_cells, k) {
            Some(h_cell) => {
                assert(set4_items(input_cells).contains(h_cell));
                if tokens[h_cell] == 0 && !queued[h_cell] {
                    proof {
                        lemma_push_no_duplicates(queue@, h_cell);
                        assert forall|x: HCell|
                            queue@.push(h_cell).contains(x) <==> queue@.contains(x) || x
                                == h_cell by {
                            vstd::seq_lib::lemma_seq_contains_after_push(queue@, h_cell, x);
                        }
                    }
                    queue.push_back(h_cell);
                    queued[h_cell] = true;
                }
            },
            None => {},
        }
        k += 1;
    }
    let mut c: usize = 0;
    while c < n
        invariant
            c <= n,
            n == cell_nodes@.len(),
            n == cells.len(),
            tokens@.len() == n,
            queued@.len() == n,
            queue@.no_duplicates(),
            all_below(queue@, n as nat),
            forall|x: HCell| x < n ==> (#[trigger] queued@[x as int] <==> queue@.contains(x)),
            forall|x: HCell| x < n && queue@.contains(x) ==> #[trigger] tokens@[x as int] == 0,
            forall|x: HCell| x < c && #[trigger] tokens@[x as int] == 0 ==> queue@.contains(x),
        decreases n - c,
    {
        if tokens[c] == 0 && !queued[c] {
            proof {
                lemma_push_no_duplicates(queue@, c);
                assert forall|x: HCell|
                    queue@.push(c).contains(x) <==> queue@.contains(x) || x == c by {
                    vstd::seq_lib::lemma_seq_contains_after_push(queue@, c, x);
                }
            }
            queue.push_back(c);
            queued[c] = true;
        }
        c += 1;
    }
    let mut update_order: Vec<HCell> = Vec::new();
    assert(update_order@ + queue@ =~= queue@);
    while queue.len() > 0
        invariant
            n == cell_nodes@.len(),
            n == cells.len(),
            cells == module.cells@,
            is_cell_graph(cells, cell_nodes@),
            tokens@.len() == n,
            (update_order@ + queue@).no_duplicates(),
            all_below(update_order@ + queue@, n as nat),
            forall|x: HCell|
                x < n ==> #[trigger] tokens@[x as int] == pending(
                    cell_nodes@[x as int].prevs(),
                    update_order@,
                ),
            forall|x: HCell|
                x < n ==> (#[trigger] tokens@[x as int] == 0 <==> (update_order@
                    + queue@).contains(x)),
            forall|p: int, a: HCell|
                0 <= p < update_order@.len() &&
                    #[trigger] cell_nodes@[update_order@[p] as int].prevs().contains(
                    a,
                ) ==> update_order@.take(p).contains(a),
        decreases n - update_order@.len(),
    {
        let ghost done = update_order@;
        let ghost waiting = queue@;
        let ghost settled = done + waiting;
        proof {
            lemma_bounded_len(settled, n as nat);
        }
        let h_cur_cell = match queue.pop_front() {
            Some(h_cell) => h_cell,
            None => {
                proof {
                    assert(false);
                }
                return Err(SimError::ConstructionError(ConstructionFault::CombinationalCycle));
            },
        };
        update_order.push(h_cur_cell);
        let ghost done_next = update_order@;
        let ghost nexts = cell_nodes@[h_cur_cell as int].nexts();
        proof {
            assert(settled[done.len() as int] == h_cur_cell);
            assert(h_cur_cell < n);
            assert(done_next + queue@ =~= settled);
            assert(!done.contains(h_cur_cell)) by {
                if done.contains(h_cur_cell) {
                    let i = choose|i: int| 0 <= i < done.len() && done[i] == h_cur_cell;
                    assert(settled[i] == settled[done.len() as int]);
                }
            }
            assert(settled.contains(h_cur_cell));
            assert(tokens@[h_cur_cell as int] == 0);
            lemma_pending_zero(cell_nodes@[h_cur_cell as int].prevs(), done);
            assert forall|p: int, a: HCell|
                0 <= p < done_next.len() &&
                    #[trigger] cell_nodes@[done_next[p] as int].prevs().contains(
                    a,
                ) implies done_next.take(p).contains(a) by {
                if p < done.len() {
                    assert(done_next[p] == done[p]);
                    assert(done_next.take(p) =~= done.take(p));
                } else {
                    assert(done_next.take(p) =~= done);
                    let prevs = cell_nodes@[h_cur_cell as int].prevs();
                    let i = choose|i: int| 0 <= i < prevs.len() && prevs[i] == a;
                    assert(done.contains(prevs[i]));
                }
            }
            assert(nexts.take(0) =~= Seq::<HCell>::empty());
        }
        let next_cells = &cell_nodes[h_cur_cell].h_next_cells;
        let count = set4_len(next_cells);
        let mut k: usize = 0;
        while k < count
            invariant
                k <= count,
                count == nexts.len(),
                nexts == set4_items(*next_cells),
                nexts == cell_nodes@[h_cur_cell as int].nexts(),
                h_cur_cell < n,
                n == cell_nodes@.len(),
                n == cells.len(),
                is_cell_graph(cells, cell_nodes@),
                tokens@.len() == n,
                update_order@ == done_next,
                done_next == done.push(h_cur_cell),
                !done.contains(h_cur_cell),
                (done_next + queue@).no_duplicates(),
                all_below(done_next + queue@, n as nat),
                forall|x: HCell|
                    x < n ==> #[trigger] tokens@[x as int] == pending(
                        cell_nodes@[x as int].prevs(),
                        done,
                    ) - if nexts.take(k as int).contains(x) {
                        1int
                    } else {
                        0int
                    },
                forall|x: HCell|
                    x < n ==> (#[trigger] tokens@[x as int] == 0 <==> (done_next
                        + queue@).contains(x)),
            decreases count - k,
        {
            let ghost seen = nexts.take(k as int);
            let ghost seen_next = nexts.take(k + 1);
            let ghost queue_before = queue@;
            match set4_get(next_cells, k) {
                Some(h_next_cell) => {
                    proof {
                        assert(nexts.contains(h_next_cell));
                        assert(feeds(cells, h_cur_cell as int, h_next_cell as int));
                        assert(h_next_cell < n);
                        assert(seen_next =~= seen.push(h_next_cell));
                        assert forall|x: HCell|
                            seen_next.contains(x) <==> seen.contains(x) || x == h_next_cell by {
                            vstd::seq_lib::lemma_seq_contains_after_push(seen, h_next_cell, x);
                        }
                        if seen.contains(h_next_cell) {
                            let i = choose|i: int| 0 <= i < seen.len() && seen[i] == h_next_cell;
                            assert(nexts[i] == nexts[k as int]);
                        }
                        let prevs = cell_nodes@[h_next_cell as int].prevs();
                        assert(prevs.contains(h_cur_cell));
                        lemma_pending_push(prevs, done, h_cur_cell);
                    }
                    tokens[h_next_cell] = tokens[h_next_cell] - 1;
                    if tokens[h_next_cell] == 0 {
                        proof {
                            let all = done_next + queue_before;
                            lemma_push_no_duplicates(all, h_next_cell);
                            assert(done_next + queue_before.push(h_next_cell) =~= all.push(
                                h_next_cell,
                            ));
                            assert forall|x: HCell|
                                all.push(h_next_cell).contains(x) <==> all.contains(x) || x
                                    == h_next_cell by {
                                vstd::seq_lib::lemma_seq_contains_after_push(all, h_next_cell, x);
                            }
                        }
                        queue.push_back(h_next_cell);
                    }
                },
                None => {},
            }
            k += 1;
        }
        proof {
            assert(nexts.take(k as int) =~= nexts);
            assert forall|x: HCell| x < n implies #[trigger] tokens@[x as int] == pending(
                cell_nodes@[x as int].prevs(),
                done_next,
            ) by {
                let prevs = cell_nodes@[x as int].prevs();
                lemma_pending_push(prevs, done, h_cur_cell);
                assert(nexts.contains(x) <==> feeds(cells, h_cur_cell as int, x as int));
                assert(prevs.contains(h_cur_cell) <==> feeds(cells, h_cur_cell as int, x as int));
            }
        }
    }
    proof {
        assert(update_order@ + queue@ =~= update_order@);
    }
    if update_order.len() != n {
        proof {
            lemma_bounded_len(update_order@, n as nat);
            assert forall|any: Seq<HCell>| !is_topological(cells, any) by {
                lemma_stuck(cells, cell_nodes@, tokens@, update_order@, any);
            }
        }
        return Err(SimError::ConstructionError(ConstructionFault::CombinationalCycle));
    }
    proof {
        let order = update_order@;
        assert forall|i: int, j: int|
            0 <= i < order.len() && 0 <= j < order.len() && #[trigger] feeds(
                cells,
                order[i] as int,
                order[j] as int,
            ) implies i < j by {
            assert(cell_nodes@[order[j] as int].prevs().contains(order[i]));
            assert(order.take(j).contains(order[i]));
            let m = choose|m: int| 0 <= m < order.take(j).len() && order.take(j)[m] == order[i];
            assert(order[m] == order[i]);
        }
    }
    Ok(update_order)
}

} // verus!
