use crate::model::Logic;
use crate::model::Logic_Variants;
use crate::ops::TernaryMapOp;
use crate::ops::TernaryMapOp_Variants;
use vstd::prelude::*;

verus! {

/// The truth table of an operator of three operands.
#[derive(Copy, Clone)]
pub struct TernaryMapFn {
    table: [[[Logic; 3]; 3]; 3],
}

impl TernaryMapFn {
    /// What the table holds for three operands.
    pub closed spec fn entry(self, a: Logic, b: Logic, c: Logic) -> Logic {
        self.table@[a.ordinal()]@[b.ordinal()]@[c.ordinal()]
    }

    /// The table holds the operator's value for all operands.
    pub open spec fn represents(self, op: TernaryMapOp) -> bool {
        forall|a: Logic, b: Logic, c: Logic| #[trigger] self.entry(a, b, c) == op.lift(a, b, c)
    }

    /// Looks three operands up.
    pub fn index(&self, index: (Logic, Logic, Logic)) -> (r: &Logic)
        ensures
            *r == self.entry(index.0, index.1, index.2),
    {
        &self.table[index.0.index_of()][index.1.index_of()][index.2.index_of()]
    }

    /// The tables of all operators, each at the position of its operator.
    pub fn compile_all() -> (fs: [TernaryMapFn; 2])
        ensures
            forall|op: TernaryMapOp| #[trigger] fs@[op.ordinal()].represents(op),
    {
        let mut fs: [TernaryMapFn; 2] = [TernaryMapFn { table: [[[Logic::X; 3]; 3]; 3] }; 2];
        let mut index: usize = 0;
        while index < 2
            invariant
                index <= 2,
                forall|k: int|
                    0 <= k < index ==> (#[trigger] fs@[k]).represents(TernaryMapOp_Variants@[k]),
            decreases 2 - index,
        {
            fs[index] = TernaryMapFn::compile(TernaryMapOp_Variants[index]);
            index += 1;
        }
        assert forall|op: TernaryMapOp| #[trigger] fs@[op.ordinal()].represents(op) by {
            assert(TernaryMapOp_Variants@[op.ordinal()] == op);
        }
        fs
    }

    /// The table of an operator.
    pub fn compile(op: TernaryMapOp) -> (f: TernaryMapFn)
        ensures
            f.represents(op),
    {
        let mut f = TernaryMapFn { table: [[[Logic::X; 3]; 3]; 3] };
        let mut i: usize = 0;
        while i < 3
            invariant
                i <= 3,
                forall|p: int, q: int, r: int|
                    0 <= p < i && 0 <= q < 3 && 0 <= r < 3 ==> #[trigger] f.table@[p]@[q]@[r]
                        == op.lift(Logic_Variants@[p], Logic_Variants@[q], Logic_Variants@[r]),
            decreases 3 - i,
        {
            let a = Logic_Variants[i];
            let mut j: usize = 0;
            while j < 3
                invariant
                    i < 3,
                    j <= 3,
                    a == Logic_Variants@[i as int],
                    forall|p: int, q: int, r: int|
                        0 <= p < i && 0 <= q < 3 && 0 <= r < 3 ==> #[trigger] f.table@[p]@[q]@[r]
                            == op.lift(Logic_Variants@[p], Logic_Variants@[q], Logic_Variants@[r]),
                    forall|q: int, r: int|
                        0 <= q < j && 0 <= r < 3 ==> #[trigger] f.table@[i as int]@[q]@[r]
                            == op.lift(a, Logic_Variants@[q], Logic_Variants@[r]),
                decreases 3 - j,
            {
                let b = Logic_Variants[j];
                let mut k: usize = 0;
                while k < 3
                    invariant
                        i < 3,
                        j < 3,
                        k <= 3,
                        a == Logic_Variants@[i as int],
                        b == Logic_Variants@[j as int],
                        forall|p: int, q: int, r: int|
                            0 <= p < i && 0 <= q < 3 && 0 <= r < 3
                                ==> #[trigger] f.table@[p]@[q]@[r] == op.lift(
                                Logic_Variants@[p],
                                Logic_Variants@[q],
                                Logic_Variants@[r],
                            ),
                        forall|q: int, r: int|
                            0 <= q < j && 0 <= r < 3 ==> #[trigger] f.table@[i as int]@[q]@[r]
                                == op.lift(a, Logic_Variants@[q], Logic_Variants@[r]),
                        forall|r: int|
                            0 <= r < k ==> #[trigger] f.table@[i as int]@[j as int]@[r]
                                == op.lift(a, b, Logic_Variants@[r]),
                    decreases 3 - k,
                {
                    let c = Logic_Variants[k];
                    f.table[a.index_of()][b.index_of()][c.index_of()] = TernaryMapOp::eval_logic(
                        op,
                        a,
                        b,
                        c,
                    );
                    k += 1;
                }
                j += 1;
            }
            i += 1;
        }
        assert forall|a: Logic, b: Logic, c: Logic| #[trigger]
            f.entry(a, b, c) == op.lift(a, b, c) by {
            assert(Logic_Variants@[a.ordinal()] == a);
            assert(Logic_Variants@[b.ordinal()] == b);
            assert(Logic_Variants@[c.ordinal()] == c);
            assert(f.table@[a.ordinal()]@[b.ordinal()]@[c.ordinal()] == op.lift(
                Logic_Variants@[a.ordinal()],
                Logic_Variants@[b.ordinal()],
                Logic_Variants@[c.ordinal()],
            ));
        }
        f
    }
}

} // verus!
