use crate::model::Logic;
use crate::model::Logic_Variants;
use crate::ops::BinaryMapOp;
use crate::ops::BinaryMapOp_Variants;
use vstd::prelude::*;

verus! {

/// The truth table of an operator of two operands.
#[derive(Copy, Clone)]
pub struct BinaryMapOpFn {
    table: [Logic; 9],
}

impl BinaryMapOpFn {
    /// What the table holds for a pair of operands.
    pub closed spec fn entry(self, a: Logic, b: Logic) -> Logic {
        self.table@[a.ordinal() * 3 + b.ordinal()]
    }

    /// The table holds the operator's value for every pair of operands.
    pub open spec fn represents(self, op: BinaryMapOp) -> bool {
        forall|a: Logic, b: Logic| #[trigger] self.entry(a, b) == op.lift(a, b)
    }

    /// Looks a pair of operands up.
    pub fn index(&self, index: (Logic, Logic)) -> (r: &Logic)
        ensures
            *r == self.entry(index.0, index.1),
    {
        &self.table[index.0.index_of() * 3 + index.1.index_of()]
    }

    /// The tables of all operators, each at the position of its operator.
    pub fn compile_all() -> (fs: [BinaryMapOpFn; 8])
        ensures
            forall|op: BinaryMapOp| #[trigger] fs@[op.ordinal()].represents(op),
    {
        let mut fs: [BinaryMapOpFn; 8] = [BinaryMapOpFn { table: [Logic::X; 9] }; 8];
        let mut index: usize = 0;
        while index < 8
            invariant
                index <= 8,
                forall|k: int|
                    0 <= k < index ==> (#[trigger] fs@[k]).represents(BinaryMapOp_Variants@[k]),
            decreases 8 - index,
        {
            fs[index] = BinaryMapOpFn::compile(BinaryMapOp_Variants[index]);
            index += 1;
        }
        assert forall|op: BinaryMapOp| #[trigger] fs@[op.ordinal()].represents(op) by {
            assert(BinaryMapOp_Variants@[op.ordinal()] == op);
        }
        fs
    }

    /// The table of an operator.
    pub fn compile(op: BinaryMapOp) -> (f: BinaryMapOpFn)
        ensures
            f.represents(op),
    {
        let mut f = BinaryMapOpFn { table: [Logic::X; 9] };
        let mut i: usize = 0;
        while i < 3
            invariant
                i <= 3,
                forall|p: int, q: int|
                    0 <= p < i && 0 <= q < 3 ==> #[trigger] f.table@[p * 3 + q] == op.lift(
                        Logic_Variants@[p],
                        Logic_Variants@[q],
                    ),
            decreases 3 - i,
        {
            let a = Logic_Variants[i];
            let mut j: usize = 0;
            while j < 3
                invariant
                    i < 3,
                    j <= 3,
                    a == Logic_Variants@[i as int],
                    forall|p: int, q: int|
                        0 <= p < i && 0 <= q < 3 ==> #[trigger] f.table@[p * 3 + q] == op.lift(
                            Logic_Variants@[p],
                            Logic_Variants@[q],
                        ),
                    forall|q: int|
                        0 <= q < j ==> #[trigger] f.table@[i * 3 + q] == op.lift(
                            a,
                            Logic_Variants@[q],
                        ),
                decreases 3 - j,
            {
                let b = Logic_Variants[j];
                f.table[a.index_of() * 3 + b.index_of()] = Self::eval_logic(op, a, b);
                j += 1;
            }
            i += 1;
        }
        assert forall|a: Logic, b: Logic| #[trigger] f.entry(a, b) == op.lift(a, b) by {
            assert(Logic_Variants@[a.ordinal()] == a);
            assert(Logic_Variants@[b.ordinal()] == b);
            assert(f.table@[a.ordinal() * 3 + b.ordinal()] == op.lift(
                Logic_Variants@[a.ordinal()],
                Logic_Variants@[b.ordinal()],
            ));
        }
        f
    }

    /// The operator on logic values: the outcomes over all that the operands
    /// may stand for, reduced to one value.
    pub fn eval_logic(op: BinaryMapOp, a: Logic, b: Logic) -> (r: Logic)
        ensures
            r == op.lift(a, b),
    {
        let mut out_bool_set: Vec<bool> = Vec::new();
        let a_bools = Logic::to_bool_set(a);
        let b_bools = Logic::to_bool_set(b);
        let mut i: usize = 0;
        while i < a_bools.len()
            invariant
                i <= a_bools@.len(),
                a_bools@ == a.bool_seq(),
                b_bools@ == b.bool_seq(),
                i > 0 ==> out_bool_set@.len() > 0,
                forall|k: int|
                    0 <= k < out_bool_set@.len() ==>
                        possible(op, a, b, #[trigger] out_bool_set@[k]),
                forall|p: int, q: int|
                    0 <= p < i && 0 <= q < b_bools@.len() ==> out_bool_set@.contains(
                        #[trigger] op.apply(a_bools@[p], b_bools@[q]),
                    ),
            decreases a_bools@.len() - i,
        {
            let mut j: usize = 0;
            while j < b_bools.len()
                invariant
                    i < a_bools@.len(),
                    j <= b_bools@.len(),
                    a_bools@ == a.bool_seq(),
                    b_bools@ == b.bool_seq(),
                    j > 0 ==> out_bool_set@.len() > 0,
                    i > 0 ==> out_bool_set@.len() > 0,
                    forall|k: int|
                        0 <= k < out_bool_set@.len() ==> possible(
                            op,
                            a,
                            b,
                            #[trigger] out_bool_set@[k],
                        ),
                    forall|p: int, q: int|
                        0 <= p < i && 0 <= q < b_bools@.len() ==> out_bool_set@.contains(
                            #[trigger] op.apply(a_bools@[p], b_bools@[q]),
                        ),
                    forall|q: int|
                        0 <= q < j ==> out_bool_set@.contains(
                            #[trigger] op.apply(a_bools@[i as int], b_bools@[q]),
                        ),
                decreases b_bools@.len() - j,
            {
                let ghost before = out_bool_set@;
                let outcome = BinaryMapOp::eval_bool(op, a_bools[i], b_bools[j]);
                out_bool_set.push(outcome);
                proof {
                    assert(a.admits(a_bools@[i as int]));
                    assert(b.admits(b_bools@[j as int]));
                    assert(out_bool_set@[before.len() as int] == outcome);
                    assert forall|w: bool| before.contains(w) implies out_bool_set@.contains(w) by {
                        let k = choose|k: int| 0 <= k < before.len() && before[k] == w;
                        assert(out_bool_set@[k] == w);
                    }
                }
                j += 1;
            }
            i += 1;
        }
        proof {
            lemma_outcomes_binary(op, a, b, out_bool_set@);
        }
        match Logic::from_bool_set(out_bool_set.as_slice()) {
            Ok(r) => r,
            Err(_) => Logic::X,
        }
    }
}

/// Some choice of what the operands stand for gives the outcome.
pub open spec fn possible(op: BinaryMapOp, a: Logic, b: Logic, outcome: bool) -> bool {
    exists|x: bool, y: bool|
        #![trigger op.apply(x, y)]
        a.admits(x) && b.admits(y) && op.apply(x, y) == outcome
}

/// Outcomes that are all possible, and among which every possible one occurs,
/// reduce to the lifted operator.
proof fn lemma_outcomes_binary(op: BinaryMapOp, a: Logic, b: Logic, outs: Seq<bool>)
    requires
        outs.len() > 0,
        forall|k: int| 0 <= k < outs.len() ==> possible(op, a, b, #[trigger] outs[k]),
        forall|p: int, q: int|
            0 <= p < a.bool_seq().len() && 0 <= q < b.bool_seq().len() ==> outs.contains(
                #[trigger] op.apply(a.bool_seq()[p], b.bool_seq()[q]),
            ),
    ensures
        Logic::of_bool_seq(outs) == op.lift(a, b),
{
    let sa = a.bool_seq();
    let sb = b.bool_seq();
    assert forall|x: bool, y: bool| a.admits(x) && b.admits(y) implies outs.contains(
        #[trigger] op.apply(x, y),
    ) by {
        let p = if a == Logic::X && x {
            1int
        } else {
            0int
        };
        let q = if b == Logic::X && y {
            1int
        } else {
            0int
        };
        assert(sa[p] == x);
        assert(sb[q] == y);
        assert(outs.contains(op.apply(sa[p], sb[q])));
    }
    if forall|x: bool, y: bool| a.admits(x) && b.admits(y) ==> op.apply(x, y) {
        assert forall|i: int| 0 <= i < outs.len() implies outs[i] by {
            assert(possible(op, a, b, outs[i]));
        }
    } else if forall|x: bool, y: bool| a.admits(x) && b.admits(y) ==> !op.apply(x, y) {
        assert forall|i: int| 0 <= i < outs.len() implies !outs[i] by {
            assert(possible(op, a, b, outs[i]));
        }
        assert(!outs[0]);
    } else {
        let (x1, y1) = choose|x: bool, y: bool| a.admits(x) && b.admits(y) && !op.apply(x, y);
        let (x0, y0) = choose|x: bool, y: bool| a.admits(x) && b.admits(y) && op.apply(x, y);
        assert(outs.contains(op.apply(x1, y1)));
        assert(outs.contains(op.apply(x0, y0)));
        let k1 = choose|k: int| 0 <= k < outs.len() && outs[k] == op.apply(x1, y1);
        let k0 = choose|k: int| 0 <= k < outs.len() && outs[k] == op.apply(x0, y0);
        assert(!outs[k1]);
        assert(outs[k0]);
    }
}

} // verus!
