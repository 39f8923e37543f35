use crate::model::Logic;
use crate::model::Logic_Variants;
use crate::ops::UnaryMapOp;
use crate::ops::UnaryMapOp_Variants;
use vstd::prelude::*;

verus! {

/// The truth table of an operator of one operand.
#[derive(Copy, Clone)]
pub struct UnaryMapOpFn {
    table: [Logic; 3],
}

impl UnaryMapOpFn {
    /// What the table holds for an operand.
    pub closed spec fn entry(self, a: Logic) -> Logic {
        self.table@[a.ordinal()]
    }

    /// The table holds the operator's value for every operand.
    pub open spec fn represents(self, op: UnaryMapOp) -> bool {
        forall|a: Logic| #[trigger] self.entry(a) == op.lift(a)
    }

    /// Looks an operand up.
    pub fn index(&self, index: Logic) -> (r: &Logic)
        ensures
            *r == self.entry(index),
    {
        &self.table[index.index_of()]
    }

    /// The tables of all operators, each at the position of its operator.
    pub fn compile_all() -> (fs: [UnaryMapOpFn; 2])
        ensures
            forall|op: UnaryMapOp| #[trigger] fs@[op.ordinal()].represents(op),
    {
        let mut fs: [UnaryMapOpFn; 2] = [UnaryMapOpFn { table: [Logic::X; 3] }; 2];
        let mut index: usize = 0;
        while index < 2
            invariant
                index <= 2,
                forall|k: int| 0 <= k < index ==>
                    (#[trigger] fs@[k]).represents(UnaryMapOp_Variants@[k]),
            decreases 2 - index,
        {
            fs[index] = UnaryMapOpFn::compile(UnaryMapOp_Variants[index]);
            index += 1;
        }
        assert forall|op: UnaryMapOp| #[trigger] fs@[op.ordinal()].represents(op) by {
            assert(UnaryMapOp_Variants@[op.ordinal()] == op);
        }
        fs
    }

    /// The table of an operator.
    pub fn compile(op: UnaryMapOp) -> (f: UnaryMapOpFn)
        ensures
            f.represents(op),
    {
        let mut f = UnaryMapOpFn { table: [Logic::X; 3] };
        let mut i: usize = 0;
        while i < 3
            invariant
                i <= 3,
                forall|k: int| 0 <= k < i ==> #[trigger] f.table@[k] == op.lift(Logic_Variants@[k]),
            decreases 3 - i,
        {
            let a = Logic_Variants[i];
            f.table[a.index_of()] = Self::eval_logic(op, a);
            i += 1;
        }
        assert forall|a: Logic| #[trigger] f.entry(a) == op.lift(a) by {
            assert(Logic_Variants@[a.ordinal()] == a);
        }
        f
    }

    /// The operator on logic values: the outcomes over all that the operand
    /// may stand for, reduced to one value.
    pub fn eval_logic(op: UnaryMapOp, a: Logic) -> (r: Logic)
        ensures
            r == op.lift(a),
    {
        let mut out_bool_set: Vec<bool> = Vec::new();
        let a_bools = Logic::to_bool_set(a);
        let mut i: usize = 0;
        while i < a_bools.len()
            invariant
                i <= a_bools@.len(),
                a_bools@ == a.bool_seq(),
                out_bool_set@.len() == i,
                forall|k: int| 0 <= k < i ==> out_bool_set@[k] == op.apply(a_bools@[k]),
            decreases a_bools@.len() - i,
        {
            out_bool_set.push(UnaryMapOp::eval_bool(op, a_bools[i]));
            i += 1;
        }
        proof {
            lemma_outcomes_unary(op, a, out_bool_set@);
        }
        match Logic::from_bool_set(out_bool_set.as_slice()) {
            Ok(r) => r,
            Err(_) => Logic::X,
        }
    }
}

/// The outcomes over all that the operand may stand for reduce to the lifted
/// operator.
proof fn lemma_outcomes_unary(op: UnaryMapOp, a: Logic, outs: Seq<bool>)
    requires
        outs.len() == a.bool_seq().len(),
        forall|k: int| 0 <= k < outs.len() ==> outs[k] == op.apply(a.bool_seq()[k]),
    ensures
        outs.len() > 0,
        Logic::of_bool_seq(outs) == op.lift(a),
{
    let s = a.bool_seq();
    assert forall|x: bool| a.admits(x) implies exists|k: int| 0 <= k < s.len() && s[k] == x by {
        match a {
            Logic::_0 => {
                assert(s[0] == x);
            },
            Logic::_1 => {
                assert(s[0] == x);
            },
            Logic::X => {
                if x {
                    assert(s[1] == x);
                } else {
                    assert(s[0] == x);
                }
            },
        }
    }
    assert forall|k: int| 0 <= k < s.len() implies a.admits(#[trigger] s[k]) by {}
    if forall|x: bool| a.admits(x) ==> op.apply(x) {
        assert forall|i: int| 0 <= i < outs.len() implies outs[i] by {
            assert(a.admits(s[i]));
        }
    } else if forall|x: bool| a.admits(x) ==> !op.apply(x) {
        assert forall|i: int| 0 <= i < outs.len() implies !outs[i] by {
            assert(a.admits(s[i]));
        }
        assert(!outs[0]);
    } else {
        let x1 = choose|x: bool| a.admits(x) && !op.apply(x);
        let x0 = choose|x: bool| a.admits(x) && op.apply(x);
        let k1 = choose|k: int| 0 <= k < s.len() && s[k] == x1;
        let k0 = choose|k: int| 0 <= k < s.len() && s[k] == x0;
        assert(!outs[k1]);
        assert(outs[k0]);
    }
}

} // verus!
