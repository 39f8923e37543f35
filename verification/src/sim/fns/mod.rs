pub mod binary;
pub mod ternary;
pub mod unary;

pub use binary::BinaryMapOpFn;
pub use ternary::TernaryMapFn;
pub use unary::UnaryMapOpFn;

use crate::model::Logic;
use crate::ops::BinaryMapOp;
use crate::ops::TernaryMapOp;
use crate::ops::UnaryMapOp;
use vstd::prelude::*;

verus! {

/// The truth tables of all operators, one table for each.
#[derive(Clone, Copy)]
pub struct OpFns {
    pub unary: [UnaryMapOpFn; 2],
    pub binary: [BinaryMapOpFn; 8],
    pub ternary: [TernaryMapFn; 2],
}

impl OpFns {
    /// Every table holds the values of the operator at whose position it stands.
    pub open spec fn wf(&self) -> bool {
        &&& forall|op: UnaryMapOp| #[trigger] self.unary@[op.ordinal()].represents(op)
        &&& forall|op: BinaryMapOp| #[trigger] self.binary@[op.ordinal()].represents(op)
        &&& forall|op: TernaryMapOp| #[trigger] self.ternary@[op.ordinal()].represents(op)
    }

    /// Compiles the tables of all operators.
    pub fn new() -> (ops: OpFns)
        ensures
            ops.wf(),
    {
        OpFns {
            unary: UnaryMapOpFn::compile_all(),
            binary: BinaryMapOpFn::compile_all(),
            ternary: TernaryMapFn::compile_all(),
        }
    }

    /// Looks an operator of one operand up in its table.
    pub fn apply_unary(&self, op: UnaryMapOp, a: Logic) -> (r: Logic)
        requires
            self.wf(),
        ensures
            r == op.lift(a),
    {
        assert(self.unary@[op.ordinal()].represents(op));
        assert(self.unary@[op.ordinal()].entry(a) == op.lift(a));
        *self.unary[op.index_of()].index(a)
    }

    /// Looks an operator of two operands up in its table.
    pub fn apply_binary(&self, op: BinaryMapOp, a: Logic, b: Logic) -> (r: Logic)
        requires
            self.wf(),
        ensures
            r == op.lift(a, b),
    {
        assert(self.binary@[op.ordinal()].represents(op));
        assert(self.binary@[op.ordinal()].entry(a, b) == op.lift(a, b));
        *self.binary[op.index_of()].index((a, b))
    }

    /// Looks an operator of three operands up in its table.
    pub fn apply_ternary(&self, op: TernaryMapOp, a: Logic, b: Logic, c: Logic) -> (r: Logic)
        requires
            self.wf(),
        ensures
            r == op.lift(a, b, c),
    {
        assert(self.ternary@[op.ordinal()].represents(op));
        assert(self.ternary@[op.ordinal()].entry(a, b, c) == op.lift(a, b, c));
        *self.ternary[op.index_of()].index((a, b, c))
    }
}

} // verus!
