use crate::model::Logic;
use crate::sim::BinaryMapOpFn;
use crate::sim::UnaryMapOpFn;
use vstd::prelude::*;

verus! {

/// The operators of one operand.
#[derive(Copy, Clone, Debug, PartialEq, Eq, Structural)]
pub enum UnaryMapOp {
    NOT,
    BUF,
}

/// The number of variants.
pub const UnaryMapOp_Len: usize = 2;

/// The variants in their order.
pub const UnaryMapOp_Variants: [UnaryMapOp; 2] = [UnaryMapOp::NOT, UnaryMapOp::BUF];

impl UnaryMapOp {
    /// The operator on booleans.
    pub open spec fn apply(self, a: bool) -> bool {
        match self {
            UnaryMapOp::NOT => !a,
            UnaryMapOp::BUF => a,
        }
    }

    /// The operator on logic values: the one outcome where the operand
    /// leaves no choice, unknown where the outcome depends on what an
    /// unknown operand stands for.
    pub open spec fn lift(self, a: Logic) -> Logic {
        if forall|x: bool| #![trigger self.apply(x)] a.admits(x) ==> self.apply(x) {
            Logic::_1
        } else if forall|x: bool| #![trigger self.apply(x)] a.admits(x) ==> !self.apply(x) {
            Logic::_0
        } else {
            Logic::X
        }
    }

    /// The position of the operator among the variants.
    pub open spec fn ordinal(self) -> int {
        match self {
            UnaryMapOp::NOT => 0,
            UnaryMapOp::BUF => 1,
        }
    }

    /// The position of the operator among the variants.
    pub fn index_of(self) -> (i: usize)
        ensures
            i == self.ordinal(),
    {
        match self {
            UnaryMapOp::NOT => 0,
            UnaryMapOp::BUF => 1,
        }
    }

    /// The operator on booleans.
    pub fn eval_bool(op: UnaryMapOp, a: bool) -> (r: bool)
        ensures
            r == op.apply(a),
    {
        match op {
            UnaryMapOp::NOT => !a,
            UnaryMapOp::BUF => a,
        }
    }
}

/// The operators of two operands.
#[derive(Copy, Clone, Debug, PartialEq, Eq, Structural)]
pub enum BinaryMapOp {
    AND,
    OR,
    XOR,
    NAND,
    NOR,
    XNOR,
    AND_NOT,
    OR_NOT,
}

/// The number of variants.
pub const BinaryMapOp_Len: usize = 8;

/// The variants in their order.
pub const BinaryMapOp_Variants: [BinaryMapOp; 8] = [
    BinaryMapOp::AND,
    BinaryMapOp::OR,
    BinaryMapOp::XOR,
    BinaryMapOp::NAND,
    BinaryMapOp::NOR,
    BinaryMapOp::XNOR,
    BinaryMapOp::AND_NOT,
    BinaryMapOp::OR_NOT,
];

impl BinaryMapOp {
    /// The operator on booleans.
    pub open spec fn apply(self, a: bool, b: bool) -> bool {
        match self {
            BinaryMapOp::AND => a && b,
            BinaryMapOp::OR => a || b,
            BinaryMapOp::XOR => a != b,
            BinaryMapOp::NAND => !(a && b),
            BinaryMapOp::NOR => !(a || b),
            BinaryMapOp::XNOR => a == b,
            BinaryMapOp::AND_NOT => a && !b,
            BinaryMapOp::OR_NOT => a || !b,
        }
    }

    /// The operator on logic values: the one outcome where the operands
    /// leave no choice, unknown where the outcome depends on what an
    /// unknown operand stands for.
    pub open spec fn lift(self, a: Logic, b: Logic) -> Logic {
        if forall|x: bool, y: bool|
            #![trigger self.apply(x, y)]
            a.admits(x) && b.admits(y) ==> self.apply(x, y) {
            Logic::_1
        } else if forall|x: bool, y: bool|
            #![trigger self.apply(x, y)]
            a.admits(x) && b.admits(y) ==> !self.apply(x, y) {
            Logic::_0
        } else {
            Logic::X
        }
    }

    /// The position of the operator among the variants.
    pub open spec fn ordinal(self) -> int {
        match self {
            BinaryMapOp::AND => 0,
            BinaryMapOp::OR => 1,
            BinaryMapOp::XOR => 2,
            BinaryMapOp::NAND => 3,
            BinaryMapOp::NOR => 4,
            BinaryMapOp::XNOR => 5,
            BinaryMapOp::AND_NOT => 6,
            BinaryMapOp::OR_NOT => 7,
        }
    }

    /// The position of the operator among the variants.
    pub fn index_of(self) -> (i: usize)
        ensures
            i == self.ordinal(),
    {
        match self {
            BinaryMapOp::AND => 0,
            BinaryMapOp::OR => 1,
            BinaryMapOp::XOR => 2,
            BinaryMapOp::NAND => 3,
            BinaryMapOp::NOR => 4,
            BinaryMapOp::XNOR => 5,
            BinaryMapOp::AND_NOT => 6,
            BinaryMapOp::OR_NOT => 7,
        }
    }

    /// The operator on booleans.
    pub fn eval_bool(op: BinaryMapOp, a: bool, b: bool) -> (r: bool)
        ensures
            r == op.apply(a, b),
    {
        match op {
            BinaryMapOp::AND => a && b,
            BinaryMapOp::OR => a || b,
            BinaryMapOp::XOR => a != b,
            BinaryMapOp::NAND => !(a && b),
            BinaryMapOp::NOR => !(a || b),
            BinaryMapOp::XNOR => a == b,
            BinaryMapOp::AND_NOT => a && !b,
            BinaryMapOp::OR_NOT => a || !b,
        }
    }
}

/// The operators of three operands.
#[derive(Copy, Clone, Debug, PartialEq, Eq, Structural)]
pub enum TernaryMapOp {
    AND_OR_INV,
    OR_AND_INV,
}

/// The number of variants.
pub const TernaryMapOp_Len: usize = 2;

/// The variants in their order.
pub const TernaryMapOp_Variants: [TernaryMapOp; 2] = [
    TernaryMapOp::AND_OR_INV,
    TernaryMapOp::OR_AND_INV,
];

impl TernaryMapOp {
    /// The operator on booleans.
    pub open spec fn apply(self, a: bool, b: bool, c: bool) -> bool {
        match self {
            TernaryMapOp::AND_OR_INV => !((a && b) || c),
            TernaryMapOp::OR_AND_INV => !((a || b) && c),
        }
    }

    /// The operator on logic values: the one outcome where the operands
    /// leave no choice, unknown where the outcome depends on what an
    /// unknown operand stands for.
    pub open spec fn lift(self, a: Logic, b: Logic, c: Logic) -> Logic {
        if forall|x: bool, y: bool, z: bool|
            #![trigger self.apply(x, y, z)]
            a.admits(x) && b.admits(y) && c.admits(z) ==> self.apply(x, y, z) {
            Logic::_1
        } else if forall|x: bool, y: bool, z: bool|
            #![trigger self.apply(x, y, z)]
            a.admits(x) && b.admits(y) && c.admits(z) ==> !self.apply(x, y, z) {
            Logic::_0
        } else {
            Logic::X
        }
    }

    /// The operator as the gates compose it: the inverted outer gate over the
    /// inner gate of the first two operands and the third operand.
    pub open spec fn compose(self, a: Logic, b: Logic, c: Logic) -> Logic {
        match self {
            TernaryMapOp::AND_OR_INV => UnaryMapOp::NOT.lift(
                BinaryMapOp::OR.lift(BinaryMapOp::AND.lift(a, b), c),
            ),
            TernaryMapOp::OR_AND_INV => UnaryMapOp::NOT.lift(
                BinaryMapOp::AND.lift(BinaryMapOp::OR.lift(a, b), c),
            ),
        }
    }

    /// The position of the operator among the variants.
    pub open spec fn ordinal(self) -> int {
        match self {
            TernaryMapOp::AND_OR_INV => 0,
            TernaryMapOp::OR_AND_INV => 1,
        }
    }

    /// The position of the operator among the variants.
    pub fn index_of(self) -> (i: usize)
        ensures
            i == self.ordinal(),
    {
        match self {
            TernaryMapOp::AND_OR_INV => 0,
            TernaryMapOp::OR_AND_INV => 1,
        }
    }

    /// The operator on logic values, composed of its gates.
    pub fn eval_logic(op: TernaryMapOp, a: Logic, b: Logic, c: Logic) -> (r: Logic)
        ensures
            r == op.lift(a, b, c),
            r == op.compose(a, b, c),
    {
        proof {
            lemma_compose_is_lift(op, a, b, c);
        }
        match op {
            TernaryMapOp::AND_OR_INV => UnaryMapOpFn::eval_logic(
                UnaryMapOp::NOT,
                BinaryMapOpFn::eval_logic(
                    BinaryMapOp::OR,
                    BinaryMapOpFn::eval_logic(BinaryMapOp::AND, a, b),
                    c,
                ),
            ),
            TernaryMapOp::OR_AND_INV => UnaryMapOpFn::eval_logic(
                UnaryMapOp::NOT,
                BinaryMapOpFn::eval_logic(
                    BinaryMapOp::AND,
                    BinaryMapOpFn::eval_logic(BinaryMapOp::OR, a, b),
                    c,
                ),
            ),
        }
    }
}

/// On known values a lifted operator of one operand is the operator on
/// booleans.
pub proof fn lemma_unary_known(op: UnaryMapOp, a: bool)
    ensures
        op.lift(Logic::of_bool(a)) == Logic::of_bool(op.apply(a)),
{
    assert(op.apply(a) == op.apply(a));
}

/// On known values a lifted operator of two operands is the operator on
/// booleans.
pub proof fn lemma_binary_known(op: BinaryMapOp, a: bool, b: bool)
    ensures
        op.lift(Logic::of_bool(a), Logic::of_bool(b)) == Logic::of_bool(op.apply(a, b)),
{
    assert(op.apply(a, b) == op.apply(a, b));
}

/// On known values a lifted operator of three operands is the operator on
/// booleans.
pub proof fn lemma_ternary_known(op: TernaryMapOp, a: bool, b: bool, c: bool)
    ensures
        op.lift(Logic::of_bool(a), Logic::of_bool(b), Logic::of_bool(c)) == Logic::of_bool(
            op.apply(a, b, c),
        ),
{
    assert(op.apply(a, b, c) == op.apply(a, b, c));
}

/// A lifted operator of two operands is unknown exactly if the outcome
/// depends on what the operands stand for.
pub proof fn lemma_binary_unknown(op: BinaryMapOp, a: Logic, b: Logic)
    ensures
        op.lift(a, b) == Logic::X <==> exists|x: bool, y: bool, v: bool, w: bool|
            a.admits(x) && b.admits(y) && a.admits(v) && b.admits(w) && #[trigger] op.apply(x, y)
                != #[trigger] op.apply(v, w),
{
    assert(a.admits(true) || a.admits(false));
    assert(b.admits(true) || b.admits(false));
    if op.lift(a, b) == Logic::X {
        let (x, y) = choose|x: bool, y: bool|
            #![trigger op.apply(x, y)]
            a.admits(x) && b.admits(y) && !op.apply(x, y);
        let (v, w) = choose|v: bool, w: bool|
            #![trigger op.apply(v, w)]
            a.admits(v) && b.admits(w) && op.apply(v, w);
        assert(op.apply(x, y) != op.apply(v, w));
    }
}

/// The lifted inverter, value by value.
pub proof fn lemma_not_values(a: Logic)
    ensures
        UnaryMapOp::NOT.lift(a) == match a {
            Logic::_0 => Logic::_1,
            Logic::_1 => Logic::_0,
            Logic::X => Logic::X,
        },
{
    let op = UnaryMapOp::NOT;
    assert(op.apply(true) == false);
    assert(op.apply(false) == true);
}

/// The lifted buffer hands its operand on.
pub proof fn lemma_buf_values(a: Logic)
    ensures
        UnaryMapOp::BUF.lift(a) == a,
{
    let op = UnaryMapOp::BUF;
    assert(op.apply(true) == true);
    assert(op.apply(false) == false);
}

/// The lifted conjunction: low as soon as one operand is low, high where both
/// are high, else unknown.
pub proof fn lemma_and_values(a: Logic, b: Logic)
    ensures
        BinaryMapOp::AND.lift(a, b) == if a == Logic::_0 || b == Logic::_0 {
            Logic::_0
        } else if a == Logic::_1 && b == Logic::_1 {
            Logic::_1
        } else {
            Logic::X
        },
{
    let op = BinaryMapOp::AND;
    assert(op.apply(true, true) == true);
    assert(op.apply(true, false) == false);
    assert(op.apply(false, true) == false);
    assert(op.apply(false, false) == false);
}

/// The lifted disjunction: high as soon as one operand is high, low where
/// both are low, else unknown.
pub proof fn lemma_or_values(a: Logic, b: Logic)
    ensures
        BinaryMapOp::OR.lift(a, b) == if a == Logic::_1 || b == Logic::_1 {
            Logic::_1
        } else if a == Logic::_0 && b == Logic::_0 {
            Logic::_0
        } else {
            Logic::X
        },
{
    let op = BinaryMapOp::OR;
    assert(op.apply(true, true) == true);
    assert(op.apply(true, false) == true);
    assert(op.apply(false, true) == true);
    assert(op.apply(false, false) == false);
}

/// The lifted exclusive disjunction: unknown as soon as one operand is
/// unknown, else high where the operands differ.
pub proof fn lemma_xor_values(a: Logic, b: Logic)
    ensures
        BinaryMapOp::XOR.lift(a, b) == if a == Logic::X || b == Logic::X {
            Logic::X
        } else if a == b {
            Logic::_0
        } else {
            Logic::_1
        },
{
    let op = BinaryMapOp::XOR;
    assert(op.apply(true, true) == false);
    assert(op.apply(true, false) == true);
    assert(op.apply(false, true) == true);
    assert(op.apply(false, false) == false);
}

/// The lifted and-or-invert gate: low where the inner disjunction is surely
/// high, high where it is surely low, else unknown.
pub proof fn lemma_and_or_inv_values(a: Logic, b: Logic, c: Logic)
    ensures
        TernaryMapOp::AND_OR_INV.lift(a, b, c) == if c == Logic::_1 || (a == Logic::_1 && b
            == Logic::_1) {
            Logic::_0
        } else if c == Logic::_0 && (a == Logic::_0 || b == Logic::_0) {
            Logic::_1
        } else {
            Logic::X
        },
{
    let op = TernaryMapOp::AND_OR_INV;
    assert(op.apply(true, true, true) == false);
    assert(op.apply(true, true, false) == false);
    assert(op.apply(true, false, true) == false);
    assert(op.apply(true, false, false) == true);
    assert(op.apply(false, true, true) == false);
    assert(op.apply(false, true, false) == true);
    assert(op.apply(false, false, true) == false);
    assert(op.apply(false, false, false) == true);
}

/// The lifted or-and-invert gate: low where the inner conjunction is surely
/// high, high where it is surely low, else unknown.
pub proof fn lemma_or_and_inv_values(a: Logic, b: Logic, c: Logic)
    ensures
        TernaryMapOp::OR_AND_INV.lift(a, b, c) == if c == Logic::_1 && (a == Logic::_1 || b
            == Logic::_1) {
            Logic::_0
        } else if c == Logic::_0 || (a == Logic::_0 && b == Logic::_0) {
            Logic::_1
        } else {
            Logic::X
        },
{
    let op = TernaryMapOp::OR_AND_INV;
    assert(op.apply(true, true, true) == false);
    assert(op.apply(true, true, false) == true);
    assert(op.apply(true, false, true) == false);
    assert(op.apply(true, false, false) == true);
    assert(op.apply(false, true, true) == false);
    assert(op.apply(false, true, false) == true);
    assert(op.apply(false, false, true) == true);
    assert(op.apply(false, false, false) == true);
}

/// Composing the gates of a three-operand operator loses nothing: the composed
/// value is the operator lifted as a whole, for all operands.
pub proof fn lemma_compose_is_lift(op: TernaryMapOp, a: Logic, b: Logic, c: Logic)
    ensures
        op.compose(a, b, c) == op.lift(a, b, c),
{
    lemma_and_values(a, b);
    lemma_or_values(a, b);
    lemma_and_values(BinaryMapOp::OR.lift(a, b), c);
    lemma_or_values(BinaryMapOp::AND.lift(a, b), c);
    lemma_not_values(BinaryMapOp::OR.lift(BinaryMapOp::AND.lift(a, b), c));
    lemma_not_values(BinaryMapOp::AND.lift(BinaryMapOp::OR.lift(a, b), c));
    lemma_and_or_inv_values(a, b, c);
    lemma_or_and_inv_values(a, b, c);
}

} // verus!
