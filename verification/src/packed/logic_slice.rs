use crate::model::Logic;
use crate::ops::BinaryMapOp;
use crate::ops::UnaryMapOp;
use crate::sim::OpFns;
use crate::ops::lemma_and_values;
use crate::ops::lemma_not_values;
use crate::ops::lemma_or_values;
use vstd::array::array_fill_for_copy_types;
use vstd::prelude::*;

verus! {

/// An operator of two operands on the lanes of two packed values: the result
/// is as wide as the narrower operand.
pub open spec fn lanewise(op: BinaryMapOp, a: Seq<Logic>, b: Seq<Logic>) -> Seq<Logic> {
    Seq::new(
        if a.len() <= b.len() {
            a.len()
        } else {
            b.len()
        },
        |i: int| op.lift(a[i], b[i]),
    )
}

/// The inverter on every lane of a packed value.
pub open spec fn inverted(a: Seq<Logic>) -> Seq<Logic> {
    Seq::new(a.len(), |i: int| UnaryMapOp::NOT.lift(a[i]))
}

/// Whether an operator is among those that packed values offer.
pub open spec fn is_packed_op(op: BinaryMapOp) -> bool {
    op == BinaryMapOp::AND || op == BinaryMapOp::OR || op == BinaryMapOp::NAND || op
        == BinaryMapOp::NOR
}

/// Logic values packed into machine words, with operators that work on all
/// of them at once and give what the truth tables give lane by lane.
pub trait LogicSlice: Sized {
    /// The logic values that are packed, lowest lane first.
    spec fn lanes(&self) -> Seq<Logic>;

    /// The most lanes that a value can hold.
    spec fn max_width() -> nat;

    /// The most lanes that a value can hold.
    fn capacity() -> (lanes: usize)
        ensures
            lanes == Self::max_width(),
    ;

    fn width(&self) -> (width: usize)
        ensures
            width == self.lanes().len(),
    ;

    fn not(a: &Self) -> (r: Self)
        ensures
            r.lanes() == inverted(a.lanes()),
    ;

    fn and(a: &Self, b: &Self) -> (r: Self)
        ensures
            r.lanes() == lanewise(BinaryMapOp::AND, a.lanes(), b.lanes()),
    ;

    fn or(a: &Self, b: &Self) -> (r: Self)
        ensures
            r.lanes() == lanewise(BinaryMapOp::OR, a.lanes(), b.lanes()),
    ;

    fn nand(a: &Self, b: &Self) -> (r: Self)
        ensures
            r.lanes() == lanewise(BinaryMapOp::NAND, a.lanes(), b.lanes()),
    {
        let conjunction = Self::and(a, b);
        let r = Self::not(&conjunction);
        proof {
            assert forall|i: int| 0 <= i < r.lanes().len() implies r.lanes()[i]
                == BinaryMapOp::NAND.lift(a.lanes()[i], b.lanes()[i]) by {
                lemma_nand_values(a.lanes()[i], b.lanes()[i]);
            }
            assert(r.lanes() =~= lanewise(BinaryMapOp::NAND, a.lanes(), b.lanes()));
        }
        r
    }

    fn nor(a: &Self, b: &Self) -> (r: Self)
        ensures
            r.lanes() == lanewise(BinaryMapOp::NOR, a.lanes(), b.lanes()),
    {
        let disjunction = Self::or(a, b);
        let r = Self::not(&disjunction);
        proof {
            assert forall|i: int| 0 <= i < r.lanes().len() implies r.lanes()[i]
                == BinaryMapOp::NOR.lift(a.lanes()[i], b.lanes()[i]) by {
                lemma_nor_values(a.lanes()[i], b.lanes()[i]);
            }
            assert(r.lanes() =~= lanewise(BinaryMapOp::NOR, a.lanes(), b.lanes()));
        }
        r
    }

    fn from_logics(logics: &[Logic]) -> (r: Self)
        requires
            logics@.len() <= Self::max_width(),
        ensures
            r.lanes() == logics@,
    ;

    fn to_logics(a: &Self, logics: &mut [Logic])
        requires
            old(logics)@.len() == a.lanes().len(),
        ensures
            final(logics)@ == a.lanes(),
    ;

    fn from_logic(logic: Logic) -> (r: Self)
        requires
            1 <= Self::max_width(),
        ensures
            r.lanes() == seq![logic],
    {
        let logics = [logic];
        let r = Self::from_logics(logics.as_slice());
        assert(r.lanes() =~= seq![logic]);
        r
    }

    fn to_logic(a: &Self) -> (logic: Logic)
        requires
            a.lanes().len() == 1,
        ensures
            logic == a.lanes()[0],
    {
        let logics = Self::to_logics_fixed::<1>(a);
        logics[0]
    }

    fn to_logics_fixed<const L: usize>(a: &Self) -> (logics: [Logic; L])
        requires
            a.lanes().len() == L,
        ensures
            logics@ == a.lanes(),
    {
        let mut logics: [Logic; L] = array_fill_for_copy_types(Logic::X);
        Self::to_logics(a, &mut logics);
        logics
    }

    /// Applies one of the operators that packed values offer.
    fn binary_op(op: BinaryMapOp, a: &Self, b: &Self) -> (r: Self)
        requires
            is_packed_op(op),
        ensures
            r.lanes() == lanewise(op, a.lanes(), b.lanes()),
    {
        match op {
            BinaryMapOp::AND => Self::and(a, b),
            BinaryMapOp::OR => Self::or(a, b),
            BinaryMapOp::NAND => Self::nand(a, b),
            _ => Self::nor(a, b),
        }
    }
}

/// The lifted inverted conjunction is the inverter after the conjunction.
pub proof fn lemma_nand_values(a: Logic, b: Logic)
    ensures
        BinaryMapOp::NAND.lift(a, b) == UnaryMapOp::NOT.lift(BinaryMapOp::AND.lift(a, b)),
{
    lemma_and_values(a, b);
    lemma_not_values(BinaryMapOp::AND.lift(a, b));
    let op = BinaryMapOp::NAND;
    assert(op.apply(true, true) == false);
    assert(op.apply(true, false) == true);
    assert(op.apply(false, true) == true);
    assert(op.apply(false, false) == true);
}

/// The lifted inverted disjunction is the inverter after the disjunction.
pub proof fn lemma_nor_values(a: Logic, b: Logic)
    ensures
        BinaryMapOp::NOR.lift(a, b) == UnaryMapOp::NOT.lift(BinaryMapOp::OR.lift(a, b)),
{
    lemma_or_values(a, b);
    lemma_not_values(BinaryMapOp::OR.lift(a, b));
    let op = BinaryMapOp::NOR;
    assert(op.apply(true, true) == false);
    assert(op.apply(true, false) == false);
    assert(op.apply(false, true) == false);
    assert(op.apply(false, false) == true);
}

/// Packing loses nothing: what is unpacked from what was packed is what was
/// packed, for every list that fits.
pub proof fn lemma_pack_unpack<S: LogicSlice>(logics: Seq<Logic>, packed: S, unpacked: Seq<Logic>)
    requires
        logics.len() <= S::max_width(),
        packed.lanes() == logics,
        unpacked == packed.lanes(),
    ensures
        unpacked == logics,
{
}

/// The packed operators give on every lane what the truth tables give for
/// the values of the lane.
pub proof fn lemma_packed_matches_tables(ops: OpFns, a: Seq<Logic>, b: Seq<Logic>, i: int)
    requires
        ops.wf(),
        0 <= i < a.len(),
        i < b.len(),
    ensures
        lanewise(BinaryMapOp::AND, a, b)[i] == ops.binary@[BinaryMapOp::AND.ordinal()].entry(
            a[i],
            b[i],
        ),
        lanewise(BinaryMapOp::OR, a, b)[i] == ops.binary@[BinaryMapOp::OR.ordinal()].entry(
            a[i],
            b[i],
        ),
        lanewise(BinaryMapOp::NAND, a, b)[i] == ops.binary@[BinaryMapOp::NAND.ordinal()].entry(
            a[i],
            b[i],
        ),
        lanewise(BinaryMapOp::NOR, a, b)[i] == ops.binary@[BinaryMapOp::NOR.ordinal()].entry(
            a[i],
            b[i],
        ),
        inverted(a)[i] == ops.unary@[UnaryMapOp::NOT.ordinal()].entry(a[i]),
{
    assert(ops.binary@[BinaryMapOp::AND.ordinal()].represents(BinaryMapOp::AND));
    assert(ops.binary@[BinaryMapOp::OR.ordinal()].represents(BinaryMapOp::OR));
    assert(ops.binary@[BinaryMapOp::NAND.ordinal()].represents(BinaryMapOp::NAND));
    assert(ops.binary@[BinaryMapOp::NOR.ordinal()].represents(BinaryMapOp::NOR));
    assert(ops.unary@[UnaryMapOp::NOT.ordinal()].represents(UnaryMapOp::NOT));
}

} // verus!
