use crate::model::Logic;
use crate::ops::lemma_and_values;
use crate::ops::lemma_not_values;
use crate::ops::lemma_or_values;
use crate::ops::BinaryMapOp;
use crate::ops::UnaryMapOp;
use crate::packed::logic_slice::inverted;
use crate::packed::logic_slice::lanewise;
use crate::packed::LogicSlice;
use vstd::prelude::*;

verus! {

/// Whether a bit of a word is set.
pub open spec fn bit(word: u64, index: u64) -> bool {
    (word >> index) & 1 == 1
}

/// The logic value of a lane: unknown where the unknown-mask has the bit,
/// else what the value-mask says.
pub open spec fn lane(v: u64, x: u64, index: u64) -> Logic {
    if bit(x, index) {
        Logic::X
    } else if bit(v, index) {
        Logic::_1
    } else {
        Logic::_0
    }
}

/// Up to 64 logic values in two words: a value-mask, and an unknown-mask
/// whose bits overrule those of the value-mask.
#[derive(Clone, Copy, Debug)]
pub struct LogicArray64 {
    v: u64,
    x: u64,
    width: u8,
}

impl LogicArray64 {
    /// No more lanes than a word has bits.
    #[verifier::type_invariant]
    pub closed spec fn wf(&self) -> bool {
        self.width <= 64
    }

    /// The value-mask.
    pub closed spec fn value_mask(&self) -> u64 {
        self.v
    }

    /// The unknown-mask.
    pub closed spec fn unknown_mask(&self) -> u64 {
        self.x
    }
}

proof fn lemma_bit_and(a: u64, b: u64, i: u64)
    requires
        i < 64,
    ensures
        bit(a & b, i) == (bit(a, i) && bit(b, i)),
{
    assert(((a & b) >> i) & 1 == 1 <==> ((a >> i) & 1 == 1 && (b >> i) & 1 == 1)) by (bit_vector)
        requires
            i < 64,
    ;
}

proof fn lemma_bit_or(a: u64, b: u64, i: u64)
    requires
        i < 64,
    ensures
        bit(a | b, i) == (bit(a, i) || bit(b, i)),
{
    assert(((a | b) >> i) & 1 == 1 <==> ((a >> i) & 1 == 1 || (b >> i) & 1 == 1)) by (bit_vector)
        requires
            i < 64,
    ;
}

proof fn lemma_bit_not(a: u64, i: u64)
    requires
        i < 64,
    ensures
        bit(!a, i) == !bit(a, i),
{
    assert(((!a) >> i) & 1 == 1 <==> !((a >> i) & 1 == 1)) by (bit_vector)
        requires
            i < 64,
    ;
}

proof fn lemma_bit_set(a: u64, i: u64, k: u64)
    requires
        i < 64,
        k < 64,
    ensures
        bit(a | (1u64 << i), k) == (bit(a, k) || k == i),
{
    assert(((a | (1u64 << i)) >> k) & 1 == 1 <==> ((a >> k) & 1 == 1 || k == i)) by (bit_vector)
        requires
            i < 64,
            k < 64,
    ;
}

proof fn lemma_bit_zero(k: u64)
    requires
        k < 64,
    ensures
        !bit(0, k),
{
    assert((0u64 >> k) & 1 == 0) by (bit_vector)
        requires
            k < 64,
    ;
}

impl LogicSlice for LogicArray64 {
    closed spec fn lanes(&self) -> Seq<Logic> {
        Seq::new(self.width as nat, |i: int| lane(self.v, self.x, i as u64))
    }

    open spec fn max_width() -> nat {
        64
    }

    fn capacity() -> (lanes: usize) {
        64
    }

    fn width(&self) -> (width: usize) {
        self.width as usize
    }

    fn not(a: &Self) -> (r: Self) {
        proof {
            use_type_invariant(a);
        }
        let r = LogicArray64 { v: !a.v, x: a.x, width: a.width };
        proof {
            assert forall|i: int| 0 <= i < r.lanes().len() implies r.lanes()[i]
                == UnaryMapOp::NOT.lift(a.lanes()[i]) by {
                lemma_bit_not(a.v, i as u64);
                lemma_not_values(a.lanes()[i]);
            }
            assert(r.lanes() =~= inverted(a.lanes()));
        }
        r
    }

    fn and(a: &Self, b: &Self) -> (r: Self) {
        proof {
            use_type_invariant(a);
            use_type_invariant(b);
        }
        let r = LogicArray64 {
            v: a.v & b.v,
            x: (a.x & b.x) | (a.v & b.x) | (b.v & a.x),
            width: if a.width <= b.width {
                a.width
            } else {
                b.width
            },
        };
        proof {
            assert forall|i: int| 0 <= i < r.lanes().len() implies r.lanes()[i]
                == BinaryMapOp::AND.lift(a.lanes()[i], b.lanes()[i]) by {
                let k = i as u64;
                lemma_bit_and(a.v, b.v, k);
                lemma_bit_and(a.x, b.x, k);
                lemma_bit_and(a.v, b.x, k);
                lemma_bit_and(b.v, a.x, k);
                lemma_bit_or(a.x & b.x, a.v & b.x, k);
                lemma_bit_or((a.x & b.x) | (a.v & b.x), b.v & a.x, k);
                lemma_and_values(a.lanes()[i], b.lanes()[i]);
            }
            assert(r.lanes() =~= lanewise(BinaryMapOp::AND, a.lanes(), b.lanes()));
        }
        r
    }

    fn or(a: &Self, b: &Self) -> (r: Self) {
        proof {
            use_type_invariant(a);
            use_type_invariant(b);
        }
        let r = LogicArray64 {
            v: a.v | b.v,
            x: (a.x & b.x) | (!a.v & b.x) | (!b.v & a.x),
            width: if a.width <= b.width {
                a.width
            } else {
                b.width
            },
        };
        proof {
            assert forall|i: int| 0 <= i < r.lanes().len() implies r.lanes()[i]
                == BinaryMapOp::OR.lift(a.lanes()[i], b.lanes()[i]) by {
                let k = i as u64;
                lemma_bit_or(a.v, b.v, k);
                lemma_bit_and(a.x, b.x, k);
                lemma_bit_not(a.v, k);
                lemma_bit_not(b.v, k);
                lemma_bit_and(!a.v, b.x, k);
                lemma_bit_and(!b.v, a.x, k);
                lemma_bit_or(a.x & b.x, !a.v & b.x, k);
                lemma_bit_or((a.x & b.x) | (!a.v & b.x), !b.v & a.x, k);
                lemma_or_values(a.lanes()[i], b.lanes()[i]);
            }
            assert(r.lanes() =~= lanewise(BinaryMapOp::OR, a.lanes(), b.lanes()));
        }
        r
    }

    fn from_logics(logics: &[Logic]) -> (r: Self) {
        let mut v: u64 = 0;
        let mut x: u64 = 0;
        let mut i: usize = 0;
        proof {
            assert forall|k: u64| k < 64 implies !bit(0, k) by {
                lemma_bit_zero(k);
            }
        }
        while i < logics.len()
            invariant
                i <= logics@.len(),
                logics@.len() <= 64,
                forall|k: u64| k < i ==> lane(v, x, k) == logics@[k as int],
                forall|k: u64| i <= k < 64 ==> !bit(v, k) && !bit(x, k),
            decreases logics@.len() - i,
        {
            let ghost v_before = v;
            let ghost x_before = x;
            match logics[i] {
                Logic::_0 => {},
                Logic::_1 => {
                    v = v | (1u64 << (i as u64));
                },
                Logic::X => {
                    x = x | (1u64 << (i as u64));
                },
            }
            proof {
                assert forall|k: u64| k < 64 implies bit(v, k) == (bit(v_before, k) || (k == i
                    && logics@[i as int] == Logic::_1)) by {
                    lemma_bit_set(v_before, i as u64, k);
                }
                assert forall|k: u64| k < 64 implies bit(x, k) == (bit(x_before, k) || (k == i
                    && logics@[i as int] == Logic::X)) by {
                    lemma_bit_set(x_before, i as u64, k);
                }
            }
            i += 1;
        }
        let r = LogicArray64 { v, x, width: logics.len() as u8 };
        assert(r.lanes() =~= logics@);
        r
    }

    fn to_logics(a: &Self, logics: &mut [Logic]) {
        proof {
            use_type_invariant(a);
        }
        let width = a.width as usize;
        let mut i: usize = 0;
        while i < width
            invariant
                i <= width,
                width == a.width,
                width <= 64,
                logics@.len() == width,
                forall|k: int| 0 <= k < i ==> logics@[k] == lane(a.v, a.x, k as u64),
            decreases width - i,
        {
            let shift = i as u64;
            logics[i] = if (a.x >> shift) & 1 == 1 {
                Logic::X
            } else if (a.v >> shift) & 1 == 1 {
                Logic::_1
            } else {
                Logic::_0
            };
            i += 1;
        }
        assert(logics@ =~= a.lanes());
    }
}

} // verus!
