use crate::common::has_name::str_eq;
use crate::common::ArgumentFault;
use crate::common::SimError;
use vstd::array::array_fill_for_copy_types;
use vstd::prelude::*;

verus! {

/// A value of the three-valued logic: low, high, or unknown.
#[derive(Copy, Clone, Debug, PartialEq, Eq, Structural)]
pub enum Logic {
    _0,
    _1,
    X,
}

/// The number of variants.
pub const Logic_Len: usize = 3;

/// The variants in their order.
pub const Logic_Variants: [Logic; 3] = [Logic::_0, Logic::_1, Logic::X];

impl Logic {
    /// Whether the boolean `b` is one of the values this logic value may stand for.
    pub open spec fn admits(self, b: bool) -> bool {
        match self {
            Logic::_0 => !b,
            Logic::_1 => b,
            Logic::X => true,
        }
    }

    /// The logic value that stands for exactly the boolean `b`.
    pub open spec fn of_bool(b: bool) -> Logic {
        if b {
            Logic::_1
        } else {
            Logic::_0
        }
    }

    /// The booleans a logic value may stand for, `false` before `true`.
    pub open spec fn bool_seq(self) -> Seq<bool> {
        match self {
            Logic::_0 => seq![false],
            Logic::_1 => seq![true],
            Logic::X => seq![false, true],
        }
    }

    /// The logic value of a collection of possible outcomes: the outcome
    /// itself where all agree, unknown where they differ.
    pub open spec fn of_bool_seq(s: Seq<bool>) -> Logic {
        if forall|i: int| 0 <= i < s.len() ==> s[i] {
            Logic::_1
        } else if forall|i: int| 0 <= i < s.len() ==> !s[i] {
            Logic::_0
        } else {
            Logic::X
        }
    }

    /// The position of the value among the variants.
    pub open spec fn ordinal(self) -> int {
        match self {
            Logic::_0 => 0,
            Logic::_1 => 1,
            Logic::X => 2,
        }
    }

    /// Whether the value is low or high, not unknown.
    pub open spec fn is_known(self) -> bool {
        self != Logic::X
    }

    /// The position of the value among the variants.
    pub fn index_of(self) -> (i: usize)
        ensures
            i == self.ordinal(),
    {
        match self {
            Logic::_0 => 0,
            Logic::_1 => 1,
            Logic::X => 2,
        }
    }

    /// An integer halved a number of times, rounding down.
    pub open spec fn halved(integer: int, times: nat) -> int
        decreases times,
    {
        if times == 0 {
            integer
        } else {
            Self::halved(integer, (times - 1) as nat) / 2
        }
    }

    /// The bit at a position of an integer in two's complement.
    pub open spec fn bit_of(integer: int, position: nat) -> bool {
        Self::halved(integer, position) % 2 == 1
    }

    /// The lowest bits of an integer in two's complement, lowest first.
    pub open spec fn bits_of(integer: int, width: nat) -> Seq<Logic> {
        Seq::new(width, |i: int| Logic::of_bool(Self::bit_of(integer, i as nat)))
    }

    /// The lowest `L` bits of an integer in two's complement, lowest first.
    pub fn to_bits<const L: usize>(integer: isize) -> (bits: [Logic; L])
        ensures
            bits@ == Logic::bits_of(integer as int, L as nat),
    {
        let mut bits: [Logic; L] = array_fill_for_copy_types(Logic::X);
        let negative = integer < 0;
        let mut rest: isize = if negative {
            -(integer + 1)
        } else {
            integer
        };
        let mut i: usize = 0;
        while i < L
            invariant
                i <= L,
                bits@.len() == L,
                rest >= 0,
                negative == (integer < 0),
                !negative ==> rest == Self::halved(integer as int, i as nat),
                negative ==> rest == -Self::halved(integer as int, i as nat) - 1,
                forall|k: int|
                    0 <= k < i ==> bits@[k] ==
                        Logic::of_bool(Self::bit_of(integer as int, k as nat)),
            decreases L - i,
        {
            let odd = rest % 2 == 1;
            bits[i] = Logic::from_bool(odd != negative);
            rest = rest / 2;
            i += 1;
        }
        assert(bits@ =~= Logic::bits_of(integer as int, L as nat));
        bits
    }

    /// The logic value that a text stands for: `0`, `1` and `X` stand for
    /// the three values, and nothing else for any.
    pub open spec fn of_text(text: Seq<char>) -> Option<Logic> {
        if text == "0"@ {
            Some(Logic::_0)
        } else if text == "1"@ {
            Some(Logic::_1)
        } else if text == "X"@ {
            Some(Logic::X)
        } else {
            None
        }
    }

    /// The logic value that a text stands for.
    pub fn from_str(value: &str) -> (r: Option<Logic>)
        ensures
            r == Logic::of_text(value@),
    {
        if str_eq(value, "0") {
            Some(Logic::_0)
        } else if str_eq(value, "1") {
            Some(Logic::_1)
        } else if str_eq(value, "X") {
            Some(Logic::X)
        } else {
            None
        }
    }

    /// The logic value of a bit given as a number, which is 0 or 1.
    pub fn from_int(value: isize) -> (r: Logic)
        requires
            value == 0 || value == 1,
        ensures
            r == Logic::of_bool(value == 1),
    {
        if value == 0 {
            Logic::_0
        } else {
            Logic::_1
        }
    }

    /// Whether two lists are equally long and equal at every position under
    /// an equality.
    pub fn is_slice_eq(a: &[Logic], b: &[Logic], equality: impl Fn(Logic, Logic) -> bool) -> (r:
        bool)
        requires
            forall|x: Logic, y: Logic| call_requires(equality, (x, y)),
        ensures
            r ==> a@.len() == b@.len() && forall|i: int|
                0 <= i < a@.len() ==> call_ensures(equality, (#[trigger] a@[i], b@[i]), true),
            !r ==> a@.len() != b@.len() || exists|i: int|
                0 <= i < a@.len() && call_ensures(equality, (#[trigger] a@[i], b@[i]), false),
    {
        let len_a = a.len();
        let len_b = b.len();
        if len_a != len_b {
            return false;
        }
        let mut i: usize = 0;
        while i < len_a
            invariant
                i <= len_a,
                len_a == a@.len(),
                len_a == b@.len(),
                forall|x: Logic, y: Logic| call_requires(equality, (x, y)),
                forall|k: int|
                    0 <= k < i ==> call_ensures(equality, (#[trigger] a@[k], b@[k]), true),
            decreases len_a - i,
        {
            if !equality(a[i], b[i]) {
                return false;
            }
            i += 1;
        }
        true
    }

    /// Whether two arrays hold the same values.
    pub fn eq<const W: usize>(a: &[Logic; W], b: &[Logic; W]) -> (r: bool)
        ensures
            r == (a@ == b@),
    {
        let mut i: usize = 0;
        while i < W
            invariant
                i <= W,
                a@.len() == W,
                b@.len() == W,
                forall|k: int| 0 <= k < i ==> a@[k] == b@[k],
            decreases W - i,
        {
            if a[i] != b[i] {
                return false;
            }
            i += 1;
        }
        assert(a@ =~= b@);
        true
    }

    /// The logic value that stands for exactly the boolean.
    pub fn from_bool(value: bool) -> (r: Logic)
        ensures
            r == Logic::of_bool(value),
    {
        match value {
            false => Logic::_0,
            true => Logic::_1,
        }
    }

    /// The booleans that a logic value may stand for, `false` before `true`.
    pub fn to_bool_set(logic: Logic) -> (r: Vec<bool>)
        ensures
            r@ == logic.bool_seq(),
    {
        let mut set: Vec<bool> = Vec::new();
        match logic {
            Logic::_0 => {
                set.push(false);
            },
            Logic::_1 => {
                set.push(true);
            },
            Logic::X => {
                set.push(false);
                set.push(true);
            },
        }
        set
    }

    /// The logic value of a collection of possible outcomes, which may not
    /// be empty.
    pub fn from_bool_set(logic: &[bool]) -> (r: Result<Logic, SimError>)
        ensures
            logic@.len() == 0 ==> r == Err::<Logic, SimError>(
                SimError::InvalidArgument(ArgumentFault::EmptyBoolSet),
            ),
            logic@.len() > 0 ==> r == Ok::<Logic, SimError>(Logic::of_bool_seq(logic@)),
    {
        if logic.len() == 0 {
            return Err(SimError::InvalidArgument(ArgumentFault::EmptyBoolSet));
        }
        let first = logic[0];
        let mut i: usize = 1;
        while i < logic.len()
            invariant
                1 <= i <= logic@.len(),
                first == logic@[0],
                forall|j: int| 0 <= j < i ==> logic@[j] == first,
            decreases logic@.len() - i,
        {
            if logic[i] != first {
                assert(logic@[i as int] != logic@[0]);
                return Ok(Logic::X);
            }
            i += 1;
        }
        Ok(Logic::from_bool(first))
    }

    /// Whether the value is low or high, not unknown.
    pub fn is_physical(&self) -> (r: bool)
        ensures
            r == self.is_known(),
    {
        match self {
            Logic::X => false,
            _ => true,
        }
    }

    /// Plain identity: unknown equals unknown.
    pub fn is_eq_logical(a: Logic, b: Logic) -> (r: bool)
        ensures
            r == (a == b),
    {
        a == b
    }

    /// Equality of two defined values: unknown equals nothing, not even itself.
    pub fn is_eq_physical(a: Logic, b: Logic) -> (r: bool)
        ensures
            r == (a != Logic::X && b != Logic::X && a == b),
    {
        a.is_physical() && b.is_physical() && a == b
    }
}

impl From<bool> for Logic {
    fn from(value: bool) -> (r: Self) {
        Logic::from_bool(value)
    }
}

impl vstd::std_specs::convert::FromSpecImpl<bool> for Logic {
    open spec fn obeys_from_spec() -> bool {
        true
    }

    open spec fn from_spec(value: bool) -> Self {
        Logic::of_bool(value)
    }
}

} // verus!
