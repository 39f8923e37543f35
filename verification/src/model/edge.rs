use crate::model::Logic;
use vstd::prelude::*;

verus! {

/// How a wire moved between two samples.
#[derive(Copy, Clone, Debug, PartialEq, Eq, Structural)]
pub enum Edge {
    NONE,
    X,
    POSITIVE,
    NEGATIVE,
}

/// The number of variants.
pub const Edge_Len: usize = 4;

/// The variants in their order.
pub const Edge_Variants: [Edge; 4] = [Edge::NONE, Edge::X, Edge::POSITIVE, Edge::NEGATIVE];

impl Edge {
    /// The edge between an earlier and a later sample: unknown as soon as one
    /// sample is unknown, none where both agree, else rising or falling.
    pub open spec fn between(from: Logic, to: Logic) -> Edge {
        if from == Logic::X || to == Logic::X {
            Edge::X
        } else if from == to {
            Edge::NONE
        } else if to == Logic::_1 {
            Edge::POSITIVE
        } else {
            Edge::NEGATIVE
        }
    }

    /// The edge between an earlier and a later sample.
    pub fn of(from: Logic, to: Logic) -> (edge: Edge)
        ensures
            edge == Edge::between(from, to),
    {
        match from {
            Logic::_0 => match to {
                Logic::_0 => Edge::NONE,
                Logic::_1 => Edge::POSITIVE,
                Logic::X => Edge::X,
            },
            Logic::_1 => match to {
                Logic::_0 => Edge::NEGATIVE,
                Logic::_1 => Edge::NONE,
                Logic::X => Edge::X,
            },
            Logic::X => Edge::X,
        }
    }
}

} // verus!
