use crate::common::collections::hwires_from_vec;
use crate::common::ConstructionFault;
use crate::common::SimError;
use crate::common::Vec4;
use crate::model::Logic;
use vstd::prelude::*;

verus! {

/// The handle of a wire: its index in the flat arrays of wire values.
pub type HWire = usize;

/// One element of a cell's input port: a wire, or a value the input is tied to.
#[derive(Debug, Clone, Copy, PartialEq, Eq, Structural)]
pub enum HWireOrLogic {
    HWire(HWire),
    Logic(Logic),
}

impl HWireOrLogic {
    /// The position of the first element that is no wire, or the number of
    /// elements where all are wires.
    pub open spec fn first_constant(wires: Seq<HWireOrLogic>) -> int
        decreases wires.len(),
    {
        if wires.len() == 0 {
            0
        } else if wires[0] is Logic {
            0
        } else {
            1 + Self::first_constant(wires.drop_first())
        }
    }

    /// The handles of a list of elements that are all wires; a tied element
    /// is turned down.
    #[allow(non_snake_case)]
    pub fn only_HWires(wires: &[HWireOrLogic]) -> (r: Result<Vec4<HWire>, SimError>)
        ensures
            match r {
                Ok(h_wires) => {
                    &&& Self::first_constant(wires@) == wires@.len()
                    &&& h_wires@.len() == wires@.len()
                    &&& forall|i: int|
                        0 <= i < wires@.len() ==> wires@[i] == HWireOrLogic::HWire(
                            #[trigger] h_wires@[i],
                        )
                },
                Err(error) => {
                    &&& 0 <= Self::first_constant(wires@) < wires@.len() <= usize::MAX
                    &&& wires@[Self::first_constant(wires@)] is Logic
                    &&& error == SimError::ConstructionError(
                        ConstructionFault::ConstantOutput {
                            position: Self::first_constant(wires@) as usize,
                        },
                    )
                },
            },
    {
        let mut h_wires: Vec<HWire> = Vec::new();
        let mut i: usize = 0;
        assert(wires@.skip(0) =~= wires@);
        while i < wires.len()
            invariant
                i <= wires@.len(),
                h_wires@.len() == i,
                forall|k: int| 0 <= k < i ==>
                    wires@[k] == HWireOrLogic::HWire(#[trigger] h_wires@[k]),
                Self::first_constant(wires@) == i + Self::first_constant(wires@.skip(i as int)),
            decreases wires@.len() - i,
        {
            let ghost rest = wires@.skip(i as int);
            assert(rest[0] == wires@[i as int]);
            match wires[i] {
                HWireOrLogic::HWire(h_wire) => {
                    h_wires.push(h_wire);
                },
                HWireOrLogic::Logic(_) => {
                    return Err(
                        SimError::ConstructionError(
                            ConstructionFault::ConstantOutput { position: i },
                        ),
                    );
                },
            }
            assert(rest.drop_first() == wires@.skip(i + 1));
            i += 1;
        }
        Ok(hwires_from_vec(h_wires))
    }
}

} // verus!
