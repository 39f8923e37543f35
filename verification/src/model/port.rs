use crate::common::collections::hwires_as_slice;
use crate::common::collections::hwires_from_vec;
use crate::common::collections::inputs_as_slice;
use crate::common::collections::inputs_from_vec;
use crate::common::HasName;
use crate::common::Vec4;
use crate::model::HWire;
use crate::model::HWireOrLogic;
use std::marker::PhantomData;
use vstd::prelude::*;
use vstd::slice::slice_to_vec;

verus! {

/// The direction of a port.
pub trait Dir {

}

/// Marks a port that takes values in.
#[derive(Debug, Clone, Copy)]
pub struct In;

/// Marks a port that gives values out.
#[derive(Debug, Clone, Copy)]
pub struct Out;

impl Dir for In {

}

impl Dir for Out {

}

/// A named, directed, ordered list of wire references.
#[derive(Debug)]
#[verifier::reject_recursive_types(W)]
pub struct Port<D: Dir, W> {
    pub name: String,
    pub wires: Vec4<W>,
    pub dir: PhantomData<D>,
}

impl<D: Dir> Port<D, HWire> {
    /// The number of wires of the port.
    pub open spec fn width(&self) -> nat {
        self.wires@.len()
    }

    /// Every wire of the port lies below the bound.
    pub open spec fn below(&self, num_wires: nat) -> bool {
        forall|i: int| 0 <= i < self.wires@.len() ==> (#[trigger] self.wires@[i]) < num_wires
    }

    /// A port of wires.
    pub fn from_h_wires(name: &str, wires: Vec<HWire>) -> (port: Self)
        ensures
            port.name@ == name@,
            port.wires@ == wires@,
    {
        Port { name: name.to_owned(), wires: hwires_from_vec(wires), dir: PhantomData }
    }

    /// The wires of the port, first to last.
    pub fn items(&self) -> (wires: &[HWire])
        ensures
            wires@ == self.wires@,
    {
        hwires_as_slice(&self.wires)
    }

    /// Whether every wire of the port lies below the bound.
    pub fn is_below(&self, num_wires: usize) -> (ok: bool)
        ensures
            ok == self.below(num_wires as nat),
    {
        let wires = self.items();
        let mut i: usize = 0;
        while i < wires.len()
            invariant
                i <= wires@.len(),
                wires@ == self.wires@,
                forall|k: int| 0 <= k < i ==> (#[trigger] wires@[k]) < num_wires,
            decreases wires@.len() - i,
        {
            if wires[i] >= num_wires {
                return false;
            }
            i += 1;
        }
        true
    }
}

impl<D: Dir> Port<D, HWireOrLogic> {
    /// The number of elements of the port.
    pub open spec fn width(&self) -> nat {
        self.wires@.len()
    }

    /// Every wire among the elements of the port lies below the bound.
    pub open spec fn below(&self, num_wires: nat) -> bool {
        forall|i: int|
            0 <= i < self.wires@.len() ==> ((#[trigger] self.wires@[i]) matches HWireOrLogic::HWire(
                h_wire,
            ) ==> h_wire < num_wires)
    }

    /// A port of wires and tied values.
    pub fn from_wires_or_logic(name: &str, wires: Vec<HWireOrLogic>) -> (port: Self)
        ensures
            port.name@ == name@,
            port.wires@ == wires@,
    {
        Port { name: name.to_owned(), wires: inputs_from_vec(wires), dir: PhantomData }
    }

    /// The elements of the port, first to last.
    pub fn items(&self) -> (wires: &[HWireOrLogic])
        ensures
            wires@ == self.wires@,
    {
        inputs_as_slice(&self.wires)
    }

    /// Whether every wire among the elements of the port lies below the bound.
    pub fn is_below(&self, num_wires: usize) -> (ok: bool)
        ensures
            ok == self.below(num_wires as nat),
    {
        let wires = self.items();
        let mut i: usize = 0;
        while i < wires.len()
            invariant
                i <= wires@.len(),
                wires@ == self.wires@,
                forall|k: int|
                    0 <= k < i ==> ((#[trigger] wires@[k]) matches HWireOrLogic::HWire(h_wire)
                        ==> h_wire < num_wires),
            decreases wires@.len() - i,
        {
            match wires[i] {
                HWireOrLogic::HWire(h_wire) => {
                    if h_wire >= num_wires {
                        return false;
                    }
                },
                HWireOrLogic::Logic(_) => {},
            }
            i += 1;
        }
        true
    }
}

impl<D: Dir> Clone for Port<D, HWire> {
    fn clone(&self) -> (copy: Self)
        ensures
            copy.name@ == self.name@,
            copy.wires@ == self.wires@,
    {
        Port {
            name: self.name.clone(),
            wires: hwires_from_vec(slice_to_vec(self.items())),
            dir: PhantomData,
        }
    }
}

impl<D: Dir> Clone for Port<D, HWireOrLogic> {
    fn clone(&self) -> (copy: Self)
        ensures
            copy.name@ == self.name@,
            copy.wires@ == self.wires@,
    {
        Port {
            name: self.name.clone(),
            wires: inputs_from_vec(slice_to_vec(self.items())),
            dir: PhantomData,
        }
    }
}

impl<D: Dir, W> HasName for Port<D, W> {
    open spec fn name_chars(&self) -> Seq<char> {
        self.name@
    }

    fn name(&self) -> (name: &str) {
        self.name.as_str()
    }
}

} // verus!
