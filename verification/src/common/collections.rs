use crate::model::HWireOrLogic;
use more_collections::SmallSet;
use smallvec::SmallVec;
use vstd::prelude::*;

verus! {

/// A short list that keeps up to four items inline.
///
/// The items live in a `smallvec::SmallVec`, which the verifier cannot look
/// into: what a list holds is named by [`hwire_items`] for wire handles and by
/// [`input_items`] for cell inputs.
#[verifier::external_body]
#[verifier::reject_recursive_types(T)]
#[derive(Debug)]
pub struct Vec4<T> {
    items: SmallVec<[T; 4]>,
}

/// A small set that remembers the order of insertion.
pub type Set4<T> = SmallSet<T, 4>;

/// `more_collections::SmallSet`, made known so that it can stand in fields
/// and signatures. The verifier sees nothing of what a set holds: for sets
/// of handles that is named by [`set4_items`].
#[verifier::external_type_specification]
#[verifier::external_body]
#[verifier::reject_recursive_types(T)]
#[verifier::reject_recursive_types(S)]
pub struct ExSmallSet<T, const C: usize, S>(SmallSet<T, C, S>);

/// The wire handles that a list holds, first to last.
pub uninterp spec fn hwire_items(list: Vec4<usize>) -> Seq<usize>;

/// The cell inputs that a list holds, first to last.
pub uninterp spec fn input_items(list: Vec4<HWireOrLogic>) -> Seq<HWireOrLogic>;

/// The handles that a set holds, in the order in which they were first inserted.
pub uninterp spec fn set4_items(set: SmallSet<usize, 4>) -> Seq<usize>;

impl View for Vec4<usize> {
    type V = Seq<usize>;

    open spec fn view(&self) -> Seq<usize> {
        hwire_items(*self)
    }
}

impl View for Vec4<HWireOrLogic> {
    type V = Seq<HWireOrLogic>;

    open spec fn view(&self) -> Seq<HWireOrLogic> {
        input_items(*self)
    }
}

/// `SmallVec::from_vec`: the list holds the vector's items in the vector's order.
#[verifier::external_body]
pub(crate) fn hwires_from_vec(wires: Vec<usize>) -> (list: Vec4<usize>)
    ensures
        hwire_items(list) == wires@,
{
    Vec4 { items: SmallVec::from_vec(wires) }
}

/// `SmallVec::as_slice`: the slice shows the list's items in the list's order.
#[verifier::external_body]
pub(crate) fn hwires_as_slice(list: &Vec4<usize>) -> (wires: &[usize])
    ensures
        wires@ == hwire_items(*list),
{
    list.items.as_slice()
}

/// `SmallVec::from_vec`: the list holds the vector's items in the vector's order.
#[verifier::external_body]
pub(crate) fn inputs_from_vec(wires: Vec<HWireOrLogic>) -> (list: Vec4<HWireOrLogic>)
    ensures
        input_items(list) == wires@,
{
    Vec4 { items: SmallVec::from_vec(wires) }
}

/// `SmallVec::as_slice`: the slice shows the list's items in the list's order.
#[verifier::external_body]
pub(crate) fn inputs_as_slice(list: &Vec4<HWireOrLogic>) -> (wires: &[HWireOrLogic])
    ensures
        wires@ == input_items(*list),
{
    list.items.as_slice()
}

/// `SmallSet::new`: a set without items.
#[verifier::external_body]
pub(crate) fn set4_new() -> (set: SmallSet<usize, 4>)
    ensures
        set4_items(set) == Seq::<usize>::empty(),
{
    SmallSet::new()
}

/// `SmallSet::insert`: a handle that the set holds already changes nothing; a
/// new one goes behind all the others.
#[verifier::external_body]
pub(crate) fn set4_insert(set: &mut SmallSet<usize, 4>, handle: usize)
    ensures
        set4_items(*final(set)) == if set4_items(*old(set)).contains(handle) {
            set4_items(*old(set))
        } else {
            set4_items(*old(set)).push(handle)
        },
{
    set.insert(handle);
}

/// `SmallSet::len`: the number of handles in the set.
#[verifier::external_body]
pub(crate) fn set4_len(set: &SmallSet<usize, 4>) -> (len: usize)
    ensures
        len == set4_items(*set).len(),
{
    set.len()
}

/// `SmallSet::get_index`: the handle at a position in insertion order, none
/// from the length on.
#[verifier::external_body]
pub(crate) fn set4_get(set: &SmallSet<usize, 4>, index: usize) -> (handle: Option<usize>)
    ensures
        handle == if index < set4_items(*set).len() {
            Some(set4_items(*set)[index as int])
        } else {
            None
        },
{
    set.get_index(index).copied()
}

} // verus!
