use crate::common::SimError;
use vstd::prelude::*;

verus! {

/// Something that is found by its name.
pub trait HasName {
    /// The characters of the name.
    spec fn name_chars(&self) -> Seq<char>;

    fn name(&self) -> (name: &str)
        ensures
            name@ == self.name_chars(),
    ;
}

/// `str`'s `==`: whether two strings hold the same characters.
#[verifier::external_body]
pub(crate) fn str_eq(a: &str, b: &str) -> (same: bool)
    ensures
        same == (a@ == b@),
{
    a == b
}

/// The position of the first item with the name, or the number of items where
/// no item has it.
pub open spec fn first_named<T: HasName>(items: Seq<T>, name: Seq<char>) -> int
    decreases items.len(),
{
    if items.len() == 0 {
        0
    } else if items[0].name_chars() == name {
        0
    } else {
        1 + first_named(items.drop_first(), name)
    }
}

/// The first item that carries the name.
pub fn find_by_name<'a, T: HasName>(items: &'a [T], name: &str) -> (found: Result<&'a T, SimError>)
    ensures
        match found {
            Ok(item) => {
                &&& 0 <= first_named(items@, name@) < items@.len()
                &&& *item == items@[first_named(items@, name@)]
                &&& item.name_chars() == name@
            },
            Err(error) => {
                &&& first_named(items@, name@) == items@.len()
                &&& forall|i: int| 0 <= i < items@.len() ==> items@[i].name_chars() != name@
                &&& error == (SimError::NotFound { name: error->name })
                &&& error->name@ == name@
            },
        },
{
    let mut i: usize = 0;
    assert(items@.skip(0) =~= items@);
    while i < items.len()
        invariant
            i <= items@.len(),
            forall|k: int| 0 <= k < i ==> items@[k].name_chars() != name@,
            first_named(items@, name@) == i + first_named(items@.skip(i as int), name@),
        decreases items@.len() - i,
    {
        let item = &items[i];
        let ghost rest = items@.skip(i as int);
        assert(rest[0] == items@[i as int]);
        if str_eq(item.name(), name) {
            return Ok(item);
        }
        assert(rest.drop_first() == items@.skip(i + 1));
        i += 1;
    }
    Err(SimError::NotFound { name: name.to_owned() })
}

} // verus!
