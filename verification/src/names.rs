//! Finding items by name.

use vstd::prelude::*;

verus! {

/// `i` is the first position of `name` in `names`.
pub open spec fn is_first_name(names: Seq<String>, name: Seq<char>, i: int) -> bool {
    &&& 0 <= i < names.len()
    &&& names[i]@ == name
    &&& forall|j: int| 0 <= j < i ==> names[j]@ != name
}

/// Whether `name` occurs in `names`.
pub open spec fn has_name(names: Seq<String>, name: Seq<char>) -> bool {
    exists|j: int| 0 <= j < names.len() && names[j]@ == name
}

/// Returns the position of the first of `names` equal to `name`, if any.
pub fn position_of_name(names: &[String], name: &str) -> (r: Option<usize>)
    ensures
        match r {
            Some(i) => is_first_name(names@, name@, i as int),
            None => !has_name(names@, name@),
        },
{
    let key = name.to_owned();
    let mut i: usize = 0;
    while i < names.len()
        invariant
            i <= names@.len(),
            key@ == name@,
            forall|j: int| 0 <= j < i ==> names@[j]@ != name@,
        decreases names@.len() - i,
    {
        if names[i] == key {
            return Some(i);
        }
        i = i + 1;
    }
    None
}

} // verus!
