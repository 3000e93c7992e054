//! Comparing texts.

use vstd::prelude::*;

verus! {

/// The selector that stands for every interface.
pub open spec fn any_selector() -> Seq<char> {
    "any"@
}

/// Whether two strings hold the same text.
pub fn same_text(a: &str, b: &str) -> (same: bool)
    ensures
        same == (a@ == b@),
{
    let left = a.to_owned();
    let right = b.to_owned();
    left == right
}

/// Whether `selector` stands for every interface.
pub fn is_any(selector: &str) -> (any: bool)
    ensures
        any == (selector@ == any_selector()),
{
    same_text(selector, "any")
}

/// The place of the first name in `names` that equals `wanted`.
pub fn find_name(wanted: &str, names: &Vec<String>) -> (place: Option<usize>)
    ensures
        (match place {
            Some(i) => i < names@.len() && names@[i as int]@ == wanted@ && forall|k: int|
                0 <= k < i ==> (#[trigger] names@[k])@ != wanted@,
            None => forall|k: int| 0 <= k < names@.len() ==> (#[trigger] names@[k])@ != wanted@,
        }),
{
    let mut i: usize = 0;
    while i < names.len()
        invariant
            i <= names@.len(),
            forall|k: int| 0 <= k < i ==> (#[trigger] names@[k])@ != wanted@,
        decreases names@.len() - i,
    {
        if same_text(names[i].as_str(), wanted) {
            return Some(i);
        }
        i = i + 1;
    }
    None
}

} // verus!
