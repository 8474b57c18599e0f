//! Whether the virtual camera can be seen.
use crate::text;
use crate::wasapi;
use vstd::prelude::*;

verus! {

/// Whether one of the cameras has `vdev-camera` in its name, whatever the case.
pub fn find_vdev(names: &Vec<String>) -> (found: bool)
    ensures
        found == !wasapi::none_has(wasapi::lowered(text::texts(names@)), "vdev-camera"@),
{
    let low: Vec<String> = wasapi::all_lowered(names);
    match wasapi::first_with(&low, "vdev-camera") {
        Some(_) => true,
        None => false,
    }
}

/// Whether one of the cameras is called `vdev-camera`.
pub fn camera_visible(names: &Vec<String>) -> (found: bool)
    ensures
        found == text::texts(names@).contains("vdev-camera"@),
{
    let mut i: usize = 0;
    while i < names.len()
        invariant
            i <= names@.len(),
            forall|k: int| 0 <= k < i ==> text::texts(names@)[k] != "vdev-camera"@,
        decreases names@.len() - i,
    {
        assert(text::texts(names@)[i as int] == names@[i as int]@);
        if text::same_text(names[i].as_str(), "vdev-camera") {
            return true;
        }
        i = i + 1;
    }
    false
}

} // verus!
