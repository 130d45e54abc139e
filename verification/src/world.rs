//! The scene: an ordered list of objects.

use vstd::prelude::*;

verus! {

/// The objects of a scene, of any one kind `O`.
///
/// The renderer reads the list in order and meets the objects only through
/// the two functions handed to it, so a new kind of object needs no change
/// in the traversal. The order matters only where two objects are equally
/// near: the earlier one wins.
#[derive(Debug, Clone)]
pub struct World<O> {
    pub objects: Vec<O>,
}

} // verus!
