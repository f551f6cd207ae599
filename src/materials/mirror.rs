use vstd::prelude::*;

verus! {

/// A perfect reflector: it sends every incoming ray back along its mirror
/// direction and does not tint it.
pub struct Mirror;

impl Mirror {
    pub fn new() -> (r: Mirror)
        ensures
            r == Mirror,
    {
        Mirror
    }
}

} // verus!
