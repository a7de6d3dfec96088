//! A capability for items that carry a numeric identity.

use vstd::prelude::*;

verus! {

/// Something that knows and can change its own id.
pub trait Identifier: Sized {
    /// The current id.
    fn get_id(&self) -> u64;

    /// Replace the id.
    fn set_id(&mut self, id: u64);
}

} // verus!
