use vstd::prelude::*;

verus! {

/// A second handle on the same connection, so that one side can read
/// while another writes.
pub trait ScuffedClone: Sized {
    fn scuffed_clone(&self) -> Self;
}

} // verus!
