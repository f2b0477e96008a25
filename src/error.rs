//! The library's error value.
use vstd::prelude::*;

verus! {

/// An error with a message meant for the user.
pub struct Sx3dError {
    pub message: String,
}

impl Sx3dError {
    /// A copy of the message.
    pub fn get_error_message(&self) -> (r: String)
        ensures
            r@ == self.message@,
    {
        self.message.clone()
    }
}

} // verus!
