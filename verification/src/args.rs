//! Arguments handed through to Cargo.
use vstd::prelude::*;

verus! {

/// Arguments for Cargo that have no option of their own; there are none yet.
#[derive(Debug)]
pub struct CargoArguments {}

impl CargoArguments {
    /// The arguments, as Cargo receives them: none.
    pub fn to_arguments(&self) -> (r: Vec<String>)
        ensures
            r@.len() == 0,
    {
        Vec::new()
    }
}

} // verus!
