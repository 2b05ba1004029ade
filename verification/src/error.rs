use vstd::prelude::*;

verus! {

/// Why a request for an estimate was turned down.
#[derive(Clone, Copy, Debug, PartialEq, Eq, Structural)]
pub enum IntegrationError {
    /// A count of steps, subintervals, pairs or iterations was zero.
    InvalidArgument,
}

} // verus!
