//! Errors of awaiting the join baseline.
use vstd::prelude::*;

verus! {

/// Errors that can occur while awaiting the join baseline.
#[derive(Debug)]
pub enum BaselineError {
    /// The transport failed while servicing the host.
    Io(std::io::Error),
    /// No baseline arrived before the timeout elapsed.
    Timeout,
    /// The baseline decoded but does not describe a valid simulation
    /// baseline.
    Invalid(&'static str),
}

impl From<std::io::Error> for BaselineError {
    fn from(e: std::io::Error) -> (r: Self) {
        BaselineError::Io(e)
    }
}

impl vstd::std_specs::convert::FromSpecImpl<std::io::Error> for BaselineError {
    open spec fn obeys_from_spec() -> bool {
        true
    }

    open spec fn from_spec(v: std::io::Error) -> Self {
        BaselineError::Io(v)
    }
}

} // verus!
