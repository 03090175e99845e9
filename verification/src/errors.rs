//! Errors of the sink subsystem.

use vstd::prelude::*;

verus! {

/// The error cases of the sink subsystem.
#[derive(Clone, Copy, PartialEq, Eq, Structural, Debug)]
pub enum Error {
    /// A codec was requested under a name the registry does not know.
    UnknownCodec,
    /// A postprocessor was requested under a name the registry does not know.
    UnknownPostprocessor,
    /// A concrete sink implementation failed to deliver an event.
    SinkDelivery,
}

impl Error {
    /// A short description of the error.
    pub fn message(&self) -> (r: &'static str)
        ensures
            r@ == match self {
                Error::UnknownCodec => "unknown codec"@,
                Error::UnknownPostprocessor => "unknown postprocessor"@,
                Error::SinkDelivery => "sink delivery failed"@,
            },
    {
        match self {
            Error::UnknownCodec => "unknown codec",
            Error::UnknownPostprocessor => "unknown postprocessor",
            Error::SinkDelivery => "sink delivery failed",
        }
    }
}

} // verus!
