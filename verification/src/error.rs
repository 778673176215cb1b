//! The errors of the library.

use crate::gen::GenError;
use crate::wsdl::WsdlError;
use vstd::prelude::*;

verus! {

/// What can go wrong between a service description and a call.
#[derive(Debug)]
pub enum Error {
    /// The service description could not be read.
    Wsdl(WsdlError),
    /// The model could not be lowered to source.
    Gen(GenError),
    /// A text that is no valid value.
    StringError(String),
    /// A value that could not be read from its text.
    ParseError(String),
}

impl From<WsdlError> for Error {
    fn from(e: WsdlError) -> (r: Error) {
        Error::Wsdl(e)
    }
}

impl vstd::std_specs::convert::FromSpecImpl<WsdlError> for Error {
    open spec fn obeys_from_spec() -> bool {
        true
    }

    open spec fn from_spec(e: WsdlError) -> Error {
        Error::Wsdl(e)
    }
}

impl From<GenError> for Error {
    fn from(e: GenError) -> (r: Error) {
        Error::Gen(e)
    }
}

impl vstd::std_specs::convert::FromSpecImpl<GenError> for Error {
    open spec fn obeys_from_spec() -> bool {
        true
    }

    open spec fn from_spec(e: GenError) -> Error {
        Error::Gen(e)
    }
}

} // verus!
