//! Typed SOAP client generation from WSDL service descriptions.
//!
//! A service description is read into a type model ([`wsdl`]) and the model
//! is lowered to source declarations ([`gen`]).

pub mod error;
pub mod gen;
pub mod http;
pub mod ordered;
pub mod string;
pub mod text;
pub mod wsdl;
pub mod xml;
