use vstd::prelude::*;

pub mod api;
pub mod json;
pub mod types;

verus! {

/// A failure of one API call. Mirrors the four ways a call can go wrong:
/// the network itself, a header value that cannot travel as an HTTP field
/// value, a request body that cannot be put on the wire, and a response
/// text that cannot be read back as the expected shape.
#[derive(Debug)]
pub enum ApiError {
    /// The network round trip itself failed.
    TransportError(String),
    /// A header value holds a character that an HTTP field value cannot carry.
    InvalidHeaderEncoding(String),
    /// The request body could not be converted to the wire format.
    SerializationError(String),
    /// The response text could not be parsed into the expected shape.
    DeserializationError(String),
}

impl ApiError {
    /// The human-readable message carried by the error.
    pub fn message(&self) -> (r: &String)
        ensures
            r@ == self.spec_message(),
    {
        match self {
            ApiError::TransportError(m) => m,
            ApiError::InvalidHeaderEncoding(m) => m,
            ApiError::SerializationError(m) => m,
            ApiError::DeserializationError(m) => m,
        }
    }

    pub open spec fn spec_message(&self) -> Seq<char> {
        match self {
            ApiError::TransportError(m) => m@,
            ApiError::InvalidHeaderEncoding(m) => m@,
            ApiError::SerializationError(m) => m@,
            ApiError::DeserializationError(m) => m@,
        }
    }
}

} // verus!
