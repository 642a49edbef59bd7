use vstd::prelude::*;

verus! {

/// Why talking to the photo catalog, or storing what it sent, failed.
#[derive(Debug, Clone, PartialEq, Eq, Structural)]
pub enum Error {
    /// The access key is missing or cannot be sent in a header.
    InvalidApiKey,
    /// A response body could not be decoded.
    InvalidResponse,
    /// A request could not be sent or no response came back.
    Request,
    /// The catalog answered with a status outside the success range.
    Status(u16),
    /// Writing to or removing from the local folder failed.
    Storage,
}

pub type Result<T> = core::result::Result<T, Error>;

} // verus!
