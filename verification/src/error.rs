use vstd::prelude::*;

verus! {

/// Errors shared by the protocol, configuration and URDF code.
///
/// Errors that come from an outside library (the wire encoder, the socket)
/// carry that library's message.
#[derive(Debug, Clone, PartialEq, Eq)]
pub enum Error {
    /// A frame whose payload is longer than the codec accepts.
    FrameTooLarge { size: usize, max: usize },
    /// The payload could not be encoded.
    Encode(String),
    /// The payload could not be decoded.
    Decode(String),
    /// The connection failed.
    Io(String),
    /// The configuration or a reply did not have the expected form.
    Config(String),
    /// The robot description could not be read.
    Urdf(String),
}

} // verus!
