//! The library's error type.

use vstd::prelude::*;

verus! {

#[verifier::external_type_specification]
#[verifier::external_body]
pub struct ExIoError(std::io::Error);

/// Core domain and system error type.
#[derive(Debug)]
pub enum AetherError {
    AudioEngine(String),
    Decoder(String),
    Storage(String),
    TrackNotFound(String),
    InvalidFormat(String),
    Io(std::io::Error),
    Plugin(String),
    Cancelled,
}

/// Results whose error is an [`AetherError`].
pub type Result<T> = std::result::Result<T, AetherError>;

} // verus!
