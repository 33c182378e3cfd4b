//! The library's error type.
use vstd::prelude::*;

use crate::fields::DecodeError;

verus! {

/// What can go wrong in the codec and around it.
#[derive(Debug)]
pub enum AgUiError {
    /// The connection to the agent failed.
    ConnectionError(String),
    /// The byte stream failed or ended in an unexpected way.
    StreamError(String),
    /// A data line does not hold an event.
    JsonError(DecodeError),
    /// The agent refused the request.
    AgentError(String),
    /// Reading or writing failed.
    IoError(String),
    /// The event cannot be written as JSON.
    EncodingError(String),
    /// The host runtime reported an error.
    WasmBindgenError(String),
}

/// The result type of the library.
pub type Result<T> = core::result::Result<T, AgUiError>;

} // verus!
