//! The error taxonomy of the event fabric.

use vstd::prelude::*;

verus! {

/// Everything that can go wrong across the event fabric.
///
/// Errors are plain tags: callers dispatch on the kind, never on a message.
#[derive(Clone, Copy, Debug, PartialEq, Eq, Structural)]
pub enum Error {
    /// The transport is shutting down; the dispatch loop has ended.
    ShuttingDown,
    /// An operation was attempted in a state that must not occur.
    IllegalState,
    /// A message arrived that this node must never receive.
    Unknown,
    /// An event or observer snapshot could not be encoded or decoded.
    Serialize,
    /// A compressed payload could not be inflated.
    Compression,
    /// A metadata entry was looked up under a key that holds none.
    KeyNotFound,
}

impl Error {
    /// The error raised when the dispatch loop ends.
    pub fn shutting_down() -> (r: Error)
        ensures
            r == Error::ShuttingDown,
    {
        Error::ShuttingDown
    }

    /// The error raised on an operation in a state that must not occur.
    pub fn illegal_state() -> (r: Error)
        ensures
            r == Error::IllegalState,
    {
        Error::IllegalState
    }

    /// The error raised on a message that must never arrive here.
    pub fn unknown() -> (r: Error)
        ensures
            r == Error::Unknown,
    {
        Error::Unknown
    }

    /// The error raised when encoding or decoding fails.
    pub fn serialize() -> (r: Error)
        ensures
            r == Error::Serialize,
    {
        Error::Serialize
    }

    /// The error raised when inflating a compressed payload fails.
    pub fn compression() -> (r: Error)
        ensures
            r == Error::Compression,
    {
        Error::Compression
    }

    /// The error raised on a lookup under a key that holds no entry.
    pub fn key_not_found() -> (r: Error)
        ensures
            r == Error::KeyNotFound,
    {
        Error::KeyNotFound
    }
}

} // verus!
