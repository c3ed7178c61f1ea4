//! Error kinds shared by the block-device, filesystem and serial code.
use vstd::prelude::*;

verus! {

/// The kinds of I/O failure the library reports.
#[derive(Clone, Copy, Debug, PartialEq, Eq, Structural)]
pub enum ErrorKind {
    UnexpectedEof,
    InvalidData,
    InvalidInput,
    TimedOut,
    NotFound,
    NotConnected,
    ConnectionAborted,
    Interrupted,
    BrokenPipe,
    Other,
}

} // verus!
