//! The faults of the protocol layer.

use vstd::prelude::*;

verus! {

/// Why an operation failed. Every variant but `StoreWrite` ends the connection
/// on which it occurs; a failed write is reported to the client instead.
#[derive(Debug, Clone, Copy, PartialEq, Eq, Structural)]
pub enum Fault {
    /// The bytes read are no frame: the delimiter is missing, or what stands
    /// before it cannot be un-stuffed; or a frame could not be built.
    Framing,
    /// The content of a frame is not the encoding of a message.
    Decode,
    /// The storage engine failed to read.
    StoreRead,
    /// The storage engine failed to write.
    StoreWrite,
    /// Reading from or writing to the connection failed.
    Io,
    /// An event arrived that the state of the connection does not expect.
    OutOfTurn,
}

impl Fault {
    /// A short description for logs.
    pub fn describe(&self) -> (text: &'static str)
        ensures
            text@ == self.description(),
    {
        match self {
            Fault::Framing => "malformed or truncated frame",
            Fault::Decode => "frame content is not a known message",
            Fault::StoreRead => "storage engine failed to read",
            Fault::StoreWrite => "storage engine failed to write",
            Fault::Io => "connection failed",
            Fault::OutOfTurn => "event out of turn",
        }
    }

    /// The text that [`Fault::describe`] returns.
    pub open spec fn description(&self) -> Seq<char> {
        match self {
            Fault::Framing => "malformed or truncated frame"@,
            Fault::Decode => "frame content is not a known message"@,
            Fault::StoreRead => "storage engine failed to read"@,
            Fault::StoreWrite => "storage engine failed to write"@,
            Fault::Io => "connection failed"@,
            Fault::OutOfTurn => "event out of turn"@,
        }
    }
}

} // verus!
