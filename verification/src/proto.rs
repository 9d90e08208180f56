//! Shared protocol definitions: commands, status codes, the error
//! taxonomy, and the fixed sizes of the wire format.

use vstd::prelude::*;

verus! {

/// Operation requested by the client, sent once per exchange on the
/// control channel.
#[derive(Clone, Copy, Debug, PartialEq, Eq, Structural)]
pub enum CommandId {
    Exit,
    Get,
    Put,
}

/// Outcome carried by status responses and chunk acknowledgements.
#[derive(Clone, Copy, Debug, PartialEq, Eq, Structural)]
pub enum FtpStatusCode {
    Okay,
    Error,
}

/// Failure taxonomy of the protocol core.
#[derive(Clone, Copy, Debug, PartialEq, Eq, Structural)]
pub enum FtpError {
    /// The peer disconnected while a control message was in flight.
    ChannelClosed,
    /// Sending or receiving at the transport level failed.
    TransportError,
    /// A buffer could not be decoded, or a field exceeds its fixed width.
    MalformedPacket,
    /// The retry budget for one chunk was exhausted.
    Abort,
    /// A local file that should be read does not exist.
    FileNotFound,
    /// A local file that should be written could not be created.
    FileCreateFailed,
    /// A command line carried the wrong number of arguments.
    InvalidArguments,
}

/// A long-running protocol endpoint: the client loop or the server
/// accept loop.
pub trait CoreT {
    fn run(&mut self) -> Result<(), FtpError>;
}

/// Number of payload bytes carried by one full chunk.
pub const FILE_BLOC_SIZE: usize = 1024;

/// Fixed width of the name field of a file-info packet.
pub const FILE_NAME_LEN: usize = 40;

/// Fixed width of the message field of a status response.
pub const RESPONSE_MESSAGE_LEN: usize = 150;

/// Delivery attempts made for one chunk before the transfer aborts.
pub const CHUNK_RETRY_LIMIT: usize = 6;

/// Seconds the sender waits for an acknowledgement after each attempt.
pub const ACK_TIMEOUT_SECS: u64 = 3;

} // verus!
