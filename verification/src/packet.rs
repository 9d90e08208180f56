//! The packet structures exchanged on the two channels, with their
//! mathematical views and well-formedness invariants.
//!
//! Control channel: [`CommandPacket`], [`FileInfoPacket`],
//! [`ResponsePacket`], [`UdpConfigPacket`]. Data channel:
//! [`FilePacket`], [`ResponseFilePacket`].

use vstd::prelude::*;

use crate::proto::{CommandId, FtpError, FtpStatusCode, FILE_BLOC_SIZE, FILE_NAME_LEN,
    RESPONSE_MESSAGE_LEN};

verus! {

/// One command, sent by the client on the control channel.
#[derive(Clone, Copy, Debug, PartialEq, Eq, Structural)]
pub struct CommandPacket {
    pub cmd: CommandId,
}

impl CommandPacket {
    pub fn new(cmd: CommandId) -> (r: Self)
        ensures
            r.cmd == cmd,
    {
        Self { cmd }
    }
}

/// Requested size of data-channel packets.
#[derive(Clone, Copy, Debug, PartialEq, Eq, Structural)]
pub struct UdpConfigPacket {
    pub packet_size: usize,
}

/// Identifies the file subject to a put or get: its size in bytes and
/// its name, bounded by [`FILE_NAME_LEN`] bytes on the wire.
#[derive(Clone, Debug)]
pub struct FileInfoPacket {
    pub size: u64,
    pub name: Vec<u8>,
}

/// Mathematical view of a [`FileInfoPacket`].
pub ghost struct FileInfoView {
    pub size: u64,
    pub name: Seq<u8>,
}

impl FileInfoView {
    /// The name fits its fixed-width field and carries no trailing
    /// zero byte, so that zero-padding on the wire is unambiguous.
    pub open spec fn wf(self) -> bool {
        &&& self.name.len() <= FILE_NAME_LEN
        &&& self.name.len() > 0 ==> self.name.last() != 0
    }
}

impl View for FileInfoPacket {
    type V = FileInfoView;

    open spec fn view(&self) -> FileInfoView {
        FileInfoView { size: self.size, name: self.name@ }
    }
}

impl PartialEq for FileInfoPacket {
    fn eq(&self, other: &Self) -> (r: bool) {
        let same_name: bool = self.name == other.name;
        proof {
            if same_name {
                assert(self.name@ =~= other.name@);
            }
        }
        self.size == other.size && same_name
    }
}

impl vstd::std_specs::cmp::PartialEqSpecImpl for FileInfoPacket {
    open spec fn obeys_eq_spec() -> bool {
        true
    }

    open spec fn eq_spec(&self, other: &Self) -> bool {
        self@ == other@
    }
}

impl FileInfoPacket {
    /// Accepts the name only when it respects the wire invariant;
    /// an over-long or zero-terminated name is a malformed packet.
    pub fn new(size: u64, name: Vec<u8>) -> (r: Result<Self, FtpError>)
        ensures
            r is Ok <==> (FileInfoView { size, name: name@ }).wf(),
            r matches Ok(p) ==> p@ == (FileInfoView { size, name: name@ }),
            r matches Err(e) ==> e == FtpError::MalformedPacket,
    {
        if name.len() > FILE_NAME_LEN {
            return Err(FtpError::MalformedPacket);
        }
        if name.len() > 0 && name[name.len() - 1] == 0 {
            return Err(FtpError::MalformedPacket);
        }
        Ok(Self { size, name })
    }
}

/// Acknowledges or rejects the preceding control message; an error
/// carries a human-readable reason bounded by
/// [`RESPONSE_MESSAGE_LEN`] bytes.
#[derive(Clone, Debug)]
pub struct ResponsePacket {
    pub status: FtpStatusCode,
    pub message: Vec<u8>,
}

/// Mathematical view of a [`ResponsePacket`].
pub ghost struct ResponseView {
    pub status: FtpStatusCode,
    pub message: Seq<u8>,
}

impl ResponseView {
    /// The message fits its fixed-width field and carries no trailing
    /// zero byte, so that zero-padding on the wire is unambiguous.
    pub open spec fn wf(self) -> bool {
        &&& self.message.len() <= RESPONSE_MESSAGE_LEN
        &&& self.message.len() > 0 ==> self.message.last() != 0
    }
}

impl View for ResponsePacket {
    type V = ResponseView;

    open spec fn view(&self) -> ResponseView {
        ResponseView { status: self.status, message: self.message@ }
    }
}

impl PartialEq for ResponsePacket {
    fn eq(&self, other: &Self) -> (r: bool) {
        let same_message: bool = self.message == other.message;
        proof {
            if same_message {
                assert(self.message@ =~= other.message@);
            }
        }
        self.status == other.status && same_message
    }
}

impl vstd::std_specs::cmp::PartialEqSpecImpl for ResponsePacket {
    open spec fn obeys_eq_spec() -> bool {
        true
    }

    open spec fn eq_spec(&self, other: &Self) -> bool {
        self@ == other@
    }
}

impl ResponsePacket {
    /// A success response; it carries an empty message.
    pub fn okay() -> (r: Self)
        ensures
            r@ == (ResponseView { status: FtpStatusCode::Okay, message: Seq::<u8>::empty() }),
            r@.wf(),
    {
        let r = Self { status: FtpStatusCode::Okay, message: Vec::new() };
        proof {
            assert(r@.message =~= Seq::<u8>::empty());
        }
        r
    }

    /// An error response with the given reason; a reason that breaks
    /// the wire invariant is itself a malformed packet.
    pub fn error(message: Vec<u8>) -> (r: Result<Self, FtpError>)
        ensures
            r is Ok <==> (ResponseView { status: FtpStatusCode::Error, message: message@ }).wf(),
            r matches Ok(p) ==> p@ == (ResponseView {
                status: FtpStatusCode::Error,
                message: message@,
            }),
            r matches Err(e) ==> e == FtpError::MalformedPacket,
    {
        if message.len() > RESPONSE_MESSAGE_LEN {
            return Err(FtpError::MalformedPacket);
        }
        if message.len() > 0 && message[message.len() - 1] == 0 {
            return Err(FtpError::MalformedPacket);
        }
        Ok(Self { status: FtpStatusCode::Error, message })
    }
}

/// One slice of file content sent on the data channel: a fixed
/// [`FILE_BLOC_SIZE`]-byte buffer of which the first `data_size`
/// bytes are payload.
#[derive(Clone, Debug)]
pub struct FilePacket {
    pub index: u64,
    pub is_last: bool,
    pub data_size: usize,
    pub data: Vec<u8>,
}

/// Mathematical view of a [`FilePacket`].
pub ghost struct FilePacketView {
    pub index: u64,
    pub is_last: bool,
    pub data_size: usize,
    pub data: Seq<u8>,
}

impl FilePacketView {
    /// The buffer has exactly its fixed width and the payload length
    /// does not exceed it.
    pub open spec fn wf(self) -> bool {
        &&& self.data.len() == FILE_BLOC_SIZE
        &&& self.data_size <= FILE_BLOC_SIZE
    }

    /// The payload bytes this chunk carries.
    pub open spec fn payload(self) -> Seq<u8> {
        self.data.take(self.data_size as int)
    }
}

impl PartialEq for FilePacket {
    fn eq(&self, other: &Self) -> (r: bool) {
        let same_data: bool = self.data == other.data;
        proof {
            if same_data {
                assert(self.data@ =~= other.data@);
            }
        }
        self.index == other.index && self.is_last == other.is_last && self.data_size
            == other.data_size && same_data
    }
}

impl vstd::std_specs::cmp::PartialEqSpecImpl for FilePacket {
    open spec fn obeys_eq_spec() -> bool {
        true
    }

    open spec fn eq_spec(&self, other: &Self) -> bool {
        self@ == other@
    }
}

impl View for FilePacket {
    type V = FilePacketView;

    open spec fn view(&self) -> FilePacketView {
        FilePacketView {
            index: self.index,
            is_last: self.is_last,
            data_size: self.data_size,
            data: self.data@,
        }
    }
}

/// Acknowledges one chunk on the data channel, correlated by index.
#[derive(Clone, Copy, Debug, PartialEq, Eq, Structural)]
pub struct ResponseFilePacket {
    pub status: FtpStatusCode,
    pub index: u64,
}

} // verus!
