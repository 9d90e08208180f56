//! Fixed-size binary wire codec.
//!
//! Every packet type encodes to a buffer of a fixed length: no
//! separator, no length prefix. Fixed-width byte fields are
//! zero-padded on encode and stripped of trailing zero bytes on
//! decode. Decoding a buffer of the wrong length, or one whose
//! discriminants or counters are out of range, yields
//! [`FtpError::MalformedPacket`].

use vstd::bytes::{lemma_auto_spec_u64_to_from_le_bytes, spec_u64_from_le_bytes,
    spec_u64_to_le_bytes, u64_from_le_bytes, u64_to_le_bytes};
use vstd::prelude::*;
use vstd::slice::{slice_subrange, slice_to_vec};

use crate::packet::{CommandPacket, FileInfoPacket, FileInfoView, FilePacket, FilePacketView,
    ResponseFilePacket, ResponsePacket, ResponseView, UdpConfigPacket};
use crate::proto::{CommandId, FtpError, FtpStatusCode, FILE_BLOC_SIZE, FILE_NAME_LEN,
    RESPONSE_MESSAGE_LEN};

verus! {

/// Encoded length of a [`CommandPacket`].
pub const COMMAND_PACKET_LEN: usize = 1;

/// Encoded length of a [`UdpConfigPacket`].
pub const UDP_CONFIG_PACKET_LEN: usize = 8;

/// Encoded length of a [`FileInfoPacket`].
pub const FILE_INFO_PACKET_LEN: usize = 8 + FILE_NAME_LEN;

/// Encoded length of a [`ResponsePacket`].
pub const RESPONSE_PACKET_LEN: usize = 1 + RESPONSE_MESSAGE_LEN;

/// Encoded length of a [`FilePacket`].
pub const FILE_PACKET_LEN: usize = 8 + 1 + 8 + FILE_BLOC_SIZE;

/// Encoded length of a [`ResponseFilePacket`].
pub const RESPONSE_FILE_PACKET_LEN: usize = 1 + 8;

/// A run of zero bytes, used as padding for fixed-width fields.
pub open spec fn zeros(n: int) -> Seq<u8> {
    Seq::new(n as nat, |i| 0u8)
}

/// The sequence without its trailing zero bytes.
pub open spec fn strip_trailing_zeros(s: Seq<u8>) -> Seq<u8>
    decreases s.len(),
{
    if s.len() > 0 && s.last() == 0 {
        strip_trailing_zeros(s.drop_last())
    } else {
        s
    }
}

/// Stripping the padding recovers exactly the bytes that were padded,
/// provided they did not themselves end in a zero byte.
pub proof fn lemma_strip_pad(s: Seq<u8>, n: int)
    requires
        s.len() <= n,
        s.len() > 0 ==> s.last() != 0,
    ensures
        strip_trailing_zeros(s + zeros(n - s.len())) == s,
    decreases n - s.len(),
{
    let k: int = n - s.len();
    if k == 0 {
        assert(s + zeros(0) =~= s);
    } else {
        let t = s + zeros(k);
        assert(t.last() == 0);
        assert(t.drop_last() =~= s + zeros(k - 1));
        lemma_strip_pad(s, n - 1);
    }
}

/// A stripped sequence has no trailing zero byte.
pub proof fn lemma_strip_wf(s: Seq<u8>)
    ensures
        strip_trailing_zeros(s).len() <= s.len(),
        strip_trailing_zeros(s).len() > 0 ==> strip_trailing_zeros(s).last() != 0,
    decreases s.len(),
{
    if s.len() > 0 && s.last() == 0 {
        lemma_strip_wf(s.drop_last());
    }
}

/// Wire discriminant of a command.
pub open spec fn spec_command_byte(c: CommandId) -> u8 {
    match c {
        CommandId::Exit => 0,
        CommandId::Get => 1,
        CommandId::Put => 2,
    }
}

/// Wire discriminant of a status code.
pub open spec fn spec_status_byte(s: FtpStatusCode) -> u8 {
    match s {
        FtpStatusCode::Okay => 0,
        FtpStatusCode::Error => 1,
    }
}

/// Wire encoding of a flag.
pub open spec fn spec_bool_byte(b: bool) -> u8 {
    if b {
        1
    } else {
        0
    }
}

fn command_byte(c: CommandId) -> (r: u8)
    ensures
        r == spec_command_byte(c),
{
    match c {
        CommandId::Exit => 0,
        CommandId::Get => 1,
        CommandId::Put => 2,
    }
}

fn status_byte(s: FtpStatusCode) -> (r: u8)
    ensures
        r == spec_status_byte(s),
{
    match s {
        FtpStatusCode::Okay => 0,
        FtpStatusCode::Error => 1,
    }
}

/// Appends the whole of `src` to `out`.
pub fn push_all(out: &mut Vec<u8>, src: &Vec<u8>)
    ensures
        final(out)@ == old(out)@ + src@,
{
    let mut i: usize = 0;
    while i < src.len()
        invariant
            i <= src.len(),
            out@ == old(out)@ + src@.take(i as int),
        decreases src.len() - i,
    {
        out.push(src[i]);
        proof {
            assert(old(out)@ + src@.take(i + 1) =~= (old(out)@ + src@.take(i as int)).push(
                src@[i as int],
            ));
        }
        i = i + 1;
    }
    proof {
        assert(src@.take(src@.len() as int) =~= src@);
    }
}

/// Appends zero bytes until `out` holds `upto` bytes.
pub fn pad_zeros(out: &mut Vec<u8>, upto: usize)
    requires
        old(out)@.len() <= upto,
    ensures
        final(out)@ == old(out)@ + zeros(upto - old(out)@.len()),
{
    while out.len() < upto
        invariant
            out@.len() <= upto,
            out@ == old(out)@ + zeros(out@.len() - old(out)@.len()),
        decreases upto - out@.len(),
    {
        out.push(0);
        proof {
            assert(old(out)@ + zeros(out@.len() - old(out)@.len()) =~= (old(out)@ + zeros(
                out@.len() - 1 - old(out)@.len(),
            )).push(0u8));
        }
    }
    proof {
        assert(out@ =~= old(out)@ + zeros(upto - old(out)@.len()));
    }
}

// ---------------------------------------------------------------------------
// CommandPacket
// ---------------------------------------------------------------------------

/// Wire image of a command packet.
pub open spec fn spec_encode_command(p: CommandPacket) -> Seq<u8> {
    seq![spec_command_byte(p.cmd)]
}

/// Meaning of a buffer read as a command packet.
pub open spec fn spec_decode_command(s: Seq<u8>) -> Result<CommandPacket, FtpError> {
    if s.len() != COMMAND_PACKET_LEN {
        Err(FtpError::MalformedPacket)
    } else if s[0] == 0 {
        Ok(CommandPacket { cmd: CommandId::Exit })
    } else if s[0] == 1 {
        Ok(CommandPacket { cmd: CommandId::Get })
    } else if s[0] == 2 {
        Ok(CommandPacket { cmd: CommandId::Put })
    } else {
        Err(FtpError::MalformedPacket)
    }
}

pub fn encode_command(p: &CommandPacket) -> (r: Vec<u8>)
    ensures
        r@ == spec_encode_command(*p),
        r@.len() == COMMAND_PACKET_LEN,
{
    let mut out: Vec<u8> = Vec::new();
    out.push(command_byte(p.cmd));
    proof {
        assert(out@ =~= spec_encode_command(*p));
    }
    out
}

pub fn decode_command(bytes: &[u8]) -> (r: Result<CommandPacket, FtpError>)
    ensures
        r == spec_decode_command(bytes@),
{
    if bytes.len() != COMMAND_PACKET_LEN {
        return Err(FtpError::MalformedPacket);
    }
    let b: u8 = bytes[0];
    if b == 0 {
        Ok(CommandPacket { cmd: CommandId::Exit })
    } else if b == 1 {
        Ok(CommandPacket { cmd: CommandId::Get })
    } else if b == 2 {
        Ok(CommandPacket { cmd: CommandId::Put })
    } else {
        Err(FtpError::MalformedPacket)
    }
}

/// Every command packet decodes back to itself.
pub proof fn lemma_command_round_trip(p: CommandPacket)
    ensures
        spec_decode_command(spec_encode_command(p)) == Ok::<CommandPacket, FtpError>(p),
{
}

// ---------------------------------------------------------------------------
// UdpConfigPacket
// ---------------------------------------------------------------------------

/// Wire image of a data-channel configuration packet.
pub open spec fn spec_encode_udp_config(p: UdpConfigPacket) -> Seq<u8> {
    spec_u64_to_le_bytes(p.packet_size as u64)
}

/// Meaning of a buffer read as a data-channel configuration packet.
pub open spec fn spec_decode_udp_config(s: Seq<u8>) -> Result<UdpConfigPacket, FtpError> {
    if s.len() != UDP_CONFIG_PACKET_LEN {
        Err(FtpError::MalformedPacket)
    } else if spec_u64_from_le_bytes(s) > usize::MAX as u64 {
        Err(FtpError::MalformedPacket)
    } else {
        Ok(UdpConfigPacket { packet_size: spec_u64_from_le_bytes(s) as usize })
    }
}

pub fn encode_udp_config(p: &UdpConfigPacket) -> (r: Vec<u8>)
    ensures
        r@ == spec_encode_udp_config(*p),
        r@.len() == UDP_CONFIG_PACKET_LEN,
{
    let r = u64_to_le_bytes(p.packet_size as u64);
    proof {
        lemma_auto_spec_u64_to_from_le_bytes();
    }
    r
}

pub fn decode_udp_config(bytes: &[u8]) -> (r: Result<UdpConfigPacket, FtpError>)
    ensures
        r == spec_decode_udp_config(bytes@),
{
    if bytes.len() != UDP_CONFIG_PACKET_LEN {
        return Err(FtpError::MalformedPacket);
    }
    let v: u64 = u64_from_le_bytes(bytes);
    if v > usize::MAX as u64 {
        return Err(FtpError::MalformedPacket);
    }
    Ok(UdpConfigPacket { packet_size: v as usize })
}

/// Every configuration packet decodes back to itself.
pub proof fn lemma_udp_config_round_trip(p: UdpConfigPacket)
    ensures
        spec_decode_udp_config(spec_encode_udp_config(p)) == Ok::<UdpConfigPacket, FtpError>(p),
{
    lemma_auto_spec_u64_to_from_le_bytes();
}

// ---------------------------------------------------------------------------
// FileInfoPacket
// ---------------------------------------------------------------------------

/// Wire image of a file-info packet: the size, then the name
/// zero-padded to its fixed width.
pub open spec fn spec_encode_file_info(v: FileInfoView) -> Seq<u8> {
    spec_u64_to_le_bytes(v.size) + v.name + zeros(FILE_NAME_LEN - v.name.len())
}

/// Meaning of a buffer read as a file-info packet.
pub open spec fn spec_decode_file_info(s: Seq<u8>) -> Result<FileInfoView, FtpError> {
    if s.len() != FILE_INFO_PACKET_LEN {
        Err(FtpError::MalformedPacket)
    } else {
        Ok(FileInfoView {
            size: spec_u64_from_le_bytes(s.subrange(0, 8)),
            name: strip_trailing_zeros(s.subrange(8, FILE_INFO_PACKET_LEN as int)),
        })
    }
}

pub fn encode_file_info(p: &FileInfoPacket) -> (r: Result<Vec<u8>, FtpError>)
    ensures
        r is Ok <==> p@.wf(),
        r matches Ok(b) ==> b@ == spec_encode_file_info(p@) && b@.len() == FILE_INFO_PACKET_LEN,
        r matches Err(e) ==> e == FtpError::MalformedPacket,
{
    if p.name.len() > FILE_NAME_LEN {
        return Err(FtpError::MalformedPacket);
    }
    if p.name.len() > 0 && p.name[p.name.len() - 1] == 0 {
        return Err(FtpError::MalformedPacket);
    }
    let mut out = u64_to_le_bytes(p.size);
    push_all(&mut out, &p.name);
    pad_zeros(&mut out, FILE_INFO_PACKET_LEN);
    proof {
        assert(out@ =~= spec_encode_file_info(p@));
    }
    Ok(out)
}

pub fn decode_file_info(bytes: &[u8]) -> (r: Result<FileInfoPacket, FtpError>)
    ensures
        r is Ok <==> spec_decode_file_info(bytes@) is Ok,
        r matches Ok(p) ==> Ok::<FileInfoView, FtpError>(p@) == spec_decode_file_info(bytes@)
            && p@.wf(),
        r matches Err(e) ==> Err::<FileInfoView, FtpError>(e) == spec_decode_file_info(bytes@),
{
    if bytes.len() != FILE_INFO_PACKET_LEN {
        return Err(FtpError::MalformedPacket);
    }
    let size: u64 = u64_from_le_bytes(slice_subrange(bytes, 0, 8));
    let name = strip_field(bytes, 8, FILE_INFO_PACKET_LEN);
    proof {
        lemma_strip_wf(bytes@.subrange(8, FILE_INFO_PACKET_LEN as int));
    }
    Ok(FileInfoPacket { size, name })
}

/// Every well-formed file-info packet decodes back to itself.
pub proof fn lemma_file_info_round_trip(v: FileInfoView)
    requires
        v.wf(),
    ensures
        spec_decode_file_info(spec_encode_file_info(v)) == Ok::<FileInfoView, FtpError>(v),
{
    lemma_auto_spec_u64_to_from_le_bytes();
    let e = spec_encode_file_info(v);
    assert(e.subrange(0, 8) =~= spec_u64_to_le_bytes(v.size));
    assert(e.subrange(8, FILE_INFO_PACKET_LEN as int) =~= v.name + zeros(
        FILE_NAME_LEN - v.name.len(),
    ));
    lemma_strip_pad(v.name, FILE_NAME_LEN as int);
}

/// Extracts `bytes[from..to]` with its trailing zero bytes removed.
fn strip_field(bytes: &[u8], from: usize, to: usize) -> (r: Vec<u8>)
    requires
        from <= to <= bytes@.len(),
    ensures
        r@ == strip_trailing_zeros(bytes@.subrange(from as int, to as int)),
{
    let mut end: usize = to;
    while end > from && bytes[end - 1] == 0
        invariant
            from <= end <= to <= bytes@.len(),
            strip_trailing_zeros(bytes@.subrange(from as int, to as int))
                == strip_trailing_zeros(bytes@.subrange(from as int, end as int)),
        decreases end,
    {
        proof {
            assert(bytes@.subrange(from as int, end as int).drop_last() =~= bytes@.subrange(
                from as int,
                end - 1,
            ));
        }
        end = end - 1;
    }
    let r = slice_to_vec(slice_subrange(bytes, from, end));
    proof {
        assert(strip_trailing_zeros(bytes@.subrange(from as int, end as int)) == bytes@.subrange(
            from as int,
            end as int,
        ));
    }
    r
}

// ---------------------------------------------------------------------------
// ResponsePacket
// ---------------------------------------------------------------------------

/// Wire image of a status response: the status byte, then the message
/// zero-padded to its fixed width.
pub open spec fn spec_encode_response(v: ResponseView) -> Seq<u8> {
    seq![spec_status_byte(v.status)] + v.message + zeros(RESPONSE_MESSAGE_LEN - v.message.len())
}

/// Meaning of a buffer read as a status response.
pub open spec fn spec_decode_response(s: Seq<u8>) -> Result<ResponseView, FtpError> {
    if s.len() != RESPONSE_PACKET_LEN {
        Err(FtpError::MalformedPacket)
    } else if s[0] == 0 || s[0] == 1 {
        Ok(ResponseView {
            status: if s[0] == 0 {
                FtpStatusCode::Okay
            } else {
                FtpStatusCode::Error
            },
            message: strip_trailing_zeros(s.subrange(1, RESPONSE_PACKET_LEN as int)),
        })
    } else {
        Err(FtpError::MalformedPacket)
    }
}

pub fn encode_response(p: &ResponsePacket) -> (r: Result<Vec<u8>, FtpError>)
    ensures
        r is Ok <==> p@.wf(),
        r matches Ok(b) ==> b@ == spec_encode_response(p@) && b@.len() == RESPONSE_PACKET_LEN,
        r matches Err(e) ==> e == FtpError::MalformedPacket,
{
    if p.message.len() > RESPONSE_MESSAGE_LEN {
        return Err(FtpError::MalformedPacket);
    }
    if p.message.len() > 0 && p.message[p.message.len() - 1] == 0 {
        return Err(FtpError::MalformedPacket);
    }
    let mut out: Vec<u8> = Vec::new();
    out.push(status_byte(p.status));
    push_all(&mut out, &p.message);
    pad_zeros(&mut out, RESPONSE_PACKET_LEN);
    proof {
        assert(out@ =~= spec_encode_response(p@));
    }
    Ok(out)
}

pub fn decode_response(bytes: &[u8]) -> (r: Result<ResponsePacket, FtpError>)
    ensures
        r is Ok <==> spec_decode_response(bytes@) is Ok,
        r matches Ok(p) ==> Ok::<ResponseView, FtpError>(p@) == spec_decode_response(bytes@)
            && p@.wf(),
        r matches Err(e) ==> Err::<ResponseView, FtpError>(e) == spec_decode_response(bytes@),
{
    if bytes.len() != RESPONSE_PACKET_LEN {
        return Err(FtpError::MalformedPacket);
    }
    let b: u8 = bytes[0];
    if b > 1 {
        return Err(FtpError::MalformedPacket);
    }
    let status = if b == 0 {
        FtpStatusCode::Okay
    } else {
        FtpStatusCode::Error
    };
    let message = strip_field(bytes, 1, RESPONSE_PACKET_LEN);
    proof {
        lemma_strip_wf(bytes@.subrange(1, RESPONSE_PACKET_LEN as int));
    }
    Ok(ResponsePacket { status, message })
}

/// Every well-formed status response decodes back to itself.
pub proof fn lemma_response_round_trip(v: ResponseView)
    requires
        v.wf(),
    ensures
        spec_decode_response(spec_encode_response(v)) == Ok::<ResponseView, FtpError>(v),
{
    let e = spec_encode_response(v);
    assert(e[0] == spec_status_byte(v.status));
    assert(e.subrange(1, RESPONSE_PACKET_LEN as int) =~= v.message + zeros(
        RESPONSE_MESSAGE_LEN - v.message.len(),
    ));
    lemma_strip_pad(v.message, RESPONSE_MESSAGE_LEN as int);
}

// ---------------------------------------------------------------------------
// FilePacket
// ---------------------------------------------------------------------------

/// Wire image of a chunk: index, last flag, payload length, then the
/// whole fixed-width data buffer.
pub open spec fn spec_encode_file_packet(v: FilePacketView) -> Seq<u8> {
    spec_u64_to_le_bytes(v.index) + seq![spec_bool_byte(v.is_last)] + spec_u64_to_le_bytes(
        v.data_size as u64,
    ) + v.data
}

/// Meaning of a buffer read as a chunk.
pub open spec fn spec_decode_file_packet(s: Seq<u8>) -> Result<FilePacketView, FtpError> {
    if s.len() != FILE_PACKET_LEN {
        Err(FtpError::MalformedPacket)
    } else if s[8] > 1 {
        Err(FtpError::MalformedPacket)
    } else if spec_u64_from_le_bytes(s.subrange(9, 17)) > FILE_BLOC_SIZE as u64 {
        Err(FtpError::MalformedPacket)
    } else {
        Ok(FilePacketView {
            index: spec_u64_from_le_bytes(s.subrange(0, 8)),
            is_last: s[8] == 1,
            data_size: spec_u64_from_le_bytes(s.subrange(9, 17)) as usize,
            data: s.subrange(17, FILE_PACKET_LEN as int),
        })
    }
}

pub fn encode_file_packet(p: &FilePacket) -> (r: Result<Vec<u8>, FtpError>)
    ensures
        r is Ok <==> p@.wf(),
        r matches Ok(b) ==> b@ == spec_encode_file_packet(p@) && b@.len() == FILE_PACKET_LEN,
        r matches Err(e) ==> e == FtpError::MalformedPacket,
{
    if p.data.len() != FILE_BLOC_SIZE || p.data_size > FILE_BLOC_SIZE {
        return Err(FtpError::MalformedPacket);
    }
    let mut out = u64_to_le_bytes(p.index);
    out.push(if p.is_last {
        1
    } else {
        0
    });
    let size_bytes = u64_to_le_bytes(p.data_size as u64);
    push_all(&mut out, &size_bytes);
    push_all(&mut out, &p.data);
    proof {
        assert(out@ =~= spec_encode_file_packet(p@));
    }
    Ok(out)
}

pub fn decode_file_packet(bytes: &[u8]) -> (r: Result<FilePacket, FtpError>)
    ensures
        r is Ok <==> spec_decode_file_packet(bytes@) is Ok,
        r matches Ok(p) ==> Ok::<FilePacketView, FtpError>(p@) == spec_decode_file_packet(bytes@)
            && p@.wf(),
        r matches Err(e) ==> Err::<FilePacketView, FtpError>(e) == spec_decode_file_packet(bytes@),
{
    if bytes.len() != FILE_PACKET_LEN {
        return Err(FtpError::MalformedPacket);
    }
    let flag: u8 = bytes[8];
    if flag > 1 {
        return Err(FtpError::MalformedPacket);
    }
    let size_field: u64 = u64_from_le_bytes(slice_subrange(bytes, 9, 17));
    if size_field > FILE_BLOC_SIZE as u64 {
        return Err(FtpError::MalformedPacket);
    }
    let index: u64 = u64_from_le_bytes(slice_subrange(bytes, 0, 8));
    let data = slice_to_vec(slice_subrange(bytes, 17, FILE_PACKET_LEN));
    Ok(FilePacket { index, is_last: flag == 1, data_size: size_field as usize, data })
}

/// Every well-formed chunk decodes back to itself.
pub proof fn lemma_file_packet_round_trip(v: FilePacketView)
    requires
        v.wf(),
    ensures
        spec_decode_file_packet(spec_encode_file_packet(v)) == Ok::<FilePacketView, FtpError>(v),
{
    lemma_auto_spec_u64_to_from_le_bytes();
    let e = spec_encode_file_packet(v);
    assert(e.subrange(0, 8) =~= spec_u64_to_le_bytes(v.index));
    assert(e[8] == spec_bool_byte(v.is_last));
    assert(e.subrange(9, 17) =~= spec_u64_to_le_bytes(v.data_size as u64));
    assert(e.subrange(17, FILE_PACKET_LEN as int) =~= v.data);
}

// ---------------------------------------------------------------------------
// ResponseFilePacket
// ---------------------------------------------------------------------------

/// Wire image of a chunk acknowledgement.
pub open spec fn spec_encode_response_file(p: ResponseFilePacket) -> Seq<u8> {
    seq![spec_status_byte(p.status)] + spec_u64_to_le_bytes(p.index)
}

/// Meaning of a buffer read as a chunk acknowledgement.
pub open spec fn spec_decode_response_file(s: Seq<u8>) -> Result<ResponseFilePacket, FtpError> {
    if s.len() != RESPONSE_FILE_PACKET_LEN {
        Err(FtpError::MalformedPacket)
    } else if s[0] > 1 {
        Err(FtpError::MalformedPacket)
    } else {
        Ok(ResponseFilePacket {
            status: if s[0] == 0 {
                FtpStatusCode::Okay
            } else {
                FtpStatusCode::Error
            },
            index: spec_u64_from_le_bytes(s.subrange(1, RESPONSE_FILE_PACKET_LEN as int)),
        })
    }
}

pub fn encode_response_file(p: &ResponseFilePacket) -> (r: Vec<u8>)
    ensures
        r@ == spec_encode_response_file(*p),
        r@.len() == RESPONSE_FILE_PACKET_LEN,
{
    let mut out: Vec<u8> = Vec::new();
    out.push(status_byte(p.status));
    let index_bytes = u64_to_le_bytes(p.index);
    push_all(&mut out, &index_bytes);
    proof {
        assert(out@ =~= spec_encode_response_file(*p));
    }
    out
}

pub fn decode_response_file(bytes: &[u8]) -> (r: Result<ResponseFilePacket, FtpError>)
    ensures
        r == spec_decode_response_file(bytes@),
{
    if bytes.len() != RESPONSE_FILE_PACKET_LEN {
        return Err(FtpError::MalformedPacket);
    }
    let b: u8 = bytes[0];
    if b > 1 {
        return Err(FtpError::MalformedPacket);
    }
    let status = if b == 0 {
        FtpStatusCode::Okay
    } else {
        FtpStatusCode::Error
    };
    let index: u64 = u64_from_le_bytes(slice_subrange(bytes, 1, RESPONSE_FILE_PACKET_LEN));
    Ok(ResponseFilePacket { status, index })
}

/// Every chunk acknowledgement decodes back to itself.
pub proof fn lemma_response_file_round_trip(p: ResponseFilePacket)
    ensures
        spec_decode_response_file(spec_encode_response_file(p)) == Ok::<
            ResponseFilePacket,
            FtpError,
        >(p),
{
    lemma_auto_spec_u64_to_from_le_bytes();
    let e = spec_encode_response_file(p);
    assert(e.subrange(1, RESPONSE_FILE_PACKET_LEN as int) =~= spec_u64_to_le_bytes(p.index));
}

} // verus!
