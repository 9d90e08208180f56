//! Session decision logic for both endpoints.
//!
//! A session performs its I/O elsewhere; these functions take the
//! plain outcomes (a decoded command, whether a file could be opened,
//! the peer's response) and decide what is answered and whether a
//! transfer runs. The server loops `AwaitCommand -> dispatch ->
//! AwaitCommand`, leaving only on `Exit` — which is answered with no
//! packet at all — or a dead control channel. The client validates a
//! command line locally before anything is sent.

use vstd::prelude::*;
use vstd::string::StrSliceExecFns;

use crate::codec::strip_trailing_zeros;
use crate::packet::{ResponsePacket, ResponseView};
use crate::proto::{CommandId, FtpStatusCode, FtpError, RESPONSE_MESSAGE_LEN};

verus! {

/// The bytes of an ASCII text, one per character.
pub open spec fn ascii_bytes(s: Seq<char>) -> Seq<u8> {
    s.map_values(|c: char| c as u8)
}

/// Reason sent when a destination file could not be created.
pub open spec fn msg_failed_to_create_file() -> Seq<u8> {
    ascii_bytes("Failed to create file"@)
}

/// Reason sent when a requested file is not there.
pub open spec fn msg_file_does_not_exist() -> Seq<u8> {
    ascii_bytes("This file does not exist"@)
}

fn ascii_message(s: &str) -> (r: Vec<u8>)
    requires
        vstd::string::is_ascii(s),
    ensures
        r@ == ascii_bytes(s@),
{
    proof {
        broadcast use vstd::string::is_ascii_spec_bytes;

    }
    let r = s.as_bytes_vec();
    proof {
        assert(r@ =~= ascii_bytes(s@));
    }
    r
}

/// The reason text of [`msg_failed_to_create_file`] as bytes.
pub fn error_failed_to_create_file() -> (r: Vec<u8>)
    ensures
        r@ == msg_failed_to_create_file(),
        (ResponseView { status: FtpStatusCode::Error, message: r@ }).wf(),
{
    proof {
        reveal_strlit("Failed to create file");
        assert("Failed to create file"@.len() == 21);
    }
    let r = ascii_message("Failed to create file");
    proof {
        assert(r@.last() == ('e' as u8));
    }
    r
}

/// The reason text of [`msg_file_does_not_exist`] as bytes.
pub fn error_file_does_not_exist() -> (r: Vec<u8>)
    ensures
        r@ == msg_file_does_not_exist(),
        (ResponseView { status: FtpStatusCode::Error, message: r@ }).wf(),
{
    proof {
        reveal_strlit("This file does not exist");
        assert("This file does not exist"@.len() == 24);
    }
    let r = ascii_message("This file does not exist");
    proof {
        assert(r@.last() == ('t' as u8));
    }
    r
}

// ---------------------------------------------------------------------------
// Server side
// ---------------------------------------------------------------------------

/// What the server session does with one received command.
#[derive(Clone, Copy, Debug, PartialEq, Eq, Structural)]
pub enum ServerStep {
    /// Read a file-info packet and run the receive path.
    EnterPut,
    /// Read a file-info packet and run the send path.
    EnterGet,
    /// Terminate the session without sending any response packet.
    CloseSession,
}

/// Command dispatch of the server session loop.
pub open spec fn spec_server_dispatch(cmd: CommandId) -> ServerStep {
    match cmd {
        CommandId::Put => ServerStep::EnterPut,
        CommandId::Get => ServerStep::EnterGet,
        CommandId::Exit => ServerStep::CloseSession,
    }
}

/// Decides the session's next move for one received command. `Exit`
/// closes the session, and nothing is sent in reply to it.
pub fn server_dispatch(cmd: CommandId) -> (r: ServerStep)
    ensures
        r == spec_server_dispatch(cmd),
{
    match cmd {
        CommandId::Put => ServerStep::EnterPut,
        CommandId::Get => ServerStep::EnterGet,
        CommandId::Exit => ServerStep::CloseSession,
    }
}

/// The server's answer to a put request, after it tried to create
/// the destination file: success enters the receive path, failure
/// reports the reason and returns to awaiting commands.
pub fn server_put_response(create_ok: bool) -> (r: (ResponsePacket, bool))
    ensures
        r.1 == create_ok,
        create_ok ==> r.0@ == (ResponseView {
            status: FtpStatusCode::Okay,
            message: Seq::<u8>::empty(),
        }),
        !create_ok ==> r.0@ == (ResponseView {
            status: FtpStatusCode::Error,
            message: msg_failed_to_create_file(),
        }),
        r.0@.wf(),
{
    if create_ok {
        (ResponsePacket::okay(), true)
    } else {
        let message = error_failed_to_create_file();
        (ResponsePacket { status: FtpStatusCode::Error, message }, false)
    }
}

/// The server's answer to a get request, after it tried to open the
/// requested file: success awaits the client's readiness
/// confirmation, failure reports the reason and returns to awaiting
/// commands.
pub fn server_get_response(open_ok: bool) -> (r: (ResponsePacket, bool))
    ensures
        r.1 == open_ok,
        open_ok ==> r.0@ == (ResponseView {
            status: FtpStatusCode::Okay,
            message: Seq::<u8>::empty(),
        }),
        !open_ok ==> r.0@ == (ResponseView {
            status: FtpStatusCode::Error,
            message: msg_file_does_not_exist(),
        }),
        r.0@.wf(),
{
    if open_ok {
        (ResponsePacket::okay(), true)
    } else {
        let message = error_file_does_not_exist();
        (ResponsePacket { status: FtpStatusCode::Error, message }, false)
    }
}

/// Whether a received status response reports success. The second
/// handshake of a get proceeds to the send path exactly when the
/// client confirmed readiness with success.
pub fn response_is_okay(res: &ResponsePacket) -> (r: bool)
    ensures
        r <==> res@.status == FtpStatusCode::Okay,
{
    res.status == FtpStatusCode::Okay
}

// ---------------------------------------------------------------------------
// Paths
// ---------------------------------------------------------------------------

/// The sequence without its leading zero bytes.
pub open spec fn strip_leading_zeros(s: Seq<u8>) -> Seq<u8>
    decreases s.len(),
{
    if s.len() > 0 && s[0] == 0 {
        strip_leading_zeros(s.drop_first())
    } else {
        s
    }
}

/// The sequence without zero bytes at either end.
pub open spec fn trim_zeros(s: Seq<u8>) -> Seq<u8> {
    strip_leading_zeros(strip_trailing_zeros(s))
}

/// Removes the zero bytes at both ends of a fixed-width name field.
pub fn trim_nul_bytes(name: &Vec<u8>) -> (r: Vec<u8>)
    ensures
        r@ == trim_zeros(name@),
{
    let len: usize = name.len();
    proof {
        assert(name@.subrange(0, len as int) =~= name@);
    }
    let mut end: usize = len;
    while end > 0 && name[end - 1] == 0
        invariant
            end <= len,
            name@.len() == len,
            strip_trailing_zeros(name@) == strip_trailing_zeros(name@.subrange(0, end as int)),
        decreases end,
    {
        proof {
            assert(name@.subrange(0, end as int).drop_last() =~= name@.subrange(0, end - 1));
        }
        end = end - 1;
    }
    proof {
        assert(name@.subrange(0, len as int) =~= name@);
        assert(strip_trailing_zeros(name@) == name@.subrange(0, end as int));
    }
    let mut start: usize = 0;
    while start < end && name[start] == 0
        invariant
            start <= end <= len,
            name@.len() == len,
            strip_trailing_zeros(name@) == name@.subrange(0, end as int),
            strip_leading_zeros(name@.subrange(0, end as int)) == strip_leading_zeros(
                name@.subrange(start as int, end as int),
            ),
        decreases end - start,
    {
        proof {
            assert(name@.subrange(start as int, end as int).drop_first() =~= name@.subrange(
                start + 1,
                end as int,
            ));
        }
        start = start + 1;
    }
    let mut r: Vec<u8> = Vec::new();
    let mut i: usize = start;
    while i < end
        invariant
            start <= i <= end <= name@.len(),
            r@ == name@.subrange(start as int, i as int),
        decreases end - i,
    {
        r.push(name[i]);
        proof {
            assert(name@.subrange(start as int, i + 1) =~= name@.subrange(
                start as int,
                i as int,
            ).push(name@[i as int]));
        }
        i = i + 1;
    }
    proof {
        let stripped = name@.subrange(start as int, end as int);
        assert(strip_leading_zeros(stripped) == stripped);
        assert(r@ == trim_zeros(name@));
    }
    r
}

/// Joins a directory with an entry name, separated by one slash.
pub fn join_path(base: &Vec<u8>, name: &Vec<u8>) -> (r: Vec<u8>)
    ensures
        r@ == base@ + seq![('/' as u8)] + name@,
{
    let mut r: Vec<u8> = Vec::new();
    crate::codec::push_all(&mut r, base);
    r.push('/' as u8);
    crate::codec::push_all(&mut r, name);
    proof {
        assert(r@ =~= base@ + seq![('/' as u8)] + name@);
    }
    r
}

/// The local path a wire name maps to: the name, trimmed of its zero
/// padding, placed under the given root directory.
pub fn get_path_from_filename(root: &Vec<u8>, filename: &Vec<u8>) -> (r: Vec<u8>)
    ensures
        r@ == root@ + seq![('/' as u8)] + trim_zeros(filename@),
{
    let trimmed = trim_nul_bytes(filename);
    join_path(root, &trimmed)
}

// ---------------------------------------------------------------------------
// Client side
// ---------------------------------------------------------------------------

/// What the client loop does with one entered command word.
#[derive(Clone, Copy, Debug, PartialEq, Eq, Structural)]
pub enum ClientStep {
    /// Send `Exit` and leave the loop.
    Exit,
    /// Validate and run a get.
    Get,
    /// Validate and run a put.
    Put,
    /// Print a notice and prompt again; nothing is sent.
    Unknown,
}

/// Code of a character with an upper-case ASCII letter lowered.
pub open spec fn lower_code(c: char) -> int {
    if 'A' <= c && c <= 'Z' {
        c as int + 32
    } else {
        c as int
    }
}

/// Character sequences equal up to ASCII case.
pub open spec fn eq_ignore_ascii_case(a: Seq<char>, b: Seq<char>) -> bool {
    &&& a.len() == b.len()
    &&& forall|i: int| 0 <= i < a.len() ==> lower_code(#[trigger] a[i]) == lower_code(b[i])
}

fn lower_u32(c: char) -> (r: u32)
    ensures
        r == lower_code(c),
{
    let v: u32 = c as u32;
    if c >= 'A' && c <= 'Z' {
        v + 32
    } else {
        v
    }
}

/// Compares two texts ignoring ASCII case.
pub fn str_eq_nocase(a: &str, b: &str) -> (r: bool)
    ensures
        r == eq_ignore_ascii_case(a@, b@),
{
    let alen: usize = a.unicode_len();
    let blen: usize = b.unicode_len();
    if alen != blen {
        return false;
    }
    let mut i: usize = 0;
    while i < alen
        invariant
            alen == a@.len(),
            blen == b@.len(),
            alen == blen,
            i <= alen,
            forall|k: int| 0 <= k < i ==> lower_code(#[trigger] a@[k]) == lower_code(b@[k]),
        decreases alen - i,
    {
        let ca: char = a.get_char(i);
        let cb: char = b.get_char(i);
        if lower_u32(ca) != lower_u32(cb) {
            return false;
        }
        i = i + 1;
    }
    true
}

/// Dispatch of one entered command word, matched without regard to
/// ASCII case.
pub open spec fn spec_client_dispatch(cmd: Seq<char>) -> ClientStep {
    if eq_ignore_ascii_case(cmd, "exit"@) {
        ClientStep::Exit
    } else if eq_ignore_ascii_case(cmd, "get"@) {
        ClientStep::Get
    } else if eq_ignore_ascii_case(cmd, "put"@) {
        ClientStep::Put
    } else {
        ClientStep::Unknown
    }
}

/// Decides what the client loop does with one entered command word.
/// An unknown word leads to a new prompt; nothing reaches the server.
pub fn client_dispatch(cmd: &str) -> (r: ClientStep)
    ensures
        r == spec_client_dispatch(cmd@),
{
    if str_eq_nocase(cmd, "exit") {
        ClientStep::Exit
    } else if str_eq_nocase(cmd, "get") {
        ClientStep::Get
    } else if str_eq_nocase(cmd, "put") {
        ClientStep::Put
    } else {
        ClientStep::Unknown
    }
}

/// Position of the first space in a line, or its length when it has
/// none.
pub open spec fn spec_space_index(s: Seq<char>) -> int
    decreases s.len(),
{
    if s.len() == 0 {
        0
    } else if s[0] == ' ' {
        0
    } else {
        1 + spec_space_index(s.drop_first())
    }
}

/// The first-space position is in bounds, everything before it is no
/// space, and it lands on a space unless the line has none.
pub proof fn lemma_space_index(s: Seq<char>)
    ensures
        0 <= spec_space_index(s) <= s.len(),
        forall|k: int| 0 <= k < spec_space_index(s) ==> s[k] != ' ',
        spec_space_index(s) < s.len() ==> s[spec_space_index(s)] == ' ',
    decreases s.len(),
{
    if s.len() > 0 && s[0] != ' ' {
        lemma_space_index(s.drop_first());
        let t = s.drop_first();
        assert forall|k: int| 0 <= k < spec_space_index(s) implies s[k] != ' ' by {
            if k > 0 {
                assert(s[k] == t[k - 1]);
            }
        }
    }
}

/// Splits one entered line into the command word and the argument
/// rest: everything before the first space, and everything after it.
/// A line without a space is all command, with an empty rest.
pub fn split_command_line(line: &str) -> (r: (String, String))
    ensures
        r.0@ == line@.take(spec_space_index(line@)),
        r.1@ == if spec_space_index(line@) < line@.len() {
            line@.skip(spec_space_index(line@) + 1)
        } else {
            Seq::<char>::empty()
        },
{
    proof {
        lemma_space_index(line@);
    }
    let n: usize = line.unicode_len();
    let mut i: usize = 0;
    while i < n && line.get_char(i) != ' '
        invariant
            n == line@.len(),
            i <= n,
            forall|k: int| 0 <= k < i ==> line@[k] != ' ',
        decreases n - i,
    {
        i = i + 1;
    }
    proof {
        lemma_space_index(line@);
        assert(i == spec_space_index(line@)) by {
            let idx = spec_space_index(line@);
            if idx < i {
                assert(line@[idx] != ' ');
            }
            if i < idx {
                assert(line@[i as int] != ' ');
            }
        }
    }
    let cmd = line.substring_char(0, i).to_owned();
    let args = if i < n {
        line.substring_char(i + 1, n).to_owned()
    } else {
        String::new()
    };
    proof {
        assert(cmd@ =~= line@.take(spec_space_index(line@)));
        if i < n {
            assert(args@ =~= line@.skip(spec_space_index(line@) + 1));
        }
    }
    (cmd, args)
}

/// Local validation of a put: exactly one argument, naming an
/// existing regular file. On failure nothing is sent on any channel.
pub fn client_validate_put(num_args: usize, file_exists: bool) -> (r: Result<(), FtpError>)
    ensures
        r is Ok <==> (num_args == 1 && file_exists),
        num_args != 1 ==> r == Err::<(), FtpError>(FtpError::InvalidArguments),
        num_args == 1 && !file_exists ==> r == Err::<(), FtpError>(FtpError::FileNotFound),
{
    if num_args != 1 {
        Err(FtpError::InvalidArguments)
    } else if !file_exists {
        Err(FtpError::FileNotFound)
    } else {
        Ok(())
    }
}

/// Local validation of a get: one argument naming the remote file,
/// optionally a second with the local destination.
pub fn client_validate_get(num_args: usize) -> (r: Result<(), FtpError>)
    ensures
        r is Ok <==> (1 <= num_args && num_args <= 2),
        r is Err ==> r == Err::<(), FtpError>(FtpError::InvalidArguments),
{
    if num_args < 1 || num_args > 2 {
        Err(FtpError::InvalidArguments)
    } else {
        Ok(())
    }
}

/// The readiness confirmation the client sends after the server
/// accepted a put or get: success when its local file is ready, else
/// the failure report that ends the operation.
pub fn client_ready_response(local_ok: bool) -> (r: ResponsePacket)
    ensures
        local_ok ==> r@ == (ResponseView {
            status: FtpStatusCode::Okay,
            message: Seq::<u8>::empty(),
        }),
        !local_ok ==> r@ == (ResponseView {
            status: FtpStatusCode::Error,
            message: msg_failed_to_create_file(),
        }),
        r@.wf(),
{
    if local_ok {
        ResponsePacket::okay()
    } else {
        let message = error_failed_to_create_file();
        ResponsePacket { status: FtpStatusCode::Error, message }
    }
}

} // verus!
