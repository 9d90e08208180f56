//! Session decision tests: server dispatch, the put/get handshakes,
//! client-side validation and command matching, and path building.

use ftp_core::proto::{CommandId, FtpError, FtpStatusCode};
use ftp_core::session::{client_dispatch, client_ready_response, client_validate_get,
    client_validate_put, error_failed_to_create_file, error_file_does_not_exist,
    get_path_from_filename, join_path, response_is_okay, server_dispatch, server_get_response,
    server_put_response, split_command_line, str_eq_nocase, trim_nul_bytes, ClientStep,
    ServerStep};

#[test]
fn server_dispatch_maps_each_command() {
    assert_eq!(server_dispatch(CommandId::Put), ServerStep::EnterPut);
    assert_eq!(server_dispatch(CommandId::Get), ServerStep::EnterGet);
    assert_eq!(server_dispatch(CommandId::Exit), ServerStep::CloseSession);
}

#[test]
fn exit_scenario_closes_without_response() {
    // Receiving `exit` terminates the session; CloseSession carries
    // no response packet, so nothing is sent back before closing.
    let step = server_dispatch(CommandId::Exit);
    assert_eq!(step, ServerStep::CloseSession);
    assert!(!matches!(step, ServerStep::EnterPut | ServerStep::EnterGet));
}

#[test]
fn server_put_accepts_when_file_created() {
    let (res, enter) = server_put_response(true);
    assert!(enter);
    assert_eq!(res.status, FtpStatusCode::Okay);
    assert_eq!(res.message, Vec::<u8>::new());
}

#[test]
fn server_put_reports_creation_failure() {
    let (res, enter) = server_put_response(false);
    assert!(!enter);
    assert_eq!(res.status, FtpStatusCode::Error);
    assert_eq!(res.message, b"Failed to create file".to_vec());
}

#[test]
fn get_scenario_missing_file_reports_error() {
    // A get for a name the server's root does not hold: the server
    // answers with an error status and its reason, the client sees
    // the failure and creates no local file.
    let (res, enter) = server_get_response(false);
    assert!(!enter);
    assert_eq!(res.status, FtpStatusCode::Error);
    assert_eq!(res.message, b"This file does not exist".to_vec());
    assert!(!response_is_okay(&res));
}

#[test]
fn server_get_accepts_when_file_opens() {
    let (res, enter) = server_get_response(true);
    assert!(enter);
    assert_eq!(res.status, FtpStatusCode::Okay);
    assert!(response_is_okay(&res));
}

#[test]
fn error_messages_exact_text() {
    assert_eq!(error_failed_to_create_file(), b"Failed to create file".to_vec());
    assert_eq!(error_file_does_not_exist(), b"This file does not exist".to_vec());
}

#[test]
fn put_scenario_missing_local_file_fails_before_sending() {
    // `put nosuchfile`: local validation fails, so the operation ends
    // before any packet is built for either channel.
    assert_eq!(client_validate_put(1, false), Err(FtpError::FileNotFound));
}

#[test]
fn client_put_validation_arg_counts() {
    assert_eq!(client_validate_put(0, true), Err(FtpError::InvalidArguments));
    assert_eq!(client_validate_put(2, true), Err(FtpError::InvalidArguments));
    assert_eq!(client_validate_put(1, true), Ok(()));
}

#[test]
fn client_get_validation_arg_counts() {
    assert_eq!(client_validate_get(0), Err(FtpError::InvalidArguments));
    assert_eq!(client_validate_get(1), Ok(()));
    assert_eq!(client_validate_get(2), Ok(()));
    assert_eq!(client_validate_get(3), Err(FtpError::InvalidArguments));
}

#[test]
fn client_ready_response_reports_local_state() {
    let ok = client_ready_response(true);
    assert_eq!(ok.status, FtpStatusCode::Okay);
    assert_eq!(ok.message, Vec::<u8>::new());
    let fail = client_ready_response(false);
    assert_eq!(fail.status, FtpStatusCode::Error);
    assert_eq!(fail.message, b"Failed to create file".to_vec());
}

#[test]
fn client_dispatch_is_case_insensitive() {
    assert_eq!(client_dispatch("exit"), ClientStep::Exit);
    assert_eq!(client_dispatch("EXIT"), ClientStep::Exit);
    assert_eq!(client_dispatch("Get"), ClientStep::Get);
    assert_eq!(client_dispatch("pUt"), ClientStep::Put);
    assert_eq!(client_dispatch("ls"), ClientStep::Unknown);
    assert_eq!(client_dispatch(""), ClientStep::Unknown);
    assert_eq!(client_dispatch("putt"), ClientStep::Unknown);
}

#[test]
fn nocase_comparison() {
    assert!(str_eq_nocase("Hello", "hELLO"));
    assert!(!str_eq_nocase("Hello", "Hella"));
    assert!(!str_eq_nocase("Hello", "Hell"));
    assert!(str_eq_nocase("", ""));
}

#[test]
fn trim_strips_zero_padding_only_at_ends() {
    assert_eq!(trim_nul_bytes(&b"abc\0\0".to_vec()), b"abc".to_vec());
    assert_eq!(trim_nul_bytes(&b"\0abc".to_vec()), b"abc".to_vec());
    assert_eq!(trim_nul_bytes(&b"a\0c".to_vec()), b"a\0c".to_vec());
    assert_eq!(trim_nul_bytes(&b"\0\0".to_vec()), Vec::<u8>::new());
    assert_eq!(trim_nul_bytes(&Vec::new()), Vec::<u8>::new());
}

#[test]
fn paths_join_under_root() {
    assert_eq!(join_path(&b"files".to_vec(), &b"a.txt".to_vec()), b"files/a.txt".to_vec());
    assert_eq!(
        get_path_from_filename(&b"files".to_vec(), &b"a.txt\0\0\0".to_vec()),
        b"files/a.txt".to_vec()
    );
}

#[test]
fn split_line_at_first_space() {
    assert_eq!(
        split_command_line("put myphoto.jpg"),
        ("put".to_string(), "myphoto.jpg".to_string())
    );
    assert_eq!(
        split_command_line("get a.txt b.txt"),
        ("get".to_string(), "a.txt b.txt".to_string())
    );
    assert_eq!(split_command_line("exit"), ("exit".to_string(), "".to_string()));
    assert_eq!(split_command_line(""), ("".to_string(), "".to_string()));
    assert_eq!(split_command_line("put "), ("put".to_string(), "".to_string()));
}
