//! Tests of the response framer: status resolution, multi-line bodies,
//! dot-stuffing and the failure statuses.

use gnudb::error::GnuDbError;
use gnudb::{is_terminator_line, parse_raw_response, status_expects_body};

#[test]
fn parser_test_parse_response_multiline_dotstuff() -> Result<(), GnuDbError> {
    let raw = "211 multiple matches\n..hello\nworld\n.\n";
    let data = parse_raw_response(raw)?;
    assert_eq!(data, ".hello\nworld\n");
    Ok(())
}

#[test]
fn parser_test_parse_response_single_line() -> Result<(), GnuDbError> {
    let raw = "200 OK\n";
    let data = parse_raw_response(raw)?;
    assert_eq!(data, "200 OK\n");
    Ok(())
}

#[test]
fn parser_test_parse_response_error() {
    let raw = "500 fail\n";
    let err = parse_raw_response(raw).unwrap_err();
    match err {
        GnuDbError::ProtocolError(_) => {}
        GnuDbError::ConnectionError(_) => panic!("unexpected error type"),
    }
}

#[test]
fn test_parse_response_4xx_error() {
    let raw = "401 Permission denied\n";
    let err = parse_raw_response(raw).unwrap_err();
    match err {
        GnuDbError::ProtocolError(msg) => assert!(msg.contains("401")),
        GnuDbError::ConnectionError(_) => panic!("unexpected error type"),
    }
}

#[test]
fn test_parse_response_3xx_error() {
    // 3xx with second digit not 0/1/2 should error
    let raw = "330 connection closing\n";
    let err = parse_raw_response(raw).unwrap_err();
    match err {
        GnuDbError::ProtocolError(_) => {}
        GnuDbError::ConnectionError(_) => panic!("unexpected error type"),
    }
}

#[test]
fn test_parse_response_no_newline() -> Result<(), GnuDbError> {
    let raw = "200 OK";
    let data = parse_raw_response(raw)?;
    assert_eq!(data, "200 OK");
    Ok(())
}

#[test]
fn test_dotstuff_multiple_dots() -> Result<(), GnuDbError> {
    let raw = "210 data\n...\n...test\n.\n";
    let data = parse_raw_response(raw)?;
    assert_eq!(data, "..\n..test\n");
    Ok(())
}

#[test]
fn test_empty_response_body() -> Result<(), GnuDbError> {
    let raw = "210 data\n.\n";
    let data = parse_raw_response(raw)?;
    assert_eq!(data, "");
    Ok(())
}

// The same framing behaviour exercised once more through the crate-root
// re-exports, the surface that callers of the whole library see.

#[test]
fn lib_test_parse_response_multiline_dotstuff() -> Result<(), GnuDbError> {
    let raw = "211 multiple matches\n..hello\nworld\n.\n";
    let data = parse_raw_response(raw)?;
    assert_eq!(data, ".hello\nworld\n");
    Ok(())
}

#[test]
fn lib_test_parse_response_single_line() -> Result<(), GnuDbError> {
    let raw = "200 OK\n";
    let data = parse_raw_response(raw)?;
    assert_eq!(data, "200 OK\n");
    Ok(())
}

#[test]
fn lib_test_parse_response_error() {
    let raw = "500 fail\n";
    let err = parse_raw_response(raw).unwrap_err();
    match err {
        GnuDbError::ProtocolError(_) => {}
        _ => panic!("unexpected error type"),
    }
}

// Line-by-line reading decisions.

#[test]
fn test_status_expects_body() {
    assert_eq!(status_expects_body("210 data").unwrap(), true);
    assert_eq!(status_expects_body("320 more input").unwrap(), true);
    assert_eq!(status_expects_body("200 OK").unwrap(), false);
    assert_eq!(status_expects_body("230 closing").unwrap(), false);
    assert!(status_expects_body("2").is_err());
    assert!(status_expects_body("").is_err());
}

#[test]
fn test_terminator_line() {
    assert!(is_terminator_line("."));
    assert!(is_terminator_line(".\n"));
    assert!(is_terminator_line(".\r\n"));
    assert!(!is_terminator_line("..\n"));
    assert!(!is_terminator_line(". \n"));
    assert!(!is_terminator_line(""));
}

#[test]
fn test_carriage_return_stripped_in_body() -> Result<(), GnuDbError> {
    let raw = "210 data\r\nline one\r\nline two\r\n.\r\n";
    let data = parse_raw_response(raw)?;
    assert_eq!(data, "line one\nline two\n");
    Ok(())
}

#[test]
fn test_single_char_status_is_protocol_error() {
    let err = parse_raw_response("2").unwrap_err();
    match err {
        GnuDbError::ProtocolError(msg) => assert_eq!(msg, "failed to parse response code"),
        GnuDbError::ConnectionError(_) => panic!("unexpected error type"),
    }
}
