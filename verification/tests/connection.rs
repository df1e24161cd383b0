use line_client::connection::{address_of, decimal, frame, line_or_eof, ConnError};

#[test]
fn empty_read_is_eof() {
    assert_eq!(line_or_eof(Ok(String::new())), Err(ConnError::Eof));
}

#[test]
fn any_read_line_is_returned_unchanged() {
    assert_eq!(line_or_eof(Ok("PING :a\r\n".to_string())), Ok("PING :a\r\n".to_string()));
    assert_eq!(line_or_eof(Ok("\n".to_string())), Ok("\n".to_string()));
    assert_eq!(line_or_eof(Ok("no terminator".to_string())), Ok("no terminator".to_string()));
}

#[test]
fn failed_read_is_passed_on() {
    assert_eq!(line_or_eof(Err(ConnError::Io)), Err(ConnError::Io));
    assert_eq!(line_or_eof(Err(ConnError::NotConnected)), Err(ConnError::NotConnected));
    assert_eq!(line_or_eof(Err(ConnError::Eof)), Err(ConnError::Eof));
}

#[test]
fn frame_appends_carriage_return_and_newline() {
    assert_eq!(frame("NICK :u"), "NICK :u\r\n");
    assert_eq!(frame(""), "\r\n");
    assert_eq!(frame("a\r\n"), "a\r\n\r\n");
}

#[test]
fn framed_line_is_never_eof() {
    assert_eq!(line_or_eof(Ok(frame(""))), Ok("\r\n".to_string()));
    assert_eq!(line_or_eof(Ok(frame("x"))), Ok("x\r\n".to_string()));
}

#[test]
fn decimal_has_no_leading_zeros() {
    assert_eq!(decimal(0), "0");
    assert_eq!(decimal(7), "7");
    assert_eq!(decimal(10), "10");
    assert_eq!(decimal(6667), "6667");
    assert_eq!(decimal(40960), "40960");
    assert_eq!(decimal(65535), "65535");
}

#[test]
fn decimal_agrees_with_the_standard_formatting() {
    for n in 0..=u16::MAX {
        assert_eq!(decimal(n), format!("{}", n));
    }
}

#[test]
fn address_is_host_colon_port() {
    assert_eq!(address_of("127.0.0.1", 6667), "127.0.0.1:6667");
    assert_eq!(address_of("localhost", 80), "localhost:80");
    assert_eq!(address_of("", 0), ":0");
}

#[test]
fn errors_are_told_apart() {
    assert_ne!(ConnError::Eof, ConnError::Io);
    assert_ne!(ConnError::Eof, ConnError::NotConnected);
    assert_ne!(ConnError::Io, ConnError::NotConnected);
}
