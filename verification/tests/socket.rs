use nu_plugin_herdr_navigate_directory::error::ErrorKind;
use nu_plugin_herdr_navigate_directory::herdr::socket::{
    oversized_response,
    read_bounded, socket_owned_by_current_user, socket_path_text, validate_socket_path, would_block, SocketErrorKind, SocketFacts,
    MAX_RESPONSE_BYTES, READ_TIMEOUT_SECS,
};

#[test]
fn current_user_ownership_is_required() {
    assert!(socket_owned_by_current_user(501, 501));
    assert!(!socket_owned_by_current_user(501u32.wrapping_add(1), 501));
}

#[test]
fn rejects_relative_missing_and_regular_file_paths() {
    let relative = validate_socket_path("herdr.sock", None, 501).unwrap_err();
    assert_eq!(relative.kind(), ErrorKind::HerdrTransport);
    assert!(relative.message().contains("absolute"));

    let missing = validate_socket_path("/tmp/nu-plugin-herdr-navigate-directory-missing.sock", None, 501).unwrap_err();
    assert_eq!(missing.kind(), ErrorKind::HerdrTransport);

    let regular = validate_socket_path("/tmp/not-a-socket", Some(SocketFacts { is_socket: false, owner_uid: 501 }), 501).unwrap_err();
    assert_eq!(regular.kind(), ErrorKind::HerdrTransport);
    assert!(regular.message().contains("not a Unix socket"));

    let foreign = validate_socket_path("/tmp/h.sock", Some(SocketFacts { is_socket: true, owner_uid: 0 }), 501).unwrap_err();
    assert_eq!(foreign.message(), "Herdr socket is not owned by the current user");
}

#[test]
fn accepts_an_absolute_user_owned_unix_socket() {
    let accepted = validate_socket_path(" /tmp/herdr.sock ", Some(SocketFacts { is_socket: true, owner_uid: 501 }), 501).unwrap();
    assert_eq!(accepted, "/tmp/herdr.sock");
    assert_eq!(socket_path_text("/tmp/x.sock").as_deref(), Some("/tmp/x.sock"));
    assert_eq!(socket_path_text("  "), None);
}

#[test]
fn bounded_reads_keep_the_limit_and_report_overflow() {
    let (kept, exceeded) = read_bounded(vec![1, 2, 3, 4], 3);
    assert_eq!(kept, vec![1, 2, 3]);
    assert!(exceeded);
    let (kept, exceeded) = read_bounded(vec![1, 2, 3], 3);
    assert_eq!(kept, vec![1, 2, 3]);
    assert!(!exceeded);
    assert_eq!(MAX_RESPONSE_BYTES, 4 * 1024 * 1024);
    assert_eq!(READ_TIMEOUT_SECS, 2);
}

#[test]
fn only_would_block_and_interrupted_are_retried() {
    assert!(would_block(SocketErrorKind::WouldBlock));
    assert!(would_block(SocketErrorKind::Interrupted));
    assert!(!would_block(SocketErrorKind::Other));
}

#[test]
fn oversized_output_is_a_protocol_error() {
    let (_, exceeded) = read_bounded(vec![0u8; MAX_RESPONSE_BYTES + 8], MAX_RESPONSE_BYTES);
    assert!(exceeded);
    let error = oversized_response();
    assert_eq!(error.kind(), ErrorKind::HerdrProtocol);
    assert_eq!(error.message(), "Herdr response exceeded the 4 MiB limit");
}
