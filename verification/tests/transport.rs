use std::path::{Path, PathBuf};

use sam::transport::{
    frame_length, is_disconnect, length_prefix, peer_gone, FramedConnection, IoFailure, LocalEndpoint, TransportError,
    DEFAULT_MAX_FRAME_SIZE,
};

#[test]
fn new_and_as_str_round_trip() {
    let endpoint = LocalEndpoint::new("some-endpoint");
    assert_eq!(endpoint.as_str(), "some-endpoint");
}

#[test]
fn new_accepts_owned_string_and_str_slice() {
    let from_str = LocalEndpoint::new("endpoint");
    let from_string = LocalEndpoint::new(String::from("endpoint"));
    assert_eq!(from_str, from_string);
}

#[test]
fn default_matches_sam_default() {
    assert_eq!(LocalEndpoint::default(), LocalEndpoint::sam_default());
}

#[test]
fn unix_default_is_a_socket_path() {
    assert_eq!(LocalEndpoint::sam_default().as_str(), "/tmp/sam.sock");
}

#[test]
fn as_path_and_parent_reflect_the_underlying_path() {
    let endpoint = LocalEndpoint::new("/tmp/sam.sock");
    assert_eq!(endpoint.as_path(), Path::new("/tmp/sam.sock"));
    assert_eq!(endpoint.parent(), Some(PathBuf::from("/tmp")));
}

#[test]
fn parent_is_none_for_a_relative_path_with_no_directory() {
    let endpoint = LocalEndpoint::new("sam.sock");
    assert_eq!(endpoint.parent(), Some(PathBuf::new()));
}

#[test]
fn empty_endpoint_has_no_parent() {
    let endpoint = LocalEndpoint::new("");
    assert_eq!(endpoint.parent(), None);
    for root in ["/", "//", "/.", "/./", "/./."] {
        assert_eq!(LocalEndpoint::new(root).parent(), None, "{root:?}");
    }
    assert_eq!(LocalEndpoint::new(".").parent(), Some(PathBuf::new()));
    assert_eq!(LocalEndpoint::new("/..").parent(), Some(PathBuf::from("/")));
    assert_eq!(LocalEndpoint::new("/tmp/").parent(), Some(PathBuf::from("/")));
}

#[test]
fn io_error_converts_via_from_and_formats_its_source() {
    let io_error = std::io::Error::new(std::io::ErrorKind::BrokenPipe, "pipe closed");
    let transport_error: TransportError = io_error.into();
    assert!(matches!(transport_error, TransportError::Io(_)));
    assert_eq!(transport_error.to_string(), "transport I/O failed: pipe closed");
}

#[test]
fn postcard_error_converts_via_from() {
    let postcard_error = postcard::from_bytes::<u32>(&[]).unwrap_err();
    let transport_error: TransportError = postcard_error.into();
    assert!(matches!(transport_error, TransportError::Serialization(_)));
}

#[test]
fn frame_too_large_formats_both_sizes() {
    let error = TransportError::FrameTooLarge {
        actual: 100,
        maximum: 64,
    };
    assert_eq!(error.to_string(), "frame size 100 exceeds configured maximum 64");
}

#[test]
fn connect_timeout_has_a_fixed_message() {
    assert_eq!(
        TransportError::ConnectTimeout.to_string(),
        "connection attempt timed out"
    );
}

fn io_error(kind: std::io::ErrorKind) -> TransportError {
    TransportError::from(std::io::Error::new(kind, "test"))
}

#[test]
fn unexpected_eof_connection_reset_and_broken_pipe_are_disconnects() {
    assert!(is_disconnect(&io_error(std::io::ErrorKind::UnexpectedEof)));
    assert!(is_disconnect(&io_error(std::io::ErrorKind::ConnectionReset)));
    assert!(is_disconnect(&io_error(std::io::ErrorKind::BrokenPipe)));
}

#[test]
fn other_io_errors_are_not_disconnects() {
    assert!(!is_disconnect(&io_error(std::io::ErrorKind::PermissionDenied)));
    assert!(!is_disconnect(&io_error(std::io::ErrorKind::InvalidData)));
}

#[test]
fn non_io_errors_are_not_disconnects() {
    assert!(!is_disconnect(&TransportError::ConnectTimeout));
    assert!(!is_disconnect(&TransportError::FrameTooLarge {
        actual: 100,
        maximum: 10,
    }));
}

#[test]
fn length_prefix_is_big_endian_and_reads_back() {
    assert_eq!(length_prefix(0x0102_0304, usize::MAX).unwrap(), [1, 2, 3, 4]);
    assert_eq!(length_prefix(5, DEFAULT_MAX_FRAME_SIZE).unwrap(), [0, 0, 0, 5]);
    let prefix = length_prefix(65_536, DEFAULT_MAX_FRAME_SIZE).unwrap();
    assert_eq!(prefix, [0, 1, 0, 0]);
    assert_eq!(frame_length(prefix, DEFAULT_MAX_FRAME_SIZE).unwrap(), 65_536);
}

#[test]
fn send_side_rejects_a_payload_larger_than_max_frame_size() {
    let error = length_prefix(17, 4).unwrap_err();
    assert!(matches!(
        error,
        TransportError::FrameTooLarge { actual: 17, maximum: 4 }
    ));
}

#[test]
fn receive_side_rejects_a_length_prefix_larger_than_max_frame_size() {
    let error = frame_length(1_000_000_u32.to_be_bytes(), 4).unwrap_err();
    assert!(matches!(
        error,
        TransportError::FrameTooLarge {
            actual: 1_000_000,
            maximum: 4
        }
    ));
}

#[test]
fn framed_connection_keeps_stream_and_limit() {
    let connection = FramedConnection::new(vec![1_u8, 2]);
    assert_eq!(connection.max_frame_size(), DEFAULT_MAX_FRAME_SIZE);
    assert_eq!(connection.into_inner(), vec![1_u8, 2]);

    let connection = FramedConnection::with_max_frame_size("stream", 4);
    assert_eq!(connection.into_parts(), ("stream", 4));
}

#[test]
fn only_end_of_stream_reset_and_broken_pipe_mean_the_peer_is_gone() {
    assert!(peer_gone("UnexpectedEof"));
    assert!(peer_gone("ConnectionReset"));
    assert!(peer_gone("BrokenPipe"));
    assert!(!peer_gone("Other"));
    assert!(!peer_gone("PermissionDenied"));
    let failure = IoFailure::new(std::io::Error::new(std::io::ErrorKind::ConnectionReset, "reset"));
    assert_eq!(failure.kind(), "ConnectionReset");
    assert_eq!(failure.error().to_string(), "reset");
    let other = IoFailure::new(std::io::Error::new(std::io::ErrorKind::InvalidData, "bad"));
    assert_eq!(other.kind(), "InvalidData");
}
