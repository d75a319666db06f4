use splitter_client::error::{Code, MetadataEntry, Status};
use splitter_client::ClientError;

#[test]
fn not_owned_roundtrips_via_grpc() {
    let status = ClientError::NotOwned.into_grpc();
    assert_eq!(status.code(), Code::OutOfRange);
    assert!(matches!(
        ClientError::from_grpc(status),
        ClientError::NotOwned
    ));
}

#[test]
fn draining_roundtrips_via_grpc() {
    let status = ClientError::Draining.into_grpc();
    assert_eq!(status.code(), Code::Aborted);
    assert!(matches!(
        ClientError::from_grpc(status),
        ClientError::Draining
    ));
}

#[test]
fn unavailable_is_ownership_but_preserves_status() {
    let status = Status::new(Code::Unavailable, "peer down");
    let err = ClientError::from_grpc(status);
    assert!(err.is_ownership());
    assert!(matches!(err, ClientError::Transport(_)));
}

#[test]
fn other_codes_are_not_ownership() {
    let err = ClientError::from_grpc(Status::new(Code::Internal, "boom"));
    assert!(!err.is_ownership());
}

#[test]
fn each_error_has_its_status() {
    let cases = vec![
        (ClientError::NotOwned, Code::OutOfRange, "not owned"),
        (ClientError::Draining, Code::Aborted, "draining"),
        (ClientError::NoResolution, Code::Unavailable, "no resolution"),
        (ClientError::Revoked, Code::Aborted, "revoked"),
        (ClientError::Expired, Code::DeadlineExceeded, "expired"),
        (ClientError::SessionClosed("bye".to_string()), Code::Unavailable, "bye"),
        (ClientError::Cancelled, Code::Cancelled, "cancelled"),
        (ClientError::InvalidMessage("bad".to_string()), Code::InvalidArgument, "bad"),
        (ClientError::TransportSetup("uri".to_string()), Code::Unavailable, "uri"),
    ];
    for (err, code, message) in cases {
        let status = err.into_grpc();
        assert_eq!(status.code(), code);
        assert_eq!(status.message, message);
        assert!(status.details.is_empty());
        assert!(status.metadata.is_empty());
    }
}

#[test]
fn a_transport_status_passes_through_whole() {
    let status = Status {
        code: Code::NotFound,
        message: "gone".to_string(),
        details: vec![1, 2, 3],
        metadata: vec![MetadataEntry { name: "k".to_string(), value: vec![9] }],
    };
    let err = ClientError::from_grpc(status.clone());
    assert_eq!(err, ClientError::Transport(status.clone()));
    assert_eq!(err.into_grpc(), status);
}

#[test]
fn only_three_kinds_of_error_are_ownership_errors() {
    assert!(ClientError::NotOwned.is_ownership());
    assert!(ClientError::Draining.is_ownership());
    assert!(!ClientError::NoResolution.is_ownership());
    assert!(!ClientError::Revoked.is_ownership());
    assert!(!ClientError::Expired.is_ownership());
    assert!(!ClientError::SessionClosed(String::new()).is_ownership());
    assert!(!ClientError::TransportSetup(String::new()).is_ownership());
    assert!(!ClientError::Transport(Status::new(Code::Aborted, "x")).is_ownership());
}

#[test]
fn errors_read_as_text() {
    let cases = vec![
        (ClientError::NotOwned, "not owned"),
        (ClientError::Draining, "draining"),
        (ClientError::NoResolution, "no resolution"),
        (ClientError::Revoked, "grant revoked"),
        (ClientError::Expired, "grant expired"),
        (ClientError::SessionClosed("bye".to_string()), "session closed: bye"),
        (ClientError::Cancelled, "cancelled"),
        (ClientError::InvalidMessage("bad".to_string()), "invalid message: bad"),
        (ClientError::TransportSetup("uri".to_string()), "transport setup: uri"),
    ];
    for (err, text) in cases {
        assert_eq!(err.to_string(), text);
        assert_eq!(err.describe("unused"), text);
    }
    let err = ClientError::Transport(Status::new(Code::NotFound, "no \"x\""));
    assert_eq!(err.describe("shown"), "transport: shown");
    assert_eq!(
        err.to_string(),
        "transport: code: 'Some requested entity was not found', message: \"no \\\"x\\\"\""
    );
}

#[test]
fn codes_have_the_numbers_of_the_transport() {
    assert_eq!(Code::Success.to_i32(), 0);
    assert_eq!(Code::Aborted.to_i32(), tonic::Code::Aborted as i32);
    assert_eq!(Code::OutOfRange.to_i32(), tonic::Code::OutOfRange as i32);
    assert_eq!(Code::Unavailable.to_i32(), tonic::Code::Unavailable as i32);
    assert_eq!(Code::Unauthenticated.to_i32(), tonic::Code::Unauthenticated as i32);
}
