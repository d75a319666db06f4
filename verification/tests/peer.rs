use splitter_client::peer::{serve_result, PeerServerBuilder, ServeEnd, ServeError};

#[test]
fn serve_advertises_local_addr_by_default() {
    let builder = PeerServerBuilder::new("127.0.0.1:0");
    assert_eq!(*builder.bind(), "127.0.0.1:0");
    let endpoint = builder.endpoint("127.0.0.1:40123");
    assert!(endpoint.starts_with("http://127.0.0.1:"));
    assert_eq!(endpoint, "http://127.0.0.1:40123");
}

#[test]
fn explicit_advertise_override() {
    let endpoint = PeerServerBuilder::new("127.0.0.1:0")
        .advertise("splitter-rs.internal:50052")
        .endpoint("127.0.0.1:40123");
    assert_eq!(endpoint, "splitter-rs.internal:50052");
}

#[test]
fn only_failures_of_the_server_are_errors() {
    assert_eq!(serve_result(ServeEnd::Gone), Ok(()));
    assert_eq!(serve_result(ServeEnd::Stopped), Ok(()));
    assert_eq!(serve_result(ServeEnd::Cancelled), Ok(()));
    assert_eq!(
        serve_result(ServeEnd::Failed("x".to_string())),
        Err(ServeError::Transport("x".to_string()))
    );
    assert_eq!(
        serve_result(ServeEnd::Broken("y".to_string())),
        Err(ServeError::Join("y".to_string()))
    );
}

#[test]
fn serve_errors_read_as_text() {
    assert_eq!(ServeError::Transport("x".to_string()).to_string(), "tonic transport: x");
    assert_eq!(ServeError::Join("y".to_string()).to_string(), "server task: y");
}
