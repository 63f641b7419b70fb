use hyper_client_sockets::tokio::TokioBackend;
use hyper_client_sockets::utils::firecracker::{format_request, parse_connection_response, TunnelError};
use hyper_client_sockets::utils::vsock::{
    async_io_connection_step, check_connection_status, raw_connect_step, tokio_connection_step, try_poll_write,
    ConnectProgress, FailureKind, IoFailure, RawConnectAction, RawConnectEvent, SocketStatus,
};

#[test]
fn format_request_writes_connect_line() {
    assert_eq!(format_request(1000), "CONNECT 1000\n");
    assert_eq!(format_request(0), "CONNECT 0\n");
    assert_eq!(format_request(u32::MAX), "CONNECT 4294967295\n");
}

#[test]
fn response_starting_with_ok_hands_back_stream() {
    let response: Result<Option<String>, ()> = Ok(Some("OK 1073741824".to_string()));
    assert_eq!(parse_connection_response(7u8, response), Ok(7u8));
    let bare: Result<Option<String>, ()> = Ok(Some("OK".to_string()));
    assert_eq!(parse_connection_response("stream", bare), Ok("stream"));
}

#[test]
fn other_response_is_refusal() {
    let response: Result<Option<String>, ()> = Ok(Some("FAILURE".to_string()));
    assert_eq!(parse_connection_response(7u8, response), Err(TunnelError::Refused));
    let short: Result<Option<String>, ()> = Ok(Some("O".to_string()));
    assert_eq!(parse_connection_response(7u8, short), Err(TunnelError::Refused));
    let lower: Result<Option<String>, ()> = Ok(Some("ok".to_string()));
    assert_eq!(parse_connection_response(7u8, lower), Err(TunnelError::Refused));
    assert_eq!(
        TunnelError::Refused.message(),
        "Firecracker refused to establish a tunnel to the given guest port"
    );
}

#[test]
fn missing_or_failed_response_is_no_response() {
    let missing: Result<Option<String>, ()> = Ok(None);
    assert_eq!(parse_connection_response(7u8, missing), Err(TunnelError::NoResponse));
    let failed: Result<Option<String>, &str> = Err("read failed");
    assert_eq!(parse_connection_response(7u8, failed), Err(TunnelError::NoResponse));
    assert_eq!(TunnelError::NoResponse.message(), "Could not read Firecracker response");
}

fn failure(kind: FailureKind) -> IoFailure<u32> {
    IoFailure { kind, error: 42 }
}

#[test]
fn write_retries_only_transient_failures() {
    assert!(try_poll_write(Err(failure(FailureKind::Interrupted))).is_none());
    assert!(try_poll_write(Err(failure(FailureKind::WouldBlock))).is_none());
    match try_poll_write(Err(failure(FailureKind::Other))) {
        Some(Err(f)) => {
            assert_eq!(f.kind, FailureKind::Other);
            assert_eq!(f.error, 42);
        }
        _ => panic!("a final failure must be ready"),
    }
    match try_poll_write::<u32>(Ok(5)) {
        Some(Ok(n)) => assert_eq!(n, 5),
        _ => panic!("a success must be ready"),
    }
}

#[test]
fn connection_steps() {
    assert_eq!(async_io_connection_step::<u32>(Ok(())), ConnectProgress::Connected);
    assert_eq!(async_io_connection_step(Err(failure(FailureKind::WouldBlock))), ConnectProgress::Retry);
    assert_eq!(async_io_connection_step(Err(failure(FailureKind::Interrupted))), ConnectProgress::Retry);
    assert_eq!(async_io_connection_step(Err(failure(FailureKind::Other))), ConnectProgress::Failed(42));
    assert_eq!(tokio_connection_step::<u32>(None), ConnectProgress::Retry);
    assert_eq!(tokio_connection_step::<u32>(Some(Ok(()))), ConnectProgress::Connected);
    assert_eq!(tokio_connection_step(Some(Err(3u32))), ConnectProgress::Failed(3));
}

#[test]
fn socket_error_status() {
    assert_eq!(check_connection_status(-1, 0), SocketStatus::CheckFailed);
    assert_eq!(check_connection_status(0, 111), SocketStatus::Error(111));
    assert_eq!(check_connection_status(0, 0), SocketStatus::Connected);
}

#[test]
fn raw_connect_steps() {
    let in_progress = 115;
    assert_eq!(raw_connect_step(RawConnectEvent::SocketOpened(-1), in_progress), RawConnectAction::Fail);
    assert_eq!(raw_connect_step(RawConnectEvent::SocketOpened(3), in_progress), RawConnectAction::SetFlags(3));
    assert_eq!(
        raw_connect_step(RawConnectEvent::FlagsSet { socket: 3, result: -1 }, in_progress),
        RawConnectAction::CloseAndFail(3)
    );
    assert_eq!(
        raw_connect_step(RawConnectEvent::FlagsSet { socket: 3, result: 0 }, in_progress),
        RawConnectAction::Connect(3)
    );
    assert_eq!(
        raw_connect_step(RawConnectEvent::ConnectCalled { socket: 3, result: 0, os_error: 0 }, in_progress),
        RawConnectAction::Done(3)
    );
    assert_eq!(
        raw_connect_step(RawConnectEvent::ConnectCalled { socket: 3, result: -1, os_error: 115 }, in_progress),
        RawConnectAction::Done(3)
    );
    assert_eq!(
        raw_connect_step(RawConnectEvent::ConnectCalled { socket: 3, result: -1, os_error: 111 }, in_progress),
        RawConnectAction::CloseAndFail(3)
    );
}

#[test]
fn tokio_backend_is_a_plain_marker() {
    let backend = TokioBackend::default();
    assert_eq!(backend, TokioBackend);
}
