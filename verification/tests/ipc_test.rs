use super_v::{
    common::IPCServerError,
    services::clipboard_ipc_server::{
        check_bind_probe, classify_connect_error, payload_len, PayloadData,
    },
};

#[test]
fn test_create_bind_success() {
    // No socket file: nothing answered the probe, so binding may go ahead.
    let listener = check_bind_probe(Err(IPCServerError::FileNotFound));
    assert!(listener.is_ok(), "Failed to create and bind listener");
}

#[test]
fn test_create_bind_already_running() {
    // A server answered the probe: a second one must not start.
    let listener2 = check_bind_probe(Ok(()));
    match listener2 {
        Ok(_) => {
            panic!("Server should not be created. Two instances running!");
        }
        Err(err) => {
            assert_eq!(
                err,
                IPCServerError::BindError("IPC Server appears to be already running".into())
            );
        }
    }
}

#[test]
fn test_stream_connect_no_file() {
    // Connecting without a socket file fails with OS error 2.
    let stream = classify_connect_error(Some(2), "No such file or directory".to_string());
    assert_eq!(stream, IPCServerError::FileNotFound);
}

#[test]
fn test_stream_connect_server_not_running() {
    // Connecting to a socket file that no server listens on is refused (111).
    let stream = classify_connect_error(Some(111), "Connection refused".to_string());
    assert_eq!(
        stream,
        IPCServerError::ConnectionError("Connection Refused by server.".into())
    );
}

#[test]
fn test_other_connect_errors_keep_detail() {
    let err = classify_connect_error(Some(13), "Permission denied".to_string());
    assert_eq!(err, IPCServerError::ConnectionError("Permission denied".into()));
    let err = classify_connect_error(None, "opaque".to_string());
    assert_eq!(err, IPCServerError::ConnectionError("opaque".into()));
}

#[test]
fn test_bind_after_refused_connection() {
    let probe = Err(IPCServerError::ConnectionError("Connection Refused by server.".into()));
    assert!(check_bind_probe(probe).is_ok());
    let probe = Err(IPCServerError::SendError("x".into()));
    assert!(check_bind_probe(probe).is_err());
}

#[test]
fn test_payload_framing() {
    let data = PayloadData::from_bytes(vec![7u8; 300]);
    assert_eq!(data.len_prefix(), [0, 0, 1, 44]);
    assert_eq!(data.body_bytes(), &vec![7u8; 300]);
    assert_eq!(payload_len(data.len_prefix()), 300);

    let empty = PayloadData::from_bytes(Vec::new());
    assert_eq!(empty.len_prefix(), [0, 0, 0, 0]);
    assert_eq!(payload_len([1, 2, 3, 4]), 0x01020304);
    assert_eq!(payload_len([255, 255, 255, 255]), 0xFFFF_FFFF);
}
