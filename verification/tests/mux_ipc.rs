use basilisk::mux::ipc::IpcMessage;

#[test]
fn message_roundtrip_attach() {
    let msg = IpcMessage::Attach;
    let bytes = msg.to_bytes();
    let decoded = IpcMessage::from_bytes(&bytes);
    assert!(matches!(decoded, Some(IpcMessage::Attach)));
}

#[test]
fn message_roundtrip_attach_ack() {
    let msg = IpcMessage::AttachAck { cols: 80, rows: 24 };
    let bytes = msg.to_bytes();
    let decoded = IpcMessage::from_bytes(&bytes);
    assert!(matches!(decoded, Some(IpcMessage::AttachAck { cols: 80, rows: 24 })));
}

#[test]
fn message_roundtrip_output() {
    let msg = IpcMessage::Output(b"Hello".to_vec());
    let bytes = msg.to_bytes();
    let decoded = IpcMessage::from_bytes(&bytes);
    match decoded {
        Some(IpcMessage::Output(data)) => assert_eq!(data, b"Hello"),
        _ => panic!("Expected Output message"),
    }
}

#[test]
fn message_bytes_exact() {
    assert_eq!(IpcMessage::Resize { cols: 0x0102, rows: 0x0304 }.to_bytes(), vec![6, 2, 1, 4, 3]);
    assert_eq!(IpcMessage::Input(vec![9, 8]).to_bytes(), vec![5, 2, 0, 0, 0, 9, 8]);
}

#[test]
fn message_decode_rejects_short_and_unknown() {
    assert!(IpcMessage::from_bytes(&[]).is_none());
    assert!(IpcMessage::from_bytes(&[0x02, 1, 2]).is_none());
    assert!(IpcMessage::from_bytes(&[0x04, 5, 0, 0, 0, 1]).is_none());
    assert!(IpcMessage::from_bytes(&[0x09]).is_none());
}
