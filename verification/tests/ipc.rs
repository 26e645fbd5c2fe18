use trimrouter::ipc::{frame_msg, read_frame_len, MessageTooLong, MAX_IPC_MSG_LEN};

#[test]
fn message_is_framed_by_its_length() {
    assert_eq!(
        frame_msg(&vec![7, 8, 9]),
        Ok(vec![0, 0, 0, 3, 7, 8, 9])
    );
    assert_eq!(frame_msg(&vec![]), Ok(vec![0, 0, 0, 0]));
    let framed = frame_msg(&vec![1; 0x1_0000]).unwrap();
    assert_eq!(&framed[..4], &[0, 1, 0, 0]);
}

#[test]
fn frames_are_read_back_one_after_the_other() {
    let mut stream = frame_msg(&vec![1, 2]).unwrap();
    stream.extend(frame_msg(&vec![3; 300]).unwrap());

    let first = read_frame_len(&[stream[0], stream[1], stream[2], stream[3]]).unwrap();
    assert_eq!(&stream[4..4 + first], &[1, 2]);
    let rest = &stream[4 + first..];
    let second = read_frame_len(&[rest[0], rest[1], rest[2], rest[3]]).unwrap();
    assert_eq!(&rest[4..], vec![3u8; second].as_slice());
    assert_eq!(second, 300);
}

#[test]
fn test_ipc_recv_oversized_length_rejected() {
    let len: u32 = 100_000;
    let err = read_frame_len(&len.to_be_bytes()).unwrap_err();
    assert_eq!(err, MessageTooLong { len: 100_000 });
    assert!(err.receiver_message().contains("exceeds maximum limit"));
    assert_eq!(
        err.receiver_message(),
        "IPC message length 100000 exceeds maximum limit of 65536"
    );
}

#[test]
fn test_ipc_send_oversized_payload_rejected() {
    let oversized_servers: Vec<[u8; 4]> = (0..20_000u32).map(|i| i.to_be_bytes()).collect();
    let serialized = postcard::to_stdvec(&(0u32, oversized_servers)).unwrap();

    let err = frame_msg(&serialized).unwrap_err();
    assert_eq!(err, MessageTooLong { len: serialized.len() });
    assert!(err.sender_message().contains("exceeds maximum limit"));
    assert_eq!(
        MessageTooLong { len: 80_004 }.sender_message(),
        "Serialized IPC message length 80004 exceeds maximum limit of 65536"
    );
}

#[test]
fn longest_message_is_accepted() {
    assert!(frame_msg(&vec![0; MAX_IPC_MSG_LEN]).is_ok());
    assert!(frame_msg(&vec![0; MAX_IPC_MSG_LEN + 1]).is_err());
    assert_eq!(read_frame_len(&[0, 1, 0, 0]), Ok(MAX_IPC_MSG_LEN));
    assert!(read_frame_len(&[0, 1, 0, 1]).is_err());
}
