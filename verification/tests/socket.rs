use richter::net::packet::{QSocket, RecvStep};
use richter::net::{NetError, MAX_DATAGRAM};

/// Carries packets from `src` to `dst` until `dst` completes a message, feeding the
/// acknowledgements back, as a pair of connected sockets would.
fn deliver(src: &mut QSocket, dst: &mut QSocket, first: Vec<u8>) -> Vec<u8> {
    let mut msg = Vec::new();
    let mut packet = first;
    loop {
        assert!(!dst.recv_would_overflow(&packet));
        let (ack, step) = dst.recv_step(&packet, &mut msg);
        if let Some(ack) = ack {
            let mut none = Vec::new();
            let (back, back_step) = src.recv_step(&ack, &mut none);
            assert!(back.is_none());
            assert!(matches!(back_step, RecvStep::Continue));
            assert!(none.is_empty());
        }
        match step {
            RecvStep::Continue => {
                packet = src.finish_recv().expect("next chunk");
            }
            RecvStep::Done | RecvStep::Deliver => return msg,
            RecvStep::Fail(e) => panic!("{:?}", e),
        }
    }
}

#[test]
fn test_qsocket_send_msg_short() {
    let mut src = QSocket::new();
    let mut dst = QSocket::new();

    let message = String::from("test message").into_bytes();
    let packet = src.begin_send_msg(&message).unwrap();
    let received = deliver(&mut src, &mut dst, packet);
    assert_eq!(message, received);
    assert!(src.can_send());
}

#[test]
fn test_qsocket_send_msg_unreliable_recv_msg_eq() {
    let mut src = QSocket::new();
    let mut dst = QSocket::new();

    let message = String::from("test message").into_bytes();
    let packet = src.send_msg_unreliable(&message).unwrap();
    let received = deliver(&mut src, &mut dst, packet);
    assert_eq!(message, received);
}

#[test]
#[should_panic]
fn test_qsocket_send_msg_unreliable_zero_length_fails() {
    let mut src = QSocket::new();

    let message = [];
    src.send_msg_unreliable(&message).unwrap();
}

#[test]
#[should_panic]
fn test_qsocket_send_msg_unreliable_exceeds_max_length_fails() {
    let mut src = QSocket::new();

    let message = [0; MAX_DATAGRAM + 1];
    src.send_msg_unreliable(&message).unwrap();
}

#[test]
fn long_message_goes_in_chunks() {
    let mut src = QSocket::new();
    let mut dst = QSocket::new();

    let message: Vec<u8> = (0..2500u32).map(|i| (i % 251) as u8).collect();
    let packet = src.begin_send_msg(&message).unwrap();
    assert_eq!(packet.len(), 8 + MAX_DATAGRAM);
    assert_eq!(&packet[0..8], &[0, 1, 0x04, 0x08, 0, 0, 0, 0]);
    assert!(!src.can_send());
    let received = deliver(&mut src, &mut dst, packet);
    assert_eq!(message, received);
    assert!(src.can_send());
}

#[test]
fn reliable_packet_layout() {
    let mut src = QSocket::new();
    let packet = src.begin_send_msg(b"hi").unwrap();
    assert_eq!(packet, vec![0, 9, 0, 10, 0, 0, 0, 0, b'h', b'i']);
    let again = src.resend_msg().unwrap();
    assert_eq!(again, packet);
}

#[test]
fn unreliable_packet_layout_and_sequence() {
    let mut src = QSocket::new();
    let first = src.send_msg_unreliable(b"a").unwrap();
    let second = src.send_msg_unreliable(b"b").unwrap();
    assert_eq!(first, vec![0, 0x10, 0, 9, 0, 0, 0, 0, b'a']);
    assert_eq!(second, vec![0, 0x10, 0, 9, 0, 0, 0, 1, b'b']);
}

#[test]
fn begin_send_errors() {
    let mut src = QSocket::new();
    assert!(matches!(src.begin_send_msg(&[]), Err(NetError::Other(_))));
    assert!(matches!(src.begin_send_msg(&[0; 8193]), Err(NetError::Other(_))));
    let big = vec![1u8; 2000];
    src.begin_send_msg(&big).unwrap();
    assert!(matches!(src.begin_send_msg(b"x"), Err(NetError::Other(_))));
}

#[test]
fn resend_without_packet_fails() {
    let mut src = QSocket::new();
    assert!(matches!(src.resend_msg(), Err(NetError::Other(_))));
}

#[test]
fn duplicate_reliable_packet_is_acked_but_not_added() {
    let mut src = QSocket::new();
    let mut dst = QSocket::new();
    let packet = src.begin_send_msg(b"once").unwrap();
    let mut msg = Vec::new();
    let (ack, step) = dst.recv_step(&packet, &mut msg);
    assert_eq!(ack, Some([0, 2, 0, 8, 0, 0, 0, 0]));
    assert!(matches!(step, RecvStep::Done));
    let mut again = Vec::new();
    let (ack2, step2) = dst.recv_step(&packet, &mut again);
    assert_eq!(ack2, Some([0, 2, 0, 8, 0, 0, 0, 0]));
    assert!(matches!(step2, RecvStep::Continue));
    assert!(again.is_empty());
}

#[test]
fn stale_unreliable_packet_is_dropped() {
    let mut src = QSocket::new();
    let mut dst = QSocket::new();
    let first = src.send_msg_unreliable(b"1").unwrap();
    let second = src.send_msg_unreliable(b"2").unwrap();
    let mut msg = Vec::new();
    let (_, step) = dst.recv_step(&second, &mut msg);
    assert!(matches!(step, RecvStep::Deliver));
    let mut old = Vec::new();
    let (_, step) = dst.recv_step(&first, &mut old);
    assert!(matches!(step, RecvStep::Done));
    assert!(old.is_empty());
}

#[test]
fn malformed_packets() {
    let mut dst = QSocket::new();
    let mut msg = Vec::new();
    assert!(matches!(dst.recv_step(&[0], &mut msg).1, RecvStep::Fail(NetError::Io)));
    assert!(matches!(
        dst.recv_step(&[0, 3, 0, 8, 0, 0, 0, 0], &mut msg).1,
        RecvStep::Fail(NetError::InvalidData(_))
    ));
    assert!(matches!(dst.recv_step(&[0, 1, 0, 8], &mut msg).1, RecvStep::Continue));
    assert!(matches!(
        dst.recv_step(&[0, 1, 0, 9, 0, 0, 0, 0], &mut msg).1,
        RecvStep::Fail(NetError::InvalidData(_))
    ));
    assert!(matches!(dst.recv_step(&[0x80, 0, 0, 8, 0, 0, 0, 0], &mut msg).1, RecvStep::Continue));
    assert!(msg.is_empty());
}
