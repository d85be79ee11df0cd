use tcp_echo::echo::{EchoAction, EchoSession, EchoState, ReadOutcome, CHUNK_CAPACITY};

fn reply_of(action: EchoAction) -> (Vec<u8>, String) {
    match action {
        EchoAction::Reply { bytes, text } => (bytes, text),
        EchoAction::PeerClosed => panic!("expected a reply, got PeerClosed"),
        EchoAction::ReadFailed => panic!("expected a reply, got ReadFailed"),
    }
}

#[test]
fn new_session_awaits_data() {
    assert_eq!(EchoSession::new().state(), EchoState::AwaitingData);
}

#[test]
fn single_byte_is_echoed() {
    let mut s = EchoSession::new();
    let (bytes, text) = reply_of(s.on_read(ReadOutcome::Received(vec![b'a'])));
    assert_eq!(bytes, vec![b'a']);
    assert_eq!(text, "a");
    assert_eq!(s.state(), EchoState::Processing);
    s.on_write(true);
    assert_eq!(s.state(), EchoState::AwaitingData);
}

#[test]
fn full_chunk_of_every_byte_value_is_echoed() {
    let payload: Vec<u8> = (0..CHUNK_CAPACITY).map(|i| (i % 256) as u8).collect();
    assert_eq!(payload.len(), 1024);
    let mut s = EchoSession::new();
    let (bytes, _) = reply_of(s.on_read(ReadOutcome::Received(payload.clone())));
    assert_eq!(bytes, payload);
}

#[test]
fn reply_text_is_trimmed_but_bytes_are_not() {
    let mut s = EchoSession::new();
    let (bytes, text) = reply_of(s.on_read(ReadOutcome::Received(b"  hello world\r\n".to_vec())));
    assert_eq!(bytes, b"  hello world\r\n".to_vec());
    assert_eq!(text, "hello world");
}

#[test]
fn invalid_utf8_is_echoed_verbatim_and_shown_lossily() {
    let mut s = EchoSession::new();
    let (bytes, text) = reply_of(s.on_read(ReadOutcome::Received(vec![b'o', b'k', 0xFF])));
    assert_eq!(bytes, vec![b'o', b'k', 0xFF]);
    assert_eq!(text, "ok\u{FFFD}");
}

#[test]
fn empty_read_closes_without_reply() {
    let mut s = EchoSession::new();
    assert!(matches!(s.on_read(ReadOutcome::Received(Vec::new())), EchoAction::PeerClosed));
    assert_eq!(s.state(), EchoState::Closed);
}

#[test]
fn failed_read_closes_the_session() {
    let mut s = EchoSession::new();
    assert!(matches!(s.on_read(ReadOutcome::Failed), EchoAction::ReadFailed));
    assert_eq!(s.state(), EchoState::Closed);
}

#[test]
fn failed_write_keeps_the_session_open() {
    let mut s = EchoSession::new();
    reply_of(s.on_read(ReadOutcome::Received(b"ping".to_vec())));
    s.on_write(false);
    assert_eq!(s.state(), EchoState::AwaitingData);
    let (bytes, _) = reply_of(s.on_read(ReadOutcome::Received(b"again".to_vec())));
    assert_eq!(bytes, b"again".to_vec());
}

#[test]
fn two_sends_get_two_replies_in_order() {
    let mut s = EchoSession::new();
    let (r1, _) = reply_of(s.on_read(ReadOutcome::Received(b"first".to_vec())));
    s.on_write(true);
    let (r2, _) = reply_of(s.on_read(ReadOutcome::Received(b"second".to_vec())));
    s.on_write(true);
    assert_eq!(r1, b"first".to_vec());
    assert_eq!(r2, b"second".to_vec());
}

#[test]
fn interleaved_sessions_echo_only_their_own_payload() {
    let mut a = EchoSession::new();
    let mut b = EchoSession::new();
    let (ra1, _) = reply_of(a.on_read(ReadOutcome::Received(b"alpha-1".to_vec())));
    let (rb1, _) = reply_of(b.on_read(ReadOutcome::Received(b"beta-1".to_vec())));
    b.on_write(true);
    a.on_write(true);
    let (rb2, _) = reply_of(b.on_read(ReadOutcome::Received(b"beta-2".to_vec())));
    assert!(matches!(a.on_read(ReadOutcome::Received(Vec::new())), EchoAction::PeerClosed));
    assert_eq!(ra1, b"alpha-1".to_vec());
    assert_eq!(rb1, b"beta-1".to_vec());
    assert_eq!(rb2, b"beta-2".to_vec());
    assert_eq!(a.state(), EchoState::Closed);
    assert_eq!(b.state(), EchoState::Processing);
}

#[test]
fn oversized_message_is_echoed_chunk_by_chunk() {
    let message: Vec<u8> = (0..2500usize).map(|i| (i % 251) as u8).collect();
    let mut s = EchoSession::new();
    let mut replies: Vec<Vec<u8>> = Vec::new();
    for chunk in message.chunks(CHUNK_CAPACITY) {
        let (bytes, _) = reply_of(s.on_read(ReadOutcome::Received(chunk.to_vec())));
        assert_eq!(bytes, chunk.to_vec());
        replies.push(bytes);
        s.on_write(true);
    }
    assert_eq!(replies.len(), 3);
    assert_eq!(replies[0].len(), 1024);
    assert_eq!(replies[1].len(), 1024);
    assert_eq!(replies[2].len(), 452);
    assert_eq!(replies.concat(), message);
}
