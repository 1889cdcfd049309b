use engine::rcon::{
    check_login, check_reply, encode, le_bytes, length_ok, parse_reply, read_le, RconError,
    Session, COMMAND, LOGIN,
};

#[test]
fn a_login_frame_counts_everything_after_its_length() {
    let frame = encode(1, LOGIN, "hunter2");
    assert_eq!(&frame[0..4], &17i32.to_le_bytes());
    assert_eq!(&frame[4..8], &1i32.to_le_bytes());
    assert_eq!(&frame[8..12], &3i32.to_le_bytes());
    assert_eq!(&frame[12..19], b"hunter2");
    assert_eq!(&frame[19..], &[0, 0]);
    assert_eq!(frame.len(), 21);
}

#[test]
fn little_endian_bytes_read_back() {
    for x in [0, 1, -1, 255, 256, 8202, i32::MAX, i32::MIN] {
        let b = le_bytes(x);
        assert_eq!(b, x.to_le_bytes());
        assert_eq!(read_le(b[0], b[1], b[2], b[3]), x);
    }
}

#[test]
fn a_reply_payload_reads_as_its_id_and_text() {
    let frame = encode(7, COMMAND, "There are 0 of a max of 20 players online");
    let (id, body) = parse_reply(&frame[4..]);
    assert_eq!(id, 7);
    assert_eq!(body, "There are 0 of a max of 20 players online");
    let (id, body) = parse_reply(&[255, 255, 255, 255, 0, 0, 0, 0, 0, 0]);
    assert_eq!(id, -1);
    assert_eq!(body, "");
}

#[test]
fn only_lengths_a_server_sends_are_accepted() {
    assert!(!length_ok(9));
    assert!(length_ok(10));
    assert!(length_ok(8202));
    assert!(!length_ok(8203));
    assert!(!length_ok(-5));
}

#[test]
fn a_session_numbers_its_requests_from_one() {
    let mut session = Session::new();
    assert_eq!(session.next_request(), 1);
    assert_eq!(session.next_request(), 2);
    assert_eq!(session.next_id, 2);
}

#[test]
fn a_refused_password_and_a_stray_reply_are_told_apart() {
    assert_eq!(check_login(1, -1), Err(RconError::AuthFailed));
    assert_eq!(check_login(1, 1), Ok(()));
    assert_eq!(check_reply(2, 3), Err(RconError::OutOfSequence));
    assert_eq!(check_reply(2, 2), Ok(()));
}
