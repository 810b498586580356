use bsm::protocol::{
    encode_command_frame, encode_preamble, unpack_u16, QueryError, QuerySession, ReadWant,
    SessionState,
};

#[test]
fn unpack_reads_low_byte_of_pair() {
    assert_eq!(unpack_u16(&[0x00, 0x05], 0), 5);
}

#[test]
fn unpack_discards_high_byte() {
    // a genuine big-endian read would yield 0xABCD here
    assert_eq!(unpack_u16(&[0xAB, 0xCD], 0), 0xCD);
}

#[test]
fn unpack_uses_byte_pair_index() {
    assert_eq!(unpack_u16(&[9, 9, 0, 7, 9, 9], 1), 7);
}

#[test]
fn preamble_is_the_ten_magic_bytes() {
    assert_eq!(encode_preamble(), b"BZFLAG\r\n\r\n".to_vec());
}

#[test]
fn command_frame_is_zero_length_then_code() {
    assert_eq!(encode_command_frame(), vec![0, 0, b'q', b'p']);
}

#[test]
fn handshake_accepts_exact_tag() {
    let mut s = QuerySession::new();
    s.feed(b"BZFS0221");
    assert!(matches!(s.state, SessionState::ExpectHeader));
}

#[test]
fn handshake_ignores_bytes_after_the_tag() {
    let mut s = QuerySession::new();
    s.feed(b"BZFS0221 hello players");
    assert!(matches!(s.state, SessionState::ExpectHeader));
}

#[test]
fn handshake_rejects_other_tag_and_keeps_bytes() {
    let mut s = QuerySession::new();
    s.feed(b"BZFS0026");
    match &s.state {
        SessionState::Failed {
            error: QueryError::ProtocolVersionMismatch { received },
        } => assert_eq!(received, &b"BZFS0026".to_vec()),
        other => panic!("unexpected state: {:?}", other),
    }
}

#[test]
fn handshake_rejects_a_prefix_of_the_tag() {
    // six correct bytes are not the eight-byte tag
    let mut s = QuerySession::new();
    s.feed(b"BZFS02");
    assert!(matches!(
        s.state,
        SessionState::Failed {
            error: QueryError::ProtocolVersionMismatch { .. }
        }
    ));
}

#[test]
fn wanted_follows_the_session() {
    let mut s = QuerySession::new();
    assert_eq!(s.wanted(), ReadWant::Greeting);
    s.feed(b"BZFS0221");
    assert_eq!(s.wanted(), ReadWant::Exact { n: 4 });
    s.feed(&[0, 6, b'q', b'p']);
    assert_eq!(s.wanted(), ReadWant::Exact { n: 6 });
    s.feed(&[0, 0, 0, 3, 0, 0]);
    assert_eq!(s.wanted(), ReadWant::Nothing);
}

#[test]
fn decodes_count_from_matching_frame() {
    let mut s = QuerySession::new();
    s.feed(b"BZFS0221");
    s.feed(&[0, 4, b'q', b'p']);
    s.feed(&[0, 0, 0, 42]);
    assert_eq!(s.player_count(), Some(42));
}

#[test]
fn count_decode_also_discards_high_byte() {
    let mut s = QuerySession::new();
    s.feed(b"BZFS0221");
    s.feed(&[0, 4, b'q', b'p']);
    s.feed(&[0, 0, 0xFF, 5]);
    assert_eq!(s.player_count(), Some(5));
}

#[test]
fn skips_non_matching_frames_then_decodes() {
    let mut s = QuerySession::new();
    s.feed(b"BZFS0221");
    // first frame: wrong code, three payload bytes, fully consumed
    s.feed(&[0, 3, b'a', b'b']);
    assert_eq!(s.wanted(), ReadWant::Exact { n: 3 });
    s.feed(&[9, 9, 9]);
    // second frame: wrong code, empty payload
    s.feed(&[0, 0, b'x', b'y']);
    assert_eq!(s.wanted(), ReadWant::Exact { n: 0 });
    s.feed(&[]);
    // third frame matches
    s.feed(&[0, 4, b'q', b'p']);
    s.feed(&[0, 0, 0, 17]);
    assert_eq!(s.player_count(), Some(17));
}

#[test]
fn short_matching_payload_fails_buffer_too_short() {
    let mut s = QuerySession::new();
    s.feed(b"BZFS0221");
    s.feed(&[0, 2, b'q', b'p']);
    s.feed(&[0, 2]);
    assert!(matches!(
        s.state,
        SessionState::Failed {
            error: QueryError::BufferTooShort
        }
    ));
    assert_eq!(s.player_count(), None);
}

#[test]
fn payload_of_wrong_size_fails_buffer_too_short() {
    let mut s = QuerySession::new();
    s.feed(b"BZFS0221");
    s.feed(&[0, 4, b'q', b'p']);
    s.feed(&[0, 0, 0]);
    assert!(matches!(
        s.state,
        SessionState::Failed {
            error: QueryError::BufferTooShort
        }
    ));
}

#[test]
fn failed_session_stays_failed() {
    let mut s = QuerySession::new();
    s.feed(b"WRONGTAG");
    s.feed(&[0, 4, b'q', b'p']);
    assert!(matches!(
        s.state,
        SessionState::Failed {
            error: QueryError::ProtocolVersionMismatch { .. }
        }
    ));
    assert_eq!(s.wanted(), ReadWant::Nothing);
}

#[test]
fn done_session_stays_done() {
    let mut s = QuerySession::new();
    s.feed(b"BZFS0221");
    s.feed(&[0, 4, b'q', b'p']);
    s.feed(&[0, 0, 0, 8]);
    s.feed(&[1, 2, 3, 4]);
    assert_eq!(s.player_count(), Some(8));
}
