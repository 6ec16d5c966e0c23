//! Wire-codec tests: encode/decode round trips for every message type,
//! stream resynchronization, and reply correlation.

use wolfsheep::data_repr::NetError;
use wolfsheep::protocol::{
    buffer_skip, message_from_bytes, net_sync, Message, MsgGameState, MsgJoin, MsgMove, MsgNop,
    MsgPing, MsgPlayerList, MsgRecord, MsgResult, MsgRoomList, MsgSay, MsgType, MSG_BUFFER_SIZE,
    MSG_HEADER_SIZE, MSG_MOVE_ACTION_PUT, MSG_MOVE_TOKEN_WOLF, MSG_PLAYERMODE_SHEEP,
    MSG_PLAYERMODE_WOLF, MSG_RESULT_NOK, MSG_RESULT_OK,
};

fn decode_one(bytes: &[u8]) -> (usize, MsgType) {
    let (n, m) = message_from_bytes(bytes).expect("decode failed");
    (n, m.expect("message incomplete"))
}

#[test]
fn roundtrip_trivial() {
    let m = MsgPing::new();
    let bytes = m.to_bytes();
    assert_eq!(bytes.len(), MSG_HEADER_SIZE as usize);
    let (n, decoded) = decode_one(&bytes);
    assert_eq!(n, bytes.len());
    match decoded {
        MsgType::Ping(p) => {
            assert_eq!(p.header.size, MSG_HEADER_SIZE);
            assert_eq!(p.header.sequence, 0);
        }
        other => panic!("wrong variant: {:?}", other),
    }
}

#[test]
fn roundtrip_join() {
    let m = MsgJoin::new("room-1", "player-a", MSG_PLAYERMODE_WOLF).unwrap();
    let bytes = m.to_bytes();
    let (n, decoded) = decode_one(&bytes);
    assert_eq!(n, bytes.len());
    match decoded {
        MsgType::Join(j) => {
            assert_eq!(j.get_room_name().unwrap(), "room-1");
            assert_eq!(j.get_player_name().unwrap(), "player-a");
            assert_eq!(j.get_player_mode(), MSG_PLAYERMODE_WOLF);
            assert_eq!(j.room_name, m.room_name);
            assert_eq!(j.player_name, m.player_name);
            assert_eq!(j.room_name_len, m.room_name_len);
        }
        other => panic!("wrong variant: {:?}", other),
    }
}

#[test]
fn roundtrip_join_boundary_names() {
    // Empty and maximum-capacity names survive the round trip.
    let long = "x".repeat(64);
    let m = MsgJoin::new("", &long, MSG_PLAYERMODE_SHEEP).unwrap();
    let bytes = m.to_bytes();
    let (_, decoded) = decode_one(&bytes);
    match decoded {
        MsgType::Join(j) => {
            assert_eq!(j.get_room_name().unwrap(), "");
            assert_eq!(j.get_player_name().unwrap(), long);
        }
        other => panic!("wrong variant: {:?}", other),
    }
    // One byte over capacity is refused at construction.
    let too_long = "x".repeat(65);
    assert!(MsgJoin::new(&too_long, "p", 0).is_err());
}

#[test]
fn roundtrip_result() {
    let req = MsgPing::new();
    let m = MsgResult::new(&req, MSG_RESULT_NOK, "something went wrong").unwrap();
    let bytes = m.to_bytes();
    let (n, decoded) = decode_one(&bytes);
    assert_eq!(n, bytes.len());
    match decoded {
        MsgType::Result(r) => {
            assert_eq!(r.get_result_code(), MSG_RESULT_NOK);
            assert!(!r.is_ok());
            assert_eq!(r.get_text(), "something went wrong");
            assert_eq!(r.in_reply_to_header, req.header);
        }
        other => panic!("wrong variant: {:?}", other),
    }
}

#[test]
fn roundtrip_room_list_and_player_list() {
    let m = MsgRoomList::new(3, 1, "lobby").unwrap();
    let bytes = m.to_bytes();
    match decode_one(&bytes).1 {
        MsgType::RoomList(r) => {
            assert_eq!(r.get_total_count(), 3);
            assert_eq!(r.get_index(), 1);
            assert_eq!(r.get_room_name().unwrap(), "lobby");
        }
        other => panic!("wrong variant: {:?}", other),
    }
    let m = MsgPlayerList::new(2, 0, "alice", MSG_PLAYERMODE_SHEEP).unwrap();
    let bytes = m.to_bytes();
    match decode_one(&bytes).1 {
        MsgType::PlayerList(p) => {
            assert_eq!(p.get_total_count(), 2);
            assert_eq!(p.get_index(), 0);
            assert_eq!(p.get_player_name().unwrap(), "alice");
            assert_eq!(p.get_player_mode(), MSG_PLAYERMODE_SHEEP);
        }
        other => panic!("wrong variant: {:?}", other),
    }
}

#[test]
fn roundtrip_move() {
    let m = MsgMove::new(MSG_MOVE_ACTION_PUT, MSG_MOVE_TOKEN_WOLF, 2, 4);
    let bytes = m.to_bytes();
    match decode_one(&bytes).1 {
        MsgType::Move(mv) => {
            assert_eq!(mv.get_action(), (MSG_MOVE_ACTION_PUT, 2, 4));
            assert_eq!(mv.token, MSG_MOVE_TOKEN_WOLF);
        }
        other => panic!("wrong variant: {:?}", other),
    }
}

#[test]
fn roundtrip_say() {
    let mut m = MsgSay::new("bob", "hello there").unwrap();
    m.set_player_name("carol").unwrap();
    let bytes = m.to_bytes();
    match decode_one(&bytes).1 {
        MsgType::Say(s) => {
            assert_eq!(s.get_player_name(), "carol");
            assert_eq!(s.get_text(), "hello there");
        }
        other => panic!("wrong variant: {:?}", other),
    }
}

#[test]
fn roundtrip_game_state() {
    let mut fields: Vec<u32> = Vec::new();
    for i in 0..35u32 {
        fields.push(i % 4);
    }
    let m = MsgGameState::new(fields.clone(), 1, 2, 3, 2);
    let bytes = m.to_bytes();
    match decode_one(&bytes).1 {
        MsgType::GameState(g) => {
            assert_eq!(g.get_fields(), &fields);
            assert_eq!(g.get_moving(), (1, 2, 3));
            assert_eq!(g.get_turn(), 2);
        }
        other => panic!("wrong variant: {:?}", other),
    }
}

#[test]
fn record_chunks_and_reassembly() {
    // Three chunks: 512 + 512 + 1 bytes.
    let text = "m".repeat(1025);
    let parts = MsgRecord::new(&text);
    assert_eq!(parts.len(), 3);
    for (i, p) in parts.iter().enumerate() {
        assert_eq!(p.get_total_count(), 3);
        assert_eq!(p.get_index(), i as u32);
    }
    // Each chunk survives the wire individually.
    let mut received = Vec::new();
    for p in &parts {
        let bytes = p.to_bytes();
        match decode_one(&bytes).1 {
            MsgType::Record(r) => received.push(r),
            other => panic!("wrong variant: {:?}", other),
        }
    }
    assert_eq!(MsgRecord::assemble_parts(received).unwrap(), text);
    // An empty record takes no chunks and reassembles to nothing.
    assert_eq!(MsgRecord::new("").len(), 0);
    assert_eq!(MsgRecord::assemble_parts(Vec::new()).unwrap(), "");
}

#[test]
fn resync_skips_garbage() {
    // Garbage bytes that nowhere contain the magic, then a message.
    let mut stream = vec![0x11u8; 37];
    let msg = MsgNop::new();
    let encoded = msg.to_bytes();
    stream.extend_from_slice(&encoded);
    let skip = net_sync(&stream).expect("no sync point found");
    assert_eq!(skip, 37);
    let stream = buffer_skip(stream, skip);
    let (consumed, decoded) = decode_one(&stream);
    assert_eq!(consumed, encoded.len());
    assert!(matches!(decoded, MsgType::Nop(_)));
}

#[test]
fn resync_fails_without_magic() {
    let stream = vec![0x22u8; 100];
    assert!(net_sync(&stream).is_none());
    assert!(net_sync(&[]).is_none());
}

#[test]
fn decode_incomplete_and_errors() {
    // Fewer bytes than a header: wait for more.
    let msg = MsgPing::new().to_bytes();
    let (n, m) = message_from_bytes(&msg[0..10]).unwrap();
    assert_eq!(n, 0);
    assert!(m.is_none());
    // Bad magic.
    let mut bad = msg.clone();
    bad[0] = 0;
    assert!(matches!(message_from_bytes(&bad), Err(NetError::BadMagic)));
    // Size below the header size.
    let mut bad = msg.clone();
    bad[4..8].copy_from_slice(&[0, 0, 0, 4]);
    assert!(matches!(message_from_bytes(&bad), Err(NetError::UndersizedLength)));
    // Size above the buffer bound.
    let mut bad = msg.clone();
    let too_big = (MSG_BUFFER_SIZE as u32 + 1).to_be_bytes();
    bad[4..8].copy_from_slice(&too_big);
    assert!(matches!(message_from_bytes(&bad), Err(NetError::OversizedLength)));
    // Unknown message id.
    let mut bad = msg.clone();
    bad[8..12].copy_from_slice(&[0, 0, 0, 99]);
    assert!(matches!(message_from_bytes(&bad), Err(NetError::UnknownId)));
}

#[test]
fn reply_correlation() {
    // A Result is in reply to a message iff type id and sequence match.
    let mut req = MsgPing::new();
    req.set_sequence(7);
    let res = MsgResult::new(&req, MSG_RESULT_OK, "").unwrap();
    assert!(res.is_in_reply_to(&req));
    // Same id, different sequence.
    let mut other = MsgPing::new();
    other.set_sequence(8);
    assert!(!res.is_in_reply_to(&other));
    // Same sequence, different id.
    let mut other = MsgNop::new();
    other.set_sequence(7);
    assert!(!res.is_in_reply_to(&other));
    // Both differ.
    let other = MsgNop::new();
    assert!(!res.is_in_reply_to(&other));
}

#[test]
fn strict_names_reject_invalid_utf8() {
    // A join whose room-name bytes are not UTF-8 yields an error from the
    // name getter, not a mangled name.
    let m = MsgJoin::new("room", "player", 0).unwrap();
    let mut bytes = m.to_bytes();
    // Corrupt the first room-name byte (offset: header + length word).
    bytes[MSG_HEADER_SIZE as usize + 4] = 0xFF;
    match decode_one(&bytes).1 {
        MsgType::Join(j) => {
            assert_eq!(j.get_room_name(), Err(NetError::InvalidString));
            assert_eq!(j.get_player_name().unwrap(), "player");
        }
        other => panic!("wrong variant: {:?}", other),
    }
}

#[test]
fn lossy_text_replaces_invalid_utf8() {
    let m = MsgSay::new("p", "abc").unwrap();
    let mut bytes = m.to_bytes();
    // Corrupt the second text byte (offset: header + name field + length).
    bytes[MSG_HEADER_SIZE as usize + 4 + 64 + 4 + 1] = 0xFF;
    match decode_one(&bytes).1 {
        MsgType::Say(s) => {
            let text = s.get_text();
            assert_ne!(text, "abc");
            assert!(text.starts_with('a'));
        }
        other => panic!("wrong variant: {:?}", other),
    }
}

#[test]
fn buffer_skip_drops_prefix() {
    let buf = vec![1u8, 2, 3, 4, 5];
    assert_eq!(buffer_skip(buf.clone(), 0), vec![1, 2, 3, 4, 5]);
    assert_eq!(buffer_skip(buf.clone(), 2), vec![3, 4, 5]);
    assert_eq!(buffer_skip(buf.clone(), 5), Vec::<u8>::new());
    assert_eq!(buffer_skip(buf, 9), Vec::<u8>::new());
}

#[test]
fn result_text_boundaries() {
    let req = MsgPing::new();
    // Empty text.
    let m = MsgResult::new(&req, MSG_RESULT_OK, "").unwrap();
    assert_eq!(m.get_text(), "");
    // Exactly the field's capacity.
    let exact = "y".repeat(512);
    let m = MsgResult::new(&req, MSG_RESULT_OK, &exact).unwrap();
    let bytes = m.to_bytes();
    match decode_one(&bytes).1 {
        MsgType::Result(r) => assert_eq!(r.get_text(), exact),
        other => panic!("wrong variant: {:?}", other),
    }
    // Over capacity: the stored text is the capped prefix, not an error.
    let over = "z".repeat(600);
    let m = MsgResult::new(&req, MSG_RESULT_NOK, &over).unwrap();
    assert_eq!(m.get_text(), "z".repeat(512));
}
