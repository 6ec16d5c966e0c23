//! Connection-handler and multicast-hub tests: the join and leave flow
//! over real wire bytes, broadcast scoping between connections, name
//! reuse on re-join, and admission control.

use wolfsheep::multicast::{MulticastPacket, MulticastRouter, MulticastSync};
use wolfsheep::player::PlayerMode;
use wolfsheep::protocol::{
    message_from_bytes, Message, MsgGameState, MsgJoin, MsgPing, MsgSay, MsgType,
    MSG_PLAYERMODE_SHEEP, MSG_PLAYERMODE_WOLF, MSG_RESULT_NOK, MSG_RESULT_OK,
};
use wolfsheep::room::{GameRules, JoinError, RoomRegistry, ServerRoom};
use wolfsheep::server::{admit_connection, ServerInstance};

struct FixedRules;

impl GameRules for FixedRules {
    fn reset(&mut self, _force: bool) {}

    fn apply_move(
        &mut self,
        _mode: PlayerMode,
        _action: u32,
        _token: u32,
        _x: u32,
        _y: u32,
    ) -> Result<(), String> {
        Ok(())
    }

    fn serialize_state(&self) -> MsgGameState {
        MsgGameState::new(vec![0; 35], 0, 0, 0, 0)
    }

    fn merge_state(&mut self, _msg: &MsgGameState, _force: bool) -> Result<bool, String> {
        Ok(true)
    }

    fn recorded_moves_as_text(&self) -> String {
        String::new()
    }
}

fn registry_with(names: &[&str], restricted: bool) -> RoomRegistry<FixedRules> {
    let mut registry = RoomRegistry::new();
    for name in names {
        registry
            .open_room(ServerRoom::new(name.to_string(), FixedRules, restricted))
            .unwrap();
    }
    registry
}

/// Decode every message queued in `out`, in order.
fn decode_all(mut out: &[u8]) -> Vec<MsgType> {
    let mut msgs = Vec::new();
    while !out.is_empty() {
        let (n, m) = message_from_bytes(out).expect("bad bytes in out queue");
        msgs.push(m.expect("incomplete message in out queue"));
        out = &out[n..];
    }
    msgs
}

fn last_result_code(out: &[u8]) -> u32 {
    let msgs = decode_all(out);
    match msgs.last() {
        Some(MsgType::Result(r)) => r.get_result_code(),
        other => panic!("last queued message is not a Result: {:?}", other),
    }
}

#[test]
fn ping_gets_pong_with_running_sequence() {
    let mut registry = registry_with(&["r1"], false);
    let mut handler = ServerInstance::new();
    let mut out = Vec::new();
    let mut bcast = Vec::new();
    handler.push_received(&MsgPing::new().to_bytes());
    handler.push_received(&MsgPing::new().to_bytes());
    handler.pump(&mut registry, &mut out, &mut bcast);
    let msgs = decode_all(&out);
    assert_eq!(msgs.len(), 2);
    match (&msgs[0], &msgs[1]) {
        (MsgType::Pong(a), MsgType::Pong(b)) => {
            assert_eq!(a.header.sequence, 0);
            assert_eq!(b.header.sequence, 1);
        }
        other => panic!("expected two pongs: {:?}", other),
    }
    assert!(bcast.is_empty());
}

#[test]
fn join_and_leave_flow() {
    let mut registry = registry_with(&["r1", "r2"], false);
    let mut handler = ServerInstance::new();
    let mut out = Vec::new();
    let mut bcast = Vec::new();

    let join = MsgJoin::new("r1", "A", MSG_PLAYERMODE_WOLF).unwrap();
    handler.push_received(&join.to_bytes());
    handler.pump(&mut registry, &mut out, &mut bcast);
    assert_eq!(last_result_code(&out), MSG_RESULT_OK);
    assert_eq!(handler.joined_room.as_deref(), Some("r1"));
    assert_eq!(handler.player_name.as_deref(), Some("A"));
    assert_eq!(handler.player_mode, PlayerMode::Wolf);
    assert_eq!(registry.rooms[0].player_list.count(), 1);
    // The updated roster was broadcast, tagged with the room.
    assert!(!bcast.is_empty());
    assert_eq!(bcast[0].meta_data, b"r1".to_vec());

    // Joining a room that does not exist is rejected and changes nothing.
    let mut out2 = Vec::new();
    let bad = MsgJoin::new("nowhere", "A", MSG_PLAYERMODE_WOLF).unwrap();
    handler.push_received(&bad.to_bytes());
    handler.pump(&mut registry, &mut out2, &mut bcast);
    assert_eq!(last_result_code(&out2), MSG_RESULT_NOK);
    assert_eq!(handler.joined_room.as_deref(), Some("r1"));

    // Leaving clears the join state and empties the roster.
    let mut out3 = Vec::new();
    let leave = wolfsheep::protocol::MsgLeave::new();
    handler.push_received(&leave.to_bytes());
    handler.pump(&mut registry, &mut out3, &mut bcast);
    assert_eq!(last_result_code(&out3), MSG_RESULT_OK);
    assert!(handler.joined_room.is_none());
    assert!(handler.player_name.is_none());
    assert_eq!(handler.player_mode, PlayerMode::Spectator);
    assert_eq!(registry.rooms[0].player_list.count(), 0);
}

#[test]
fn name_reuse_on_rejoin() {
    // A player joined as "A"/Wolf re-joins the same room as "A2"/Sheep:
    // the roster afterwards holds exactly one entry, and no "A".
    let mut registry = registry_with(&["r1"], false);
    let mut handler = ServerInstance::new();
    let mut bcast = Vec::new();
    handler
        .do_join(&mut registry, "r1", "A", PlayerMode::Wolf, &mut bcast)
        .unwrap();
    assert_eq!(registry.rooms[0].player_list.count(), 1);
    handler
        .do_join(&mut registry, "r1", "A2", PlayerMode::Sheep, &mut bcast)
        .unwrap();
    let roster = &registry.rooms[0].player_list;
    assert_eq!(roster.count(), 1);
    assert!(roster.find_player_by_name("A").is_none());
    assert_eq!(
        roster.find_player_by_name("A2").map(|p| p.mode),
        Some(PlayerMode::Sheep)
    );
    assert_eq!(handler.player_name.as_deref(), Some("A2"));
}

#[test]
fn rejoin_mode_conflict_in_restricted_room() {
    let mut registry = registry_with(&["r1"], true);
    let mut a = ServerInstance::new();
    let mut b = ServerInstance::new();
    let mut bcast = Vec::new();
    a.do_join(&mut registry, "r1", "A", PlayerMode::Wolf, &mut bcast)
        .unwrap();
    assert_eq!(
        b.do_join(&mut registry, "r1", "B", PlayerMode::Wolf, &mut bcast),
        Err(JoinError::ModeTaken)
    );
    assert!(b.joined_room.is_none());
    // The wolf itself may re-join keeping its mode: its own entry is
    // ignored during the check.
    a.do_join(&mut registry, "r1", "A-new", PlayerMode::Wolf, &mut bcast)
        .unwrap();
    assert_eq!(registry.rooms[0].player_list.count(), 1);
}

#[test]
fn broadcast_scoping() {
    // Connections X and Y are joined to room "r1"; Z is joined to "r2".
    // X sends a packet scoped to "r1" without itself: only Y surfaces it.
    let mut router = MulticastRouter::new();
    let sub_x = router.new_subscriber();
    let sub_y = router.new_subscriber();
    let sub_z = router.new_subscriber();

    let mut x = ServerInstance::new();
    x.joined_room = Some("r1".to_string());
    let mut y = ServerInstance::new();
    y.joined_room = Some("r1".to_string());
    let mut z = ServerInstance::new();
    z.joined_room = Some("r2".to_string());

    let payload = MsgSay::new("A", "state changed").unwrap().to_bytes();
    sub_x.send_broadcast(MulticastPacket {
        data: payload,
        meta_data: b"r1".to_vec(),
        include_self: false,
        sync: MulticastSync::NoSync,
    });
    router.run_router();

    // X gets no copy back from the hub at all.
    assert!(sub_x.receive().is_none());

    // Y surfaces the message on its write path.
    let pack_y = sub_y.receive().expect("y got no packet");
    let mut out_y = Vec::new();
    y.handle_rx_multicast_data(&pack_y, &mut out_y).unwrap();
    let msgs = decode_all(&out_y);
    assert_eq!(msgs.len(), 1);
    assert!(matches!(msgs[0], MsgType::Say(_)));

    // Z receives the packet from the hub but discards it: wrong room.
    let pack_z = sub_z.receive().expect("z got no packet");
    let mut out_z = Vec::new();
    z.handle_rx_multicast_data(&pack_z, &mut out_z).unwrap();
    assert!(out_z.is_empty());
}

#[test]
fn broadcast_include_self() {
    let mut router = MulticastRouter::new();
    let sub_x = router.new_subscriber();
    let _sub_y = router.new_subscriber();
    sub_x.send_broadcast(MulticastPacket {
        data: Vec::new(),
        meta_data: Vec::new(),
        include_self: true,
        sync: MulticastSync::NoSync,
    });
    router.run_router();
    assert!(sub_x.receive().is_some());
}

#[test]
fn global_broadcast_reaches_joined_connections() {
    // A joined connection surfaces a global (empty-tagged) broadcast
    // such as the room list, besides its own room's packets.
    let mut handler = ServerInstance::new();
    handler.joined_room = Some("r1".to_string());
    let room_list = wolfsheep::protocol::MsgRoomList::new(1, 0, "r1")
        .unwrap()
        .to_bytes();
    let global = MulticastPacket {
        data: room_list,
        meta_data: Vec::new(),
        include_self: false,
        sync: MulticastSync::NoSync,
    };
    let mut out = Vec::new();
    handler.handle_rx_multicast_data(&global, &mut out).unwrap();
    assert_eq!(decode_all(&out).len(), 1);
}

#[test]
fn global_broadcast_reaches_unjoined_connections() {
    // An empty room tag is a global broadcast: a connection without a
    // joined room surfaces it; room-scoped packets it discards.
    let mut handler = ServerInstance::new();
    let room_list = wolfsheep::protocol::MsgRoomList::new(1, 0, "r1")
        .unwrap()
        .to_bytes();
    let global = MulticastPacket {
        data: room_list.clone(),
        meta_data: Vec::new(),
        include_self: false,
        sync: MulticastSync::NoSync,
    };
    let mut out = Vec::new();
    handler.handle_rx_multicast_data(&global, &mut out).unwrap();
    assert_eq!(decode_all(&out).len(), 1);

    let scoped = MulticastPacket {
        data: room_list,
        meta_data: b"r1".to_vec(),
        include_self: false,
        sync: MulticastSync::NoSync,
    };
    let mut out = Vec::new();
    handler.handle_rx_multicast_data(&scoped, &mut out).unwrap();
    assert!(out.is_empty());
}

#[test]
fn dead_subscribers_are_pruned() {
    let mut router = MulticastRouter::new();
    let sub_a = router.new_subscriber();
    let sub_b = router.new_subscriber();
    drop(sub_b);
    router.run_router();
    // Only the live subscriber is left; its broadcasts still work.
    sub_a.send_broadcast(MulticastPacket {
        data: Vec::new(),
        meta_data: Vec::new(),
        include_self: true,
        sync: MulticastSync::NoSync,
    });
    router.run_router();
    assert!(sub_a.receive().is_some());
}

#[test]
fn admission_control() {
    // With max_connections = 2, the third simultaneous connection is
    // turned away before any message exchange, and the active count
    // never exceeds 2 once the window settles.
    let max_conns = 2usize;
    let mut active = 0usize;
    let mut admitted = Vec::new();
    for _ in 0..3 {
        let previous = active;
        active += 1;
        if admit_connection(previous, max_conns) {
            admitted.push(true);
        } else {
            // Over the limit: closed immediately, counter released.
            active -= 1;
            admitted.push(false);
        }
    }
    assert_eq!(admitted, vec![true, true, false]);
    assert_eq!(active, 2);
}

#[test]
fn garbage_then_message_is_handled_after_resync() {
    let mut registry = registry_with(&["r1"], false);
    let mut handler = ServerInstance::new();
    let mut out = Vec::new();
    let mut bcast = Vec::new();
    let mut stream = vec![0x5Au8; 21];
    stream.extend_from_slice(&MsgPing::new().to_bytes());
    handler.push_received(&stream);
    handler.pump(&mut registry, &mut out, &mut bcast);
    let msgs = decode_all(&out);
    assert_eq!(msgs.len(), 1);
    assert!(matches!(msgs[0], MsgType::Pong(_)));
    assert!(handler.synced);
}

#[test]
fn say_name_is_overridden() {
    // The name a peer writes into a chat message is replaced with the
    // name it joined under before the chat is forwarded.
    let mut registry = registry_with(&["r1"], false);
    let mut handler = ServerInstance::new();
    let mut out = Vec::new();
    let mut bcast = Vec::new();
    handler
        .do_join(&mut registry, "r1", "real-name", PlayerMode::Wolf, &mut bcast)
        .unwrap();
    bcast.clear();
    let say = MsgSay::new("forged-name", "hello").unwrap();
    handler.push_received(&say.to_bytes());
    handler.pump(&mut registry, &mut out, &mut bcast);
    assert_eq!(last_result_code(&out), MSG_RESULT_OK);
    assert_eq!(bcast.len(), 1);
    assert!(bcast[0].include_self);
    match message_from_bytes(&bcast[0].data).unwrap().1.unwrap() {
        MsgType::Say(s) => {
            assert_eq!(s.get_player_name(), "real-name");
            assert_eq!(s.get_text(), "hello");
        }
        other => panic!("wrong broadcast payload: {:?}", other),
    }
}

#[test]
fn unjoined_room_requests_get_nok() {
    // A room-scoped request while not in a room is an application error:
    // the peer gets a NOK reply and the connection stays usable.
    let mut registry = registry_with(&["r1"], false);
    let mut handler = ServerInstance::new();
    let mut out = Vec::new();
    let mut bcast = Vec::new();
    let reset = wolfsheep::protocol::MsgReset::new();
    handler.push_received(&reset.to_bytes());
    handler.push_received(&MsgPing::new().to_bytes());
    handler.pump(&mut registry, &mut out, &mut bcast);
    let msgs = decode_all(&out);
    assert_eq!(msgs.len(), 2);
    match &msgs[0] {
        MsgType::Result(r) => {
            assert_eq!(r.get_result_code(), MSG_RESULT_NOK);
            assert!(r.is_in_reply_to(&reset));
            assert_eq!(r.get_text(), "Not in a room.");
        }
        other => panic!("expected a NOK reply: {:?}", other),
    }
    assert!(matches!(msgs[1], MsgType::Pong(_)));
    assert!(bcast.is_empty());
    assert_eq!(registry.rooms[0].player_list.count(), 0);
}

#[test]
fn sheep_join_numeric_mode() {
    // The numeric mode from the wire is honoured.
    let mut registry = registry_with(&["r1"], false);
    let mut handler = ServerInstance::new();
    let mut out = Vec::new();
    let mut bcast = Vec::new();
    let join = MsgJoin::new("r1", "S", MSG_PLAYERMODE_SHEEP).unwrap();
    handler.push_received(&join.to_bytes());
    handler.pump(&mut registry, &mut out, &mut bcast);
    assert_eq!(last_result_code(&out), MSG_RESULT_OK);
    assert_eq!(handler.player_mode, PlayerMode::Sheep);
    // An undefined numeric mode is rejected.
    let mut out2 = Vec::new();
    let bad = MsgJoin::new("r1", "T", 9).unwrap();
    handler.push_received(&bad.to_bytes());
    handler.pump(&mut registry, &mut out2, &mut bcast);
    assert_eq!(last_result_code(&out2), MSG_RESULT_NOK);
}

#[test]
fn room_requests_round_trip() {
    let mut registry = registry_with(&["r1"], false);
    let mut handler = ServerInstance::new();
    let mut out = Vec::new();
    let mut bcast = Vec::new();
    handler
        .do_join(&mut registry, "r1", "A", PlayerMode::Wolf, &mut bcast)
        .unwrap();
    bcast.clear();

    // Reset: game state is broadcast to the whole room, then OK.
    handler.push_received(&wolfsheep::protocol::MsgReset::new().to_bytes());
    handler.pump(&mut registry, &mut out, &mut bcast);
    assert_eq!(last_result_code(&out), MSG_RESULT_OK);
    assert_eq!(bcast.len(), 1);
    assert!(bcast[0].include_self);
    assert_eq!(bcast[0].meta_data, b"r1".to_vec());
    assert!(matches!(
        message_from_bytes(&bcast[0].data).unwrap().1.unwrap(),
        MsgType::GameState(_)
    ));

    // A game-state request is answered with the state, no Result.
    let mut out = Vec::new();
    handler.push_received(&wolfsheep::protocol::MsgReqGameState::new().to_bytes());
    handler.pump(&mut registry, &mut out, &mut bcast);
    let msgs = decode_all(&out);
    assert_eq!(msgs.len(), 1);
    assert!(matches!(msgs[0], MsgType::GameState(_)));

    // A roster request is answered with one entry per player.
    let mut out = Vec::new();
    handler.push_received(&wolfsheep::protocol::MsgReqPlayerList::new().to_bytes());
    handler.pump(&mut registry, &mut out, &mut bcast);
    let msgs = decode_all(&out);
    assert_eq!(msgs.len(), 1);
    match &msgs[0] {
        MsgType::PlayerList(p) => {
            assert_eq!(p.get_player_name().unwrap(), "A");
            assert_eq!(p.get_total_count(), 1);
        }
        other => panic!("expected a roster entry: {:?}", other),
    }

    // A move accepted by the rules engine: state broadcast, then OK.
    let mut out = Vec::new();
    bcast.clear();
    handler.push_received(&wolfsheep::protocol::MsgMove::new(0, 1, 2, 3).to_bytes());
    handler.pump(&mut registry, &mut out, &mut bcast);
    assert_eq!(last_result_code(&out), MSG_RESULT_OK);
    assert_eq!(bcast.len(), 1);

    // A record request yields no chunks for an empty record, then OK.
    let mut out = Vec::new();
    handler.push_received(&wolfsheep::protocol::MsgReqRecord::new().to_bytes());
    handler.pump(&mut registry, &mut out, &mut bcast);
    let msgs = decode_all(&out);
    assert_eq!(msgs.len(), 1);
    assert_eq!(last_result_code(&out), MSG_RESULT_OK);

    // Peers may not push roster entries or record chunks themselves.
    let mut out = Vec::new();
    let pl = wolfsheep::protocol::MsgPlayerList::new(1, 0, "x", 0).unwrap();
    handler.push_received(&pl.to_bytes());
    handler.pump(&mut registry, &mut out, &mut bcast);
    assert_eq!(last_result_code(&out), MSG_RESULT_NOK);

    // The room list can be asked for again at any time.
    let mut out = Vec::new();
    handler.push_received(&wolfsheep::protocol::MsgReqRoomList::new().to_bytes());
    handler.pump(&mut registry, &mut out, &mut bcast);
    let msgs = decode_all(&out);
    assert_eq!(msgs.len(), 1);
    assert!(matches!(msgs[0], MsgType::RoomList(_)));
}

#[test]
fn handler_survives_protocol_errors() {
    // A corrupted message desynchronizes the stream; the next clean
    // message brings the connection back.
    let mut registry = registry_with(&["r1"], false);
    let mut handler = ServerInstance::new();
    let mut out = Vec::new();
    let mut bcast = Vec::new();
    let mut bad = MsgPing::new().to_bytes();
    bad[8..12].copy_from_slice(&[0, 0, 0, 99]);
    handler.push_received(&bad);
    handler.pump(&mut registry, &mut out, &mut bcast);
    assert!(out.is_empty());
    assert!(!handler.synced);
    assert!(handler.buffer.is_empty());
    handler.push_received(&MsgPing::new().to_bytes());
    handler.pump(&mut registry, &mut out, &mut bcast);
    assert_eq!(decode_all(&out).len(), 1);
    assert!(handler.synced);
}

#[test]
fn join_with_invalid_name_is_rejected() {
    // A join whose player-name bytes are not UTF-8 is answered NOK and
    // joins nothing.
    let mut registry = registry_with(&["r1"], false);
    let mut handler = ServerInstance::new();
    let mut out = Vec::new();
    let mut bcast = Vec::new();
    let join = MsgJoin::new("r1", "p", MSG_PLAYERMODE_WOLF).unwrap();
    let mut bytes = join.to_bytes();
    // Corrupt the first player-name byte (header, room field, length).
    bytes[32 + 4 + 64 + 4] = 0xFF;
    handler.push_received(&bytes);
    handler.pump(&mut registry, &mut out, &mut bcast);
    assert_eq!(last_result_code(&out), MSG_RESULT_NOK);
    assert!(handler.joined_room.is_none());
    assert_eq!(registry.rooms[0].player_list.count(), 0);
}

#[test]
fn room_list_request_is_answered_in_full() {
    // A room-list request is answered with one entry per room, sorted by
    // name, with total and index framing.
    let mut registry = registry_with(&["zulu", "alpha"], false);
    let mut handler = ServerInstance::new();
    let mut out = Vec::new();
    let mut bcast = Vec::new();
    handler.push_received(&wolfsheep::protocol::MsgReqRoomList::new().to_bytes());
    handler.pump(&mut registry, &mut out, &mut bcast);
    let msgs = decode_all(&out);
    assert_eq!(msgs.len(), 2);
    match (&msgs[0], &msgs[1]) {
        (MsgType::RoomList(a), MsgType::RoomList(b)) => {
            assert_eq!(a.get_room_name().unwrap(), "alpha");
            assert_eq!(b.get_room_name().unwrap(), "zulu");
            assert_eq!(a.get_total_count(), 2);
            assert_eq!(a.get_index(), 0);
            assert_eq!(b.get_index(), 1);
        }
        other => panic!("expected two room-list entries: {:?}", other),
    }
    assert!(bcast.is_empty());
}
