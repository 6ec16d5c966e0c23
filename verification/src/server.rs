//! The per-connection protocol handler: it buffers and resynchronizes
//! the byte stream, decodes messages, dispatches them against the room
//! registry, queues reply bytes for the socket, and queues broadcast
//! packets for the multicast hub. The surrounding I/O loop reads the
//! socket, hands bytes in, and performs the queued writes and sends.

use crate::data_repr::NetError;
use crate::multicast::{MulticastPacket, MulticastSync};
use crate::player::{
    num_to_player_mode, player_mode_to_num, sorted_names, sorted_players, spec_player_mode_num,
    spec_str_le, PlayerMode, PlayerV,
};
use crate::protocol::{
    buffer_skip, message_from_bytes, net_sync, spec_msg_err, spec_msg_incomplete, spec_msg_ok,
    spec_net_sync, Message, MsgGameState, MsgHeader, MsgPlayerList, MsgPong, MsgRecord,
    MsgResult, MsgRoomList, MsgSay, MsgType, MSG_BUFFER_SIZE, MSG_RESULT_NOK, MSG_RESULT_OK,
};
use crate::room::{
    spec_can_add, spec_without_name, GameRules, JoinError, RoomRegistry, ServerRoom,
};
use vstd::prelude::*;
use vstd::string::*;
use vstd::utf8::encode_utf8;

verus! {

/// Why the handler refused to act on a decoded message.
#[derive(Clone, Copy, PartialEq, Eq, Structural, Debug)]
pub enum HandlerError {
    /// A room-scoped message arrived while not joined to any room.
    NotInRoom,
    /// The joined room vanished from the registry.
    RoomGone,
    /// The request was rejected; the peer was told so in a NOK reply.
    Rejected,
    /// A message kind that peers or the hub may not send here.
    Unsupported,
}

impl HandlerError {
    /// Human-readable description, for NOK replies and logs.
    pub fn as_text(&self) -> (r: String)
        ensures
            r@ == match *self {
                HandlerError::NotInRoom => "Not in a room."@,
                HandlerError::RoomGone => "Room not found."@,
                HandlerError::Rejected => "Request rejected."@,
                HandlerError::Unsupported => "Unsupported message."@,
            },
    {
        match self {
            HandlerError::NotInRoom => String::from_str("Not in a room."),
            HandlerError::RoomGone => String::from_str("Room not found."),
            HandlerError::Rejected => String::from_str("Request rejected."),
            HandlerError::Unsupported => String::from_str("Unsupported message."),
        }
    }
}

/// The characters of an optional string.
pub open spec fn spec_opt_str(o: Option<String>) -> Option<Seq<char>> {
    match o {
        Some(s) => Some(s@),
        None => None,
    }
}

/// `new_out` is `old_out` plus exactly one encoded Result message: one
/// whose embedded header echoes the request header `req`, whose code is
/// `code`, and whose text field carries `text`, truncated to the field's
/// capacity and zero-padded. Only the reply's outbound sequence number
/// is left open.
pub open spec fn spec_replied(
    old_out: Seq<u8>,
    new_out: Seq<u8>,
    req: MsgHeader,
    code: u32,
    text: Seq<char>,
) -> bool {
    exists|res: MsgResult|
        {
            let text_bytes = encode_utf8(text);
            &&& (#[trigger] res.enc()).len() > 0
            &&& res.header.magic == crate::protocol::MSG_MAGIC
            &&& res.header.size == crate::protocol::MSG_RESULT_SIZE
            &&& res.header.id == crate::protocol::MSG_ID_RESULT
            &&& res.in_reply_to_header == req
            &&& res.result_code == code
            &&& res.message_len == if text_bytes.len() > crate::protocol::MSG_RESULT_MAXMSGLEN {
                crate::protocol::MSG_RESULT_MAXMSGLEN as u32
            } else {
                text_bytes.len() as u32
            }
            &&& res.message@ == if text_bytes.len() <= crate::protocol::MSG_RESULT_MAXMSGLEN {
                text_bytes + crate::data_repr::zero_bytes(
                    crate::protocol::MSG_RESULT_MAXMSGLEN - text_bytes.len(),
                )
            } else {
                text_bytes.take(crate::protocol::MSG_RESULT_MAXMSGLEN as int)
            }
            &&& (req.wf() ==> res.wf())
            &&& new_out == old_out + res.enc()
            &&& new_out.len() >= old_out.len()
            &&& new_out.take(old_out.len() as int) == old_out
        }
}

/// The output gained, possibly after a run of encoded Record messages,
/// exactly one Result reply correlating with `req`: OK, or NOK with some
/// reason text.
pub open spec fn spec_some_reply(old_out: Seq<u8>, new_out: Seq<u8>, req: MsgHeader) -> bool {
    exists|code: u32, recs: Seq<u8>, t: Seq<char>|
        {
            &&& (code == MSG_RESULT_OK || code == MSG_RESULT_NOK)
            &&& spec_record_stream(recs)
            &&& #[trigger] spec_replied(old_out + recs, new_out, req, code, t)
        }
}

/// The receiving-side scoping rule: a connection surfaces a packet to its
/// own write path iff the packet's room tag matches its joined room, or
/// the tag is empty (a global broadcast, which every connection surfaces).
pub open spec fn spec_wants_packet(joined_room: Option<Seq<char>>, meta: Seq<u8>) -> bool {
    match joined_room {
        Some(jr) => meta == encode_utf8(jr) || meta.len() == 0,
        None => meta.len() == 0,
    }
}

/// The concatenated encodings of a run of messages.
pub open spec fn spec_cat_enc<M: Message>(msgs: Seq<M>) -> Seq<u8>
    decreases msgs.len(),
{
    if msgs.len() == 0 {
        Seq::empty()
    } else {
        msgs[0].enc() + spec_cat_enc(msgs.skip(1))
    }
}

/// Appending a message appends its encoding to the run.
proof fn lemma_cat_enc_push<M: Message>(msgs: Seq<M>, x: M)
    ensures
        spec_cat_enc(msgs.push(x)) == spec_cat_enc(msgs) + x.enc(),
    decreases msgs.len(),
{
    if msgs.len() == 0 {
        assert(msgs.push(x).skip(1) =~= Seq::<M>::empty());
        assert(msgs.push(x)[0] == x);
        assert(spec_cat_enc(msgs.push(x).skip(1)) == Seq::<u8>::empty());
        assert(spec_cat_enc(msgs) == Seq::<u8>::empty());
        assert(spec_cat_enc(msgs.push(x)) =~= spec_cat_enc(msgs) + x.enc());
    } else {
        lemma_cat_enc_push(msgs.skip(1), x);
        assert(msgs.push(x).skip(1) =~= msgs.skip(1).push(x));
        assert(msgs.push(x)[0] == msgs[0]);
        assert(msgs[0].enc() + (spec_cat_enc(msgs.skip(1)) + x.enc()) =~= (msgs[0].enc()
            + spec_cat_enc(msgs.skip(1))) + x.enc());
    }
}

/// `recs` is a run of encoded, well-formed Record messages.
pub open spec fn spec_record_stream(recs: Seq<u8>) -> bool {
    exists|parts: Seq<MsgRecord>|
        {
            &&& recs == #[trigger] spec_cat_enc(parts)
            &&& forall|i: int| 0 <= i < parts.len() ==> (#[trigger] parts[i]).wf()
        }
}

/// An empty run is a (trivial) run of encoded Record messages.
proof fn lemma_empty_record_stream()
    ensures
        spec_record_stream(Seq::<u8>::empty()),
{
    let parts = Seq::<MsgRecord>::empty();
    assert(spec_cat_enc(parts) == Seq::<u8>::empty());
}

/// Compare two byte strings.
fn bytes_eq(a: &[u8], b: &[u8]) -> (r: bool)
    ensures
        r == (a@ == b@),
{
    if a.len() != b.len() {
        proof {
            assert(a@.len() != b@.len());
        }
        return false;
    }
    let n = a.len();
    let mut i: usize = 0;
    while i < n
        invariant
            i <= n,
            n == a@.len() == b@.len(),
            forall|j: int| 0 <= j < i ==> a@[j] == b@[j],
        decreases n - i,
    {
        if a[i] != b[i] {
            return false;
        }
        i += 1;
    }
    proof {
        assert(a@ =~= b@);
    }
    true
}

/// Compare two strings by their characters.
fn str_eq(a: &str, b: &str) -> (r: bool)
    ensures
        r == (a@ == b@),
{
    let r = bytes_eq(a.as_bytes(), b.as_bytes());
    proof {
        if a.spec_bytes() == b.spec_bytes() {
            vstd::utf8::encode_utf8_decode_utf8(a@);
            vstd::utf8::encode_utf8_decode_utf8(b@);
            assert(a@ == b@);
        }
    }
    r
}

/// Admission control: whether a freshly accepted connection may stay,
/// given how many connections were active before it and the configured
/// maximum. A connection over the limit is closed before any message
/// exchange.
pub fn admit_connection(previous_active: usize, max_conns: usize) -> (r: bool)
    ensures
        r == (previous_active < max_conns),
{
    previous_active < max_conns
}

/// Every roster name fits the wire field's capacity.
pub open spec fn spec_names_fit(roster: Seq<PlayerV>) -> bool {
    forall|i: int|
        0 <= i < roster.len() ==> encode_utf8((#[trigger] roster[i]).name).len()
            <= crate::protocol::MSG_MAXPLAYERNAME
}

/// Every room name fits the wire field's capacity.
pub open spec fn spec_room_names_fit<R: GameRules>(rooms: Seq<ServerRoom<R>>) -> bool {
    forall|i: int|
        0 <= i < rooms.len() ==> encode_utf8((#[trigger] rooms[i]).name@).len()
            <= crate::protocol::MSG_MAXROOMNAME
}

/// An element of one of two multiset-equal runs also stands in the other.
proof fn lemma_multiset_member<T>(a: Seq<T>, b: Seq<T>, i: int)
    requires
        a.to_multiset() == b.to_multiset(),
        0 <= i < a.len(),
    ensures
        exists|j: int| 0 <= j < b.len() && b[j] == a[i],
{
    a.to_multiset_ensures();
    b.to_multiset_ensures();
    assert(a.contains(a[i]));
    assert(a.to_multiset().count(a[i]) > 0);
    assert(b.contains(a[i]));
}

/// `new_b` is `old_b` plus one packet per entry of `roster`: the roster
/// sorted by name, one encoded roster message per entry carrying the
/// total count and its index, every packet tagged with the room's name,
/// with the given include-self flag, and synchronized to the router
/// exactly when the sender itself is excluded.
pub open spec fn spec_roster_broadcast(
    roster: Seq<PlayerV>,
    room_name: Seq<char>,
    include_self: bool,
    old_b: Seq<MulticastPacket>,
    new_b: Seq<MulticastPacket>,
) -> bool {
    exists|sent: Seq<MsgPlayerList>, sp: Seq<PlayerV>|
        #![trigger sent.len(), sp.len()]
        {
            &&& new_b.len() == old_b.len() + roster.len()
            &&& sent.len() == roster.len()
            &&& sp.len() == roster.len()
            &&& sp.to_multiset() == roster.to_multiset()
            &&& (forall|i: int, j: int|
                0 <= i < j < sp.len() ==> spec_str_le(#[trigger] sp[i].name, #[trigger] sp[j].name))
            &&& (forall|k: int| 0 <= k < old_b.len() ==> new_b[k] == old_b[k])
            &&& forall|k: int|
                0 <= k < sent.len() ==> {
                    let p = #[trigger] new_b[old_b.len() + k];
                    &&& p.data@ == sent[k].enc()
                    &&& p.meta_data@ == encode_utf8(room_name)
                    &&& p.include_self == include_self
                    &&& p.sync == if include_self {
                        MulticastSync::NoSync
                    } else {
                        MulticastSync::ToRouter
                    }
                    &&& sent[k].wf()
                    &&& sent[k].total_count == roster.len()
                    &&& sent[k].index == k
                    &&& sent[k].player_name_len == encode_utf8(sp[k].name).len()
                    &&& sent[k].player_name@.take(encode_utf8(sp[k].name).len() as int)
                        == encode_utf8(sp[k].name)
                    &&& sent[k].player_mode == spec_player_mode_num(sp[k].mode)
                }
        }
}

/// Handler state of one accepted connection: its outbound sequence
/// counter, what it joined as, the receive buffer, and whether the
/// stream is synchronized.
pub struct ServerInstance {
    pub sequence: u32,
    pub joined_room: Option<String>,
    pub player_name: Option<String>,
    pub player_mode: PlayerMode,
    pub buffer: Vec<u8>,
    pub synced: bool,
}

impl ServerInstance {
    pub fn new() -> (r: ServerInstance)
        ensures
            r.sequence == 0,
            r.joined_room is None,
            r.player_name is None,
            r.player_mode == PlayerMode::Spectator,
            r.buffer@.len() == 0,
            r.synced == false,
    {
        ServerInstance {
            sequence: 0,
            joined_room: None,
            player_name: None,
            player_mode: PlayerMode::Spectator,
            buffer: Vec::new(),
            synced: false,
        }
    }

    /// Number the message with this connection's next outbound sequence
    /// and queue its encoding for the socket.
    pub fn send_msg<M: Message>(&mut self, msg: &mut M, out: &mut Vec<u8>)
        ensures
            *final(msg) == old(msg).with_sequence(old(self).sequence),
            final(msg).hdr() == old(msg).hdr().with_seq(old(self).sequence),
            final(out)@ == old(out)@ + final(msg).enc(),
            final(self).sequence == if old(self).sequence == u32::MAX {
                0u32
            } else {
                (old(self).sequence + 1) as u32
            },
            final(self).joined_room == old(self).joined_room,
            final(self).player_name == old(self).player_name,
            final(self).player_mode == old(self).player_mode,
            final(self).buffer == old(self).buffer,
            final(self).synced == old(self).synced,
    {
        msg.set_sequence(self.sequence);
        let bytes = msg.to_bytes();
        out.extend_from_slice(bytes.as_slice());
        self.sequence = self.sequence.wrapping_add(1);
        proof {
            assert(out@ =~= old(out)@ + final(msg).enc());
        }
    }

    /// Queue exactly one Result reply correlating with `msg`, carrying
    /// the given code and text.
    pub fn reply_result<M: Message>(
        &mut self,
        msg: &M,
        result_code: u32,
        text: &str,
        out: &mut Vec<u8>,
    )
        ensures
            spec_replied(old(out)@, final(out)@, msg.hdr(), result_code, text@),
            final(self).sequence == if old(self).sequence == u32::MAX {
                0u32
            } else {
                (old(self).sequence + 1) as u32
            },
            final(self).joined_room == old(self).joined_room,
            final(self).player_name == old(self).player_name,
            final(self).player_mode == old(self).player_mode,
            final(self).buffer == old(self).buffer,
            final(self).synced == old(self).synced,
    {
        let header = *msg.get_header();
        self.reply_result_to(header, result_code, text, out);
    }

    /// Queue exactly one Result reply that echoes the given request
    /// header, carrying the given code and text.
    pub fn reply_result_to(&mut self, req: MsgHeader, result_code: u32, text: &str, out: &mut Vec<
        u8,
    >)
        ensures
            spec_replied(old(out)@, final(out)@, req, result_code, text@),
            final(self).sequence == if old(self).sequence == u32::MAX {
                0u32
            } else {
                (old(self).sequence + 1) as u32
            },
            final(self).joined_room == old(self).joined_room,
            final(self).player_name == old(self).player_name,
            final(self).player_mode == old(self).player_mode,
            final(self).buffer == old(self).buffer,
            final(self).synced == old(self).synced,
    {
        let mut res = match MsgResult::new_to_header(req, result_code, text) {
            Ok(r) => r,
            Err(_) => {
                proof {
                    assert(false);
                }
                vstd::pervasive::unreached()
            },
        };
        self.send_msg(&mut res, out);
        proof {
            let fres = res;
            assert(fres.enc().len() > 0);
            assert(out@ == old(out)@ + fres.enc());
            assert(out@.take(old(out)@.len() as int) =~= old(out)@);
        }
    }

    /// One roster message per entry of the room's roster, sorted by
    /// player name, each carrying the total count and its index.
    pub fn gen_player_list_msgs<R: GameRules>(&self, room: &ServerRoom<R>) -> (r: Result<
        Vec<MsgPlayerList>,
        NetError,
    >)
        requires
            room.player_list@.len() <= u32::MAX,
        ensures
            r matches Ok(v) ==> {
                &&& v@.len() == room.player_list@.len()
                &&& exists|sp: Seq<PlayerV>|
                    {
                        &&& (#[trigger] sp.len()) == v@.len()
                        &&& sp.to_multiset() == room.player_list@.to_multiset()
                        &&& forall|i: int, j: int|
                            0 <= i < j < sp.len() ==> spec_str_le(
                                #[trigger] sp[i].name,
                                #[trigger] sp[j].name,
                            )
                        &&& forall|i: int|
                            0 <= i < v@.len() ==> {
                                &&& (#[trigger] v@[i]).wf()
                                &&& v@[i].total_count == v@.len()
                                &&& v@[i].index == i
                                &&& v@[i].player_name_len == encode_utf8(sp[i].name).len()
                                &&& v@[i].player_name@.take(encode_utf8(sp[i].name).len() as int)
                                    == encode_utf8(sp[i].name)
                                &&& v@[i].player_mode == spec_player_mode_num(sp[i].mode)
                            }
                    }
            },
            r matches Err(e) ==> e == NetError::StringTooLong,
            r is Ok <==> spec_names_fit(room.player_list@),
    {
        let sorted = sorted_players(&room.player_list.players);
        let total = sorted.len();
        let mut messages: Vec<MsgPlayerList> = Vec::new();
        let mut i: usize = 0;
        let ghost sp = crate::player::players_view(sorted@);
        while i < total
            invariant
                i <= total,
                total == sorted@.len(),
                sp == crate::player::players_view(sorted@),
                sp.to_multiset() == room.player_list@.to_multiset(),
                messages@.len() == i,
                total <= u32::MAX,
                forall|k: int|
                    0 <= k < i ==> {
                        &&& (#[trigger] messages@[k]).wf()
                        &&& messages@[k].total_count == total
                        &&& messages@[k].index == k
                        &&& messages@[k].player_name_len == encode_utf8(sp[k].name).len()
                        &&& messages@[k].player_name@.take(encode_utf8(sp[k].name).len() as int)
                            == encode_utf8(sp[k].name)
                        &&& messages@[k].player_mode == spec_player_mode_num(sp[k].mode)
                    },
            decreases total - i,
        {
            let mode_num = player_mode_to_num(sorted[i].mode);
            let msg = match MsgPlayerList::new(
                total as u32,
                i as u32,
                sorted[i].name.as_str(),
                mode_num,
            ) {
                Ok(m) => m,
                Err(_) => {
                    proof {
                        assert(sp[i as int] == sorted@[i as int]@);
                        assert(crate::player::players_view(room.player_list.players@)
                            == room.player_list@);
                        lemma_multiset_member(sp, room.player_list@, i as int);
                        let j = choose|j: int|
                            0 <= j < room.player_list@.len() && room.player_list@[j] == sp[i as int];
                        assert(encode_utf8(room.player_list@[j].name).len()
                            > crate::protocol::MSG_MAXPLAYERNAME);
                    }
                    return Err(NetError::StringTooLong);
                },
            };
            proof {
                assert(sp[i as int] == sorted@[i as int]@);
                assert(msg.player_name@.take(encode_utf8(sp[i as int].name).len() as int)
                    =~= encode_utf8(sp[i as int].name));
            }
            messages.push(msg);
            i += 1;
        }
        proof {
            assert forall|a: int, b: int| 0 <= a < b < sp.len() implies spec_str_le(
                #[trigger] sp[a].name,
                #[trigger] sp[b].name,
            ) by {
                assert(sp[a] == sorted@[a]@);
                assert(sp[b] == sorted@[b]@);
                assert(spec_str_le(sorted@[a].name@, sorted@[b].name@));
            }
            assert(crate::player::players_view(room.player_list.players@)
                == room.player_list@);
            assert(sp.len() == messages@.len());
            assert forall|j: int| 0 <= j < room.player_list@.len() implies encode_utf8(
                (#[trigger] room.player_list@[j]).name,
            ).len() <= crate::protocol::MSG_MAXPLAYERNAME by {
                lemma_multiset_member(room.player_list@, sp, j);
                let k = choose|k: int| 0 <= k < sp.len() && sp[k] == room.player_list@[j];
                assert(messages@[k].player_name_len == encode_utf8(sp[k].name).len());
                assert(messages@[k].wf());
            }
        }
        Ok(messages)
    }

    /// One room-list message per open room, sorted by room name, each
    /// carrying the total count and its index.
    pub fn gen_room_list_msgs<R: GameRules>(&self, registry: &RoomRegistry<R>) -> (r: Result<
        Vec<MsgRoomList>,
        NetError,
    >)
        requires
            registry.rooms@.len() <= u32::MAX,
        ensures
            r matches Ok(v) ==> {
                &&& v@.len() == registry.rooms@.len()
                &&& exists|sn: Seq<Seq<char>>|
                    {
                        &&& (#[trigger] sn.len()) == v@.len()
                        &&& sn.to_multiset() == registry.rooms@.map_values(
                            |rm: ServerRoom<R>| rm.name@,
                        ).to_multiset()
                        &&& forall|i: int, j: int|
                            0 <= i < j < sn.len() ==> spec_str_le(
                                #[trigger] sn[i],
                                #[trigger] sn[j],
                            )
                        &&& forall|i: int|
                            0 <= i < v@.len() ==> {
                                &&& (#[trigger] v@[i]).wf()
                                &&& v@[i].total_count == v@.len()
                                &&& v@[i].index == i
                                &&& v@[i].room_name_len == encode_utf8(sn[i]).len()
                                &&& v@[i].room_name@.take(encode_utf8(sn[i]).len() as int)
                                    == encode_utf8(sn[i])
                            }
                    }
            },
            r matches Err(e) ==> e == NetError::StringTooLong,
            r is Ok <==> spec_room_names_fit(registry.rooms@),
    {
        let names = registry.room_names();
        let sorted = sorted_names(names);
        let total = sorted.len();
        let mut messages: Vec<MsgRoomList> = Vec::new();
        let mut i: usize = 0;
        let ghost rn = registry.rooms@.map_values(|rm: ServerRoom<R>| rm.name@);
        let ghost sn = sorted@.map_values(|s: String| s@);
        proof {
            assert(names@.map_values(|s: String| s@) =~= rn);
        }
        while i < total
            invariant
                i <= total,
                total == sorted@.len(),
                sn == sorted@.map_values(|s: String| s@),
                rn == registry.rooms@.map_values(|rm: ServerRoom<R>| rm.name@),
                sn.to_multiset() == rn.to_multiset(),
                messages@.len() == i,
                total <= u32::MAX,
                forall|k: int|
                    0 <= k < i ==> {
                        &&& (#[trigger] messages@[k]).wf()
                        &&& messages@[k].total_count == total
                        &&& messages@[k].index == k
                        &&& messages@[k].room_name_len == encode_utf8(sn[k]).len()
                        &&& messages@[k].room_name@.take(encode_utf8(sn[k]).len() as int)
                            == encode_utf8(sn[k])
                    },
            decreases total - i,
        {
            let msg = match MsgRoomList::new(total as u32, i as u32, sorted[i].as_str()) {
                Ok(m) => m,
                Err(_) => {
                    proof {
                        assert(sn[i as int] == sorted@[i as int]@);
                        lemma_multiset_member(sn, rn, i as int);
                        let j = choose|j: int| 0 <= j < rn.len() && rn[j] == sn[i as int];
                        assert(encode_utf8(registry.rooms@[j].name@).len()
                            > crate::protocol::MSG_MAXROOMNAME);
                    }
                    return Err(NetError::StringTooLong);
                },
            };
            proof {
                assert(sn[i as int] == sorted@[i as int]@);
                assert(msg.room_name@.take(encode_utf8(sn[i as int]).len() as int) =~= encode_utf8(
                    sn[i as int],
                ));
            }
            messages.push(msg);
            i += 1;
        }
        proof {
            assert forall|a: int, b: int| 0 <= a < b < sn.len() implies spec_str_le(
                #[trigger] sn[a],
                #[trigger] sn[b],
            ) by {
                assert(sn[a] == sorted@[a]@);
                assert(sn[b] == sorted@[b]@);
            }
            assert(sn.len() == messages@.len());
            assert(names@.map_values(|s: String| s@) =~= rn);
            assert(sn.to_multiset() == rn.to_multiset());
            assert forall|j: int| 0 <= j < registry.rooms@.len() implies encode_utf8(
                (#[trigger] registry.rooms@[j]).name@,
            ).len() <= crate::protocol::MSG_MAXROOMNAME by {
                assert(rn[j] == registry.rooms@[j].name@);
                lemma_multiset_member(rn, sn, j);
                let k = choose|k: int| 0 <= k < sn.len() && sn[k] == rn[j];
                assert(messages@[k].room_name_len == encode_utf8(sn[k]).len());
                assert(messages@[k].wf());
            }
        }
        Ok(messages)
    }

    /// Queue one packet carrying `data`, scoped to `room_name` (or global
    /// when none), for the multicast hub.
    pub fn send_broadcast(
        &self,
        data: Vec<u8>,
        room_name: Option<&str>,
        include_self: bool,
        sync: MulticastSync,
        bcast: &mut Vec<MulticastPacket>,
    )
        ensures
            final(bcast)@.len() == old(bcast)@.len() + 1,
            forall|k: int|
                0 <= k < old(bcast)@.len() ==> final(bcast)@[k] == old(bcast)@[k],
            ({
                let p = final(bcast)@.last();
                &&& p.data@ == data@
                &&& p.meta_data@ == match room_name {
                    Some(n) => encode_utf8(n@),
                    None => Seq::<u8>::empty(),
                }
                &&& p.include_self == include_self
                &&& p.sync == sync
            }),
    {
        let meta_data: Vec<u8> = match room_name {
            Some(n) => {
                let b = n.as_bytes();
                let v = crate::data_repr::extract_padded(b, 0, b.len(), b.len());
                proof {
                    assert(v@ =~= b@);
                }
                v
            },
            None => Vec::new(),
        };
        bcast.push(MulticastPacket { data, meta_data, include_self, sync });
    }

    /// Broadcast the room's current game state to every connection in the
    /// room, the sender included.
    pub fn broadcast_game_state<R: GameRules>(
        &self,
        room: &ServerRoom<R>,
        bcast: &mut Vec<MulticastPacket>,
    )
        ensures
            final(bcast)@.len() == old(bcast)@.len() + 1,
            forall|k: int|
                0 <= k < old(bcast)@.len() ==> final(bcast)@[k] == old(bcast)@[k],
            ({
                let p = final(bcast)@.last();
                &&& p.meta_data@ == encode_utf8(room.name@)
                &&& p.include_self == true
                &&& p.sync == MulticastSync::NoSync
            }),
    {
        let game_state = room.game_state.serialize_state();
        let data = game_state.to_bytes();
        self.send_broadcast(data, Some(room.name.as_str()), true, MulticastSync::NoSync, bcast);
    }

    /// Broadcast the room's roster, one message per entry. Without
    /// `include_self` the send is synchronized to the router, so that a
    /// directly following dependent broadcast cannot overtake it.
    pub fn broadcast_player_list<R: GameRules>(
        &self,
        room: &ServerRoom<R>,
        include_self: bool,
        bcast: &mut Vec<MulticastPacket>,
    ) -> (r: Result<(), NetError>)
        requires
            room.player_list@.len() <= u32::MAX,
        ensures
            final(bcast)@.len() >= old(bcast)@.len(),
            forall|k: int|
                0 <= k < old(bcast)@.len() ==> final(bcast)@[k] == old(bcast)@[k],
            forall|k: int|
                old(bcast)@.len() <= k < final(bcast)@.len() ==> {
                    let p = #[trigger] final(bcast)@[k];
                    &&& p.meta_data@ == encode_utf8(room.name@)
                    &&& p.include_self == include_self
                },
            r is Ok <==> spec_names_fit(room.player_list@),
            r is Err ==> final(bcast)@ == old(bcast)@,
            r is Ok ==> spec_roster_broadcast(
                room.player_list@,
                room.name@,
                include_self,
                old(bcast)@,
                final(bcast)@,
            ),
    {
        let messages = match self.gen_player_list_msgs(room) {
            Ok(m) => m,
            Err(e) => {
                return Err(e);
            },
        };
        let ghost msgs0 = messages@;
        let ghost sp = choose|sp: Seq<PlayerV>|
            {
                &&& sp.len() == msgs0.len()
                &&& sp.to_multiset() == room.player_list@.to_multiset()
                &&& (forall|i: int, j: int|
                    0 <= i < j < sp.len() ==> spec_str_le(
                        #[trigger] sp[i].name,
                        #[trigger] sp[j].name,
                    ))
                &&& forall|i: int|
                    0 <= i < msgs0.len() ==> {
                        &&& (#[trigger] msgs0[i]).wf()
                        &&& msgs0[i].total_count == msgs0.len()
                        &&& msgs0[i].index == i
                        &&& msgs0[i].player_name_len == encode_utf8(sp[i].name).len()
                        &&& msgs0[i].player_name@.take(encode_utf8(sp[i].name).len() as int)
                            == encode_utf8(sp[i].name)
                        &&& msgs0[i].player_mode == spec_player_mode_num(sp[i].mode)
                    }
            };
        let sync = if include_self {
            MulticastSync::NoSync
        } else {
            MulticastSync::ToRouter
        };
        let n = messages.len();
        let mut i: usize = 0;
        while i < n
            invariant
                i <= n,
                n == messages@.len(),
                messages@ == msgs0,
                bcast@.len() == old(bcast)@.len() + i,
                sync == if include_self {
                    MulticastSync::NoSync
                } else {
                    MulticastSync::ToRouter
                },
                forall|k: int| 0 <= k < old(bcast)@.len() ==> bcast@[k] == old(bcast)@[k],
                forall|k: int|
                    0 <= k < i ==> {
                        let p = #[trigger] bcast@[old(bcast)@.len() + k];
                        &&& p.data@ == msgs0[k].enc()
                        &&& p.meta_data@ == encode_utf8(room.name@)
                        &&& p.include_self == include_self
                        &&& p.sync == sync
                    },
            decreases n - i,
        {
            let data = messages[i].to_bytes();
            self.send_broadcast(data, Some(room.name.as_str()), include_self, sync, bcast);
            i += 1;
        }
        proof {
            assert forall|k: int| old(bcast)@.len() <= k < bcast@.len() implies {
                let p = #[trigger] bcast@[k];
                &&& p.meta_data@ == encode_utf8(room.name@)
                &&& p.include_self == include_self
            } by {
                let k2 = k - old(bcast)@.len();
                assert(bcast@[old(bcast)@.len() + k2].meta_data@ == encode_utf8(room.name@));
                assert(bcast@[old(bcast)@.len() + k2].include_self == include_self);
            }
            assert(spec_roster_broadcast(
                room.player_list@,
                room.name@,
                include_self,
                old(bcast)@,
                bcast@,
            )) by {
                assert(msgs0.len() == room.player_list@.len());
                assert(sp.len() == room.player_list@.len());
            }
        }
        Ok(())
    }

    /// Leave the joined room, if any: the caller's roster entry is
    /// removed from whichever room holds it, the updated roster is
    /// broadcast to the remaining members, and the join state is cleared.
    pub fn do_leave<R: GameRules>(
        &mut self,
        registry: &mut RoomRegistry<R>,
        bcast: &mut Vec<MulticastPacket>,
    )
        requires
            old(registry).wf(),
        ensures
            final(registry).wf(),
            final(self).sequence == old(self).sequence,
            final(self).buffer == old(self).buffer,
            final(self).synced == old(self).synced,
            old(self).player_name is None ==> *final(self) == *old(self) && *final(registry)
                == *old(registry) && final(bcast)@ == old(bcast)@,
            old(self).player_name is Some ==> {
                &&& final(self).player_name is None
                &&& final(self).player_mode == PlayerMode::Spectator
                &&& final(self).joined_room is None
                &&& match old(self).joined_room {
                    None => *final(registry) == *old(registry) && final(bcast)@ == old(bcast)@,
                    Some(jr) => {
                        &&& final(registry).rooms@.len() == old(registry).rooms@.len()
                        &&& forall|i: int|
                            0 <= i < old(registry).rooms@.len() ==> {
                                let oldr = old(registry).rooms@[i];
                                let newr = #[trigger] final(registry).rooms@[i];
                                &&& newr.name == oldr.name
                                &&& newr.restrict_player_modes == oldr.restrict_player_modes
                                &&& newr.game_state == oldr.game_state
                                &&& if oldr.name@ == jr@ {
                                    newr.player_list@ == spec_without_name(
                                        oldr.player_list@,
                                        old(self).player_name.unwrap()@,
                                    )
                                } else {
                                    newr.player_list == oldr.player_list
                                }
                            }
                        &&& final(bcast)@.len() >= old(bcast)@.len()
                        &&& forall|k: int|
                            0 <= k < old(bcast)@.len() ==> final(bcast)@[k] == old(bcast)@[k]
                        &&& forall|k: int|
                            old(bcast)@.len() <= k < final(bcast)@.len() ==> {
                                let p = #[trigger] final(bcast)@[k];
                                p.meta_data@ == encode_utf8(jr@) && !p.include_self
                            }
                        &&& forall|i: int|
                            (0 <= i < old(registry).rooms@.len() && (#[trigger] old(registry).rooms@[i]).name@ == jr@) ==> {
                                let roster1 = spec_without_name(
                                    old(registry).rooms@[i].player_list@,
                                    old(self).player_name.unwrap()@,
                                );
                                &&& (spec_names_fit(roster1) ==> spec_roster_broadcast(
                                    roster1,
                                    jr@,
                                    false,
                                    old(bcast)@,
                                    final(bcast)@,
                                ))
                                &&& (!spec_names_fit(roster1) ==> final(bcast)@ == old(bcast)@)
                            }
                        &&& (forall|i: int|
                            0 <= i < old(registry).rooms@.len() ==> (#[trigger] old(registry).rooms@[i]).name@ != jr@) ==> final(bcast)@ == old(bcast)@
                    },
                }
            },
    {
        let player_name = match self.player_name.take() {
            Some(n) => n,
            None => {
                return ;
            },
        };
        let joined = self.joined_room.take();
        match joined {
            Some(room_name) => {
                match registry.find_room(room_name.as_str()) {
                    Some(idx) => {
                        let ghost old_rooms = registry.rooms@;
                        let mut room = registry.rooms.remove(idx);
                        room.remove_player(player_name.as_str());
                        let _ = self.broadcast_player_list(&room, false, bcast);
                        registry.rooms.insert(idx, room);
                        proof {
                            assert(final(registry).rooms@ =~= old_rooms.update(
                                idx as int,
                                final(registry).rooms@[idx as int],
                            ));
                        }
                    },
                    None => {},
                }
            },
            None => {},
        }
        self.player_mode = PlayerMode::Spectator;
    }

    /// Join a room: validate against the target roster (ignoring the
    /// caller's own entry when it re-joins the same room), then leave the
    /// old room, insert the new entry, record the joined room, and
    /// broadcast the updated roster. On failure nothing changes.
    pub fn do_join<R: GameRules>(
        &mut self,
        registry: &mut RoomRegistry<R>,
        room_name: &str,
        player_name: &str,
        player_mode: PlayerMode,
        bcast: &mut Vec<MulticastPacket>,
    ) -> (r: Result<(), JoinError>)
        requires
            old(registry).wf(),
        ensures
            final(registry).wf(),
            final(self).sequence == old(self).sequence,
            final(self).buffer == old(self).buffer,
            final(self).synced == old(self).synced,
            // the decision
            (forall|i: int|
                0 <= i < old(registry).rooms@.len() ==> (#[trigger] old(registry).rooms@[i]).name@ != room_name@) ==> r == Err::<(), JoinError>(
                JoinError::RoomNotFound,
            ),
            forall|idx: int|
                0 <= idx < old(registry).rooms@.len() && (#[trigger] old(registry).rooms@[idx]).name@ == room_name@ ==> r == spec_can_add(
                    if old(self).joined_room matches Some(jr) && jr@ == room_name@ && old(self).player_name is Some {
                        spec_without_name(
                            old(registry).rooms@[idx].player_list@,
                            old(self).player_name.unwrap()@,
                        )
                    } else {
                        old(registry).rooms@[idx].player_list@
                    },
                    old(registry).rooms@[idx].restrict_player_modes,
                    player_name@,
                    player_mode,
                ),
            // on failure nothing changes
            r is Err ==> *final(self) == *old(self) && *final(registry) == *old(registry)
                && final(bcast)@ == old(bcast)@,
            // on success: join state and rosters
            r is Ok ==> {
                &&& final(self).joined_room matches Some(njr) && njr@ == room_name@
                &&& final(self).player_name matches Some(npn) && npn@ == player_name@
                &&& final(self).player_mode == player_mode
                &&& final(registry).rooms@.len() == old(registry).rooms@.len()
                &&& forall|i: int|
                    0 <= i < old(registry).rooms@.len() ==> {
                        let oldr = old(registry).rooms@[i];
                        let newr = #[trigger] final(registry).rooms@[i];
                        &&& newr.name == oldr.name
                        &&& newr.restrict_player_modes == oldr.restrict_player_modes
                        &&& newr.game_state == oldr.game_state
                        &&& if oldr.name@ == room_name@ {
                            newr.player_list@ == (match old(self).joined_room {
                                Some(jr) => if jr@ == room_name@ && old(self).player_name is Some {
                                    spec_without_name(
                                        oldr.player_list@,
                                        old(self).player_name.unwrap()@,
                                    )
                                } else {
                                    oldr.player_list@
                                },
                                None => oldr.player_list@,
                            }).push(
                                PlayerV { name: player_name@, mode: player_mode, is_self: false },
                            )
                        } else if old(self).joined_room matches Some(jr) && oldr.name@ == jr@
                            && old(self).player_name is Some {
                            newr.player_list@ == spec_without_name(
                                oldr.player_list@,
                                old(self).player_name.unwrap()@,
                            )
                        } else {
                            newr.player_list == oldr.player_list
                        }
                    }
                &&& final(bcast)@.len() >= old(bcast)@.len()
                &&& forall|k: int|
                    0 <= k < old(bcast)@.len() ==> final(bcast)@[k] == old(bcast)@[k]
                &&& forall|k: int|
                    old(bcast)@.len() <= k < final(bcast)@.len() ==> {
                        let p = #[trigger] final(bcast)@[k];
                        p.meta_data@ == encode_utf8(room_name@) || (old(self).joined_room matches Some(jr) && p.meta_data@ == encode_utf8(jr@))
                    }
                &&& forall|i: int|
                    (0 <= i < old(registry).rooms@.len() && (#[trigger] old(registry).rooms@[i]).name@ == room_name@ && spec_names_fit(
                        final(registry).rooms@[i].player_list@,
                    )) ==> exists|mid: Seq<MulticastPacket>|
                        {
                            &&& (#[trigger] mid.len()) >= old(bcast)@.len()
                            &&& mid.take(old(bcast)@.len() as int) == old(bcast)@
                            &&& spec_roster_broadcast(
                                final(registry).rooms@[i].player_list@,
                                room_name@,
                                true,
                                mid,
                                final(bcast)@,
                            )
                        }
            },
    {
        let idx = match registry.find_room(room_name) {
            Some(idx) => idx,
            None => {
                return Err(JoinError::RoomNotFound);
            },
        };

        // While re-joining the same room, ignore the caller's own old
        // roster entry during the checks.
        let same_room = match &self.joined_room {
            Some(jr) => str_eq(jr.as_str(), room_name),
            None => false,
        };
        let ghost decision_roster = if old(self).joined_room matches Some(jr) && jr@ == room_name@
            && old(self).player_name is Some {
            spec_without_name(
                old(registry).rooms@[idx as int].player_list@,
                old(self).player_name.unwrap()@,
            )
        } else {
            old(registry).rooms@[idx as int].player_list@
        };
        let decision = match (same_room, &self.player_name) {
            (true, Some(old_name)) => {
                let pn = old_name.as_str();
                registry.rooms[idx].can_add_player(player_name, player_mode, Some(pn))
            },
            _ => registry.rooms[idx].can_add_player(player_name, player_mode, None),
        };
        match decision {
            Ok(()) => {},
            Err(e) => {
                return Err(e);
            },
        }

        // Remove the old roster entry, wherever it is, and broadcast the
        // rosters it left.
        self.do_leave(registry, bcast);

        // Join the new room.
        let ghost rooms_before_add = registry.rooms@;
        let mut room = registry.rooms.remove(idx);
        match room.add_player(player_name, player_mode) {
            Ok(()) => {
                self.player_mode = player_mode;
                self.player_name = Some(player_name.to_owned());
                self.joined_room = Some(room.name.clone());
                let ghost mid = bcast@;
                let _ = self.broadcast_player_list(&room, true, bcast);
                registry.rooms.insert(idx, room);
                proof {
                    assert(final(registry).rooms@ =~= rooms_before_add.update(
                        idx as int,
                        final(registry).rooms@[idx as int],
                    ));
                    assert(mid.len() >= old(bcast)@.len());
                    assert(mid.take(old(bcast)@.len() as int) =~= old(bcast)@);
                }
                Ok(())
            },
            Err(_) => {
                // The check above admitted the player against exactly the
                // roster that the leave step produced, so a rejection
                // here cannot happen.
                proof {
                    assert(false);
                }
                vstd::pervasive::unreached()
            },
        }
    }

    /// The header of whichever message the union holds.
    fn msg_type_header(msg: &MsgType) -> (r: &MsgHeader)
        ensures
            *r == crate::protocol::msg_hdr(*msg),
    {
        match msg {
            MsgType::Nop(x) => &x.header,
            MsgType::Result(x) => &x.header,
            MsgType::Ping(x) => &x.header,
            MsgType::Pong(x) => &x.header,
            MsgType::Join(x) => &x.header,
            MsgType::Leave(x) => &x.header,
            MsgType::Reset(x) => &x.header,
            MsgType::ReqRoomList(x) => &x.header,
            MsgType::RoomList(x) => &x.header,
            MsgType::ReqPlayerList(x) => &x.header,
            MsgType::PlayerList(x) => &x.header,
            MsgType::ReqGameState(x) => &x.header,
            MsgType::GameState(x) => &x.header,
            MsgType::Move(x) => &x.header,
            MsgType::Say(x) => &x.header,
            MsgType::ReqRecord(x) => &x.header,
            MsgType::Record(x) => &x.header,
        }
    }

    /// Dispatch a message that concerns the joined room. Requests get
    /// exactly one Result reply; state changes are broadcast to the room.
    /// Without a joined room, or with a joined room that no longer
    /// exists, the peer is told so in a NOK reply and nothing else
    /// happens.
    #[verifier::rlimit(100)]
    #[verifier::spinoff_prover]
    pub fn handle_rx_room_message<R: GameRules>(
        &mut self,
        registry: &mut RoomRegistry<R>,
        msg_type: MsgType,
        out: &mut Vec<u8>,
        bcast: &mut Vec<MulticastPacket>,
    ) -> (r: Result<(), HandlerError>)
        requires
            old(registry).wf(),
            crate::protocol::msg_bufs_wf(msg_type),
        ensures
            final(registry).wf(),
            final(out)@.len() >= old(out)@.len(),
            final(out)@.take(old(out)@.len() as int) == old(out)@,
            final(bcast)@.len() >= old(bcast)@.len(),
            forall|k: int| 0 <= k < old(bcast)@.len() ==> final(bcast)@[k] == old(bcast)@[k],
            final(self).joined_room == old(self).joined_room,
            final(self).player_name == old(self).player_name,
            final(self).player_mode == old(self).player_mode,
            final(self).buffer == old(self).buffer,
            final(self).synced == old(self).synced,
            old(self).joined_room is None ==> r == Err::<(), HandlerError>(HandlerError::NotInRoom)
                && spec_replied(
                old(out)@,
                final(out)@,
                crate::protocol::msg_hdr(msg_type),
                MSG_RESULT_NOK,
                "Not in a room."@,
            ) && final(bcast)@ == old(bcast)@ && *final(registry) == *old(registry),
            (old(self).joined_room is Some && (forall|i: int|
                0 <= i < old(registry).rooms@.len() ==> (#[trigger] old(registry).rooms@[i]).name@
                    != old(self).joined_room.unwrap()@)) ==> r == Err::<(), HandlerError>(
                HandlerError::RoomGone,
            ) && spec_replied(
                old(out)@,
                final(out)@,
                crate::protocol::msg_hdr(msg_type),
                MSG_RESULT_NOK,
                "Room not found."@,
            ) && final(bcast)@ == old(bcast)@ && *final(registry) == *old(registry),
            forall|idx: int|
                (0 <= idx < old(registry).rooms@.len() && old(self).joined_room is Some && (
                #[trigger] old(registry).rooms@[idx]).name@ == old(self).joined_room.unwrap()@)
                    ==> {
                    let jrv = old(self).joined_room.unwrap()@;
                    &&& final(registry).rooms@.len() == old(registry).rooms@.len()
                    &&& forall|i: int|
                        0 <= i < old(registry).rooms@.len() ==> {
                            let oldr = old(registry).rooms@[i];
                            let newr = #[trigger] final(registry).rooms@[i];
                            newr.name == oldr.name && newr.player_list == oldr.player_list
                                && newr.restrict_player_modes == oldr.restrict_player_modes
                        }
                    &&& forall|k: int|
                        old(bcast)@.len() <= k < final(bcast)@.len() ==> (
                        #[trigger] final(bcast)@[k]).meta_data@ == encode_utf8(jrv)
                    &&& match msg_type {
                        MsgType::Reset(m) => r is Ok && spec_replied(
                            old(out)@,
                            final(out)@,
                            m.header,
                            MSG_RESULT_OK,
                            ""@,
                        ) && final(bcast)@.len() == old(bcast)@.len() + 1 && final(bcast)@.last().include_self,
                        MsgType::ReqGameState(m) => r is Ok && final(bcast)@ == old(bcast)@
                            && (exists|gm: MsgGameState|
                            final(out)@ == old(out)@ + (#[trigger] gm.enc()) && gm.header.sequence
                                == old(self).sequence),
                        MsgType::GameState(m) => r is Ok && (spec_replied(
                            old(out)@,
                            final(out)@,
                            m.header,
                            MSG_RESULT_OK,
                            ""@,
                        ) || (exists|t: Seq<char>|
                            spec_replied(old(out)@, final(out)@, m.header, MSG_RESULT_NOK, t)))
                            && final(bcast)@.len() == old(bcast)@.len() + 1,
                        MsgType::ReqPlayerList(m) => {
                            &&& final(bcast)@ == old(bcast)@
                            &&& (r is Ok <==> spec_names_fit(
                                old(registry).rooms@[idx].player_list@,
                            ))
                            &&& (r is Err ==> final(out)@ == old(out)@ && r == Err::<
                                (),
                                HandlerError,
                            >(HandlerError::Rejected))
                            &&& (r is Ok ==> exists|sent: Seq<MsgPlayerList>, sp: Seq<PlayerV>|
                                #![trigger sent.len(), sp.len()]
                                {
                                    let roster = old(registry).rooms@[idx].player_list@;
                                    &&& sent.len() == roster.len()
                                    &&& sp.len() == roster.len()
                                    &&& final(out)@ == old(out)@ + spec_cat_enc(sent)
                                    &&& sp.to_multiset() == roster.to_multiset()
                                    &&& (forall|i: int, j: int|
                                        0 <= i < j < sp.len() ==> spec_str_le(
                                            #[trigger] sp[i].name,
                                            #[trigger] sp[j].name,
                                        ))
                                    &&& forall|i: int|
                                        0 <= i < sent.len() ==> {
                                            &&& (#[trigger] sent[i]).wf()
                                            &&& sent[i].total_count == roster.len()
                                            &&& sent[i].index == i
                                            &&& sent[i].player_name_len == encode_utf8(
                                                sp[i].name,
                                            ).len()
                                            &&& sent[i].player_name@.take(
                                                encode_utf8(sp[i].name).len() as int,
                                            ) == encode_utf8(sp[i].name)
                                            &&& sent[i].player_mode == spec_player_mode_num(
                                                sp[i].mode,
                                            )
                                        }
                                })
                        },
                        MsgType::PlayerList(m) => r is Ok && spec_replied(
                            old(out)@,
                            final(out)@,
                            m.header,
                            MSG_RESULT_NOK,
                            "MsgPlayerList not supported."@,
                        ) && final(bcast)@ == old(bcast)@,
                        MsgType::ReqRecord(m) => r is Ok && (exists|recs: Seq<u8>|
                            spec_record_stream(recs) && spec_replied(
                                old(out)@ + recs,
                                final(out)@,
                                m.header,
                                MSG_RESULT_OK,
                                ""@,
                            )) && final(bcast)@ == old(bcast)@,
                        MsgType::Record(m) => r is Ok && spec_replied(
                            old(out)@,
                            final(out)@,
                            m.header,
                            MSG_RESULT_NOK,
                            "MsgRecord not supported."@,
                        ) && final(bcast)@ == old(bcast)@,
                        MsgType::Move(m) => (r is Ok && spec_replied(
                            old(out)@,
                            final(out)@,
                            m.header,
                            MSG_RESULT_OK,
                            ""@,
                        ) && final(bcast)@.len() == old(bcast)@.len() + 1) || (r == Err::<
                            (),
                            HandlerError,
                        >(HandlerError::Rejected) && (exists|t: Seq<char>|
                            spec_replied(old(out)@, final(out)@, m.header, MSG_RESULT_NOK, t))
                            && final(bcast)@ == old(bcast)@),
                        MsgType::Say(m) => r is Ok && spec_replied(
                            old(out)@,
                            final(out)@,
                            m.header,
                            MSG_RESULT_OK,
                            ""@,
                        ) && final(bcast)@.len() == old(bcast)@.len() + 1 && ({
                            let p = final(bcast)@.last();
                            let pname = match old(self).player_name {
                                Some(pn) => pn@,
                                None => Seq::<char>::empty(),
                            };
                            &&& p.include_self
                            &&& exists|sm: MsgSay|
                                {
                                    &&& (#[trigger] sm.enc()) == p.data@
                                    &&& sm.header == m.header
                                    &&& sm.message == m.message
                                    &&& sm.message_len == m.message_len
                                    &&& sm.player_name_len == if encode_utf8(pname).len()
                                        > crate::protocol::MSG_MAXPLAYERNAME {
                                        crate::protocol::MSG_MAXPLAYERNAME as u32
                                    } else {
                                        encode_utf8(pname).len() as u32
                                    }
                                }
                        }),
                        _ => r == Err::<(), HandlerError>(HandlerError::Unsupported) && final(out)@ == old(out)@ && final(bcast)@ == old(bcast)@,
                    }
                },
    {
        let jr = match &self.joined_room {
            Some(jr) => jr.clone(),
            None => {
                let req = *Self::msg_type_header(&msg_type);
                let text = HandlerError::NotInRoom.as_text();
                self.reply_result_to(req, MSG_RESULT_NOK, text.as_str(), out);
                return Err(HandlerError::NotInRoom);
            },
        };
        let idx = match registry.find_room(jr.as_str()) {
            Some(i) => i,
            None => {
                let req = *Self::msg_type_header(&msg_type);
                let text = HandlerError::RoomGone.as_text();
                self.reply_result_to(req, MSG_RESULT_NOK, text.as_str(), out);
                return Err(HandlerError::RoomGone);
            },
        };
        let ghost rooms0 = registry.rooms@;

        match msg_type {
            MsgType::Reset(m) => {
                let mut room = registry.rooms.remove(idx);
                room.game_state.reset(false);
                self.broadcast_game_state(&room, bcast);
                registry.rooms.insert(idx, room);
                proof {
                    assert(registry.rooms@ =~= rooms0.update(
                        idx as int,
                        registry.rooms@[idx as int],
                    ));
                }
                self.reply_result(&m, MSG_RESULT_OK, "", out);
                proof {
                    assert(final(out)@.take(old(out)@.len() as int) == old(out)@);
                }
                Ok(())
            },
            MsgType::ReqGameState(_m) => {
                let mut game_state = registry.rooms[idx].game_state.serialize_state();
                self.send_msg(&mut game_state, out);
                proof {
                    let sent_state = game_state;
                    assert(out@ == old(out)@ + sent_state.enc());
                    assert(sent_state.header.sequence == old(self).sequence);
                    assert(final(out)@.take(old(out)@.len() as int) =~= old(out)@);
                }
                Ok(())
            },
            MsgType::GameState(m) => {
                let mut room = registry.rooms.remove(idx);
                let merged = room.game_state.merge_state(&m, false);
                self.broadcast_game_state(&room, bcast);
                registry.rooms.insert(idx, room);
                proof {
                    assert(registry.rooms@ =~= rooms0.update(
                        idx as int,
                        registry.rooms@[idx as int],
                    ));
                }
                match merged {
                    Ok(_) => {
                        self.reply_result(&m, MSG_RESULT_OK, "", out);
                    },
                    Err(e) => {
                        self.reply_result(&m, MSG_RESULT_NOK, e.as_str(), out);
                    },
                }
                proof {
                    assert(final(out)@.take(old(out)@.len() as int) == old(out)@);
                }
                Ok(())
            },
            MsgType::ReqPlayerList(_m) => {
                let replies = match self.gen_player_list_msgs(&registry.rooms[idx]) {
                    Ok(v) => v,
                    Err(_) => {
                        return Err(HandlerError::Rejected);
                    },
                };
                let ghost roster = registry.rooms@[idx as int].player_list@;
                let ghost msgs0 = replies@;
                let ghost sp = choose|sp: Seq<PlayerV>|
                    {
                        &&& (#[trigger] sp.len()) == msgs0.len()
                        &&& sp.to_multiset() == roster.to_multiset()
                        &&& (forall|a: int, b: int|
                            0 <= a < b < sp.len() ==> spec_str_le(
                                #[trigger] sp[a].name,
                                #[trigger] sp[b].name,
                            ))
                        &&& forall|a: int|
                            0 <= a < msgs0.len() ==> {
                                &&& (#[trigger] msgs0[a]).wf()
                                &&& msgs0[a].total_count == msgs0.len()
                                &&& msgs0[a].index == a
                                &&& msgs0[a].player_name_len == encode_utf8(sp[a].name).len()
                                &&& msgs0[a].player_name@.take(
                                    encode_utf8(sp[a].name).len() as int,
                                ) == encode_utf8(sp[a].name)
                                &&& msgs0[a].player_mode == spec_player_mode_num(sp[a].mode)
                            }
                    };
                let mut replies = replies;
                let n = replies.len();
                let mut i: usize = 0;
                let ghost out_entry = out@;
                let ghost mut sent: Seq<MsgPlayerList> = Seq::empty();
                proof {
                    assert(spec_cat_enc(sent) == Seq::<u8>::empty());
                    assert(out@ =~= out_entry + spec_cat_enc(sent));
                }
                while i < n
                    invariant
                        i <= n,
                        n == msgs0.len(),
                        replies@ == msgs0.skip(i as int),
                        sent.len() == i,
                        out@ == out_entry + spec_cat_enc(sent),
                        forall|k: int| 0 <= k < n ==> (#[trigger] msgs0[k]).wf(),
                        forall|k: int|
                            0 <= k < i ==> {
                                let s = #[trigger] sent[k];
                                &&& s.wf()
                                &&& s.total_count == msgs0[k].total_count
                                &&& s.index == msgs0[k].index
                                &&& s.player_name_len == msgs0[k].player_name_len
                                &&& s.player_name == msgs0[k].player_name
                                &&& s.player_mode == msgs0[k].player_mode
                            },
                        self.joined_room == old(self).joined_room,
                        self.player_name == old(self).player_name,
                        self.player_mode == old(self).player_mode,
                        self.buffer == old(self).buffer,
                        self.synced == old(self).synced,
                    decreases n - i,
                {
                    proof {
                        assert(replies@[0] == msgs0[i as int]);
                    }
                    let mut reply = replies.remove(0);
                    self.send_msg(&mut reply, out);
                    proof {
                        let prev = sent;
                        lemma_cat_enc_push(sent, reply);
                        sent = sent.push(reply);
                        assert((out_entry + spec_cat_enc(prev)) + reply.enc() =~= out_entry
                            + spec_cat_enc(sent));
                        assert(out@ =~= out_entry + spec_cat_enc(sent));
                        assert(replies@ =~= msgs0.skip(i as int + 1));
                    }
                    i += 1;
                }
                proof {
                    assert(final(out)@.take(old(out)@.len() as int) == old(out)@);
                }
                Ok(())
            },
            MsgType::PlayerList(m) => {
                self.reply_result(&m, MSG_RESULT_NOK, "MsgPlayerList not supported.", out);
                proof {
                    assert(final(out)@.take(old(out)@.len() as int) == old(out)@);
                }
                Ok(())
            },
            MsgType::ReqRecord(m) => {
                let record = registry.rooms[idx].game_state.recorded_moves_as_text();
                let ghost out_entry = out@;
                let ghost mut parts: Seq<MsgRecord> = Seq::empty();
                proof {
                    assert(spec_cat_enc(parts) == Seq::<u8>::empty());
                    assert(out@ =~= out_entry + spec_cat_enc(parts));
                }
                if record.as_str().as_bytes().len() < 0x1000_0000 {
                    let mut replies = MsgRecord::new(record.as_str());
                    let n = replies.len();
                    let mut i: usize = 0;
                    while i < n
                        invariant
                            i <= n,
                            replies@.len() == n - i,
                            forall|k: int|
                                0 <= k < replies@.len() ==> (#[trigger] replies@[k]).wf(),
                            out@ == out_entry + spec_cat_enc(parts),
                            forall|k: int|
                                0 <= k < parts.len() ==> (#[trigger] parts[k]).wf(),
                            self.joined_room == old(self).joined_room,
                            self.player_name == old(self).player_name,
                            self.player_mode == old(self).player_mode,
                            self.buffer == old(self).buffer,
                            self.synced == old(self).synced,
                        decreases n - i,
                    {
                        let mut reply = replies.remove(0);
                        self.send_msg(&mut reply, out);
                        proof {
                            lemma_cat_enc_push(parts, reply);
                            parts = parts.push(reply);
                            assert(out@ =~= out_entry + spec_cat_enc(parts));
                        }
                        i += 1;
                    }
                }
                self.reply_result(&m, MSG_RESULT_OK, "", out);
                proof {
                    let recs = spec_cat_enc(parts);
                    assert(spec_record_stream(recs));
                    assert(spec_replied(old(out)@ + recs, final(out)@, m.header, MSG_RESULT_OK, ""@));
                    assert(final(out)@.take(old(out)@.len() as int) =~= old(out)@);
                }
                Ok(())
            },
            MsgType::Record(m) => {
                self.reply_result(&m, MSG_RESULT_NOK, "MsgRecord not supported.", out);
                proof {
                    assert(final(out)@.take(old(out)@.len() as int) == old(out)@);
                }
                Ok(())
            },
            MsgType::Move(m) => {
                let mut room = registry.rooms.remove(idx);
                let (action, x, y) = m.get_action();
                let moved = room.game_state.apply_move(self.player_mode, action, m.token, x, y);
                match moved {
                    Ok(()) => {
                        self.broadcast_game_state(&room, bcast);
                        registry.rooms.insert(idx, room);
                        proof {
                            assert(registry.rooms@ =~= rooms0.update(
                                idx as int,
                                registry.rooms@[idx as int],
                            ));
                        }
                        self.reply_result(&m, MSG_RESULT_OK, "", out);
                        proof {
                            assert(final(out)@.take(old(out)@.len() as int) == old(out)@);
                        }
                        Ok(())
                    },
                    Err(e) => {
                        registry.rooms.insert(idx, room);
                        proof {
                            assert(registry.rooms@ =~= rooms0.update(
                                idx as int,
                                registry.rooms@[idx as int],
                            ));
                        }
                        self.reply_result(&m, MSG_RESULT_NOK, e.as_str(), out);
                        proof {
                            assert(final(out)@.take(old(out)@.len() as int) == old(out)@);
                        }
                        Err(HandlerError::Rejected)
                    },
                }
            },
            MsgType::Say(m) => {
                let mut fwd = m;
                // The player name in the message might be forged; replace
                // it with the name this connection joined under.
                match &self.player_name {
                    Some(pn) => {
                        let _ = fwd.set_player_name(pn.as_str());
                    },
                    None => {
                        let _ = fwd.set_player_name("");
                        proof {
                            reveal_strlit("");
                            assert(""@ =~= Seq::<char>::empty());
                        }
                    },
                }
                let data = fwd.to_bytes();
                self.send_broadcast(data, Some(jr.as_str()), true, MulticastSync::NoSync, bcast);
                self.reply_result(&fwd, MSG_RESULT_OK, "", out);
                proof {
                    assert(final(out)@.take(old(out)@.len() as int) == old(out)@);
                }
                Ok(())
            },
            _ => Err(HandlerError::Unsupported),
        }
    }

    /// Queue the full room list for the peer, one sequenced message per
    /// room, sorted by name.
    pub fn send_room_list<R: GameRules>(
        &mut self,
        registry: &RoomRegistry<R>,
        out: &mut Vec<u8>,
    ) -> (r: Result<(), NetError>)
        requires
            registry.wf(),
        ensures
            final(out)@.len() >= old(out)@.len(),
            final(out)@.take(old(out)@.len() as int) == old(out)@,
            final(self).joined_room == old(self).joined_room,
            final(self).player_name == old(self).player_name,
            final(self).player_mode == old(self).player_mode,
            final(self).buffer == old(self).buffer,
            final(self).synced == old(self).synced,
            r is Ok <==> spec_room_names_fit(registry.rooms@),
            r is Err ==> final(out)@ == old(out)@,
            r is Ok ==> exists|sent: Seq<MsgRoomList>, sn: Seq<Seq<char>>|
                #![trigger sent.len(), sn.len()]
                {
                    &&& sent.len() == registry.rooms@.len()
                    &&& sn.len() == sent.len()
                    &&& final(out)@ == old(out)@ + spec_cat_enc(sent)
                    &&& sn.to_multiset() == registry.rooms@.map_values(
                        |rm: ServerRoom<R>| rm.name@,
                    ).to_multiset()
                    &&& (forall|i: int, j: int|
                        0 <= i < j < sn.len() ==> spec_str_le(#[trigger] sn[i], #[trigger] sn[j]))
                    &&& forall|i: int|
                        0 <= i < sent.len() ==> {
                            &&& (#[trigger] sent[i]).wf()
                            &&& sent[i].total_count == sent.len()
                            &&& sent[i].index == i
                            &&& sent[i].room_name_len == encode_utf8(sn[i]).len()
                            &&& sent[i].room_name@.take(encode_utf8(sn[i]).len() as int)
                                == encode_utf8(sn[i])
                        }
                },
    {
        let replies = match self.gen_room_list_msgs(registry) {
            Ok(v) => v,
            Err(e) => {
                proof {
                    assert(final(out)@.take(old(out)@.len() as int) =~= old(out)@);
                }
                return Err(e);
            },
        };
        let ghost msgs0 = replies@;
        let ghost sn = choose|sn: Seq<Seq<char>>|
            {
                &&& (#[trigger] sn.len()) == msgs0.len()
                &&& sn.to_multiset() == registry.rooms@.map_values(
                    |rm: ServerRoom<R>| rm.name@,
                ).to_multiset()
                &&& (forall|i: int, j: int|
                    0 <= i < j < sn.len() ==> spec_str_le(#[trigger] sn[i], #[trigger] sn[j]))
                &&& forall|i: int|
                    0 <= i < msgs0.len() ==> {
                        &&& (#[trigger] msgs0[i]).wf()
                        &&& msgs0[i].total_count == msgs0.len()
                        &&& msgs0[i].index == i
                        &&& msgs0[i].room_name_len == encode_utf8(sn[i]).len()
                        &&& msgs0[i].room_name@.take(encode_utf8(sn[i]).len() as int)
                            == encode_utf8(sn[i])
                    }
            };
        let mut replies = replies;
        let n = replies.len();
        let mut i: usize = 0;
        let ghost out_entry = out@;
        let ghost mut sent: Seq<MsgRoomList> = Seq::empty();
        proof {
            assert(spec_cat_enc(sent) == Seq::<u8>::empty());
            assert(out@ =~= out_entry + spec_cat_enc(sent));
        }
        while i < n
            invariant
                i <= n,
                n == msgs0.len(),
                replies@ == msgs0.skip(i as int),
                sent.len() == i,
                out@ == out_entry + spec_cat_enc(sent),
                forall|k: int| 0 <= k < n ==> (#[trigger] msgs0[k]).wf(),
                forall|k: int|
                    0 <= k < i ==> {
                        let s = #[trigger] sent[k];
                        &&& s.wf()
                        &&& s.total_count == msgs0[k].total_count
                        &&& s.index == msgs0[k].index
                        &&& s.room_name_len == msgs0[k].room_name_len
                        &&& s.room_name == msgs0[k].room_name
                    },
                self.joined_room == old(self).joined_room,
                self.player_name == old(self).player_name,
                self.player_mode == old(self).player_mode,
                self.buffer == old(self).buffer,
                self.synced == old(self).synced,
            decreases n - i,
        {
            proof {
                assert(replies@[0] == msgs0[i as int]);
            }
            let mut reply = replies.remove(0);
            self.send_msg(&mut reply, out);
            proof {
                let prev = sent;
                lemma_cat_enc_push(sent, reply);
                sent = sent.push(reply);
                assert((out_entry + spec_cat_enc(prev)) + reply.enc() =~= out_entry
                    + spec_cat_enc(sent));
                assert(out@ =~= out_entry + spec_cat_enc(sent));
                assert(replies@ =~= msgs0.skip(i as int + 1));
            }
            i += 1;
        }
        proof {
            assert(out@.take(out_entry.len() as int) =~= out_entry);
        }
        Ok(())
    }

    /// Dispatch one decoded message: answer pings, handle join and leave
    /// and the room list here, and hand everything room-scoped to the
    /// room dispatcher. Request-style messages get exactly one Result
    /// reply, OK on success and NOK with a reason on rejection.
    #[verifier::rlimit(100)]
    #[verifier::spinoff_prover]
    pub fn handle_rx_message<R: GameRules>(
        &mut self,
        registry: &mut RoomRegistry<R>,
        msg: MsgType,
        out: &mut Vec<u8>,
        bcast: &mut Vec<MulticastPacket>,
    ) -> (r: Result<(), HandlerError>)
        requires
            old(registry).wf(),
            crate::protocol::msg_bufs_wf(msg),
        ensures
            final(registry).wf(),
            final(out)@.len() >= old(out)@.len(),
            final(out)@.take(old(out)@.len() as int) == old(out)@,
            final(bcast)@.len() >= old(bcast)@.len(),
            forall|k: int| 0 <= k < old(bcast)@.len() ==> final(bcast)@[k] == old(bcast)@[k],
            final(self).buffer == old(self).buffer,
            final(self).synced == old(self).synced,
            match msg {
                MsgType::Nop(_) => r is Ok && *final(self) == *old(self) && *final(registry)
                    == *old(registry) && final(out)@ == old(out)@ && final(bcast)@ == old(bcast)@,
                MsgType::Pong(_) => r is Ok && *final(self) == *old(self) && *final(registry)
                    == *old(registry) && final(out)@ == old(out)@ && final(bcast)@ == old(bcast)@,
                MsgType::Result(_) => r is Ok && *final(self) == *old(self) && *final(registry)
                    == *old(registry) && final(out)@ == old(out)@ && final(bcast)@ == old(bcast)@,
                MsgType::Ping(_) => r is Ok && final(out)@ == old(out)@ + (MsgPong {
                    header: MsgHeader {
                        magic: crate::protocol::MSG_MAGIC,
                        size: crate::protocol::MSG_HEADER_SIZE,
                        id: crate::protocol::MSG_ID_PONG,
                        sequence: old(self).sequence,
                    },
                }).enc() && final(bcast)@ == old(bcast)@ && *final(registry) == *old(registry)
                    && final(self).joined_room == old(self).joined_room && final(self).player_name
                    == old(self).player_name,
                MsgType::Join(m) => {
                    &&& (r is Ok ==> spec_replied(
                        old(out)@,
                        final(out)@,
                        m.header,
                        MSG_RESULT_OK,
                        ""@,
                    ))
                    &&& (r is Err ==> (exists|t: Seq<char>|
                        spec_replied(old(out)@, final(out)@, m.header, MSG_RESULT_NOK, t))
                        && *final(registry) == *old(registry) && final(self).joined_room == old(self).joined_room && final(self).player_name == old(self).player_name && final(self).player_mode == old(self).player_mode && final(bcast)@ == old(bcast)@)
                    &&& (r is Ok ==> {
                        let rn = vstd::utf8::decode_utf8(
                            crate::data_repr::strip_zeros(
                                m.room_name@.take(m.room_name_len as int),
                            ),
                        );
                        let pn = vstd::utf8::decode_utf8(
                            crate::data_repr::strip_zeros(
                                m.player_name@.take(m.player_name_len as int),
                            ),
                        );
                        &&& final(self).joined_room matches Some(jr) && jr@ == rn
                        &&& final(self).player_name matches Some(p) && p@ == pn
                        &&& spec_player_mode_num(final(self).player_mode) == m.player_mode
                        &&& final(registry).rooms@.len() == old(registry).rooms@.len()
                        &&& forall|i: int|
                            0 <= i < old(registry).rooms@.len() ==> (#[trigger] final(registry).rooms@[i]).name == old(registry).rooms@[i].name
                        &&& forall|i: int|
                            0 <= i < old(registry).rooms@.len() && (#[trigger] old(registry).rooms@[i]).name@ == rn ==> final(registry).rooms@[i].player_list@
                                == (if old(self).joined_room matches Some(jr2) && jr2@ == rn && old(self).player_name is Some {
                                spec_without_name(
                                    old(registry).rooms@[i].player_list@,
                                    old(self).player_name.unwrap()@,
                                )
                            } else {
                                old(registry).rooms@[i].player_list@
                            }).push(PlayerV { name: pn, mode: final(self).player_mode, is_self: false })
                    })
                },
                MsgType::Leave(m) => r is Ok && spec_replied(
                    old(out)@,
                    final(out)@,
                    m.header,
                    MSG_RESULT_OK,
                    ""@,
                ) && final(self).player_name is None && (old(self).player_name is Some ==> final(self).joined_room is None && final(self).player_mode == PlayerMode::Spectator)
                    && (old(self).player_name is None ==> *final(registry) == *old(registry)
                    && final(bcast)@ == old(bcast)@) && (old(self).player_name is Some
                    ==> match old(self).joined_room {
                    None => *final(registry) == *old(registry) && final(bcast)@ == old(bcast)@,
                    Some(jr) => {
                        &&& final(registry).rooms@.len() == old(registry).rooms@.len()
                        &&& forall|i: int|
                            0 <= i < old(registry).rooms@.len() ==> {
                                let oldr = old(registry).rooms@[i];
                                let newr = #[trigger] final(registry).rooms@[i];
                                &&& newr.name == oldr.name
                                &&& newr.restrict_player_modes == oldr.restrict_player_modes
                                &&& newr.game_state == oldr.game_state
                                &&& if oldr.name@ == jr@ {
                                    newr.player_list@ == spec_without_name(
                                        oldr.player_list@,
                                        old(self).player_name.unwrap()@,
                                    )
                                } else {
                                    newr.player_list == oldr.player_list
                                }
                            }
                    },
                }),
                MsgType::ReqRoomList(_) => {
                    &&& final(bcast)@ == old(bcast)@
                    &&& *final(registry) == *old(registry)
                    &&& final(self).joined_room == old(self).joined_room
                    &&& final(self).player_name == old(self).player_name
                    &&& (r is Ok <==> spec_room_names_fit(old(registry).rooms@))
                    &&& (r is Err ==> final(out)@ == old(out)@ && r == Err::<(), HandlerError>(
                        HandlerError::Rejected,
                    ))
                    &&& (r is Ok ==> exists|sent: Seq<MsgRoomList>, sn: Seq<Seq<char>>|
                        #![trigger sent.len(), sn.len()]
                        {
                            &&& sent.len() == old(registry).rooms@.len()
                            &&& sn.len() == sent.len()
                            &&& final(out)@ == old(out)@ + spec_cat_enc(sent)
                            &&& sn.to_multiset() == old(registry).rooms@.map_values(
                                |rm: ServerRoom<R>| rm.name@,
                            ).to_multiset()
                            &&& (forall|i: int, j: int|
                                0 <= i < j < sn.len() ==> spec_str_le(
                                    #[trigger] sn[i],
                                    #[trigger] sn[j],
                                ))
                            &&& forall|i: int|
                                0 <= i < sent.len() ==> {
                                    &&& (#[trigger] sent[i]).wf()
                                    &&& sent[i].total_count == sent.len()
                                    &&& sent[i].index == i
                                    &&& sent[i].room_name_len == encode_utf8(sn[i]).len()
                                    &&& sent[i].room_name@.take(encode_utf8(sn[i]).len() as int)
                                        == encode_utf8(sn[i])
                                }
                        })
                },
                MsgType::RoomList(m) => r is Ok && spec_replied(
                    old(out)@,
                    final(out)@,
                    m.header,
                    MSG_RESULT_NOK,
                    "Cannot change room list."@,
                ) && final(bcast)@ == old(bcast)@ && *final(registry) == *old(registry),
                MsgType::Reset(m) => spec_some_reply(old(out)@, final(out)@, m.header)
                    && final(self).joined_room == old(self).joined_room && final(self).player_name
                    == old(self).player_name && final(self).player_mode == old(self).player_mode,
                MsgType::GameState(m) => spec_some_reply(old(out)@, final(out)@, m.header)
                    && final(self).joined_room == old(self).joined_room && final(self).player_name
                    == old(self).player_name && final(self).player_mode == old(self).player_mode,
                MsgType::Move(m) => spec_some_reply(old(out)@, final(out)@, m.header)
                    && final(self).joined_room == old(self).joined_room && final(self).player_name
                    == old(self).player_name && final(self).player_mode == old(self).player_mode,
                MsgType::Say(m) => spec_some_reply(old(out)@, final(out)@, m.header)
                    && final(self).joined_room == old(self).joined_room && final(self).player_name
                    == old(self).player_name && final(self).player_mode == old(self).player_mode,
                MsgType::PlayerList(m) => spec_some_reply(old(out)@, final(out)@, m.header)
                    && final(self).joined_room == old(self).joined_room && final(self).player_name
                    == old(self).player_name && final(self).player_mode == old(self).player_mode,
                MsgType::Record(m) => spec_some_reply(old(out)@, final(out)@, m.header)
                    && final(self).joined_room == old(self).joined_room && final(self).player_name
                    == old(self).player_name && final(self).player_mode == old(self).player_mode,
                MsgType::ReqRecord(m) => spec_some_reply(old(out)@, final(out)@, m.header)
                    && final(self).joined_room == old(self).joined_room && final(self).player_name
                    == old(self).player_name && final(self).player_mode == old(self).player_mode,
                _ => final(self).joined_room == old(self).joined_room && final(self).player_name
                    == old(self).player_name && final(self).player_mode == old(self).player_mode,
            },
    {
        let ghost gmsg = msg;
        match msg {
            MsgType::Nop(_) => Ok(()),
            MsgType::Pong(_) => Ok(()),
            MsgType::Result(_) => Ok(()),
            MsgType::Ping(_) => {
                let mut pong = MsgPong::new();
                self.send_msg(&mut pong, out);
                Ok(())
            },
            MsgType::Join(m) => {
                let room_name = match m.get_room_name() {
                    Ok(n) => n,
                    Err(_) => {
                        let text = JoinError::BadRequest.as_text();
                        self.reply_result(&m, MSG_RESULT_NOK, text.as_str(), out);
                        return Err(HandlerError::Rejected);
                    },
                };
                let player_name = match m.get_player_name() {
                    Ok(n) => n,
                    Err(_) => {
                        let text = JoinError::BadRequest.as_text();
                        self.reply_result(&m, MSG_RESULT_NOK, text.as_str(), out);
                        return Err(HandlerError::Rejected);
                    },
                };
                let player_mode = match num_to_player_mode(m.get_player_mode()) {
                    Ok(p) => p,
                    Err(_) => {
                        let text = JoinError::BadRequest.as_text();
                        self.reply_result(&m, MSG_RESULT_NOK, text.as_str(), out);
                        return Err(HandlerError::Rejected);
                    },
                };
                match self.do_join(
                    registry,
                    room_name.as_str(),
                    player_name.as_str(),
                    player_mode,
                    bcast,
                ) {
                    Ok(()) => {
                        self.reply_result(&m, MSG_RESULT_OK, "", out);
                        Ok(())
                    },
                    Err(e) => {
                        let text = e.as_text();
                        self.reply_result(&m, MSG_RESULT_NOK, text.as_str(), out);
                        Err(HandlerError::Rejected)
                    },
                }
            },
            MsgType::Leave(m) => {
                self.do_leave(registry, bcast);
                self.reply_result(&m, MSG_RESULT_OK, "", out);
                Ok(())
            },
            MsgType::ReqRoomList(_) => {
                match self.send_room_list(registry, out) {
                    Ok(()) => Ok(()),
                    Err(_) => Err(HandlerError::Rejected),
                }
            },
            MsgType::RoomList(m) => {
                self.reply_result(&m, MSG_RESULT_NOK, "Cannot change room list.", out);
                Ok(())
            },
            other => {
                let r = self.handle_rx_room_message(registry, other, out, bcast);
                proof {
                    let hdr = crate::protocol::msg_hdr(gmsg);
                    lemma_empty_record_stream();
                    assert(old(out)@ + Seq::<u8>::empty() =~= old(out)@);
                    let no_reply_needed = gmsg matches MsgType::ReqGameState(_) || gmsg matches
                        MsgType::ReqPlayerList(_);
                    if !no_reply_needed {
                        if old(self).joined_room is None {
                            assert(spec_replied(
                                old(out)@ + Seq::<u8>::empty(),
                                out@,
                                hdr,
                                MSG_RESULT_NOK,
                                "Not in a room."@,
                            ));
                        } else {
                            let jr = old(self).joined_room.unwrap();
                            if exists|i: int|
                                0 <= i < old(registry).rooms@.len() && (#[trigger] old(registry).rooms@[i]).name@ == jr@ {
                                let idx = choose|i: int|
                                    0 <= i < old(registry).rooms@.len() && (#[trigger] old(registry).rooms@[i]).name@ == jr@;
                                assert(old(registry).rooms@[idx].name@ == jr@);
                                match gmsg {
                                    MsgType::Reset(x) => {
                                        assert(spec_replied(
                                            old(out)@ + Seq::<u8>::empty(),
                                            out@,
                                            hdr,
                                            MSG_RESULT_OK,
                                            ""@,
                                        ));
                                    },
                                    MsgType::GameState(x) => {
                                        if spec_replied(
                                            old(out)@,
                                            out@,
                                            x.header,
                                            MSG_RESULT_OK,
                                            ""@,
                                        ) {
                                            assert(spec_replied(
                                                old(out)@ + Seq::<u8>::empty(),
                                                out@,
                                                hdr,
                                                MSG_RESULT_OK,
                                                ""@,
                                            ));
                                        } else {
                                            let t = choose|t: Seq<char>|
                                                spec_replied(
                                                    old(out)@,
                                                    out@,
                                                    x.header,
                                                    MSG_RESULT_NOK,
                                                    t,
                                                );
                                            assert(spec_replied(
                                                old(out)@ + Seq::<u8>::empty(),
                                                out@,
                                                hdr,
                                                MSG_RESULT_NOK,
                                                t,
                                            ));
                                        }
                                    },
                                    MsgType::Move(x) => {
                                        if r is Ok {
                                            assert(spec_replied(
                                                old(out)@ + Seq::<u8>::empty(),
                                                out@,
                                                hdr,
                                                MSG_RESULT_OK,
                                                ""@,
                                            ));
                                        } else {
                                            let t = choose|t: Seq<char>|
                                                spec_replied(
                                                    old(out)@,
                                                    out@,
                                                    x.header,
                                                    MSG_RESULT_NOK,
                                                    t,
                                                );
                                            assert(spec_replied(
                                                old(out)@ + Seq::<u8>::empty(),
                                                out@,
                                                hdr,
                                                MSG_RESULT_NOK,
                                                t,
                                            ));
                                        }
                                    },
                                    MsgType::Say(x) => {
                                        assert(spec_replied(
                                            old(out)@ + Seq::<u8>::empty(),
                                            out@,
                                            hdr,
                                            MSG_RESULT_OK,
                                            ""@,
                                        ));
                                    },
                                    MsgType::PlayerList(x) => {
                                        assert(spec_replied(
                                            old(out)@ + Seq::<u8>::empty(),
                                            out@,
                                            hdr,
                                            MSG_RESULT_NOK,
                                            "MsgPlayerList not supported."@,
                                        ));
                                    },
                                    MsgType::Record(x) => {
                                        assert(spec_replied(
                                            old(out)@ + Seq::<u8>::empty(),
                                            out@,
                                            hdr,
                                            MSG_RESULT_NOK,
                                            "MsgRecord not supported."@,
                                        ));
                                    },
                                    MsgType::ReqRecord(x) => {
                                        assert(spec_some_reply(old(out)@, out@, hdr));
                                    },
                                    _ => {},
                                }
                            } else {
                                assert(forall|i: int|
                                    0 <= i < old(registry).rooms@.len() ==> (#[trigger] old(registry).rooms@[i]).name@ != jr@);
                                assert(spec_replied(
                                    old(out)@ + Seq::<u8>::empty(),
                                    out@,
                                    hdr,
                                    MSG_RESULT_NOK,
                                    "Room not found."@,
                                ));
                            }
                        }
                    }
                }
                r
            },
        }
    }

    /// Append freshly read bytes to the receive buffer.
    pub fn push_received(&mut self, data: &[u8])
        ensures
            final(self).buffer@ == old(self).buffer@ + data@,
            final(self).sequence == old(self).sequence,
            final(self).joined_room == old(self).joined_room,
            final(self).player_name == old(self).player_name,
            final(self).player_mode == old(self).player_mode,
            final(self).synced == old(self).synced,
    {
        self.buffer.extend_from_slice(data);
        proof {
            assert(self.buffer@ =~= old(self).buffer@ + data@);
        }
    }

    /// Process the buffered stream: on overrun drop everything and lose
    /// synchronization; while unsynchronized, skip to the next magic
    /// word or drop the buffer; then decode and dispatch messages until
    /// the buffer no longer holds a whole one. A decode error drops the
    /// buffer and loses synchronization; the connection stays open.
    #[verifier::rlimit(100)]
    #[verifier::spinoff_prover]
    pub fn pump<R: GameRules>(
        &mut self,
        registry: &mut RoomRegistry<R>,
        out: &mut Vec<u8>,
        bcast: &mut Vec<MulticastPacket>,
    )
        requires
            old(registry).wf(),
        ensures
            final(registry).wf(),
            final(self).buffer@.len() <= old(self).buffer@.len(),
            exists|j: int|
                0 <= j <= old(self).buffer@.len() && final(self).buffer@ == #[trigger] old(self).buffer@.skip(j),
            !final(self).synced ==> final(self).buffer@.len() == 0,
            final(out)@.len() >= old(out)@.len(),
            final(out)@.take(old(out)@.len() as int) == old(out)@,
            final(bcast)@.len() >= old(bcast)@.len(),
            forall|k: int| 0 <= k < old(bcast)@.len() ==> final(bcast)@[k] == old(bcast)@[k],
            // a buffer overrun drops everything and loses synchronization
            old(self).buffer@.len() >= MSG_BUFFER_SIZE ==> final(self).buffer@.len() == 0
                && !final(self).synced && final(out)@ == old(out)@ && final(bcast)@ == old(bcast)@
                && *final(registry) == *old(registry),
            // no sync point in the stream: everything is dropped
            (old(self).buffer@.len() < MSG_BUFFER_SIZE && !old(self).synced && spec_net_sync(
                old(self).buffer@,
            ) is None) ==> final(self).buffer@.len() == 0 && !final(self).synced && final(out)@
                == old(out)@ && final(bcast)@ == old(bcast)@ && *final(registry)
                == *old(registry),
            // the garbage prefix before the sync point is dropped
            (old(self).buffer@.len() < MSG_BUFFER_SIZE && !old(self).synced && spec_net_sync(
                old(self).buffer@,
            ) is Some) ==> final(self).buffer@.len() <= old(self).buffer@.len() - spec_net_sync(
                old(self).buffer@,
            ).unwrap(),
            // synchronized but the front holds no whole message: wait
            (old(self).buffer@.len() < MSG_BUFFER_SIZE && old(self).synced
                && spec_msg_incomplete(old(self).buffer@)) ==> final(self).buffer@ == old(self).buffer@ && final(self).synced && final(out)@ == old(out)@ && final(bcast)@ == old(bcast)@ && *final(registry) == *old(registry) && final(self).sequence == old(self).sequence && final(self).joined_room == old(self).joined_room && final(self).player_name == old(self).player_name,
            // a decode error drops the buffer and loses synchronization
            (old(self).buffer@.len() < MSG_BUFFER_SIZE && old(self).synced && (exists|
                e: crate::data_repr::NetError,
            |
                spec_msg_err(old(self).buffer@, e))) ==> final(self).buffer@.len() == 0 && !final(self).synced && final(out)@ == old(out)@ && final(bcast)@ == old(bcast)@ && *final(registry) == *old(registry),
            // a whole message at the front is consumed and dispatched
            forall|n: int, m: MsgType|
                (old(self).buffer@.len() < MSG_BUFFER_SIZE && old(self).synced
                    && #[trigger] spec_msg_ok(old(self).buffer@, n, m)) ==> {
                    &&& final(self).buffer@.len() <= old(self).buffer@.len() - n
                    &&& exists|out1: Seq<u8>|
                        {
                            &&& (#[trigger] out1.len()) >= old(out)@.len()
                            &&& out1.take(old(out)@.len() as int) == old(out)@
                            &&& final(out)@.len() >= out1.len()
                            &&& final(out)@.take(out1.len() as int) == out1
                            &&& match m {
                                MsgType::Ping(_) => out1 == old(out)@ + (MsgPong {
                                    header: MsgHeader {
                                        magic: crate::protocol::MSG_MAGIC,
                                        size: crate::protocol::MSG_HEADER_SIZE,
                                        id: crate::protocol::MSG_ID_PONG,
                                        sequence: old(self).sequence,
                                    },
                                }).enc(),
                                MsgType::Join(x) => exists|code: u32, t: Seq<char>|
                                    (code == MSG_RESULT_OK || code == MSG_RESULT_NOK)
                                        && #[trigger] spec_replied(
                                        old(out)@,
                                        out1,
                                        x.header,
                                        code,
                                        t,
                                    ),
                                MsgType::Leave(x) => spec_replied(
                                    old(out)@,
                                    out1,
                                    x.header,
                                    MSG_RESULT_OK,
                                    ""@,
                                ),
                                MsgType::RoomList(x) => spec_replied(
                                    old(out)@,
                                    out1,
                                    x.header,
                                    MSG_RESULT_NOK,
                                    "Cannot change room list."@,
                                ),
                                MsgType::Reset(x) => spec_some_reply(old(out)@, out1, x.header),
                                MsgType::GameState(x) => spec_some_reply(
                                    old(out)@,
                                    out1,
                                    x.header,
                                ),
                                MsgType::Move(x) => spec_some_reply(old(out)@, out1, x.header),
                                MsgType::Say(x) => spec_some_reply(old(out)@, out1, x.header),
                                MsgType::PlayerList(x) => spec_some_reply(
                                    old(out)@,
                                    out1,
                                    x.header,
                                ),
                                MsgType::Record(x) => spec_some_reply(old(out)@, out1, x.header),
                                MsgType::ReqRecord(x) => spec_some_reply(
                                    old(out)@,
                                    out1,
                                    x.header,
                                ),
                                _ => true,
                            }
                        }
                },
    {
        if self.buffer.len() >= MSG_BUFFER_SIZE {
            self.buffer.clear();
            self.synced = false;
            proof {
                assert(final(out)@.take(old(out)@.len() as int) =~= old(out)@);
                assert(final(self).buffer@ =~= old(self).buffer@.skip(
                    old(self).buffer@.len() as int,
                ));
            }
            return ;
        }
        if !self.synced {
            match net_sync(self.buffer.as_slice()) {
                Some(skip_len) => {
                    let mut buf: Vec<u8> = Vec::new();
                    core::mem::swap(&mut self.buffer, &mut buf);
                    let buf = buffer_skip(buf, skip_len);
                    self.buffer = buf;
                    self.synced = true;
                    proof {
                        assert(self.buffer@ =~= old(self).buffer@.skip(skip_len as int));
                    }
                },
                None => {
                    self.buffer.clear();
                    proof {
                        assert(final(out)@.take(old(out)@.len() as int) =~= old(out)@);
                        assert(final(self).buffer@ =~= old(self).buffer@.skip(
                            old(self).buffer@.len() as int,
                        ));
                    }
                    return ;
                },
            }
        }
        proof {
            assert(old(self).buffer@.skip(0) =~= old(self).buffer@);
        }
        let ghost out_entry = out@;
        let ghost bcast_entry = bcast@;
        let ghost pre_len = self.buffer@.len() as int;
        let ghost mut fst: Option<(int, MsgType, Seq<u8>)> = None;
        let mut done = false;
        while !done
            invariant
                registry.wf(),
                self.buffer@.len() <= pre_len,
                self.buffer@.len() <= old(self).buffer@.len(),
                exists|j: int|
                    0 <= j <= old(self).buffer@.len() && self.buffer@ == #[trigger] old(self).buffer@.skip(j),
                !self.synced ==> self.buffer@.len() == 0,
                out@.len() >= out_entry.len(),
                out@.take(out_entry.len() as int) == out_entry,
                out_entry.len() >= old(out)@.len(),
                out_entry.take(old(out)@.len() as int) == old(out)@,
                bcast@.len() >= bcast_entry.len(),
                forall|k: int| 0 <= k < bcast_entry.len() ==> bcast@[k] == bcast_entry[k],
                bcast_entry.len() >= old(bcast)@.len(),
                forall|k: int| 0 <= k < old(bcast)@.len() ==> bcast_entry[k] == old(bcast)@[k],
                (old(self).synced && old(self).buffer@.len() < MSG_BUFFER_SIZE) ==> match fst {
                    None => out@ == old(out)@ && bcast@ == old(bcast)@ && *registry == *old(registry) && self.sequence == old(self).sequence && self.joined_room == old(self).joined_room
                        && self.player_name == old(self).player_name && ((self.buffer@ == old(self).buffer@ && self.synced && (done ==> spec_msg_incomplete(
                        old(self).buffer@,
                    ))) || (self.buffer@.len() == 0 && !self.synced && exists|
                        e: crate::data_repr::NetError,
                    | #[trigger] spec_msg_err(old(self).buffer@, e))),
                    Some((n0, m0, out1)) => {
                        &&& spec_msg_ok(old(self).buffer@, n0, m0)
                        &&& self.buffer@.len() <= old(self).buffer@.len() - n0
                        &&& out1.len() >= old(out)@.len()
                        &&& out1.take(old(out)@.len() as int) == old(out)@
                        &&& out@.len() >= out1.len()
                        &&& out@.take(out1.len() as int) == out1
                        &&& match m0 {
                            MsgType::Ping(_) => out1 == old(out)@ + (MsgPong {
                                header: MsgHeader {
                                    magic: crate::protocol::MSG_MAGIC,
                                    size: crate::protocol::MSG_HEADER_SIZE,
                                    id: crate::protocol::MSG_ID_PONG,
                                    sequence: old(self).sequence,
                                },
                            }).enc(),
                            MsgType::Join(x) => exists|code: u32, t: Seq<char>|
                                (code == MSG_RESULT_OK || code == MSG_RESULT_NOK)
                                    && #[trigger] spec_replied(old(out)@, out1, x.header, code, t),
                            MsgType::Leave(x) => spec_replied(
                                old(out)@,
                                out1,
                                x.header,
                                MSG_RESULT_OK,
                                ""@,
                            ),
                            MsgType::RoomList(x) => spec_replied(
                                old(out)@,
                                out1,
                                x.header,
                                MSG_RESULT_NOK,
                                "Cannot change room list."@,
                            ),
                            MsgType::Reset(x) => spec_some_reply(old(out)@, out1, x.header),
                            MsgType::GameState(x) => spec_some_reply(old(out)@, out1, x.header),
                            MsgType::Move(x) => spec_some_reply(old(out)@, out1, x.header),
                            MsgType::Say(x) => spec_some_reply(old(out)@, out1, x.header),
                            MsgType::PlayerList(x) => spec_some_reply(old(out)@, out1, x.header),
                            MsgType::Record(x) => spec_some_reply(old(out)@, out1, x.header),
                            MsgType::ReqRecord(x) => spec_some_reply(old(out)@, out1, x.header),
                            _ => true,
                        }
                    },
                },
            decreases self.buffer@.len(), (if done {
                0int
            } else {
                1int
            }),
        {
            if self.buffer.len() == 0 {
                done = true;
            } else {
                match message_from_bytes(self.buffer.as_slice()) {
                    Ok((consumed, Some(m))) => {
                        let ghost gm = m;
                        let ghost buf_before = self.buffer@;
                        proof {
                            assert(consumed >= crate::protocol::MSG_HEADER_SIZE);
                        }
                        let _ = self.handle_rx_message(registry, m, out, bcast);
                        proof {
                            assert(out@.take(out_entry.len() as int) =~= out_entry);
                            if fst is None {
                                fst = Some((consumed as int, gm, out@));
                            }
                            if old(self).synced && old(self).buffer@.len() < MSG_BUFFER_SIZE {
                                match fst {
                                    Some((n0, m0, out1)) => {
                                        assert(out@.take(out1.len() as int) =~= out1);
                                    },
                                    None => {},
                                }
                            }
                        }
                        let mut buf: Vec<u8> = Vec::new();
                        core::mem::swap(&mut self.buffer, &mut buf);
                        let buf = buffer_skip(buf, consumed);
                        self.buffer = buf;
                        self.synced = true;
                        proof {
                            let j0 = choose|j: int|
                                0 <= j <= old(self).buffer@.len() && buf_before == old(self).buffer@.skip(j);
                            assert(self.buffer@ =~= buf_before.skip(consumed as int));
                            assert(old(self).buffer@.skip(j0).skip(consumed as int) =~= old(self).buffer@.skip(j0 + consumed));
                            assert(self.buffer@ == old(self).buffer@.skip(j0 + consumed));
                        }
                    },
                    Ok((_, None)) => {
                        done = true;
                    },
                    Err(_) => {
                        self.synced = false;
                        self.buffer.clear();
                        proof {
                            assert(self.buffer@ =~= old(self).buffer@.skip(
                                old(self).buffer@.len() as int,
                            ));
                        }
                        done = true;
                    },
                }
            }
        }

        proof {
            assert(final(out)@.take(old(out)@.len() as int) == old(out)@);
            if old(self).synced && old(self).buffer@.len() < MSG_BUFFER_SIZE {
                assert forall|n: int, m: MsgType|
                    #[trigger] spec_msg_ok(old(self).buffer@, n, m) implies {
                    &&& final(self).buffer@.len() <= old(self).buffer@.len() - n
                    &&& exists|out1: Seq<u8>|
                        {
                            &&& (#[trigger] out1.len()) >= old(out)@.len()
                            &&& out1.take(old(out)@.len() as int) == old(out)@
                            &&& final(out)@.len() >= out1.len()
                            &&& final(out)@.take(out1.len() as int) == out1
                            &&& match m {
                                MsgType::Ping(_) => out1 == old(out)@ + (MsgPong {
                                    header: MsgHeader {
                                        magic: crate::protocol::MSG_MAGIC,
                                        size: crate::protocol::MSG_HEADER_SIZE,
                                        id: crate::protocol::MSG_ID_PONG,
                                        sequence: old(self).sequence,
                                    },
                                }).enc(),
                                MsgType::Join(x) => exists|code: u32, t: Seq<char>|
                                    (code == MSG_RESULT_OK || code == MSG_RESULT_NOK)
                                        && #[trigger] spec_replied(
                                        old(out)@,
                                        out1,
                                        x.header,
                                        code,
                                        t,
                                    ),
                                MsgType::Leave(x) => spec_replied(
                                    old(out)@,
                                    out1,
                                    x.header,
                                    MSG_RESULT_OK,
                                    ""@,
                                ),
                                MsgType::RoomList(x) => spec_replied(
                                    old(out)@,
                                    out1,
                                    x.header,
                                    MSG_RESULT_NOK,
                                    "Cannot change room list."@,
                                ),
                                MsgType::Reset(x) => spec_some_reply(old(out)@, out1, x.header),
                                MsgType::GameState(x) => spec_some_reply(
                                    old(out)@,
                                    out1,
                                    x.header,
                                ),
                                MsgType::Move(x) => spec_some_reply(old(out)@, out1, x.header),
                                MsgType::Say(x) => spec_some_reply(old(out)@, out1, x.header),
                                MsgType::PlayerList(x) => spec_some_reply(
                                    old(out)@,
                                    out1,
                                    x.header,
                                ),
                                MsgType::Record(x) => spec_some_reply(old(out)@, out1, x.header),
                                MsgType::ReqRecord(x) => spec_some_reply(
                                    old(out)@,
                                    out1,
                                    x.header,
                                ),
                                _ => true,
                            }
                        }
                } by {
                    lemma_msg_ok_exclusive(old(self).buffer@, n, m);
                    match fst {
                        Some((n0, m0, out1)) => {
                            lemma_parse_same_kind(old(self).buffer@, n, n0, m, m0);
                            assert(out1.len() >= old(out)@.len());
                        },
                        None => {
                            assert(false);
                        },
                    }
                }
                match fst {
                    Some((n0, m0, out1)) => {
                        lemma_msg_ok_exclusive(old(self).buffer@, n0, m0);
                    },
                    None => {},
                }
            }
        }
    }

    /// Surface one forwarded broadcast on this connection's write path:
    /// chat and game state go out only while joined to a room, roster
    /// and room lists always; anything else is refused.
    pub fn handle_rx_multicast_message(&mut self, msg: MsgType, out: &mut Vec<u8>) -> (r: Result<
        (),
        HandlerError,
    >)
        ensures
            final(self).joined_room == old(self).joined_room,
            final(self).player_name == old(self).player_name,
            final(self).player_mode == old(self).player_mode,
            final(self).buffer == old(self).buffer,
            final(self).synced == old(self).synced,
            final(out)@.len() >= old(out)@.len(),
            final(out)@.take(old(out)@.len() as int) == old(out)@,
            match msg {
                MsgType::Say(m) => r is Ok && if old(self).joined_room is Some {
                    final(out)@ == old(out)@ + m.with_sequence(old(self).sequence).enc()
                } else {
                    final(out)@ == old(out)@
                },
                MsgType::GameState(m) => r is Ok && if old(self).joined_room is Some {
                    final(out)@ == old(out)@ + m.with_sequence(old(self).sequence).enc()
                } else {
                    final(out)@ == old(out)@
                },
                MsgType::PlayerList(m) => r is Ok && final(out)@ == old(out)@ + m.with_sequence(
                    old(self).sequence,
                ).enc(),
                MsgType::RoomList(m) => r is Ok && final(out)@ == old(out)@ + m.with_sequence(
                    old(self).sequence,
                ).enc(),
                _ => r == Err::<(), HandlerError>(HandlerError::Unsupported) && final(out)@ == old(out)@,
            },
    {
        match msg {
            MsgType::Say(m) => {
                if self.joined_room.is_some() {
                    let mut fwd = m;
                    self.send_msg(&mut fwd, out);
                }
                Ok(())
            },
            MsgType::GameState(m) => {
                if self.joined_room.is_some() {
                    let mut fwd = m;
                    self.send_msg(&mut fwd, out);
                }
                Ok(())
            },
            MsgType::PlayerList(m) => {
                let mut fwd = m;
                self.send_msg(&mut fwd, out);
                Ok(())
            },
            MsgType::RoomList(m) => {
                let mut fwd = m;
                self.send_msg(&mut fwd, out);
                Ok(())
            },
            _ => Err(HandlerError::Unsupported),
        }
    }

    /// Handle one packet polled from the multicast hub: discard it
    /// unless its room tag matches this connection's joined room or is
    /// empty; then decode it and surface it on the write path.
    pub fn handle_rx_multicast_data(&mut self, pack: &MulticastPacket, out: &mut Vec<u8>) -> (r:
        Result<(), HandlerError>)
        ensures
            final(self).joined_room == old(self).joined_room,
            final(self).player_name == old(self).player_name,
            final(self).player_mode == old(self).player_mode,
            final(self).buffer == old(self).buffer,
            final(self).synced == old(self).synced,
            final(out)@.len() >= old(out)@.len(),
            final(out)@.take(old(out)@.len() as int) == old(out)@,
            !spec_wants_packet(spec_opt_str(old(self).joined_room), pack.meta_data@) ==> r is Ok
                && final(out)@ == old(out)@ && *final(self) == *old(self),
            spec_wants_packet(spec_opt_str(old(self).joined_room), pack.meta_data@) ==> forall|
                n: int,
                m: MsgType,
            |
                #[trigger] spec_msg_ok(pack.data@, n, m) ==> match m {
                    MsgType::Say(sm) => r is Ok && if old(self).joined_room is Some {
                        final(out)@ == old(out)@ + sm.with_sequence(old(self).sequence).enc()
                    } else {
                        final(out)@ == old(out)@
                    },
                    MsgType::GameState(gm) => r is Ok && if old(self).joined_room is Some {
                        final(out)@ == old(out)@ + gm.with_sequence(old(self).sequence).enc()
                    } else {
                        final(out)@ == old(out)@
                    },
                    MsgType::PlayerList(pm) => r is Ok && final(out)@ == old(out)@
                        + pm.with_sequence(old(self).sequence).enc(),
                    MsgType::RoomList(rm) => r is Ok && final(out)@ == old(out)@
                        + rm.with_sequence(old(self).sequence).enc(),
                    _ => r == Err::<(), HandlerError>(HandlerError::Unsupported) && final(out)@
                        == old(out)@,
                },
    {
        let wants = match &self.joined_room {
            Some(jr) => bytes_eq(pack.meta_data.as_slice(), jr.as_str().as_bytes())
                || pack.meta_data.len() == 0,
            None => pack.meta_data.len() == 0,
        };
        if !wants {
            proof {
                assert(final(out)@.take(old(out)@.len() as int) =~= old(out)@);
            }
            return Ok(());
        }
        match message_from_bytes(pack.data.as_slice()) {
            Ok((n, Some(m))) => {
                let ghost gm = m;
                let ghost gn = n as int;
                let r = self.handle_rx_multicast_message(m, out);
                proof {
                    assert forall|n2: int, m2: MsgType|
                        #[trigger] spec_msg_ok(pack.data@, n2, m2) implies (match m2 {
                        MsgType::Say(sm) => r is Ok && if old(self).joined_room is Some {
                            out@ == old(out)@ + sm.with_sequence(old(self).sequence).enc()
                        } else {
                            out@ == old(out)@
                        },
                        MsgType::GameState(g2) => r is Ok && if old(self).joined_room is Some {
                            out@ == old(out)@ + g2.with_sequence(old(self).sequence).enc()
                        } else {
                            out@ == old(out)@
                        },
                        MsgType::PlayerList(pm) => r is Ok && out@ == old(out)@
                            + pm.with_sequence(old(self).sequence).enc(),
                        MsgType::RoomList(rm) => r is Ok && out@ == old(out)@ + rm.with_sequence(
                            old(self).sequence,
                        ).enc(),
                        _ => r == Err::<(), HandlerError>(HandlerError::Unsupported) && out@
                            == old(out)@,
                    }) by {
                        lemma_parse_variant_agree(
                            pack.data@,
                            n2,
                            gn,
                            m2,
                            gm,
                            old(self).sequence,
                        );
                    }
                }
                r
            },
            Ok((_, None)) => {
                proof {
                    assert(final(out)@.take(old(out)@.len() as int) =~= old(out)@);
                }
                Err(HandlerError::Unsupported)
            },
            Err(_) => {
                proof {
                    assert(final(out)@.take(old(out)@.len() as int) =~= old(out)@);
                }
                Err(HandlerError::Unsupported)
            },
        }
    }

}


/// A decodable message at the front of `s` excludes the incomplete and
/// the error outcome.
proof fn lemma_msg_ok_exclusive(s: Seq<u8>, n: int, m: MsgType)
    requires
        spec_msg_ok(s, n, m),
    ensures
        !spec_msg_incomplete(s),
        forall|e: crate::data_repr::NetError| !spec_msg_err(s, e),
{
}

/// Two successful decodes of the same bytes agree on the message kind,
/// its header, and the consumed length.
proof fn lemma_parse_same_kind(s: Seq<u8>, n1: int, n2: int, a: MsgType, b: MsgType)
    requires
        spec_msg_ok(s, n1, a),
        spec_msg_ok(s, n2, b),
    ensures
        n1 == n2,
        crate::protocol::msg_hdr(a) == crate::protocol::msg_hdr(b),
        a matches MsgType::Nop(_) ==> b matches MsgType::Nop(_),
        a matches MsgType::Result(_) ==> b matches MsgType::Result(_),
        a matches MsgType::Ping(_) ==> b matches MsgType::Ping(_),
        a matches MsgType::Pong(_) ==> b matches MsgType::Pong(_),
        a matches MsgType::Join(x) ==> (b matches MsgType::Join(y) && x.header == y.header),
        a matches MsgType::Leave(x) ==> (b matches MsgType::Leave(y) && x.header == y.header),
        a matches MsgType::Reset(x) ==> (b matches MsgType::Reset(y) && x.header == y.header),
        a matches MsgType::ReqRoomList(_) ==> b matches MsgType::ReqRoomList(_),
        a matches MsgType::RoomList(x) ==> (b matches MsgType::RoomList(y) && x.header
            == y.header),
        a matches MsgType::ReqPlayerList(_) ==> b matches MsgType::ReqPlayerList(_),
        a matches MsgType::PlayerList(x) ==> (b matches MsgType::PlayerList(y) && x.header
            == y.header),
        a matches MsgType::ReqGameState(_) ==> b matches MsgType::ReqGameState(_),
        a matches MsgType::GameState(x) ==> (b matches MsgType::GameState(y) && x.header
            == y.header),
        a matches MsgType::Move(x) ==> (b matches MsgType::Move(y) && x.header == y.header),
        a matches MsgType::Say(x) ==> (b matches MsgType::Say(y) && x.header == y.header),
        a matches MsgType::ReqRecord(_) ==> b matches MsgType::ReqRecord(_),
        a matches MsgType::Record(x) ==> (b matches MsgType::Record(y) && x.header == y.header),
{
}

/// Two successful decodes of the same bytes agree on the message kind,
/// and for the forwarded kinds on the bytes that re-sending them emits.
proof fn lemma_parse_variant_agree(
    s: Seq<u8>,
    n1: int,
    n2: int,
    a: MsgType,
    b: MsgType,
    sequence: u32,
)
    requires
        spec_msg_ok(s, n1, a),
        spec_msg_ok(s, n2, b),
    ensures
        a matches MsgType::Say(x) ==> (b matches MsgType::Say(y) && x.with_sequence(
            sequence,
        ).enc() == y.with_sequence(sequence).enc()),
        a matches MsgType::GameState(x) ==> (b matches MsgType::GameState(y) && x.with_sequence(
            sequence,
        ).enc() == y.with_sequence(sequence).enc()),
        a matches MsgType::PlayerList(x) ==> (b matches MsgType::PlayerList(y) && x.with_sequence(
            sequence,
        ).enc() == y.with_sequence(sequence).enc()),
        a matches MsgType::RoomList(x) ==> (b matches MsgType::RoomList(y) && x.with_sequence(
            sequence,
        ).enc() == y.with_sequence(sequence).enc()),
        (a matches MsgType::Say(_) || a matches MsgType::GameState(_) || a matches
            MsgType::PlayerList(_) || a matches MsgType::RoomList(_)) <==> (b matches
            MsgType::Say(_) || b matches MsgType::GameState(_) || b matches MsgType::PlayerList(_)
            || b matches MsgType::RoomList(_)),
{
    let h = MsgHeader::spec_parse(s).unwrap();
    let p = s.skip(crate::protocol::MSG_HEADER_SIZE as int);
    match (a, b) {
        (MsgType::Say(x), MsgType::Say(y)) => {
            assert(x.player_name@ =~= y.player_name@);
            assert(x.message@ =~= y.message@);
            assert(x.with_sequence(sequence).enc() =~= y.with_sequence(sequence).enc());
        },
        (MsgType::GameState(x), MsgType::GameState(y)) => {
            assert(x.fields@ =~= y.fields@);
            assert(x.with_sequence(sequence).enc() =~= y.with_sequence(sequence).enc());
        },
        (MsgType::PlayerList(x), MsgType::PlayerList(y)) => {
            assert(x.player_name@ =~= y.player_name@);
            assert(x.with_sequence(sequence).enc() =~= y.with_sequence(sequence).enc());
        },
        (MsgType::RoomList(x), MsgType::RoomList(y)) => {
            assert(x.room_name@ =~= y.room_name@);
            assert(x.with_sequence(sequence).enc() =~= y.with_sequence(sequence).enc());
        },
        _ => {},
    }
}

} // verus!
