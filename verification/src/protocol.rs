//! The binary wire codec: fixed-layout messages, each a 32-byte header
//! followed by a type-specific payload, with stream resynchronization on
//! the magic constant.

use crate::data_repr::{
    clamp_len, enc_words, extract_padded, lemma_enc_words_push, lemma_read32_at, parsed_buf,
    push_u32, read32, read_u32, spec_to_net32, zero_bytes, FromNetStr, NetError, ToNetStr,
};
use vstd::prelude::*;

verus! {

/// Upper bound on the size of any message, and on the receive buffer.
pub const MSG_BUFFER_SIZE: usize = 0x1000;

pub const MSG_PLAYERMODE_SPECTATOR: u32 = 0;

pub const MSG_PLAYERMODE_WOLF: u32 = 1;

pub const MSG_PLAYERMODE_SHEEP: u32 = 2;

pub const MSG_PLAYERMODE_BOTH: u32 = 3;

/// Capacity of a room name on the wire.
pub const MSG_MAXROOMNAME: usize = 64;

/// Capacity of a player name on the wire.
pub const MSG_MAXPLAYERNAME: usize = 64;

/// The magic constant that starts every message.
pub const MSG_MAGIC: u32 = 0xAA0E1F37;

pub const MSG_ID_NOP: u32 = 0;

pub const MSG_ID_RESULT: u32 = 1;

pub const MSG_ID_PING: u32 = 2;

pub const MSG_ID_PONG: u32 = 3;

pub const MSG_ID_JOIN: u32 = 4;

pub const MSG_ID_LEAVE: u32 = 5;

pub const MSG_ID_RESET: u32 = 6;

pub const MSG_ID_REQROOMLIST: u32 = 7;

pub const MSG_ID_ROOMLIST: u32 = 8;

pub const MSG_ID_REQPLAYERLIST: u32 = 9;

pub const MSG_ID_PLAYERLIST: u32 = 10;

pub const MSG_ID_REQGAMESTATE: u32 = 11;

pub const MSG_ID_GAMESTATE: u32 = 12;

pub const MSG_ID_MOVE: u32 = 13;

pub const MSG_ID_SAY: u32 = 14;

pub const MSG_ID_REQRECORD: u32 = 15;

pub const MSG_ID_RECORD: u32 = 16;

/// Size of the fixed message header: magic, size, id, sequence and four
/// reserved words.
pub const MSG_HEADER_SIZE: u32 = 4 * 8;

//////////////////////////////////////////////////////////////////////////////
// Message header.
//////////////////////////////////////////////////////////////////////////////

/// The fixed 32-byte header that starts every message. The four reserved
/// words of the wire layout are always zero and are not stored.
#[derive(Clone, Copy, PartialEq, Eq, Structural, Debug)]
pub struct MsgHeader {
    pub magic: u32,
    pub size: u32,
    pub id: u32,
    pub sequence: u32,
}

impl MsgHeader {
    /// Header invariant: correct magic, size at least the header's own
    /// size and at most the buffer bound.
    pub open spec fn wf(&self) -> bool {
        &&& self.magic == MSG_MAGIC
        &&& MSG_HEADER_SIZE <= self.size <= MSG_BUFFER_SIZE as u32
    }

    /// The 32-byte wire encoding of this header.
    pub open spec fn enc(&self) -> Seq<u8> {
        spec_to_net32(self.magic) + spec_to_net32(self.size) + spec_to_net32(self.id)
            + spec_to_net32(self.sequence) + zero_bytes(16)
    }

    /// This header with its sequence number replaced.
    pub open spec fn with_seq(self, sequence: u32) -> MsgHeader {
        MsgHeader { sequence, ..self }
    }

    pub fn new(magic: u32, size: u32, id: u32, sequence: u32) -> (r: MsgHeader)
        ensures
            r == (MsgHeader { magic, size, id, sequence }),
    {
        MsgHeader { magic, size, id, sequence }
    }

    pub fn get_size(&self) -> (r: u32)
        ensures
            r == self.size,
    {
        self.size
    }

    pub fn get_id(&self) -> (r: u32)
        ensures
            r == self.id,
    {
        self.id
    }

    pub fn get_sequence(&self) -> (r: u32)
        ensures
            r == self.sequence,
    {
        self.sequence
    }

    pub fn set_sequence(&mut self, sequence: u32)
        ensures
            *final(self) == old(self).with_seq(sequence),
    {
        self.sequence = sequence;
    }

    /// Parse a header from the front of `s`: truncated input, a wrong
    /// magic and a size outside its bounds are each their own error.
    pub open spec fn spec_parse(s: Seq<u8>) -> Result<MsgHeader, NetError> {
        if s.len() < MSG_HEADER_SIZE {
            Err(NetError::TruncatedData)
        } else {
            let magic = read32(s, 0);
            let size = read32(s, 4);
            let id = read32(s, 8);
            let sequence = read32(s, 12);
            if magic != MSG_MAGIC {
                Err(NetError::BadMagic)
            } else if size < MSG_HEADER_SIZE {
                Err(NetError::UndersizedLength)
            } else if size > MSG_BUFFER_SIZE as u32 {
                Err(NetError::OversizedLength)
            } else {
                Ok(MsgHeader { magic, size, id, sequence })
            }
        }
    }

    pub fn from_bytes(data: &[u8]) -> (r: Result<(usize, MsgHeader), NetError>)
        ensures
            r matches Ok((n, h)) ==> n == MSG_HEADER_SIZE as usize && MsgHeader::spec_parse(data@)
                == Ok::<MsgHeader, NetError>(h),
            r matches Err(e) ==> MsgHeader::spec_parse(data@) == Err::<MsgHeader, NetError>(e),
    {
        if data.len() >= MSG_HEADER_SIZE as usize {
            let magic = read_u32(data, 0);
            if magic != MSG_MAGIC {
                return Err(NetError::BadMagic);
            }
            let size = read_u32(data, 4);
            if size < MSG_HEADER_SIZE {
                return Err(NetError::UndersizedLength);
            }
            if size > MSG_BUFFER_SIZE as u32 {
                return Err(NetError::OversizedLength);
            }
            let id = read_u32(data, 8);
            let sequence = read_u32(data, 12);
            Ok((MSG_HEADER_SIZE as usize, MsgHeader { magic, size, id, sequence }))
        } else {
            Err(NetError::TruncatedData)
        }
    }

    /// Append this header's 32 bytes to `data`.
    pub fn to_bytes(&self, data: &mut Vec<u8>)
        ensures
            final(data)@ == old(data)@ + self.enc(),
    {
        push_u32(data, self.magic);
        push_u32(data, self.size);
        push_u32(data, self.id);
        push_u32(data, self.sequence);
        push_u32(data, 0);
        push_u32(data, 0);
        push_u32(data, 0);
        push_u32(data, 0);
        proof {
            crate::data_repr::lemma_net32_zero();
            assert(data@ =~= old(data)@ + self.enc());
        }
    }
}

/// Parsing the encoding of a well-formed header, followed by anything,
/// gives that header back.
pub proof fn lemma_parse_header_enc(h: MsgHeader, rest: Seq<u8>)
    requires
        h.wf(),
    ensures
        MsgHeader::spec_parse(h.enc() + rest) == Ok::<MsgHeader, NetError>(h),
{
    let s = h.enc() + rest;
    assert(s.subrange(0, 4) =~= spec_to_net32(h.magic));
    lemma_read32_at(s, 0, h.magic);
    assert(s.subrange(4, 8) =~= spec_to_net32(h.size));
    lemma_read32_at(s, 4, h.size);
    assert(s.subrange(8, 12) =~= spec_to_net32(h.id));
    lemma_read32_at(s, 8, h.id);
    assert(s.subrange(12, 16) =~= spec_to_net32(h.sequence));
    lemma_read32_at(s, 12, h.sequence);
}

//////////////////////////////////////////////////////////////////////////////
// Common message behaviour.
//////////////////////////////////////////////////////////////////////////////

/// What every message offers: its header, its wire encoding, and renumbering
/// of its sequence field before it is sent.
pub trait Message: Sized {
    /// The message's header.
    spec fn hdr(&self) -> MsgHeader;

    /// The message's complete wire encoding.
    spec fn enc(&self) -> Seq<u8>;

    /// This message with the header's sequence number replaced.
    spec fn with_sequence(self, sequence: u32) -> Self;

    fn get_header(&self) -> (r: &MsgHeader)
        ensures
            *r == self.hdr(),
    ;

    fn set_sequence(&mut self, sequence: u32)
        ensures
            *final(self) == old(self).with_sequence(sequence),
            final(self).hdr() == old(self).hdr().with_seq(sequence),
    ;

    fn to_bytes(&self) -> (r: Vec<u8>)
        ensures
            r@ == self.enc(),
    ;
}


//////////////////////////////////////////////////////////////////////////////
// Trivial messages without payload.
//////////////////////////////////////////////////////////////////////////////

/// Payload-free message: MsgNop carries only its header.
#[derive(Clone, Debug)]
pub struct MsgNop {
    pub header: MsgHeader,
}

impl MsgNop {
    pub open spec fn wf(&self) -> bool {
        &&& self.header.wf()
        &&& self.header.id == MSG_ID_NOP
        &&& self.header.size == MSG_HEADER_SIZE
    }

    pub fn new() -> (r: MsgNop)
        ensures
            r.wf(),
            r.header == (MsgHeader {
                magic: MSG_MAGIC,
                size: MSG_HEADER_SIZE,
                id: MSG_ID_NOP,
                sequence: 0,
            }),
    {
        MsgNop { header: MsgHeader::new(MSG_MAGIC, MSG_HEADER_SIZE, MSG_ID_NOP, 0) }
    }

    /// A payload-free message parses from any remainder of the stream.
    pub open spec fn spec_parse(header: MsgHeader, s: Seq<u8>) -> Result<MsgNop, NetError> {
        Ok(MsgNop { header })
    }

    pub fn from_bytes(header: MsgHeader, data: &[u8]) -> (r: Result<(usize, MsgNop), NetError>)
        ensures
            r matches Ok((n, m)) ==> n == 0 && MsgNop::spec_parse(header, data@) == Ok::<
                MsgNop,
                NetError,
            >(m),
            r is Ok,
    {
        Ok((0, MsgNop { header }))
    }
}

impl Message for MsgNop {
    open spec fn hdr(&self) -> MsgHeader {
        self.header
    }

    open spec fn enc(&self) -> Seq<u8> {
        self.header.enc()
    }

    open spec fn with_sequence(self, sequence: u32) -> Self {
        MsgNop { header: self.header.with_seq(sequence) }
    }

    fn get_header(&self) -> (r: &MsgHeader) {
        &self.header
    }

    fn set_sequence(&mut self, sequence: u32) {
        self.header.set_sequence(sequence);
    }

    fn to_bytes(&self) -> (r: Vec<u8>) {
        let mut data: Vec<u8> = Vec::new();
        self.header.to_bytes(&mut data);
        proof {
            assert(data@ =~= self.enc());
        }
        data
    }
}

/// Payload-free message: MsgPing carries only its header.
#[derive(Clone, Debug)]
pub struct MsgPing {
    pub header: MsgHeader,
}

impl MsgPing {
    pub open spec fn wf(&self) -> bool {
        &&& self.header.wf()
        &&& self.header.id == MSG_ID_PING
        &&& self.header.size == MSG_HEADER_SIZE
    }

    pub fn new() -> (r: MsgPing)
        ensures
            r.wf(),
            r.header == (MsgHeader {
                magic: MSG_MAGIC,
                size: MSG_HEADER_SIZE,
                id: MSG_ID_PING,
                sequence: 0,
            }),
    {
        MsgPing { header: MsgHeader::new(MSG_MAGIC, MSG_HEADER_SIZE, MSG_ID_PING, 0) }
    }

    /// A payload-free message parses from any remainder of the stream.
    pub open spec fn spec_parse(header: MsgHeader, s: Seq<u8>) -> Result<MsgPing, NetError> {
        Ok(MsgPing { header })
    }

    pub fn from_bytes(header: MsgHeader, data: &[u8]) -> (r: Result<(usize, MsgPing), NetError>)
        ensures
            r matches Ok((n, m)) ==> n == 0 && MsgPing::spec_parse(header, data@) == Ok::<
                MsgPing,
                NetError,
            >(m),
            r is Ok,
    {
        Ok((0, MsgPing { header }))
    }
}

impl Message for MsgPing {
    open spec fn hdr(&self) -> MsgHeader {
        self.header
    }

    open spec fn enc(&self) -> Seq<u8> {
        self.header.enc()
    }

    open spec fn with_sequence(self, sequence: u32) -> Self {
        MsgPing { header: self.header.with_seq(sequence) }
    }

    fn get_header(&self) -> (r: &MsgHeader) {
        &self.header
    }

    fn set_sequence(&mut self, sequence: u32) {
        self.header.set_sequence(sequence);
    }

    fn to_bytes(&self) -> (r: Vec<u8>) {
        let mut data: Vec<u8> = Vec::new();
        self.header.to_bytes(&mut data);
        proof {
            assert(data@ =~= self.enc());
        }
        data
    }
}

/// Payload-free message: MsgPong carries only its header.
#[derive(Clone, Debug)]
pub struct MsgPong {
    pub header: MsgHeader,
}

impl MsgPong {
    pub open spec fn wf(&self) -> bool {
        &&& self.header.wf()
        &&& self.header.id == MSG_ID_PONG
        &&& self.header.size == MSG_HEADER_SIZE
    }

    pub fn new() -> (r: MsgPong)
        ensures
            r.wf(),
            r.header == (MsgHeader {
                magic: MSG_MAGIC,
                size: MSG_HEADER_SIZE,
                id: MSG_ID_PONG,
                sequence: 0,
            }),
    {
        MsgPong { header: MsgHeader::new(MSG_MAGIC, MSG_HEADER_SIZE, MSG_ID_PONG, 0) }
    }

    /// A payload-free message parses from any remainder of the stream.
    pub open spec fn spec_parse(header: MsgHeader, s: Seq<u8>) -> Result<MsgPong, NetError> {
        Ok(MsgPong { header })
    }

    pub fn from_bytes(header: MsgHeader, data: &[u8]) -> (r: Result<(usize, MsgPong), NetError>)
        ensures
            r matches Ok((n, m)) ==> n == 0 && MsgPong::spec_parse(header, data@) == Ok::<
                MsgPong,
                NetError,
            >(m),
            r is Ok,
    {
        Ok((0, MsgPong { header }))
    }
}

impl Message for MsgPong {
    open spec fn hdr(&self) -> MsgHeader {
        self.header
    }

    open spec fn enc(&self) -> Seq<u8> {
        self.header.enc()
    }

    open spec fn with_sequence(self, sequence: u32) -> Self {
        MsgPong { header: self.header.with_seq(sequence) }
    }

    fn get_header(&self) -> (r: &MsgHeader) {
        &self.header
    }

    fn set_sequence(&mut self, sequence: u32) {
        self.header.set_sequence(sequence);
    }

    fn to_bytes(&self) -> (r: Vec<u8>) {
        let mut data: Vec<u8> = Vec::new();
        self.header.to_bytes(&mut data);
        proof {
            assert(data@ =~= self.enc());
        }
        data
    }
}

/// Payload-free message: MsgLeave carries only its header.
#[derive(Clone, Debug)]
pub struct MsgLeave {
    pub header: MsgHeader,
}

impl MsgLeave {
    pub open spec fn wf(&self) -> bool {
        &&& self.header.wf()
        &&& self.header.id == MSG_ID_LEAVE
        &&& self.header.size == MSG_HEADER_SIZE
    }

    pub fn new() -> (r: MsgLeave)
        ensures
            r.wf(),
            r.header == (MsgHeader {
                magic: MSG_MAGIC,
                size: MSG_HEADER_SIZE,
                id: MSG_ID_LEAVE,
                sequence: 0,
            }),
    {
        MsgLeave { header: MsgHeader::new(MSG_MAGIC, MSG_HEADER_SIZE, MSG_ID_LEAVE, 0) }
    }

    /// A payload-free message parses from any remainder of the stream.
    pub open spec fn spec_parse(header: MsgHeader, s: Seq<u8>) -> Result<MsgLeave, NetError> {
        Ok(MsgLeave { header })
    }

    pub fn from_bytes(header: MsgHeader, data: &[u8]) -> (r: Result<(usize, MsgLeave), NetError>)
        ensures
            r matches Ok((n, m)) ==> n == 0 && MsgLeave::spec_parse(header, data@) == Ok::<
                MsgLeave,
                NetError,
            >(m),
            r is Ok,
    {
        Ok((0, MsgLeave { header }))
    }
}

impl Message for MsgLeave {
    open spec fn hdr(&self) -> MsgHeader {
        self.header
    }

    open spec fn enc(&self) -> Seq<u8> {
        self.header.enc()
    }

    open spec fn with_sequence(self, sequence: u32) -> Self {
        MsgLeave { header: self.header.with_seq(sequence) }
    }

    fn get_header(&self) -> (r: &MsgHeader) {
        &self.header
    }

    fn set_sequence(&mut self, sequence: u32) {
        self.header.set_sequence(sequence);
    }

    fn to_bytes(&self) -> (r: Vec<u8>) {
        let mut data: Vec<u8> = Vec::new();
        self.header.to_bytes(&mut data);
        proof {
            assert(data@ =~= self.enc());
        }
        data
    }
}

/// Payload-free message: MsgReset carries only its header.
#[derive(Clone, Debug)]
pub struct MsgReset {
    pub header: MsgHeader,
}

impl MsgReset {
    pub open spec fn wf(&self) -> bool {
        &&& self.header.wf()
        &&& self.header.id == MSG_ID_RESET
        &&& self.header.size == MSG_HEADER_SIZE
    }

    pub fn new() -> (r: MsgReset)
        ensures
            r.wf(),
            r.header == (MsgHeader {
                magic: MSG_MAGIC,
                size: MSG_HEADER_SIZE,
                id: MSG_ID_RESET,
                sequence: 0,
            }),
    {
        MsgReset { header: MsgHeader::new(MSG_MAGIC, MSG_HEADER_SIZE, MSG_ID_RESET, 0) }
    }

    /// A payload-free message parses from any remainder of the stream.
    pub open spec fn spec_parse(header: MsgHeader, s: Seq<u8>) -> Result<MsgReset, NetError> {
        Ok(MsgReset { header })
    }

    pub fn from_bytes(header: MsgHeader, data: &[u8]) -> (r: Result<(usize, MsgReset), NetError>)
        ensures
            r matches Ok((n, m)) ==> n == 0 && MsgReset::spec_parse(header, data@) == Ok::<
                MsgReset,
                NetError,
            >(m),
            r is Ok,
    {
        Ok((0, MsgReset { header }))
    }
}

impl Message for MsgReset {
    open spec fn hdr(&self) -> MsgHeader {
        self.header
    }

    open spec fn enc(&self) -> Seq<u8> {
        self.header.enc()
    }

    open spec fn with_sequence(self, sequence: u32) -> Self {
        MsgReset { header: self.header.with_seq(sequence) }
    }

    fn get_header(&self) -> (r: &MsgHeader) {
        &self.header
    }

    fn set_sequence(&mut self, sequence: u32) {
        self.header.set_sequence(sequence);
    }

    fn to_bytes(&self) -> (r: Vec<u8>) {
        let mut data: Vec<u8> = Vec::new();
        self.header.to_bytes(&mut data);
        proof {
            assert(data@ =~= self.enc());
        }
        data
    }
}

/// Payload-free message: MsgReqRoomList carries only its header.
#[derive(Clone, Debug)]
pub struct MsgReqRoomList {
    pub header: MsgHeader,
}

impl MsgReqRoomList {
    pub open spec fn wf(&self) -> bool {
        &&& self.header.wf()
        &&& self.header.id == MSG_ID_REQROOMLIST
        &&& self.header.size == MSG_HEADER_SIZE
    }

    pub fn new() -> (r: MsgReqRoomList)
        ensures
            r.wf(),
            r.header == (MsgHeader {
                magic: MSG_MAGIC,
                size: MSG_HEADER_SIZE,
                id: MSG_ID_REQROOMLIST,
                sequence: 0,
            }),
    {
        MsgReqRoomList { header: MsgHeader::new(MSG_MAGIC, MSG_HEADER_SIZE, MSG_ID_REQROOMLIST, 0) }
    }

    /// A payload-free message parses from any remainder of the stream.
    pub open spec fn spec_parse(header: MsgHeader, s: Seq<u8>) -> Result<MsgReqRoomList, NetError> {
        Ok(MsgReqRoomList { header })
    }

    pub fn from_bytes(header: MsgHeader, data: &[u8]) -> (r: Result<(usize, MsgReqRoomList), NetError>)
        ensures
            r matches Ok((n, m)) ==> n == 0 && MsgReqRoomList::spec_parse(header, data@) == Ok::<
                MsgReqRoomList,
                NetError,
            >(m),
            r is Ok,
    {
        Ok((0, MsgReqRoomList { header }))
    }
}

impl Message for MsgReqRoomList {
    open spec fn hdr(&self) -> MsgHeader {
        self.header
    }

    open spec fn enc(&self) -> Seq<u8> {
        self.header.enc()
    }

    open spec fn with_sequence(self, sequence: u32) -> Self {
        MsgReqRoomList { header: self.header.with_seq(sequence) }
    }

    fn get_header(&self) -> (r: &MsgHeader) {
        &self.header
    }

    fn set_sequence(&mut self, sequence: u32) {
        self.header.set_sequence(sequence);
    }

    fn to_bytes(&self) -> (r: Vec<u8>) {
        let mut data: Vec<u8> = Vec::new();
        self.header.to_bytes(&mut data);
        proof {
            assert(data@ =~= self.enc());
        }
        data
    }
}

/// Payload-free message: MsgReqPlayerList carries only its header.
#[derive(Clone, Debug)]
pub struct MsgReqPlayerList {
    pub header: MsgHeader,
}

impl MsgReqPlayerList {
    pub open spec fn wf(&self) -> bool {
        &&& self.header.wf()
        &&& self.header.id == MSG_ID_REQPLAYERLIST
        &&& self.header.size == MSG_HEADER_SIZE
    }

    pub fn new() -> (r: MsgReqPlayerList)
        ensures
            r.wf(),
            r.header == (MsgHeader {
                magic: MSG_MAGIC,
                size: MSG_HEADER_SIZE,
                id: MSG_ID_REQPLAYERLIST,
                sequence: 0,
            }),
    {
        MsgReqPlayerList { header: MsgHeader::new(MSG_MAGIC, MSG_HEADER_SIZE, MSG_ID_REQPLAYERLIST, 0) }
    }

    /// A payload-free message parses from any remainder of the stream.
    pub open spec fn spec_parse(header: MsgHeader, s: Seq<u8>) -> Result<MsgReqPlayerList, NetError> {
        Ok(MsgReqPlayerList { header })
    }

    pub fn from_bytes(header: MsgHeader, data: &[u8]) -> (r: Result<(usize, MsgReqPlayerList), NetError>)
        ensures
            r matches Ok((n, m)) ==> n == 0 && MsgReqPlayerList::spec_parse(header, data@) == Ok::<
                MsgReqPlayerList,
                NetError,
            >(m),
            r is Ok,
    {
        Ok((0, MsgReqPlayerList { header }))
    }
}

impl Message for MsgReqPlayerList {
    open spec fn hdr(&self) -> MsgHeader {
        self.header
    }

    open spec fn enc(&self) -> Seq<u8> {
        self.header.enc()
    }

    open spec fn with_sequence(self, sequence: u32) -> Self {
        MsgReqPlayerList { header: self.header.with_seq(sequence) }
    }

    fn get_header(&self) -> (r: &MsgHeader) {
        &self.header
    }

    fn set_sequence(&mut self, sequence: u32) {
        self.header.set_sequence(sequence);
    }

    fn to_bytes(&self) -> (r: Vec<u8>) {
        let mut data: Vec<u8> = Vec::new();
        self.header.to_bytes(&mut data);
        proof {
            assert(data@ =~= self.enc());
        }
        data
    }
}

/// Payload-free message: MsgReqGameState carries only its header.
#[derive(Clone, Debug)]
pub struct MsgReqGameState {
    pub header: MsgHeader,
}

impl MsgReqGameState {
    pub open spec fn wf(&self) -> bool {
        &&& self.header.wf()
        &&& self.header.id == MSG_ID_REQGAMESTATE
        &&& self.header.size == MSG_HEADER_SIZE
    }

    pub fn new() -> (r: MsgReqGameState)
        ensures
            r.wf(),
            r.header == (MsgHeader {
                magic: MSG_MAGIC,
                size: MSG_HEADER_SIZE,
                id: MSG_ID_REQGAMESTATE,
                sequence: 0,
            }),
    {
        MsgReqGameState { header: MsgHeader::new(MSG_MAGIC, MSG_HEADER_SIZE, MSG_ID_REQGAMESTATE, 0) }
    }

    /// A payload-free message parses from any remainder of the stream.
    pub open spec fn spec_parse(header: MsgHeader, s: Seq<u8>) -> Result<MsgReqGameState, NetError> {
        Ok(MsgReqGameState { header })
    }

    pub fn from_bytes(header: MsgHeader, data: &[u8]) -> (r: Result<(usize, MsgReqGameState), NetError>)
        ensures
            r matches Ok((n, m)) ==> n == 0 && MsgReqGameState::spec_parse(header, data@) == Ok::<
                MsgReqGameState,
                NetError,
            >(m),
            r is Ok,
    {
        Ok((0, MsgReqGameState { header }))
    }
}

impl Message for MsgReqGameState {
    open spec fn hdr(&self) -> MsgHeader {
        self.header
    }

    open spec fn enc(&self) -> Seq<u8> {
        self.header.enc()
    }

    open spec fn with_sequence(self, sequence: u32) -> Self {
        MsgReqGameState { header: self.header.with_seq(sequence) }
    }

    fn get_header(&self) -> (r: &MsgHeader) {
        &self.header
    }

    fn set_sequence(&mut self, sequence: u32) {
        self.header.set_sequence(sequence);
    }

    fn to_bytes(&self) -> (r: Vec<u8>) {
        let mut data: Vec<u8> = Vec::new();
        self.header.to_bytes(&mut data);
        proof {
            assert(data@ =~= self.enc());
        }
        data
    }
}

/// Payload-free message: MsgReqRecord carries only its header.
#[derive(Clone, Debug)]
pub struct MsgReqRecord {
    pub header: MsgHeader,
}

impl MsgReqRecord {
    pub open spec fn wf(&self) -> bool {
        &&& self.header.wf()
        &&& self.header.id == MSG_ID_REQRECORD
        &&& self.header.size == MSG_HEADER_SIZE
    }

    pub fn new() -> (r: MsgReqRecord)
        ensures
            r.wf(),
            r.header == (MsgHeader {
                magic: MSG_MAGIC,
                size: MSG_HEADER_SIZE,
                id: MSG_ID_REQRECORD,
                sequence: 0,
            }),
    {
        MsgReqRecord { header: MsgHeader::new(MSG_MAGIC, MSG_HEADER_SIZE, MSG_ID_REQRECORD, 0) }
    }

    /// A payload-free message parses from any remainder of the stream.
    pub open spec fn spec_parse(header: MsgHeader, s: Seq<u8>) -> Result<MsgReqRecord, NetError> {
        Ok(MsgReqRecord { header })
    }

    pub fn from_bytes(header: MsgHeader, data: &[u8]) -> (r: Result<(usize, MsgReqRecord), NetError>)
        ensures
            r matches Ok((n, m)) ==> n == 0 && MsgReqRecord::spec_parse(header, data@) == Ok::<
                MsgReqRecord,
                NetError,
            >(m),
            r is Ok,
    {
        Ok((0, MsgReqRecord { header }))
    }
}

impl Message for MsgReqRecord {
    open spec fn hdr(&self) -> MsgHeader {
        self.header
    }

    open spec fn enc(&self) -> Seq<u8> {
        self.header.enc()
    }

    open spec fn with_sequence(self, sequence: u32) -> Self {
        MsgReqRecord { header: self.header.with_seq(sequence) }
    }

    fn get_header(&self) -> (r: &MsgHeader) {
        &self.header
    }

    fn set_sequence(&mut self, sequence: u32) {
        self.header.set_sequence(sequence);
    }

    fn to_bytes(&self) -> (r: Vec<u8>) {
        let mut data: Vec<u8> = Vec::new();
        self.header.to_bytes(&mut data);
        proof {
            assert(data@ =~= self.enc());
        }
        data
    }
}


//////////////////////////////////////////////////////////////////////////////
// MsgResult
//////////////////////////////////////////////////////////////////////////////

/// Capacity of the free-text field of a Result message.
pub const MSG_RESULT_MAXMSGLEN: usize = 0x200;

pub const MSG_RESULT_SIZE: u32 = MSG_HEADER_SIZE + MSG_HEADER_SIZE + (2 * 4)
    + MSG_RESULT_MAXMSGLEN as u32;

/// Result code: the request succeeded.
pub const MSG_RESULT_OK: u32 = 0;

/// Result code: the request was rejected.
pub const MSG_RESULT_NOK: u32 = 1;

/// First result code of the range reserved for collaborator-specific codes.
pub const MSG_RESULT_USER: u32 = 0x10000;

/// Reply to a request: an embedded copy of the request's header, a result
/// code, and free text.
#[derive(Clone, Debug)]
pub struct MsgResult {
    pub header: MsgHeader,
    pub in_reply_to_header: MsgHeader,
    pub result_code: u32,
    pub message_len: u32,
    pub message: Vec<u8>,
}

impl MsgResult {
    /// Invariant of the variable-length fields alone; it holds of every
    /// decoded message whatever its header says.
    pub open spec fn bufs_wf(&self) -> bool {
        &&& self.message@.len() == MSG_RESULT_MAXMSGLEN
        &&& self.message_len <= MSG_RESULT_MAXMSGLEN as u32
        &&& forall|i: int| self.message_len <= i < self.message@.len() ==> self.message@[i] == 0
    }

    pub open spec fn wf(&self) -> bool {
        &&& self.header.wf()
        &&& self.header.id == MSG_ID_RESULT
        &&& self.header.size == MSG_RESULT_SIZE
        &&& self.in_reply_to_header.wf()
        &&& self.bufs_wf()
    }

    /// Build the reply to `in_reply_to_msg`, echoing that message's header.
    /// Text that does not fit the wire field is truncated.
    pub fn new<M: Message>(in_reply_to_msg: &M, result_code: u32, message: &str) -> (r: Result<
        MsgResult,
        NetError,
    >)
        ensures
            r is Ok,
            r matches Ok(m) ==> {
                &&& m.header == (MsgHeader {
                    magic: MSG_MAGIC,
                    size: MSG_RESULT_SIZE,
                    id: MSG_ID_RESULT,
                    sequence: 0,
                })
                &&& m.in_reply_to_header == in_reply_to_msg.hdr()
                &&& m.result_code == result_code
                &&& m.message_len == if message.net_bytes().len() > MSG_RESULT_MAXMSGLEN {
                    MSG_RESULT_MAXMSGLEN as u32
                } else {
                    message.net_bytes().len() as u32
                }
                &&& m.message@ == if message.net_bytes().len() <= MSG_RESULT_MAXMSGLEN {
                    message.net_bytes() + zero_bytes(
                        MSG_RESULT_MAXMSGLEN - message.net_bytes().len(),
                    )
                } else {
                    message.net_bytes().take(MSG_RESULT_MAXMSGLEN as int)
                }
                &&& in_reply_to_msg.hdr().wf() ==> m.wf()
            },
    {
        MsgResult::new_to_header(*in_reply_to_msg.get_header(), result_code, message)
    }

    /// Build the reply that echoes the given request header.
    pub fn new_to_header(in_reply_to: MsgHeader, result_code: u32, message: &str) -> (r: Result<
        MsgResult,
        NetError,
    >)
        ensures
            r is Ok,
            r matches Ok(m) ==> {
                &&& m.header == (MsgHeader {
                    magic: MSG_MAGIC,
                    size: MSG_RESULT_SIZE,
                    id: MSG_ID_RESULT,
                    sequence: 0,
                })
                &&& m.in_reply_to_header == in_reply_to
                &&& m.result_code == result_code
                &&& m.message_len == if message.net_bytes().len() > MSG_RESULT_MAXMSGLEN {
                    MSG_RESULT_MAXMSGLEN as u32
                } else {
                    message.net_bytes().len() as u32
                }
                &&& m.message@ == if message.net_bytes().len() <= MSG_RESULT_MAXMSGLEN {
                    message.net_bytes() + zero_bytes(
                        MSG_RESULT_MAXMSGLEN - message.net_bytes().len(),
                    )
                } else {
                    message.net_bytes().take(MSG_RESULT_MAXMSGLEN as int)
                }
                &&& in_reply_to.wf() ==> m.wf()
            },
    {
        let message_bytes = match message.to_net(MSG_RESULT_MAXMSGLEN, true) {
            Ok(b) => b,
            Err(_) => Vec::new(),
        };
        let sb = message.as_bytes();
        let message_len = if sb.len() > MSG_RESULT_MAXMSGLEN {
            MSG_RESULT_MAXMSGLEN
        } else {
            sb.len()
        };
        let m = MsgResult {
            header: MsgHeader::new(MSG_MAGIC, MSG_RESULT_SIZE, MSG_ID_RESULT, 0),
            in_reply_to_header: in_reply_to,
            result_code,
            message_len: message_len as u32,
            message: message_bytes,
        };
        Ok(m)
    }

    /// Whether the payload after the header parses, and with which error
    /// it is refused: the embedded header is validated like any other.
    pub open spec fn spec_parse_err(s: Seq<u8>) -> Result<(), NetError> {
        if s.len() < MSG_RESULT_SIZE - MSG_HEADER_SIZE {
            Err(NetError::TruncatedData)
        } else {
            match MsgHeader::spec_parse(s) {
                Err(e) => Err(e),
                Ok(h) => Ok(()),
            }
        }
    }

    /// `m` is the message that the payload `s` under `header` decodes to.
    /// The text length is clamped to the field's capacity.
    pub open spec fn parses_to(header: MsgHeader, s: Seq<u8>, m: MsgResult) -> bool {
        &&& m.header == header
        &&& MsgHeader::spec_parse(s) == Ok::<MsgHeader, NetError>(m.in_reply_to_header)
        &&& m.result_code == read32(s, 32)
        &&& m.message_len == clamp_len(read32(s, 36), MSG_RESULT_MAXMSGLEN as u32)
        &&& m.message@ == parsed_buf(s, 40, m.message_len as int, MSG_RESULT_MAXMSGLEN as int)
    }

    pub fn from_bytes(header: MsgHeader, data: &[u8]) -> (r: Result<(usize, MsgResult), NetError>)
        ensures
            r matches Ok((n, m)) ==> n == (MSG_RESULT_SIZE - MSG_HEADER_SIZE) as usize
                && MsgResult::spec_parse_err(data@) is Ok
                && MsgResult::parses_to(header, data@, m) && m.bufs_wf(),
            r matches Err(e) ==> MsgResult::spec_parse_err(data@) == Err::<(), NetError>(e),
    {
        if data.len() >= (MSG_RESULT_SIZE - MSG_HEADER_SIZE) as usize {
            let (_, in_reply_to_header) = match MsgHeader::from_bytes(data) {
                Ok(x) => x,
                Err(e) => {
                    return Err(e);
                },
            };
            let result_code = read_u32(data, 32);
            let len_raw = read_u32(data, 36);
            let len = if len_raw > MSG_RESULT_MAXMSGLEN as u32 {
                MSG_RESULT_MAXMSGLEN as u32
            } else {
                len_raw
            };
            let message = extract_padded(data, 40, len as usize, MSG_RESULT_MAXMSGLEN);
            let m = MsgResult {
                header,
                in_reply_to_header,
                result_code,
                message_len: len,
                message,
            };
            Ok(((MSG_RESULT_SIZE - MSG_HEADER_SIZE) as usize, m))
        } else {
            Err(NetError::TruncatedData)
        }
    }

    /// A Result is in reply to `other` iff the type id and the sequence
    /// number of its embedded header both equal those of `other`'s header.
    pub fn is_in_reply_to<M: Message>(&self, other: &M) -> (r: bool)
        ensures
            r == (self.in_reply_to_header.id == other.hdr().id
                && self.in_reply_to_header.sequence == other.hdr().sequence),
    {
        let other_header = other.get_header();
        self.in_reply_to_header.id == other_header.id && self.in_reply_to_header.sequence
            == other_header.sequence
    }

    pub fn get_result_code(&self) -> (r: u32)
        ensures
            r == self.result_code,
    {
        self.result_code
    }

    pub fn is_ok(&self) -> (r: bool)
        ensures
            r == (self.result_code == MSG_RESULT_OK),
    {
        self.result_code == MSG_RESULT_OK
    }

    /// The free text, decoded lossily from the transmitted prefix; on
    /// valid UTF-8 it is the exact decoding.
    pub fn get_text(&self) -> (r: String)
        requires
            self.bufs_wf(),
        ensures
            r@ == crate::data_repr::utf8_lossy_of(
                crate::data_repr::strip_zeros(self.message@.take(self.message_len as int)),
            ),
            vstd::utf8::valid_utf8(
                crate::data_repr::strip_zeros(self.message@.take(self.message_len as int)),
            ) ==> r@ == vstd::utf8::decode_utf8(
                crate::data_repr::strip_zeros(self.message@.take(self.message_len as int)),
            ),
    {
        let text = String::from_net(&self.message.as_slice()[0..self.message_len as usize], true);
        match text {
            Ok(t) => t,
            Err(_) => String::new(),
        }
    }
}

impl Message for MsgResult {
    open spec fn hdr(&self) -> MsgHeader {
        self.header
    }

    open spec fn enc(&self) -> Seq<u8> {
        self.header.enc() + self.in_reply_to_header.enc() + spec_to_net32(self.result_code)
            + spec_to_net32(self.message_len) + self.message@
    }

    open spec fn with_sequence(self, sequence: u32) -> Self {
        MsgResult { header: self.header.with_seq(sequence), ..self }
    }

    fn get_header(&self) -> (r: &MsgHeader) {
        &self.header
    }

    fn set_sequence(&mut self, sequence: u32) {
        self.header.set_sequence(sequence);
    }

    fn to_bytes(&self) -> (r: Vec<u8>) {
        let mut data: Vec<u8> = Vec::new();
        self.header.to_bytes(&mut data);
        self.in_reply_to_header.to_bytes(&mut data);
        push_u32(&mut data, self.result_code);
        push_u32(&mut data, self.message_len);
        data.extend_from_slice(self.message.as_slice());
        proof {
            assert(data@ =~= self.enc());
        }
        data
    }
}

//////////////////////////////////////////////////////////////////////////////
// MsgJoin
//////////////////////////////////////////////////////////////////////////////

pub const MSG_JOIN_SIZE: u32 = MSG_HEADER_SIZE + 4 + MSG_MAXROOMNAME as u32 + 4
    + MSG_MAXPLAYERNAME as u32 + 4;

/// Request to join a room under a player name and mode.
#[derive(Clone, Debug)]
pub struct MsgJoin {
    pub header: MsgHeader,
    pub room_name_len: u32,
    pub room_name: Vec<u8>,
    pub player_name_len: u32,
    pub player_name: Vec<u8>,
    pub player_mode: u32,
}

impl MsgJoin {
    /// Invariant of the variable-length fields alone; it holds of every
    /// decoded message whatever its header says.
    pub open spec fn bufs_wf(&self) -> bool {
        &&& self.room_name@.len() == MSG_MAXROOMNAME
        &&& self.room_name_len <= MSG_MAXROOMNAME as u32
        &&& forall|i: int| self.room_name_len <= i < self.room_name@.len()
            ==> self.room_name@[i] == 0
        &&& self.player_name@.len() == MSG_MAXPLAYERNAME
        &&& self.player_name_len <= MSG_MAXPLAYERNAME as u32
        &&& forall|i: int| self.player_name_len <= i < self.player_name@.len()
            ==> self.player_name@[i] == 0
    }

    pub open spec fn wf(&self) -> bool {
        &&& self.header.wf()
        &&& self.header.id == MSG_ID_JOIN
        &&& self.header.size == MSG_JOIN_SIZE
        &&& self.bufs_wf()
    }

    /// Build a join request; names that do not fit their wire fields are
    /// refused.
    pub fn new(room_name: &str, player_name: &str, player_mode: u32) -> (r: Result<
        MsgJoin,
        NetError,
    >)
        ensures
            r is Ok <==> (room_name.net_bytes().len() <= MSG_MAXROOMNAME
                && player_name.net_bytes().len() <= MSG_MAXPLAYERNAME),
            r matches Ok(m) ==> {
                &&& m.wf()
                &&& m.header == (MsgHeader {
                    magic: MSG_MAGIC,
                    size: MSG_JOIN_SIZE,
                    id: MSG_ID_JOIN,
                    sequence: 0,
                })
                &&& m.room_name_len == room_name.net_bytes().len()
                &&& m.room_name@ == room_name.net_bytes() + zero_bytes(
                    MSG_MAXROOMNAME - room_name.net_bytes().len(),
                )
                &&& m.player_name_len == player_name.net_bytes().len()
                &&& m.player_name@ == player_name.net_bytes() + zero_bytes(
                    MSG_MAXPLAYERNAME - player_name.net_bytes().len(),
                )
                &&& m.player_mode == player_mode
            },
            r matches Err(e) ==> e == NetError::StringTooLong,
    {
        let room_name_bytes = match room_name.to_net(MSG_MAXROOMNAME, false) {
            Ok(b) => b,
            Err(e) => {
                return Err(e);
            },
        };
        let player_name_bytes = match player_name.to_net(MSG_MAXPLAYERNAME, false) {
            Ok(b) => b,
            Err(e) => {
                return Err(e);
            },
        };
        Ok(
            MsgJoin {
                header: MsgHeader::new(MSG_MAGIC, MSG_JOIN_SIZE, MSG_ID_JOIN, 0),
                room_name_len: room_name.as_bytes().len() as u32,
                room_name: room_name_bytes,
                player_name_len: player_name.as_bytes().len() as u32,
                player_name: player_name_bytes,
                player_mode,
            },
        )
    }

    /// Whether the payload after the header parses, and with which error
    /// it is refused.
    pub open spec fn spec_parse_err(s: Seq<u8>) -> Result<(), NetError> {
        if s.len() < MSG_JOIN_SIZE - MSG_HEADER_SIZE {
            Err(NetError::TruncatedData)
        } else {
            Ok(())
        }
    }

    /// `m` is the message that the payload `s` under `header` decodes to.
    pub open spec fn parses_to(header: MsgHeader, s: Seq<u8>, m: MsgJoin) -> bool {
        &&& m.header == header
        &&& m.room_name_len == clamp_len(read32(s, 0), MSG_MAXROOMNAME as u32)
        &&& m.room_name@ == parsed_buf(s, 4, m.room_name_len as int, MSG_MAXROOMNAME as int)
        &&& m.player_name_len == clamp_len(read32(s, 68), MSG_MAXPLAYERNAME as u32)
        &&& m.player_name@ == parsed_buf(s, 72, m.player_name_len as int, MSG_MAXPLAYERNAME as int)
        &&& m.player_mode == read32(s, 136)
    }

    pub fn from_bytes(header: MsgHeader, data: &[u8]) -> (r: Result<(usize, MsgJoin), NetError>)
        ensures
            r matches Ok((n, m)) ==> n == (MSG_JOIN_SIZE - MSG_HEADER_SIZE) as usize
                && MsgJoin::spec_parse_err(data@) is Ok && MsgJoin::parses_to(header, data@, m)
                && m.bufs_wf(),
            r matches Err(e) ==> MsgJoin::spec_parse_err(data@) == Err::<(), NetError>(e),
    {
        if data.len() >= (MSG_JOIN_SIZE - MSG_HEADER_SIZE) as usize {
            let rlen_raw = read_u32(data, 0);
            let rlen = if rlen_raw > MSG_MAXROOMNAME as u32 {
                MSG_MAXROOMNAME as u32
            } else {
                rlen_raw
            };
            let room_name = extract_padded(data, 4, rlen as usize, MSG_MAXROOMNAME);
            let plen_raw = read_u32(data, 68);
            let plen = if plen_raw > MSG_MAXPLAYERNAME as u32 {
                MSG_MAXPLAYERNAME as u32
            } else {
                plen_raw
            };
            let player_name = extract_padded(data, 72, plen as usize, MSG_MAXPLAYERNAME);
            let player_mode = read_u32(data, 136);
            let m = MsgJoin {
                header,
                room_name_len: rlen,
                room_name,
                player_name_len: plen,
                player_name,
                player_mode,
            };
            Ok(((MSG_JOIN_SIZE - MSG_HEADER_SIZE) as usize, m))
        } else {
            Err(NetError::TruncatedData)
        }
    }

    /// The requested room name; refused if it is not valid UTF-8.
    pub fn get_room_name(&self) -> (r: Result<String, NetError>)
        requires
            self.bufs_wf(),
        ensures
            r matches Ok(s) ==> vstd::utf8::valid_utf8(
                crate::data_repr::strip_zeros(self.room_name@.take(self.room_name_len as int)),
            ) && s@ == vstd::utf8::decode_utf8(
                crate::data_repr::strip_zeros(self.room_name@.take(self.room_name_len as int)),
            ),
            r is Ok <==> vstd::utf8::valid_utf8(
                crate::data_repr::strip_zeros(self.room_name@.take(self.room_name_len as int)),
            ),
    {
        String::from_net(&self.room_name.as_slice()[0..self.room_name_len as usize], false)
    }

    /// The requested player name; refused if it is not valid UTF-8.
    pub fn get_player_name(&self) -> (r: Result<String, NetError>)
        requires
            self.bufs_wf(),
        ensures
            r matches Ok(s) ==> vstd::utf8::valid_utf8(
                crate::data_repr::strip_zeros(self.player_name@.take(self.player_name_len as int)),
            ) && s@ == vstd::utf8::decode_utf8(
                crate::data_repr::strip_zeros(self.player_name@.take(self.player_name_len as int)),
            ),
            r is Ok <==> vstd::utf8::valid_utf8(
                crate::data_repr::strip_zeros(self.player_name@.take(self.player_name_len as int)),
            ),
    {
        String::from_net(&self.player_name.as_slice()[0..self.player_name_len as usize], false)
    }

    pub fn get_player_mode(&self) -> (r: u32)
        ensures
            r == self.player_mode,
    {
        self.player_mode
    }
}

impl Message for MsgJoin {
    open spec fn hdr(&self) -> MsgHeader {
        self.header
    }

    open spec fn enc(&self) -> Seq<u8> {
        self.header.enc() + spec_to_net32(self.room_name_len) + self.room_name@ + spec_to_net32(
            self.player_name_len,
        ) + self.player_name@ + spec_to_net32(self.player_mode)
    }

    open spec fn with_sequence(self, sequence: u32) -> Self {
        MsgJoin { header: self.header.with_seq(sequence), ..self }
    }

    fn get_header(&self) -> (r: &MsgHeader) {
        &self.header
    }

    fn set_sequence(&mut self, sequence: u32) {
        self.header.set_sequence(sequence);
    }

    fn to_bytes(&self) -> (r: Vec<u8>) {
        let mut data: Vec<u8> = Vec::new();
        self.header.to_bytes(&mut data);
        push_u32(&mut data, self.room_name_len);
        data.extend_from_slice(self.room_name.as_slice());
        push_u32(&mut data, self.player_name_len);
        data.extend_from_slice(self.player_name.as_slice());
        push_u32(&mut data, self.player_mode);
        proof {
            assert(data@ =~= self.enc());
        }
        data
    }
}

//////////////////////////////////////////////////////////////////////////////
// MsgMove
//////////////////////////////////////////////////////////////////////////////

pub const MSG_MOVE_SIZE: u32 = MSG_HEADER_SIZE + (4 * 4);

pub const MSG_MOVE_ACTION_PICK: u32 = 0;

pub const MSG_MOVE_ACTION_MOVE: u32 = 1;

pub const MSG_MOVE_ACTION_PUT: u32 = 2;

pub const MSG_MOVE_ACTION_ABORT: u32 = 3;

pub const MSG_MOVE_TOKEN_CURRENT: u32 = 0;

pub const MSG_MOVE_TOKEN_WOLF: u32 = 1;

pub const MSG_MOVE_TOKEN_SHEEP: u32 = 2;

/// A move action on a board token at a coordinate.
#[derive(Clone, Copy, Debug)]
pub struct MsgMove {
    pub header: MsgHeader,
    pub action: u32,
    pub token: u32,
    pub coord_x: u32,
    pub coord_y: u32,
}

impl MsgMove {
    pub open spec fn wf(&self) -> bool {
        &&& self.header.wf()
        &&& self.header.id == MSG_ID_MOVE
        &&& self.header.size == MSG_MOVE_SIZE
    }

    pub fn new(action: u32, token: u32, coord_x: u32, coord_y: u32) -> (r: MsgMove)
        ensures
            r.wf(),
            r == (MsgMove {
                header: MsgHeader {
                    magic: MSG_MAGIC,
                    size: MSG_MOVE_SIZE,
                    id: MSG_ID_MOVE,
                    sequence: 0,
                },
                action,
                token,
                coord_x,
                coord_y,
            }),
    {
        MsgMove {
            header: MsgHeader::new(MSG_MAGIC, MSG_MOVE_SIZE, MSG_ID_MOVE, 0),
            action,
            token,
            coord_x,
            coord_y,
        }
    }

    pub open spec fn spec_parse(header: MsgHeader, s: Seq<u8>) -> Result<MsgMove, NetError> {
        if s.len() < MSG_MOVE_SIZE - MSG_HEADER_SIZE {
            Err(NetError::TruncatedData)
        } else {
            Ok(MsgMove {
                header,
                action: read32(s, 0),
                token: read32(s, 4),
                coord_x: read32(s, 8),
                coord_y: read32(s, 12),
            })
        }
    }

    pub fn from_bytes(header: MsgHeader, data: &[u8]) -> (r: Result<(usize, MsgMove), NetError>)
        ensures
            r matches Ok((n, m)) ==> n == (MSG_MOVE_SIZE - MSG_HEADER_SIZE) as usize
                && MsgMove::spec_parse(header, data@) == Ok::<MsgMove, NetError>(m),
            r matches Err(e) ==> MsgMove::spec_parse(header, data@) == Err::<MsgMove, NetError>(e),
    {
        if data.len() >= (MSG_MOVE_SIZE - MSG_HEADER_SIZE) as usize {
            let m = MsgMove {
                header,
                action: read_u32(data, 0),
                token: read_u32(data, 4),
                coord_x: read_u32(data, 8),
                coord_y: read_u32(data, 12),
            };
            Ok(((MSG_MOVE_SIZE - MSG_HEADER_SIZE) as usize, m))
        } else {
            Err(NetError::TruncatedData)
        }
    }

    pub fn get_action(&self) -> (r: (u32, u32, u32))
        ensures
            r == (self.action, self.coord_x, self.coord_y),
    {
        (self.action, self.coord_x, self.coord_y)
    }
}

impl Message for MsgMove {
    open spec fn hdr(&self) -> MsgHeader {
        self.header
    }

    open spec fn enc(&self) -> Seq<u8> {
        self.header.enc() + spec_to_net32(self.action) + spec_to_net32(self.token) + spec_to_net32(
            self.coord_x,
        ) + spec_to_net32(self.coord_y)
    }

    open spec fn with_sequence(self, sequence: u32) -> Self {
        MsgMove { header: self.header.with_seq(sequence), ..self }
    }

    fn get_header(&self) -> (r: &MsgHeader) {
        &self.header
    }

    fn set_sequence(&mut self, sequence: u32) {
        self.header.set_sequence(sequence);
    }

    fn to_bytes(&self) -> (r: Vec<u8>) {
        let mut data: Vec<u8> = Vec::new();
        self.header.to_bytes(&mut data);
        push_u32(&mut data, self.action);
        push_u32(&mut data, self.token);
        push_u32(&mut data, self.coord_x);
        push_u32(&mut data, self.coord_y);
        proof {
            assert(data@ =~= self.enc());
        }
        data
    }
}


//////////////////////////////////////////////////////////////////////////////
// MsgRoomList
//////////////////////////////////////////////////////////////////////////////

pub const MSG_ROOM_LIST_SIZE: u32 = MSG_HEADER_SIZE + (3 * 4) + MSG_MAXROOMNAME as u32;

/// One entry of the room list: entry `index` of `total_count`.
#[derive(Clone, Debug)]
pub struct MsgRoomList {
    pub header: MsgHeader,
    pub total_count: u32,
    pub index: u32,
    pub room_name_len: u32,
    pub room_name: Vec<u8>,
}

impl MsgRoomList {
    /// Invariant of the variable-length fields alone; it holds of every
    /// decoded message whatever its header says.
    pub open spec fn bufs_wf(&self) -> bool {
        &&& self.room_name@.len() == MSG_MAXROOMNAME
        &&& self.room_name_len <= MSG_MAXROOMNAME as u32
        &&& forall|i: int| self.room_name_len <= i < self.room_name@.len()
            ==> self.room_name@[i] == 0
    }

    pub open spec fn wf(&self) -> bool {
        &&& self.header.wf()
        &&& self.header.id == MSG_ID_ROOMLIST
        &&& self.header.size == MSG_ROOM_LIST_SIZE
        &&& self.bufs_wf()
    }

    /// Build one room-list entry; a name that does not fit is refused.
    pub fn new(total_count: u32, index: u32, room_name: &str) -> (r: Result<
        MsgRoomList,
        NetError,
    >)
        ensures
            r is Ok <==> room_name.net_bytes().len() <= MSG_MAXROOMNAME,
            r matches Ok(m) ==> {
                &&& m.wf()
                &&& m.header == (MsgHeader {
                    magic: MSG_MAGIC,
                    size: MSG_ROOM_LIST_SIZE,
                    id: MSG_ID_ROOMLIST,
                    sequence: 0,
                })
                &&& m.total_count == total_count
                &&& m.index == index
                &&& m.room_name_len == room_name.net_bytes().len()
                &&& m.room_name@ == room_name.net_bytes() + zero_bytes(
                    MSG_MAXROOMNAME - room_name.net_bytes().len(),
                )
            },
            r matches Err(e) ==> e == NetError::StringTooLong,
    {
        let room_name_bytes = match room_name.to_net(MSG_MAXROOMNAME, false) {
            Ok(b) => b,
            Err(e) => {
                return Err(e);
            },
        };
        Ok(
            MsgRoomList {
                header: MsgHeader::new(MSG_MAGIC, MSG_ROOM_LIST_SIZE, MSG_ID_ROOMLIST, 0),
                total_count,
                index,
                room_name_len: room_name.as_bytes().len() as u32,
                room_name: room_name_bytes,
            },
        )
    }

    /// Whether the payload after the header parses, and with which error
    /// it is refused.
    pub open spec fn spec_parse_err(s: Seq<u8>) -> Result<(), NetError> {
        if s.len() < MSG_ROOM_LIST_SIZE - MSG_HEADER_SIZE {
            Err(NetError::TruncatedData)
        } else {
            Ok(())
        }
    }

    /// `m` is the message that the payload `s` under `header` decodes to.
    pub open spec fn parses_to(header: MsgHeader, s: Seq<u8>, m: MsgRoomList) -> bool {
        &&& m.header == header
        &&& m.total_count == read32(s, 0)
        &&& m.index == read32(s, 4)
        &&& m.room_name_len == clamp_len(read32(s, 8), MSG_MAXROOMNAME as u32)
        &&& m.room_name@ == parsed_buf(s, 12, m.room_name_len as int, MSG_MAXROOMNAME as int)
    }

    pub fn from_bytes(header: MsgHeader, data: &[u8]) -> (r: Result<
        (usize, MsgRoomList),
        NetError,
    >)
        ensures
            r matches Ok((n, m)) ==> n == (MSG_ROOM_LIST_SIZE - MSG_HEADER_SIZE) as usize
                && MsgRoomList::spec_parse_err(data@) is Ok && MsgRoomList::parses_to(
                header,
                data@,
                m,
            ) && m.bufs_wf(),
            r matches Err(e) ==> MsgRoomList::spec_parse_err(data@) == Err::<(), NetError>(e),
    {
        if data.len() >= (MSG_ROOM_LIST_SIZE - MSG_HEADER_SIZE) as usize {
            let total_count = read_u32(data, 0);
            let index = read_u32(data, 4);
            let rlen_raw = read_u32(data, 8);
            let rlen = if rlen_raw > MSG_MAXROOMNAME as u32 {
                MSG_MAXROOMNAME as u32
            } else {
                rlen_raw
            };
            let room_name = extract_padded(data, 12, rlen as usize, MSG_MAXROOMNAME);
            let m = MsgRoomList { header, total_count, index, room_name_len: rlen, room_name };
            Ok(((MSG_ROOM_LIST_SIZE - MSG_HEADER_SIZE) as usize, m))
        } else {
            Err(NetError::TruncatedData)
        }
    }

    pub fn get_total_count(&self) -> (r: u32)
        ensures
            r == self.total_count,
    {
        self.total_count
    }

    pub fn get_index(&self) -> (r: u32)
        ensures
            r == self.index,
    {
        self.index
    }

    /// The room name; refused if it is not valid UTF-8.
    pub fn get_room_name(&self) -> (r: Result<String, NetError>)
        requires
            self.bufs_wf(),
        ensures
            r matches Ok(s) ==> vstd::utf8::valid_utf8(
                crate::data_repr::strip_zeros(self.room_name@.take(self.room_name_len as int)),
            ) && s@ == vstd::utf8::decode_utf8(
                crate::data_repr::strip_zeros(self.room_name@.take(self.room_name_len as int)),
            ),
            r is Ok <==> vstd::utf8::valid_utf8(
                crate::data_repr::strip_zeros(self.room_name@.take(self.room_name_len as int)),
            ),
    {
        String::from_net(&self.room_name.as_slice()[0..self.room_name_len as usize], false)
    }
}

impl Message for MsgRoomList {
    open spec fn hdr(&self) -> MsgHeader {
        self.header
    }

    open spec fn enc(&self) -> Seq<u8> {
        self.header.enc() + spec_to_net32(self.total_count) + spec_to_net32(self.index)
            + spec_to_net32(self.room_name_len) + self.room_name@
    }

    open spec fn with_sequence(self, sequence: u32) -> Self {
        MsgRoomList { header: self.header.with_seq(sequence), ..self }
    }

    fn get_header(&self) -> (r: &MsgHeader) {
        &self.header
    }

    fn set_sequence(&mut self, sequence: u32) {
        self.header.set_sequence(sequence);
    }

    fn to_bytes(&self) -> (r: Vec<u8>) {
        let mut data: Vec<u8> = Vec::new();
        self.header.to_bytes(&mut data);
        push_u32(&mut data, self.total_count);
        push_u32(&mut data, self.index);
        push_u32(&mut data, self.room_name_len);
        data.extend_from_slice(self.room_name.as_slice());
        proof {
            assert(data@ =~= self.enc());
        }
        data
    }
}

//////////////////////////////////////////////////////////////////////////////
// MsgPlayerList
//////////////////////////////////////////////////////////////////////////////

pub const MSG_PLAYER_LIST_SIZE: u32 = MSG_HEADER_SIZE + (3 * 4) + MSG_MAXPLAYERNAME as u32 + 4;

/// One entry of a room's roster: entry `index` of `total_count`, with the
/// player's name and mode.
#[derive(Clone, Debug)]
pub struct MsgPlayerList {
    pub header: MsgHeader,
    pub total_count: u32,
    pub index: u32,
    pub player_name_len: u32,
    pub player_name: Vec<u8>,
    pub player_mode: u32,
}

impl MsgPlayerList {
    /// Invariant of the variable-length fields alone; it holds of every
    /// decoded message whatever its header says.
    pub open spec fn bufs_wf(&self) -> bool {
        &&& self.player_name@.len() == MSG_MAXPLAYERNAME
        &&& self.player_name_len <= MSG_MAXPLAYERNAME as u32
        &&& forall|i: int| self.player_name_len <= i < self.player_name@.len()
            ==> self.player_name@[i] == 0
    }

    pub open spec fn wf(&self) -> bool {
        &&& self.header.wf()
        &&& self.header.id == MSG_ID_PLAYERLIST
        &&& self.header.size == MSG_PLAYER_LIST_SIZE
        &&& self.bufs_wf()
    }

    /// Build one roster entry; a name that does not fit is refused.
    pub fn new(total_count: u32, index: u32, player_name: &str, player_mode: u32) -> (r: Result<
        MsgPlayerList,
        NetError,
    >)
        ensures
            r is Ok <==> player_name.net_bytes().len() <= MSG_MAXPLAYERNAME,
            r matches Ok(m) ==> {
                &&& m.wf()
                &&& m.header == (MsgHeader {
                    magic: MSG_MAGIC,
                    size: MSG_PLAYER_LIST_SIZE,
                    id: MSG_ID_PLAYERLIST,
                    sequence: 0,
                })
                &&& m.total_count == total_count
                &&& m.index == index
                &&& m.player_name_len == player_name.net_bytes().len()
                &&& m.player_name@ == player_name.net_bytes() + zero_bytes(
                    MSG_MAXPLAYERNAME - player_name.net_bytes().len(),
                )
                &&& m.player_mode == player_mode
            },
            r matches Err(e) ==> e == NetError::StringTooLong,
    {
        let player_name_bytes = match player_name.to_net(MSG_MAXPLAYERNAME, false) {
            Ok(b) => b,
            Err(e) => {
                return Err(e);
            },
        };
        Ok(
            MsgPlayerList {
                header: MsgHeader::new(MSG_MAGIC, MSG_PLAYER_LIST_SIZE, MSG_ID_PLAYERLIST, 0),
                total_count,
                index,
                player_name_len: player_name.as_bytes().len() as u32,
                player_name: player_name_bytes,
                player_mode,
            },
        )
    }

    /// Whether the payload after the header parses, and with which error
    /// it is refused.
    pub open spec fn spec_parse_err(s: Seq<u8>) -> Result<(), NetError> {
        if s.len() < MSG_PLAYER_LIST_SIZE - MSG_HEADER_SIZE {
            Err(NetError::TruncatedData)
        } else {
            Ok(())
        }
    }

    /// `m` is the message that the payload `s` under `header` decodes to.
    pub open spec fn parses_to(header: MsgHeader, s: Seq<u8>, m: MsgPlayerList) -> bool {
        &&& m.header == header
        &&& m.total_count == read32(s, 0)
        &&& m.index == read32(s, 4)
        &&& m.player_name_len == clamp_len(read32(s, 8), MSG_MAXPLAYERNAME as u32)
        &&& m.player_name@ == parsed_buf(s, 12, m.player_name_len as int, MSG_MAXPLAYERNAME as int)
        &&& m.player_mode == read32(s, 76)
    }

    pub fn from_bytes(header: MsgHeader, data: &[u8]) -> (r: Result<
        (usize, MsgPlayerList),
        NetError,
    >)
        ensures
            r matches Ok((n, m)) ==> n == (MSG_PLAYER_LIST_SIZE - MSG_HEADER_SIZE) as usize
                && MsgPlayerList::spec_parse_err(data@) is Ok && MsgPlayerList::parses_to(
                header,
                data@,
                m,
            ) && m.bufs_wf(),
            r matches Err(e) ==> MsgPlayerList::spec_parse_err(data@) == Err::<(), NetError>(e),
    {
        if data.len() >= (MSG_PLAYER_LIST_SIZE - MSG_HEADER_SIZE) as usize {
            let total_count = read_u32(data, 0);
            let index = read_u32(data, 4);
            let plen_raw = read_u32(data, 8);
            let plen = if plen_raw > MSG_MAXPLAYERNAME as u32 {
                MSG_MAXPLAYERNAME as u32
            } else {
                plen_raw
            };
            let player_name = extract_padded(data, 12, plen as usize, MSG_MAXPLAYERNAME);
            let player_mode = read_u32(data, 76);
            let m = MsgPlayerList {
                header,
                total_count,
                index,
                player_name_len: plen,
                player_name,
                player_mode,
            };
            Ok(((MSG_PLAYER_LIST_SIZE - MSG_HEADER_SIZE) as usize, m))
        } else {
            Err(NetError::TruncatedData)
        }
    }

    pub fn get_total_count(&self) -> (r: u32)
        ensures
            r == self.total_count,
    {
        self.total_count
    }

    pub fn get_index(&self) -> (r: u32)
        ensures
            r == self.index,
    {
        self.index
    }

    /// The player name; refused if it is not valid UTF-8.
    pub fn get_player_name(&self) -> (r: Result<String, NetError>)
        requires
            self.bufs_wf(),
        ensures
            r matches Ok(s) ==> vstd::utf8::valid_utf8(
                crate::data_repr::strip_zeros(self.player_name@.take(self.player_name_len as int)),
            ) && s@ == vstd::utf8::decode_utf8(
                crate::data_repr::strip_zeros(self.player_name@.take(self.player_name_len as int)),
            ),
            r is Ok <==> vstd::utf8::valid_utf8(
                crate::data_repr::strip_zeros(self.player_name@.take(self.player_name_len as int)),
            ),
    {
        String::from_net(&self.player_name.as_slice()[0..self.player_name_len as usize], false)
    }

    pub fn get_player_mode(&self) -> (r: u32)
        ensures
            r == self.player_mode,
    {
        self.player_mode
    }
}

impl Message for MsgPlayerList {
    open spec fn hdr(&self) -> MsgHeader {
        self.header
    }

    open spec fn enc(&self) -> Seq<u8> {
        self.header.enc() + spec_to_net32(self.total_count) + spec_to_net32(self.index)
            + spec_to_net32(self.player_name_len) + self.player_name@ + spec_to_net32(
            self.player_mode,
        )
    }

    open spec fn with_sequence(self, sequence: u32) -> Self {
        MsgPlayerList { header: self.header.with_seq(sequence), ..self }
    }

    fn get_header(&self) -> (r: &MsgHeader) {
        &self.header
    }

    fn set_sequence(&mut self, sequence: u32) {
        self.header.set_sequence(sequence);
    }

    fn to_bytes(&self) -> (r: Vec<u8>) {
        let mut data: Vec<u8> = Vec::new();
        self.header.to_bytes(&mut data);
        push_u32(&mut data, self.total_count);
        push_u32(&mut data, self.index);
        push_u32(&mut data, self.player_name_len);
        data.extend_from_slice(self.player_name.as_slice());
        push_u32(&mut data, self.player_mode);
        proof {
            assert(data@ =~= self.enc());
        }
        data
    }
}


//////////////////////////////////////////////////////////////////////////////
// MsgRecord
//////////////////////////////////////////////////////////////////////////////

/// Capacity of one move-record chunk.
pub const MSG_MAXRECORDLEN: usize = 0x200;

pub const MSG_RECORD_SIZE: u32 = MSG_HEADER_SIZE + (3 * 4) + MSG_MAXRECORDLEN as u32;

/// One chunk of the textual move record: chunk `index` of `total_count`.
#[derive(Clone, Debug)]
pub struct MsgRecord {
    pub header: MsgHeader,
    pub total_count: u32,
    pub index: u32,
    pub record_len: u32,
    pub record: Vec<u8>,
}

/// How many chunks a record of `len` bytes takes.
pub open spec fn spec_chunk_count(len: int) -> int {
    (len + MSG_MAXRECORDLEN - 1) / MSG_MAXRECORDLEN as int
}

/// The length of chunk `i` of a record of `len` bytes: a full chunk, or
/// what remains for the last one.
pub open spec fn spec_chunk_len(len: int, i: int) -> int {
    if len - MSG_MAXRECORDLEN * i > MSG_MAXRECORDLEN {
        MSG_MAXRECORDLEN as int
    } else {
        len - MSG_MAXRECORDLEN * i
    }
}

/// The bytes a record chunk message carries: the transmitted prefix of its
/// buffer.
pub open spec fn spec_chunk_of(m: MsgRecord) -> Seq<u8> {
    m.record@.take(
        if m.record_len <= m.record@.len() {
            m.record_len as int
        } else {
            m.record@.len() as int
        },
    )
}

/// The reassembled bytes of a sequence of record chunk messages.
pub open spec fn spec_parts_bytes(parts: Seq<MsgRecord>) -> Seq<u8>
    decreases parts.len(),
{
    if parts.len() == 0 {
        Seq::empty()
    } else {
        spec_parts_bytes(parts.drop_last()) + spec_chunk_of(parts.last())
    }
}

/// RECORD REASSEMBLY law: chunks cut the way `MsgRecord::new` cuts a
/// record — chunk `i` carrying the record's bytes from `512 i` on, a
/// full chunk or the remainder — concatenate back to exactly the
/// record's bytes.
pub proof fn lemma_record_chunks_reassemble(chunks: Seq<MsgRecord>, b: Seq<u8>)
    requires
        chunks.len() == spec_chunk_count(b.len() as int),
        forall|i: int|
            #![trigger chunks[i]]
            0 <= i < chunks.len() ==> {
                &&& chunks[i].record_len == spec_chunk_len(b.len() as int, i)
                &&& chunks[i].record@ == b.subrange(
                    MSG_MAXRECORDLEN * i,
                    MSG_MAXRECORDLEN * i + spec_chunk_len(b.len() as int, i),
                ) + zero_bytes(MSG_MAXRECORDLEN - spec_chunk_len(b.len() as int, i))
            },
    ensures
        spec_parts_bytes(chunks) == b,
    decreases chunks.len(),
{
    let cap = MSG_MAXRECORDLEN as int;
    let ln = b.len() as int;
    let n = chunks.len() as int;
    assert(n == (ln + cap - 1) / cap);
    if n == 0 {
        assert(ln == 0) by (nonlinear_arith)
            requires
                0 == (ln + cap - 1) / cap,
                cap == 512,
                ln >= 0,
        ;
        assert(b =~= spec_parts_bytes(chunks));
    } else {
        assert(cap * (n - 1) < ln && ln <= cap * n) by (nonlinear_arith)
            requires
                n == (ln + cap - 1) / cap,
                cap == 512,
                ln >= 0,
                n >= 1,
        ;
        let prefix = b.take(cap * (n - 1));
        assert((n - 1) as int == (prefix.len() + cap - 1) / cap) by (nonlinear_arith)
            requires
                cap == 512,
                prefix.len() == cap * (n - 1),
                n >= 1,
        ;
        let rest = chunks.drop_last();
        assert forall|i: int| #![trigger rest[i]] 0 <= i < rest.len() implies {
            &&& rest[i].record_len == spec_chunk_len(prefix.len() as int, i)
            &&& rest[i].record@ == prefix.subrange(
                MSG_MAXRECORDLEN * i,
                MSG_MAXRECORDLEN * i + spec_chunk_len(prefix.len() as int, i),
            ) + zero_bytes(MSG_MAXRECORDLEN - spec_chunk_len(prefix.len() as int, i))
        } by {
            assert(rest[i] == chunks[i]);
            assert(cap * i + cap <= cap * (n - 1)) by (nonlinear_arith)
                requires
                    cap == 512,
                    i <= n - 2,
            ;
            assert(spec_chunk_len(ln, i) == cap && spec_chunk_len(prefix.len() as int, i) == cap);
            assert(prefix.subrange(cap * i, cap * i + cap) =~= b.subrange(cap * i, cap * i + cap));
        }
        lemma_record_chunks_reassemble(rest, prefix);
        let last = chunks.last();
        assert(spec_chunk_of(last) =~= b.subrange(cap * (n - 1), ln));
        assert(spec_parts_bytes(chunks) == spec_parts_bytes(rest) + spec_chunk_of(last));
        assert(prefix + b.subrange(cap * (n - 1), ln) =~= b);
    }
}

impl MsgRecord {
    /// Invariant of the variable-length fields alone; it holds of every
    /// decoded message whatever its header says.
    pub open spec fn bufs_wf(&self) -> bool {
        &&& self.record@.len() == MSG_MAXRECORDLEN
        &&& self.record_len <= MSG_MAXRECORDLEN as u32
        &&& forall|i: int| self.record_len <= i < self.record@.len() ==> self.record@[i] == 0
    }

    pub open spec fn wf(&self) -> bool {
        &&& self.header.wf()
        &&& self.header.id == MSG_ID_RECORD
        &&& self.header.size == MSG_RECORD_SIZE
        &&& self.bufs_wf()
    }

    /// Split a textual record into as many chunk messages as it needs,
    /// 512 bytes each; the chunks carry the text in order.
    pub fn new(record: &str) -> (r: Vec<MsgRecord>)
        requires
            record.net_bytes().len() < 0x1000_0000,
        ensures
            r@.len() == spec_chunk_count(record.net_bytes().len() as int),
            forall|i: int|
                #![trigger r@[i]]
                0 <= i < r@.len() ==> {
                    let b = record.net_bytes();
                    &&& r@[i].wf()
                    &&& r@[i].header == (MsgHeader {
                        magic: MSG_MAGIC,
                        size: MSG_RECORD_SIZE,
                        id: MSG_ID_RECORD,
                        sequence: 0,
                    })
                    &&& r@[i].total_count == r@.len()
                    &&& r@[i].index == i
                    &&& r@[i].record_len == spec_chunk_len(b.len() as int, i)
                    &&& r@[i].record@ == b.subrange(
                        MSG_MAXRECORDLEN * i,
                        MSG_MAXRECORDLEN * i + spec_chunk_len(b.len() as int, i),
                    ) + zero_bytes(MSG_MAXRECORDLEN - spec_chunk_len(b.len() as int, i))
                },
    {
        let record_bytes = record.as_bytes();
        let n = record_bytes.len();
        let total_count = (n + (MSG_MAXRECORDLEN - 1)) / MSG_MAXRECORDLEN;
        let mut ret: Vec<MsgRecord> = Vec::new();
        let mut i: usize = 0;
        while i < total_count
            invariant
                i <= total_count,
                n == record_bytes@.len(),
                n < 0x1000_0000,
                record_bytes@ == record.net_bytes(),
                total_count == spec_chunk_count(n as int),
                ret@.len() == i,
                forall|k: int|
                    #![trigger ret@[k]]
                    0 <= k < i ==> {
                        let b = record.net_bytes();
                        &&& ret@[k].wf()
                        &&& ret@[k].header == (MsgHeader {
                            magic: MSG_MAGIC,
                            size: MSG_RECORD_SIZE,
                            id: MSG_ID_RECORD,
                            sequence: 0,
                        })
                        &&& ret@[k].total_count == total_count
                        &&& ret@[k].index == k
                        &&& ret@[k].record_len == spec_chunk_len(b.len() as int, k)
                        &&& ret@[k].record@ == b.subrange(
                            MSG_MAXRECORDLEN * k,
                            MSG_MAXRECORDLEN * k + spec_chunk_len(b.len() as int, k),
                        ) + zero_bytes(MSG_MAXRECORDLEN - spec_chunk_len(b.len() as int, k))
                    },
            decreases total_count - i,
        {
            let start = i * MSG_MAXRECORDLEN;
            proof {
                assert(MSG_MAXRECORDLEN * (total_count - 1) < n || n == 0) by (nonlinear_arith)
                    requires
                        total_count == (n + (MSG_MAXRECORDLEN - 1)) / MSG_MAXRECORDLEN as int,
                        n >= 0,
                        total_count >= 1,
                ;
                assert(MSG_MAXRECORDLEN * i <= MSG_MAXRECORDLEN * (total_count - 1))
                    by (nonlinear_arith)
                    requires
                        i <= total_count - 1,
                ;
                assert(MSG_MAXRECORDLEN * i == i * MSG_MAXRECORDLEN);
            }
            let len = if n - start > MSG_MAXRECORDLEN {
                MSG_MAXRECORDLEN
            } else {
                n - start
            };
            let rec = extract_padded(record_bytes, start, len, MSG_MAXRECORDLEN);
            let m = MsgRecord {
                header: MsgHeader::new(MSG_MAGIC, MSG_RECORD_SIZE, MSG_ID_RECORD, 0),
                total_count: total_count as u32,
                index: i as u32,
                record_len: len as u32,
                record: rec,
            };
            ret.push(m);
            i += 1;
        }
        ret
    }

    /// Whether the payload after the header parses, and with which error
    /// it is refused.
    pub open spec fn spec_parse_err(s: Seq<u8>) -> Result<(), NetError> {
        if s.len() < MSG_RECORD_SIZE - MSG_HEADER_SIZE {
            Err(NetError::TruncatedData)
        } else {
            Ok(())
        }
    }

    /// `m` is the message that the payload `s` under `header` decodes to.
    pub open spec fn parses_to(header: MsgHeader, s: Seq<u8>, m: MsgRecord) -> bool {
        &&& m.header == header
        &&& m.total_count == read32(s, 0)
        &&& m.index == read32(s, 4)
        &&& m.record_len == clamp_len(read32(s, 8), MSG_MAXRECORDLEN as u32)
        &&& m.record@ == parsed_buf(s, 12, m.record_len as int, MSG_MAXRECORDLEN as int)
    }

    pub fn from_bytes(header: MsgHeader, data: &[u8]) -> (r: Result<(usize, MsgRecord), NetError>)
        ensures
            r matches Ok((n, m)) ==> n == (MSG_RECORD_SIZE - MSG_HEADER_SIZE) as usize
                && MsgRecord::spec_parse_err(data@) is Ok && MsgRecord::parses_to(
                header,
                data@,
                m,
            ) && m.bufs_wf(),
            r matches Err(e) ==> MsgRecord::spec_parse_err(data@) == Err::<(), NetError>(e),
    {
        if data.len() >= (MSG_RECORD_SIZE - MSG_HEADER_SIZE) as usize {
            let total_count = read_u32(data, 0);
            let index = read_u32(data, 4);
            let rlen_raw = read_u32(data, 8);
            let rlen = if rlen_raw > MSG_MAXRECORDLEN as u32 {
                MSG_MAXRECORDLEN as u32
            } else {
                rlen_raw
            };
            let record = extract_padded(data, 12, rlen as usize, MSG_MAXRECORDLEN);
            let m = MsgRecord { header, total_count, index, record_len: rlen, record };
            Ok(((MSG_RECORD_SIZE - MSG_HEADER_SIZE) as usize, m))
        } else {
            Err(NetError::TruncatedData)
        }
    }

    pub fn get_total_count(&self) -> (r: u32)
        ensures
            r == self.total_count,
    {
        self.total_count
    }

    pub fn get_index(&self) -> (r: u32)
        ensures
            r == self.index,
    {
        self.index
    }

    /// The transmitted prefix of this chunk's buffer.
    pub fn get_record_part(&self) -> (r: &[u8])
        ensures
            r@ == spec_chunk_of(*self),
    {
        let len = if self.record_len as usize <= self.record.len() {
            self.record_len as usize
        } else {
            self.record.len()
        };
        let r = &self.record.as_slice()[0..len];
        proof {
            assert(r@ =~= spec_chunk_of(*self));
        }
        r
    }

    /// Concatenate the chunks in the given order and decode the text;
    /// refused if the reassembled bytes are not valid UTF-8.
    pub fn assemble_parts(parts: Vec<MsgRecord>) -> (r: Result<String, NetError>)
        ensures
            r is Ok <==> vstd::utf8::valid_utf8(
                crate::data_repr::strip_zeros(spec_parts_bytes(parts@)),
            ),
            r matches Ok(s) ==> s@ == vstd::utf8::decode_utf8(
                crate::data_repr::strip_zeros(spec_parts_bytes(parts@)),
            ),
    {
        let mut bytes: Vec<u8> = Vec::new();
        let mut i: usize = 0;
        while i < parts.len()
            invariant
                i <= parts@.len(),
                bytes@ == spec_parts_bytes(parts@.take(i as int)),
            decreases parts@.len() - i,
        {
            bytes.extend_from_slice(parts[i].get_record_part());
            i += 1;
            proof {
                assert(parts@.take(i as int).drop_last() =~= parts@.take(i as int - 1));
                assert(parts@.take(i as int).last() == parts@[i as int - 1]);
            }
        }
        proof {
            assert(parts@.take(parts@.len() as int) =~= parts@);
        }
        String::from_net(bytes.as_slice(), false)
    }
}

impl Message for MsgRecord {
    open spec fn hdr(&self) -> MsgHeader {
        self.header
    }

    open spec fn enc(&self) -> Seq<u8> {
        self.header.enc() + spec_to_net32(self.total_count) + spec_to_net32(self.index)
            + spec_to_net32(self.record_len) + self.record@
    }

    open spec fn with_sequence(self, sequence: u32) -> Self {
        MsgRecord { header: self.header.with_seq(sequence), ..self }
    }

    fn get_header(&self) -> (r: &MsgHeader) {
        &self.header
    }

    fn set_sequence(&mut self, sequence: u32) {
        self.header.set_sequence(sequence);
    }

    fn to_bytes(&self) -> (r: Vec<u8>) {
        let mut data: Vec<u8> = Vec::new();
        self.header.to_bytes(&mut data);
        push_u32(&mut data, self.total_count);
        push_u32(&mut data, self.index);
        push_u32(&mut data, self.record_len);
        data.extend_from_slice(self.record.as_slice());
        proof {
            assert(data@ =~= self.enc());
        }
        data
    }
}

//////////////////////////////////////////////////////////////////////////////
// MsgSay
//////////////////////////////////////////////////////////////////////////////

/// Capacity of the chat-text field of a Say message.
pub const MSG_SAY_MAXMSGLEN: usize = 0x200;

pub const MSG_SAY_SIZE: u32 = MSG_HEADER_SIZE + 4 + MSG_MAXPLAYERNAME as u32 + 4
    + MSG_SAY_MAXMSGLEN as u32;

/// A chat message: the speaking player's name and the text.
#[derive(Clone, Debug)]
pub struct MsgSay {
    pub header: MsgHeader,
    pub player_name_len: u32,
    pub player_name: Vec<u8>,
    pub message_len: u32,
    pub message: Vec<u8>,
}

impl MsgSay {
    /// Invariant of the variable-length fields alone; it holds of every
    /// decoded message whatever its header says.
    pub open spec fn bufs_wf(&self) -> bool {
        &&& self.player_name@.len() == MSG_MAXPLAYERNAME
        &&& self.player_name_len <= MSG_MAXPLAYERNAME as u32
        &&& forall|i: int| self.player_name_len <= i < self.player_name@.len()
            ==> self.player_name@[i] == 0
        &&& self.message@.len() == MSG_SAY_MAXMSGLEN
        &&& self.message_len <= MSG_SAY_MAXMSGLEN as u32
        &&& forall|i: int| self.message_len <= i < self.message@.len() ==> self.message@[i] == 0
    }

    pub open spec fn wf(&self) -> bool {
        &&& self.header.wf()
        &&& self.header.id == MSG_ID_SAY
        &&& self.header.size == MSG_SAY_SIZE
        &&& self.bufs_wf()
    }

    /// Build a chat message. Name and text that do not fit their wire
    /// fields are truncated.
    pub fn new(player_name: &str, message: &str) -> (r: Result<MsgSay, NetError>)
        ensures
            r is Ok,
            r matches Ok(m) ==> {
                &&& m.wf()
                &&& m.header == (MsgHeader {
                    magic: MSG_MAGIC,
                    size: MSG_SAY_SIZE,
                    id: MSG_ID_SAY,
                    sequence: 0,
                })
                &&& m.player_name_len == if player_name.net_bytes().len() > MSG_MAXPLAYERNAME {
                    MSG_MAXPLAYERNAME as u32
                } else {
                    player_name.net_bytes().len() as u32
                }
                &&& m.player_name@ == if player_name.net_bytes().len() <= MSG_MAXPLAYERNAME {
                    player_name.net_bytes() + zero_bytes(
                        MSG_MAXPLAYERNAME - player_name.net_bytes().len(),
                    )
                } else {
                    player_name.net_bytes().take(MSG_MAXPLAYERNAME as int)
                }
                &&& m.message_len == if message.net_bytes().len() > MSG_SAY_MAXMSGLEN {
                    MSG_SAY_MAXMSGLEN as u32
                } else {
                    message.net_bytes().len() as u32
                }
                &&& m.message@ == if message.net_bytes().len() <= MSG_SAY_MAXMSGLEN {
                    message.net_bytes() + zero_bytes(MSG_SAY_MAXMSGLEN - message.net_bytes().len())
                } else {
                    message.net_bytes().take(MSG_SAY_MAXMSGLEN as int)
                }
            },
    {
        let player_name_bytes = match player_name.to_net(MSG_MAXPLAYERNAME, true) {
            Ok(b) => b,
            Err(_) => Vec::new(),
        };
        let pn = player_name.as_bytes().len();
        let player_name_len = if pn > MSG_MAXPLAYERNAME {
            MSG_MAXPLAYERNAME
        } else {
            pn
        };
        let message_bytes = match message.to_net(MSG_SAY_MAXMSGLEN, true) {
            Ok(b) => b,
            Err(_) => Vec::new(),
        };
        let mn = message.as_bytes().len();
        let message_len = if mn > MSG_SAY_MAXMSGLEN {
            MSG_SAY_MAXMSGLEN
        } else {
            mn
        };
        Ok(
            MsgSay {
                header: MsgHeader::new(MSG_MAGIC, MSG_SAY_SIZE, MSG_ID_SAY, 0),
                player_name_len: player_name_len as u32,
                player_name: player_name_bytes,
                message_len: message_len as u32,
                message: message_bytes,
            },
        )
    }

    /// Whether the payload after the header parses, and with which error
    /// it is refused.
    pub open spec fn spec_parse_err(s: Seq<u8>) -> Result<(), NetError> {
        if s.len() < MSG_SAY_SIZE - MSG_HEADER_SIZE {
            Err(NetError::TruncatedData)
        } else {
            Ok(())
        }
    }

    /// `m` is the message that the payload `s` under `header` decodes to.
    pub open spec fn parses_to(header: MsgHeader, s: Seq<u8>, m: MsgSay) -> bool {
        &&& m.header == header
        &&& m.player_name_len == clamp_len(read32(s, 0), MSG_MAXPLAYERNAME as u32)
        &&& m.player_name@ == parsed_buf(s, 4, m.player_name_len as int, MSG_MAXPLAYERNAME as int)
        &&& m.message_len == clamp_len(read32(s, 68), MSG_SAY_MAXMSGLEN as u32)
        &&& m.message@ == parsed_buf(s, 72, m.message_len as int, MSG_SAY_MAXMSGLEN as int)
    }

    pub fn from_bytes(header: MsgHeader, data: &[u8]) -> (r: Result<(usize, MsgSay), NetError>)
        ensures
            r matches Ok((n, m)) ==> n == (MSG_SAY_SIZE - MSG_HEADER_SIZE) as usize
                && MsgSay::spec_parse_err(data@) is Ok && MsgSay::parses_to(header, data@, m)
                && m.bufs_wf(),
            r matches Err(e) ==> MsgSay::spec_parse_err(data@) == Err::<(), NetError>(e),
    {
        if data.len() >= (MSG_SAY_SIZE - MSG_HEADER_SIZE) as usize {
            let plen_raw = read_u32(data, 0);
            let plen = if plen_raw > MSG_MAXPLAYERNAME as u32 {
                MSG_MAXPLAYERNAME as u32
            } else {
                plen_raw
            };
            let player_name = extract_padded(data, 4, plen as usize, MSG_MAXPLAYERNAME);
            let mlen_raw = read_u32(data, 68);
            let mlen = if mlen_raw > MSG_SAY_MAXMSGLEN as u32 {
                MSG_SAY_MAXMSGLEN as u32
            } else {
                mlen_raw
            };
            let message = extract_padded(data, 72, mlen as usize, MSG_SAY_MAXMSGLEN);
            let m = MsgSay {
                header,
                player_name_len: plen,
                player_name,
                message_len: mlen,
                message,
            };
            Ok(((MSG_SAY_SIZE - MSG_HEADER_SIZE) as usize, m))
        } else {
            Err(NetError::TruncatedData)
        }
    }

    /// Replace the speaking player's name, truncating it if it does not
    /// fit the wire field.
    pub fn set_player_name(&mut self, player_name: &str) -> (r: Result<(), NetError>)
        ensures
            r is Ok,
            final(self).player_name_len == if player_name.net_bytes().len()
                > MSG_MAXPLAYERNAME {
                MSG_MAXPLAYERNAME as u32
            } else {
                player_name.net_bytes().len() as u32
            },
            final(self).player_name@ == if player_name.net_bytes().len() <= MSG_MAXPLAYERNAME {
                player_name.net_bytes() + zero_bytes(
                    MSG_MAXPLAYERNAME - player_name.net_bytes().len(),
                )
            } else {
                player_name.net_bytes().take(MSG_MAXPLAYERNAME as int)
            },
            final(self).header == old(self).header,
            final(self).message_len == old(self).message_len,
            final(self).message == old(self).message,
            old(self).wf() ==> final(self).wf(),
            old(self).bufs_wf() ==> final(self).bufs_wf(),
    {
        let player_name_bytes = match player_name.to_net(MSG_MAXPLAYERNAME, true) {
            Ok(b) => b,
            Err(_) => Vec::new(),
        };
        let pn = player_name.as_bytes().len();
        let player_name_len = if pn > MSG_MAXPLAYERNAME {
            MSG_MAXPLAYERNAME
        } else {
            pn
        };
        self.player_name = player_name_bytes;
        self.player_name_len = player_name_len as u32;
        Ok(())
    }

    /// The speaking player's name, decoded lossily; on valid UTF-8 it is
    /// the exact decoding.
    pub fn get_player_name(&self) -> (r: String)
        requires
            self.bufs_wf(),
        ensures
            r@ == crate::data_repr::utf8_lossy_of(
                crate::data_repr::strip_zeros(self.player_name@.take(self.player_name_len as int)),
            ),
            vstd::utf8::valid_utf8(
                crate::data_repr::strip_zeros(self.player_name@.take(self.player_name_len as int)),
            ) ==> r@ == vstd::utf8::decode_utf8(
                crate::data_repr::strip_zeros(self.player_name@.take(self.player_name_len as int)),
            ),
    {
        let text = String::from_net(
            &self.player_name.as_slice()[0..self.player_name_len as usize],
            true,
        );
        match text {
            Ok(t) => t,
            Err(_) => String::new(),
        }
    }

    /// The chat text, decoded lossily; on valid UTF-8 it is the exact
    /// decoding.
    pub fn get_text(&self) -> (r: String)
        requires
            self.bufs_wf(),
        ensures
            r@ == crate::data_repr::utf8_lossy_of(
                crate::data_repr::strip_zeros(self.message@.take(self.message_len as int)),
            ),
            vstd::utf8::valid_utf8(
                crate::data_repr::strip_zeros(self.message@.take(self.message_len as int)),
            ) ==> r@ == vstd::utf8::decode_utf8(
                crate::data_repr::strip_zeros(self.message@.take(self.message_len as int)),
            ),
    {
        let text = String::from_net(&self.message.as_slice()[0..self.message_len as usize], true);
        match text {
            Ok(t) => t,
            Err(_) => String::new(),
        }
    }
}

impl Message for MsgSay {
    open spec fn hdr(&self) -> MsgHeader {
        self.header
    }

    open spec fn enc(&self) -> Seq<u8> {
        self.header.enc() + spec_to_net32(self.player_name_len) + self.player_name@
            + spec_to_net32(self.message_len) + self.message@
    }

    open spec fn with_sequence(self, sequence: u32) -> Self {
        MsgSay { header: self.header.with_seq(sequence), ..self }
    }

    fn get_header(&self) -> (r: &MsgHeader) {
        &self.header
    }

    fn set_sequence(&mut self, sequence: u32) {
        self.header.set_sequence(sequence);
    }

    fn to_bytes(&self) -> (r: Vec<u8>) {
        let mut data: Vec<u8> = Vec::new();
        self.header.to_bytes(&mut data);
        push_u32(&mut data, self.player_name_len);
        data.extend_from_slice(self.player_name.as_slice());
        push_u32(&mut data, self.message_len);
        data.extend_from_slice(self.message.as_slice());
        proof {
            assert(data@ =~= self.enc());
        }
        data
    }
}


//////////////////////////////////////////////////////////////////////////////
// MsgGameState
//////////////////////////////////////////////////////////////////////////////

/// The board cells of a game-state message, in scan order, row by row:
/// `BOARD_WIDTH * BOARD_HEIGHT` words.
pub type FieldsArray = Vec<u32>;

/// Number of board cells carried by a game-state message.
pub const MSG_FIELDS_COUNT: usize = 35;

pub const MSG_GAME_STATE_SIZE: u32 = MSG_HEADER_SIZE + (MSG_FIELDS_COUNT as u32 * 4) + (4 * 4);

/// A snapshot of a room's game state: every board cell, the state of a
/// token in mid-move, and whose turn it is.
#[derive(Clone, Debug)]
pub struct MsgGameState {
    pub header: MsgHeader,
    pub fields: FieldsArray,
    pub moving_state: u32,
    pub moving_x: u32,
    pub moving_y: u32,
    pub turn: u32,
}

impl MsgGameState {
    pub open spec fn wf(&self) -> bool {
        &&& self.header.wf()
        &&& self.header.id == MSG_ID_GAMESTATE
        &&& self.header.size == MSG_GAME_STATE_SIZE
        &&& self.fields@.len() == MSG_FIELDS_COUNT
    }

    pub fn new(fields: FieldsArray, moving_state: u32, moving_x: u32, moving_y: u32, turn: u32)
        -> (r: MsgGameState)
        requires
            fields@.len() == MSG_FIELDS_COUNT,
        ensures
            r.wf(),
            r.header == (MsgHeader {
                magic: MSG_MAGIC,
                size: MSG_GAME_STATE_SIZE,
                id: MSG_ID_GAMESTATE,
                sequence: 0,
            }),
            r.fields == fields,
            r.moving_state == moving_state,
            r.moving_x == moving_x,
            r.moving_y == moving_y,
            r.turn == turn,
    {
        MsgGameState {
            header: MsgHeader::new(MSG_MAGIC, MSG_GAME_STATE_SIZE, MSG_ID_GAMESTATE, 0),
            fields,
            moving_state,
            moving_x,
            moving_y,
            turn,
        }
    }

    /// Whether the payload after the header parses, and with which error
    /// it is refused.
    pub open spec fn spec_parse_err(s: Seq<u8>) -> Result<(), NetError> {
        if s.len() < MSG_GAME_STATE_SIZE - MSG_HEADER_SIZE {
            Err(NetError::TruncatedData)
        } else {
            Ok(())
        }
    }

    /// `m` is the message that the payload `s` under `header` decodes to.
    pub open spec fn parses_to(header: MsgHeader, s: Seq<u8>, m: MsgGameState) -> bool {
        &&& m.header == header
        &&& m.fields@.len() == MSG_FIELDS_COUNT
        &&& forall|k: int|
            0 <= k < MSG_FIELDS_COUNT ==> #[trigger] m.fields@[k] == read32(s, 4 * k)
        &&& m.moving_state == read32(s, 140)
        &&& m.moving_x == read32(s, 144)
        &&& m.moving_y == read32(s, 148)
        &&& m.turn == read32(s, 152)
    }

    pub fn from_bytes(header: MsgHeader, data: &[u8]) -> (r: Result<
        (usize, MsgGameState),
        NetError,
    >)
        ensures
            r matches Ok((n, m)) ==> n == (MSG_GAME_STATE_SIZE - MSG_HEADER_SIZE) as usize
                && MsgGameState::spec_parse_err(data@) is Ok && MsgGameState::parses_to(
                header,
                data@,
                m,
            ),
            r matches Err(e) ==> MsgGameState::spec_parse_err(data@) == Err::<(), NetError>(e),
    {
        if data.len() >= (MSG_GAME_STATE_SIZE - MSG_HEADER_SIZE) as usize {
            let mut fields: Vec<u32> = Vec::new();
            let mut k: usize = 0;
            while k < MSG_FIELDS_COUNT
                invariant
                    k <= MSG_FIELDS_COUNT,
                    data@.len() >= MSG_GAME_STATE_SIZE - MSG_HEADER_SIZE,
                    fields@.len() == k,
                    forall|j: int| 0 <= j < k ==> #[trigger] fields@[j] == read32(data@, 4 * j),
                decreases MSG_FIELDS_COUNT - k,
            {
                fields.push(read_u32(data, 4 * k));
                k += 1;
            }
            let moving_state = read_u32(data, 140);
            let moving_x = read_u32(data, 144);
            let moving_y = read_u32(data, 148);
            let turn = read_u32(data, 152);
            let m = MsgGameState { header, fields, moving_state, moving_x, moving_y, turn };
            Ok(((MSG_GAME_STATE_SIZE - MSG_HEADER_SIZE) as usize, m))
        } else {
            Err(NetError::TruncatedData)
        }
    }

    /// The board cells, in scan order.
    pub fn get_fields(&self) -> (r: &FieldsArray)
        ensures
            r == self.fields,
    {
        &self.fields
    }

    /// The mid-move token state: its kind and its coordinates.
    pub fn get_moving(&self) -> (r: (u32, u32, u32))
        ensures
            r == (self.moving_state, self.moving_x, self.moving_y),
    {
        (self.moving_state, self.moving_x, self.moving_y)
    }

    pub fn get_turn(&self) -> (r: u32)
        ensures
            r == self.turn,
    {
        self.turn
    }
}

impl Message for MsgGameState {
    open spec fn hdr(&self) -> MsgHeader {
        self.header
    }

    open spec fn enc(&self) -> Seq<u8> {
        self.header.enc() + enc_words(self.fields@) + spec_to_net32(self.moving_state)
            + spec_to_net32(self.moving_x) + spec_to_net32(self.moving_y) + spec_to_net32(
            self.turn,
        )
    }

    open spec fn with_sequence(self, sequence: u32) -> Self {
        MsgGameState { header: self.header.with_seq(sequence), ..self }
    }

    fn get_header(&self) -> (r: &MsgHeader) {
        &self.header
    }

    fn set_sequence(&mut self, sequence: u32) {
        self.header.set_sequence(sequence);
    }

    fn to_bytes(&self) -> (r: Vec<u8>) {
        let mut data: Vec<u8> = Vec::new();
        self.header.to_bytes(&mut data);
        let ghost hdr_part = data@;
        let mut k: usize = 0;
        while k < self.fields.len()
            invariant
                k <= self.fields@.len(),
                data@ == hdr_part + enc_words(self.fields@.take(k as int)),
            decreases self.fields@.len() - k,
        {
            push_u32(&mut data, self.fields[k]);
            k += 1;
            proof {
                lemma_enc_words_push(self.fields@.take(k as int - 1), self.fields@[k as int - 1]);
                assert(self.fields@.take(k as int).drop_last() =~= self.fields@.take(k as int - 1));
                assert(self.fields@.take(k as int) =~= self.fields@.take(k as int - 1).push(
                    self.fields@[k as int - 1],
                ));
                assert(data@ =~= hdr_part + enc_words(self.fields@.take(k as int)));
            }
        }
        proof {
            assert(self.fields@.take(self.fields@.len() as int) =~= self.fields@);
        }
        push_u32(&mut data, self.moving_state);
        push_u32(&mut data, self.moving_x);
        push_u32(&mut data, self.moving_y);
        push_u32(&mut data, self.turn);
        proof {
            assert(data@ =~= self.enc());
        }
        data
    }
}


//////////////////////////////////////////////////////////////////////////////
// The message union and the stream decoder.
//////////////////////////////////////////////////////////////////////////////

/// The closed union over every message kind; decoding yields one of these.
#[derive(Debug)]
pub enum MsgType {
    Nop(MsgNop),
    Result(MsgResult),
    Ping(MsgPing),
    Pong(MsgPong),
    Join(MsgJoin),
    Leave(MsgLeave),
    Reset(MsgReset),
    ReqRoomList(MsgReqRoomList),
    RoomList(MsgRoomList),
    ReqPlayerList(MsgReqPlayerList),
    PlayerList(MsgPlayerList),
    ReqGameState(MsgReqGameState),
    GameState(MsgGameState),
    Move(MsgMove),
    Say(MsgSay),
    ReqRecord(MsgReqRecord),
    Record(MsgRecord),
}

/// The variable-length-field invariant of whichever message the union
/// holds; every decoded message satisfies it.
pub open spec fn msg_bufs_wf(m: MsgType) -> bool {
    match m {
        MsgType::Result(x) => x.bufs_wf(),
        MsgType::Join(x) => x.bufs_wf(),
        MsgType::RoomList(x) => x.bufs_wf(),
        MsgType::PlayerList(x) => x.bufs_wf(),
        MsgType::Say(x) => x.bufs_wf(),
        MsgType::Record(x) => x.bufs_wf(),
        MsgType::GameState(x) => x.fields@.len() == MSG_FIELDS_COUNT,
        _ => true,
    }
}

/// Well-formedness of whichever message the union holds.
pub open spec fn msg_wf(m: MsgType) -> bool {
    match m {
        MsgType::Nop(x) => x.wf(),
        MsgType::Result(x) => x.wf(),
        MsgType::Ping(x) => x.wf(),
        MsgType::Pong(x) => x.wf(),
        MsgType::Join(x) => x.wf(),
        MsgType::Leave(x) => x.wf(),
        MsgType::Reset(x) => x.wf(),
        MsgType::ReqRoomList(x) => x.wf(),
        MsgType::RoomList(x) => x.wf(),
        MsgType::ReqPlayerList(x) => x.wf(),
        MsgType::PlayerList(x) => x.wf(),
        MsgType::ReqGameState(x) => x.wf(),
        MsgType::GameState(x) => x.wf(),
        MsgType::Move(x) => x.wf(),
        MsgType::Say(x) => x.wf(),
        MsgType::ReqRecord(x) => x.wf(),
        MsgType::Record(x) => x.wf(),
    }
}

/// The wire encoding of whichever message the union holds.
pub open spec fn msg_enc(m: MsgType) -> Seq<u8> {
    match m {
        MsgType::Nop(x) => x.enc(),
        MsgType::Result(x) => x.enc(),
        MsgType::Ping(x) => x.enc(),
        MsgType::Pong(x) => x.enc(),
        MsgType::Join(x) => x.enc(),
        MsgType::Leave(x) => x.enc(),
        MsgType::Reset(x) => x.enc(),
        MsgType::ReqRoomList(x) => x.enc(),
        MsgType::RoomList(x) => x.enc(),
        MsgType::ReqPlayerList(x) => x.enc(),
        MsgType::PlayerList(x) => x.enc(),
        MsgType::ReqGameState(x) => x.enc(),
        MsgType::GameState(x) => x.enc(),
        MsgType::Move(x) => x.enc(),
        MsgType::Say(x) => x.enc(),
        MsgType::ReqRecord(x) => x.enc(),
        MsgType::Record(x) => x.enc(),
    }
}

/// The header of whichever message the union holds.
pub open spec fn msg_hdr(m: MsgType) -> MsgHeader {
    match m {
        MsgType::Nop(x) => x.hdr(),
        MsgType::Result(x) => x.hdr(),
        MsgType::Ping(x) => x.hdr(),
        MsgType::Pong(x) => x.hdr(),
        MsgType::Join(x) => x.hdr(),
        MsgType::Leave(x) => x.hdr(),
        MsgType::Reset(x) => x.hdr(),
        MsgType::ReqRoomList(x) => x.hdr(),
        MsgType::RoomList(x) => x.hdr(),
        MsgType::ReqPlayerList(x) => x.hdr(),
        MsgType::PlayerList(x) => x.hdr(),
        MsgType::ReqGameState(x) => x.hdr(),
        MsgType::GameState(x) => x.hdr(),
        MsgType::Move(x) => x.hdr(),
        MsgType::Say(x) => x.hdr(),
        MsgType::ReqRecord(x) => x.hdr(),
        MsgType::Record(x) => x.hdr(),
    }
}

/// Whether the payload `s` under header `h` parses as the message kind
/// that `h.id` names, and with which error it is refused.
pub open spec fn spec_body_err(h: MsgHeader, s: Seq<u8>) -> Result<(), NetError> {
    if h.id == MSG_ID_NOP || h.id == MSG_ID_PING || h.id == MSG_ID_PONG || h.id == MSG_ID_LEAVE
        || h.id == MSG_ID_RESET || h.id == MSG_ID_REQROOMLIST || h.id == MSG_ID_REQPLAYERLIST
        || h.id == MSG_ID_REQGAMESTATE || h.id == MSG_ID_REQRECORD {
        Ok(())
    } else if h.id == MSG_ID_RESULT {
        MsgResult::spec_parse_err(s)
    } else if h.id == MSG_ID_JOIN {
        MsgJoin::spec_parse_err(s)
    } else if h.id == MSG_ID_ROOMLIST {
        MsgRoomList::spec_parse_err(s)
    } else if h.id == MSG_ID_PLAYERLIST {
        MsgPlayerList::spec_parse_err(s)
    } else if h.id == MSG_ID_GAMESTATE {
        MsgGameState::spec_parse_err(s)
    } else if h.id == MSG_ID_MOVE {
        match MsgMove::spec_parse(h, s) {
            Ok(_) => Ok(()),
            Err(e) => Err(e),
        }
    } else if h.id == MSG_ID_SAY {
        MsgSay::spec_parse_err(s)
    } else if h.id == MSG_ID_RECORD {
        MsgRecord::spec_parse_err(s)
    } else {
        Err(NetError::UnknownId)
    }
}

/// `m` is the message that payload `s` under header `h` decodes to, in
/// the variant that `h.id` names.
pub open spec fn spec_body_parses_to(h: MsgHeader, s: Seq<u8>, m: MsgType) -> bool {
    match m {
        MsgType::Nop(x) => h.id == MSG_ID_NOP && x == (MsgNop { header: h }),
        MsgType::Result(x) => h.id == MSG_ID_RESULT && MsgResult::parses_to(h, s, x),
        MsgType::Ping(x) => h.id == MSG_ID_PING && x == (MsgPing { header: h }),
        MsgType::Pong(x) => h.id == MSG_ID_PONG && x == (MsgPong { header: h }),
        MsgType::Join(x) => h.id == MSG_ID_JOIN && MsgJoin::parses_to(h, s, x),
        MsgType::Leave(x) => h.id == MSG_ID_LEAVE && x == (MsgLeave { header: h }),
        MsgType::Reset(x) => h.id == MSG_ID_RESET && x == (MsgReset { header: h }),
        MsgType::ReqRoomList(x) => h.id == MSG_ID_REQROOMLIST && x == (MsgReqRoomList {
            header: h,
        }),
        MsgType::RoomList(x) => h.id == MSG_ID_ROOMLIST && MsgRoomList::parses_to(h, s, x),
        MsgType::ReqPlayerList(x) => h.id == MSG_ID_REQPLAYERLIST && x == (MsgReqPlayerList {
            header: h,
        }),
        MsgType::PlayerList(x) => h.id == MSG_ID_PLAYERLIST && MsgPlayerList::parses_to(h, s, x),
        MsgType::ReqGameState(x) => h.id == MSG_ID_REQGAMESTATE && x == (MsgReqGameState {
            header: h,
        }),
        MsgType::GameState(x) => h.id == MSG_ID_GAMESTATE && MsgGameState::parses_to(h, s, x),
        MsgType::Move(x) => h.id == MSG_ID_MOVE && MsgMove::spec_parse(h, s) == Ok::<
            MsgMove,
            NetError,
        >(x),
        MsgType::Say(x) => h.id == MSG_ID_SAY && MsgSay::parses_to(h, s, x),
        MsgType::ReqRecord(x) => h.id == MSG_ID_REQRECORD && x == (MsgReqRecord { header: h }),
        MsgType::Record(x) => h.id == MSG_ID_RECORD && MsgRecord::parses_to(h, s, x),
    }
}

/// Not an error: the buffer does not yet hold the whole message.
pub open spec fn spec_msg_incomplete(s: Seq<u8>) -> bool {
    ||| s.len() < MSG_HEADER_SIZE
    ||| (MsgHeader::spec_parse(s) matches Ok(h) && s.len() < h.size)
}

/// Decoding the front of `s` is refused with error `e`.
pub open spec fn spec_msg_err(s: Seq<u8>, e: NetError) -> bool {
    &&& s.len() >= MSG_HEADER_SIZE
    &&& match MsgHeader::spec_parse(s) {
        Err(e2) => e == e2,
        Ok(h) => s.len() >= h.size && spec_body_err(h, s.skip(MSG_HEADER_SIZE as int)) == Err::<
            (),
            NetError,
        >(e),
    }
}

/// Decoding the front of `s` yields message `m` and consumes `n` bytes:
/// the size that the message's own header declares.
pub open spec fn spec_msg_ok(s: Seq<u8>, n: int, m: MsgType) -> bool {
    match MsgHeader::spec_parse(s) {
        Ok(h) => {
            &&& s.len() >= h.size
            &&& n == h.size
            &&& spec_body_err(h, s.skip(MSG_HEADER_SIZE as int)) is Ok
            &&& spec_body_parses_to(h, s.skip(MSG_HEADER_SIZE as int), m)
        },
        Err(_) => false,
    }
}

/// Try to parse a data stream. Returns the decoded message and the number
/// of consumed bytes; `None` if the buffer does not yet hold the whole
/// message, an error if its front is not a valid message.
#[verifier::rlimit(100)]
pub fn message_from_bytes(data: &[u8]) -> (r: Result<(usize, Option<MsgType>), NetError>)
    ensures
        r matches Ok((n, m2)) ==> match m2 {
            Some(m) => spec_msg_ok(data@, n as int, m) && msg_bufs_wf(m),
            None => n == 0 && spec_msg_incomplete(data@),
        },
        r matches Err(e) ==> spec_msg_err(data@, e),
{
    if data.len() < MSG_HEADER_SIZE as usize {
        return Ok((0, None));
    }
    let (offset, header) = match MsgHeader::from_bytes(data) {
        Ok(x) => x,
        Err(e) => {
            return Err(e);
        },
    };
    let msg_len = header.get_size();
    if data.len() < msg_len as usize {
        return Ok((0, None));
    }
    let body = &data[offset..data.len()];
    proof {
        assert(body@ =~= data@.skip(MSG_HEADER_SIZE as int));
    }
    let id = header.get_id();
    let m: MsgType = if id == MSG_ID_NOP {
        match MsgNop::from_bytes(header, body) {
            Ok((_, x)) => MsgType::Nop(x),
            Err(e) => {
                return Err(e);
            },
        }
    } else if id == MSG_ID_RESULT {
        match MsgResult::from_bytes(header, body) {
            Ok((_, x)) => MsgType::Result(x),
            Err(e) => {
                return Err(e);
            },
        }
    } else if id == MSG_ID_PING {
        match MsgPing::from_bytes(header, body) {
            Ok((_, x)) => MsgType::Ping(x),
            Err(e) => {
                return Err(e);
            },
        }
    } else if id == MSG_ID_PONG {
        match MsgPong::from_bytes(header, body) {
            Ok((_, x)) => MsgType::Pong(x),
            Err(e) => {
                return Err(e);
            },
        }
    } else if id == MSG_ID_JOIN {
        match MsgJoin::from_bytes(header, body) {
            Ok((_, x)) => MsgType::Join(x),
            Err(e) => {
                return Err(e);
            },
        }
    } else if id == MSG_ID_LEAVE {
        match MsgLeave::from_bytes(header, body) {
            Ok((_, x)) => MsgType::Leave(x),
            Err(e) => {
                return Err(e);
            },
        }
    } else if id == MSG_ID_RESET {
        match MsgReset::from_bytes(header, body) {
            Ok((_, x)) => MsgType::Reset(x),
            Err(e) => {
                return Err(e);
            },
        }
    } else if id == MSG_ID_REQROOMLIST {
        match MsgReqRoomList::from_bytes(header, body) {
            Ok((_, x)) => MsgType::ReqRoomList(x),
            Err(e) => {
                return Err(e);
            },
        }
    } else if id == MSG_ID_ROOMLIST {
        match MsgRoomList::from_bytes(header, body) {
            Ok((_, x)) => MsgType::RoomList(x),
            Err(e) => {
                return Err(e);
            },
        }
    } else if id == MSG_ID_REQPLAYERLIST {
        match MsgReqPlayerList::from_bytes(header, body) {
            Ok((_, x)) => MsgType::ReqPlayerList(x),
            Err(e) => {
                return Err(e);
            },
        }
    } else if id == MSG_ID_PLAYERLIST {
        match MsgPlayerList::from_bytes(header, body) {
            Ok((_, x)) => MsgType::PlayerList(x),
            Err(e) => {
                return Err(e);
            },
        }
    } else if id == MSG_ID_REQGAMESTATE {
        match MsgReqGameState::from_bytes(header, body) {
            Ok((_, x)) => MsgType::ReqGameState(x),
            Err(e) => {
                return Err(e);
            },
        }
    } else if id == MSG_ID_GAMESTATE {
        match MsgGameState::from_bytes(header, body) {
            Ok((_, x)) => MsgType::GameState(x),
            Err(e) => {
                return Err(e);
            },
        }
    } else if id == MSG_ID_MOVE {
        match MsgMove::from_bytes(header, body) {
            Ok((_, x)) => MsgType::Move(x),
            Err(e) => {
                return Err(e);
            },
        }
    } else if id == MSG_ID_SAY {
        match MsgSay::from_bytes(header, body) {
            Ok((_, x)) => MsgType::Say(x),
            Err(e) => {
                return Err(e);
            },
        }
    } else if id == MSG_ID_REQRECORD {
        match MsgReqRecord::from_bytes(header, body) {
            Ok((_, x)) => MsgType::ReqRecord(x),
            Err(e) => {
                return Err(e);
            },
        }
    } else if id == MSG_ID_RECORD {
        match MsgRecord::from_bytes(header, body) {
            Ok((_, x)) => MsgType::Record(x),
            Err(e) => {
                return Err(e);
            },
        }
    } else {
        return Err(NetError::UnknownId);
    };
    Ok((msg_len as usize, Some(m)))
}

//////////////////////////////////////////////////////////////////////////////
// Stream helpers: skipping consumed bytes and resynchronization.
//////////////////////////////////////////////////////////////////////////////

/// Skip a given length at the front of a buffer.
pub fn buffer_skip(mut buffer: Vec<u8>, skip_len: usize) -> (r: Vec<u8>)
    ensures
        r@ == if skip_len >= buffer@.len() {
            Seq::<u8>::empty()
        } else {
            buffer@.skip(skip_len as int)
        },
{
    if skip_len > 0 {
        if skip_len >= buffer.len() {
            buffer.clear();
            buffer
        } else {
            buffer.split_off(skip_len)
        }
    } else {
        proof {
            assert(buffer@.skip(0) =~= buffer@);
        }
        buffer
    }
}

/// The first offset at or after `i`, and strictly before `len - 4`, where
/// the stream holds the magic constant.
pub open spec fn spec_net_sync_from(s: Seq<u8>, i: int) -> Option<int>
    decreases s.len() - 4 - i,
{
    if i < 0 || s.len() < 4 || i >= s.len() - 4 {
        None
    } else if read32(s, i) == MSG_MAGIC {
        Some(i)
    } else {
        spec_net_sync_from(s, i + 1)
    }
}

/// The first scanned offset where the stream holds the magic constant.
pub open spec fn spec_net_sync(s: Seq<u8>) -> Option<int> {
    spec_net_sync_from(s, 0)
}

/// Try to synchronize to the data stream by finding the magic word.
pub fn net_sync(data: &[u8]) -> (r: Option<usize>)
    ensures
        r matches Some(k) ==> spec_net_sync(data@) == Some(k as int) && k + 4 < data@.len(),
        r is None ==> spec_net_sync(data@) is None,
{
    let len = data.len();
    if len >= 4 {
        let mut skip: usize = 0;
        while skip < len - 4
            invariant
                len == data@.len(),
                4 <= len,
                skip <= len - 4,
                spec_net_sync(data@) == spec_net_sync_from(data@, skip as int),
            decreases len - skip,
        {
            if read_u32(data, skip) == MSG_MAGIC {
                return Some(skip);
            }
            skip += 1;
        }
    }
    None
}


//////////////////////////////////////////////////////////////////////////////
// Codec laws: encoding then decoding gives the message back, and a
// corrupted stream resynchronizes exactly at the next encoded message.
//////////////////////////////////////////////////////////////////////////////

proof fn lemma_parse_result_enc(m: MsgResult)
    requires
        m.wf(),
    ensures
        m.enc().len() == MSG_RESULT_SIZE,
        MsgResult::spec_parse_err(m.enc().skip(MSG_HEADER_SIZE as int)) is Ok,
        MsgResult::parses_to(m.hdr(), m.enc().skip(MSG_HEADER_SIZE as int), m),
{
    let p = m.enc().skip(MSG_HEADER_SIZE as int);
    let rest = spec_to_net32(m.result_code) + spec_to_net32(m.message_len) + m.message@;
    assert(p =~= m.in_reply_to_header.enc() + rest);
    lemma_parse_header_enc(m.in_reply_to_header, rest);
    assert(p.subrange(32, 36) =~= spec_to_net32(m.result_code));
    lemma_read32_at(p, 32, m.result_code);
    assert(p.subrange(36, 40) =~= spec_to_net32(m.message_len));
    lemma_read32_at(p, 36, m.message_len);
    assert(parsed_buf(p, 40, m.message_len as int, MSG_RESULT_MAXMSGLEN as int) =~= m.message@);
}

proof fn lemma_parse_join_enc(m: MsgJoin)
    requires
        m.wf(),
    ensures
        m.enc().len() == MSG_JOIN_SIZE,
        MsgJoin::spec_parse_err(m.enc().skip(MSG_HEADER_SIZE as int)) is Ok,
        MsgJoin::parses_to(m.hdr(), m.enc().skip(MSG_HEADER_SIZE as int), m),
{
    let p = m.enc().skip(MSG_HEADER_SIZE as int);
    assert(p =~= spec_to_net32(m.room_name_len) + m.room_name@ + spec_to_net32(
        m.player_name_len,
    ) + m.player_name@ + spec_to_net32(m.player_mode));
    assert(p.subrange(0, 4) =~= spec_to_net32(m.room_name_len));
    lemma_read32_at(p, 0, m.room_name_len);
    assert(parsed_buf(p, 4, m.room_name_len as int, MSG_MAXROOMNAME as int) =~= m.room_name@);
    assert(p.subrange(68, 72) =~= spec_to_net32(m.player_name_len));
    lemma_read32_at(p, 68, m.player_name_len);
    assert(parsed_buf(p, 72, m.player_name_len as int, MSG_MAXPLAYERNAME as int)
        =~= m.player_name@);
    assert(p.subrange(136, 140) =~= spec_to_net32(m.player_mode));
    lemma_read32_at(p, 136, m.player_mode);
}

proof fn lemma_parse_room_list_enc(m: MsgRoomList)
    requires
        m.wf(),
    ensures
        m.enc().len() == MSG_ROOM_LIST_SIZE,
        MsgRoomList::spec_parse_err(m.enc().skip(MSG_HEADER_SIZE as int)) is Ok,
        MsgRoomList::parses_to(m.hdr(), m.enc().skip(MSG_HEADER_SIZE as int), m),
{
    let p = m.enc().skip(MSG_HEADER_SIZE as int);
    assert(p =~= spec_to_net32(m.total_count) + spec_to_net32(m.index) + spec_to_net32(
        m.room_name_len,
    ) + m.room_name@);
    assert(p.subrange(0, 4) =~= spec_to_net32(m.total_count));
    lemma_read32_at(p, 0, m.total_count);
    assert(p.subrange(4, 8) =~= spec_to_net32(m.index));
    lemma_read32_at(p, 4, m.index);
    assert(p.subrange(8, 12) =~= spec_to_net32(m.room_name_len));
    lemma_read32_at(p, 8, m.room_name_len);
    assert(parsed_buf(p, 12, m.room_name_len as int, MSG_MAXROOMNAME as int) =~= m.room_name@);
}

proof fn lemma_parse_player_list_enc(m: MsgPlayerList)
    requires
        m.wf(),
    ensures
        m.enc().len() == MSG_PLAYER_LIST_SIZE,
        MsgPlayerList::spec_parse_err(m.enc().skip(MSG_HEADER_SIZE as int)) is Ok,
        MsgPlayerList::parses_to(m.hdr(), m.enc().skip(MSG_HEADER_SIZE as int), m),
{
    let p = m.enc().skip(MSG_HEADER_SIZE as int);
    assert(p =~= spec_to_net32(m.total_count) + spec_to_net32(m.index) + spec_to_net32(
        m.player_name_len,
    ) + m.player_name@ + spec_to_net32(m.player_mode));
    assert(p.subrange(0, 4) =~= spec_to_net32(m.total_count));
    lemma_read32_at(p, 0, m.total_count);
    assert(p.subrange(4, 8) =~= spec_to_net32(m.index));
    lemma_read32_at(p, 4, m.index);
    assert(p.subrange(8, 12) =~= spec_to_net32(m.player_name_len));
    lemma_read32_at(p, 8, m.player_name_len);
    assert(parsed_buf(p, 12, m.player_name_len as int, MSG_MAXPLAYERNAME as int)
        =~= m.player_name@);
    assert(p.subrange(76, 80) =~= spec_to_net32(m.player_mode));
    lemma_read32_at(p, 76, m.player_mode);
}

proof fn lemma_parse_record_enc(m: MsgRecord)
    requires
        m.wf(),
    ensures
        m.enc().len() == MSG_RECORD_SIZE,
        MsgRecord::spec_parse_err(m.enc().skip(MSG_HEADER_SIZE as int)) is Ok,
        MsgRecord::parses_to(m.hdr(), m.enc().skip(MSG_HEADER_SIZE as int), m),
{
    let p = m.enc().skip(MSG_HEADER_SIZE as int);
    assert(p =~= spec_to_net32(m.total_count) + spec_to_net32(m.index) + spec_to_net32(
        m.record_len,
    ) + m.record@);
    assert(p.subrange(0, 4) =~= spec_to_net32(m.total_count));
    lemma_read32_at(p, 0, m.total_count);
    assert(p.subrange(4, 8) =~= spec_to_net32(m.index));
    lemma_read32_at(p, 4, m.index);
    assert(p.subrange(8, 12) =~= spec_to_net32(m.record_len));
    lemma_read32_at(p, 8, m.record_len);
    assert(parsed_buf(p, 12, m.record_len as int, MSG_MAXRECORDLEN as int) =~= m.record@);
}

proof fn lemma_parse_say_enc(m: MsgSay)
    requires
        m.wf(),
    ensures
        m.enc().len() == MSG_SAY_SIZE,
        MsgSay::spec_parse_err(m.enc().skip(MSG_HEADER_SIZE as int)) is Ok,
        MsgSay::parses_to(m.hdr(), m.enc().skip(MSG_HEADER_SIZE as int), m),
{
    let p = m.enc().skip(MSG_HEADER_SIZE as int);
    assert(p =~= spec_to_net32(m.player_name_len) + m.player_name@ + spec_to_net32(
        m.message_len,
    ) + m.message@);
    assert(p.subrange(0, 4) =~= spec_to_net32(m.player_name_len));
    lemma_read32_at(p, 0, m.player_name_len);
    assert(parsed_buf(p, 4, m.player_name_len as int, MSG_MAXPLAYERNAME as int)
        =~= m.player_name@);
    assert(p.subrange(68, 72) =~= spec_to_net32(m.message_len));
    lemma_read32_at(p, 68, m.message_len);
    assert(parsed_buf(p, 72, m.message_len as int, MSG_SAY_MAXMSGLEN as int) =~= m.message@);
}

proof fn lemma_parse_game_state_enc(m: MsgGameState)
    requires
        m.wf(),
    ensures
        m.enc().len() == MSG_GAME_STATE_SIZE,
        MsgGameState::spec_parse_err(m.enc().skip(MSG_HEADER_SIZE as int)) is Ok,
        MsgGameState::parses_to(m.hdr(), m.enc().skip(MSG_HEADER_SIZE as int), m),
{
    let p = m.enc().skip(MSG_HEADER_SIZE as int);
    assert(p =~= enc_words(m.fields@) + spec_to_net32(m.moving_state) + spec_to_net32(
        m.moving_x,
    ) + spec_to_net32(m.moving_y) + spec_to_net32(m.turn));
    assert(p.subrange(0, 140) =~= enc_words(m.fields@));
    assert forall|k: int| 0 <= k < MSG_FIELDS_COUNT implies #[trigger] m.fields@[k] == read32(
        p,
        4 * k,
    ) by {
        crate::data_repr::lemma_read32_words(p, 0, m.fields@, k);
    }
    assert(p.subrange(140, 144) =~= spec_to_net32(m.moving_state));
    lemma_read32_at(p, 140, m.moving_state);
    assert(p.subrange(144, 148) =~= spec_to_net32(m.moving_x));
    lemma_read32_at(p, 144, m.moving_x);
    assert(p.subrange(148, 152) =~= spec_to_net32(m.moving_y));
    lemma_read32_at(p, 148, m.moving_y);
    assert(p.subrange(152, 156) =~= spec_to_net32(m.turn));
    lemma_read32_at(p, 152, m.turn);
}

proof fn lemma_parse_move_enc(m: MsgMove)
    requires
        m.wf(),
    ensures
        m.enc().len() == MSG_MOVE_SIZE,
        MsgMove::spec_parse(m.hdr(), m.enc().skip(MSG_HEADER_SIZE as int)) == Ok::<
            MsgMove,
            NetError,
        >(m),
{
    let p = m.enc().skip(MSG_HEADER_SIZE as int);
    assert(p =~= spec_to_net32(m.action) + spec_to_net32(m.token) + spec_to_net32(m.coord_x)
        + spec_to_net32(m.coord_y));
    assert(p.subrange(0, 4) =~= spec_to_net32(m.action));
    lemma_read32_at(p, 0, m.action);
    assert(p.subrange(4, 8) =~= spec_to_net32(m.token));
    lemma_read32_at(p, 4, m.token);
    assert(p.subrange(8, 12) =~= spec_to_net32(m.coord_x));
    lemma_read32_at(p, 8, m.coord_x);
    assert(p.subrange(12, 16) =~= spec_to_net32(m.coord_y));
    lemma_read32_at(p, 12, m.coord_y);
}

/// ROUND-TRIP law: decoding the encoding of any well-formed message gives
/// exactly that message back, for every field value, and consumes exactly
/// the encoding's length.
#[verifier::rlimit(100)]
#[verifier::spinoff_prover]
pub proof fn lemma_msg_roundtrip(m: MsgType)
    requires
        msg_wf(m),
    ensures
        spec_msg_ok(msg_enc(m), msg_enc(m).len() as int, m),
        msg_enc(m).len() == msg_hdr(m).size,
{
    let s = msg_enc(m);
    let h = msg_hdr(m);
    match m {
        MsgType::Nop(x) => {
            lemma_parse_header_enc(x.header, Seq::<u8>::empty());
            assert(s =~= x.header.enc() + Seq::<u8>::empty());
        },
        MsgType::Ping(x) => {
            lemma_parse_header_enc(x.header, Seq::<u8>::empty());
            assert(s =~= x.header.enc() + Seq::<u8>::empty());
        },
        MsgType::Pong(x) => {
            lemma_parse_header_enc(x.header, Seq::<u8>::empty());
            assert(s =~= x.header.enc() + Seq::<u8>::empty());
        },
        MsgType::Leave(x) => {
            lemma_parse_header_enc(x.header, Seq::<u8>::empty());
            assert(s =~= x.header.enc() + Seq::<u8>::empty());
        },
        MsgType::Reset(x) => {
            lemma_parse_header_enc(x.header, Seq::<u8>::empty());
            assert(s =~= x.header.enc() + Seq::<u8>::empty());
        },
        MsgType::ReqRoomList(x) => {
            lemma_parse_header_enc(x.header, Seq::<u8>::empty());
            assert(s =~= x.header.enc() + Seq::<u8>::empty());
        },
        MsgType::ReqPlayerList(x) => {
            lemma_parse_header_enc(x.header, Seq::<u8>::empty());
            assert(s =~= x.header.enc() + Seq::<u8>::empty());
        },
        MsgType::ReqGameState(x) => {
            lemma_parse_header_enc(x.header, Seq::<u8>::empty());
            assert(s =~= x.header.enc() + Seq::<u8>::empty());
        },
        MsgType::ReqRecord(x) => {
            lemma_parse_header_enc(x.header, Seq::<u8>::empty());
            assert(s =~= x.header.enc() + Seq::<u8>::empty());
        },
        MsgType::Result(x) => {
            lemma_parse_header_enc(x.header, s.skip(MSG_HEADER_SIZE as int));
            assert(s =~= x.header.enc() + s.skip(MSG_HEADER_SIZE as int));
            lemma_parse_result_enc(x);
        },
        MsgType::Join(x) => {
            lemma_parse_header_enc(x.header, s.skip(MSG_HEADER_SIZE as int));
            assert(s =~= x.header.enc() + s.skip(MSG_HEADER_SIZE as int));
            lemma_parse_join_enc(x);
        },
        MsgType::RoomList(x) => {
            lemma_parse_header_enc(x.header, s.skip(MSG_HEADER_SIZE as int));
            assert(s =~= x.header.enc() + s.skip(MSG_HEADER_SIZE as int));
            lemma_parse_room_list_enc(x);
        },
        MsgType::PlayerList(x) => {
            lemma_parse_header_enc(x.header, s.skip(MSG_HEADER_SIZE as int));
            assert(s =~= x.header.enc() + s.skip(MSG_HEADER_SIZE as int));
            lemma_parse_player_list_enc(x);
        },
        MsgType::GameState(x) => {
            lemma_parse_header_enc(x.header, s.skip(MSG_HEADER_SIZE as int));
            assert(s =~= x.header.enc() + s.skip(MSG_HEADER_SIZE as int));
            lemma_parse_game_state_enc(x);
        },
        MsgType::Move(x) => {
            lemma_parse_header_enc(x.header, s.skip(MSG_HEADER_SIZE as int));
            assert(s =~= x.header.enc() + s.skip(MSG_HEADER_SIZE as int));
            lemma_parse_move_enc(x);
        },
        MsgType::Say(x) => {
            lemma_parse_header_enc(x.header, s.skip(MSG_HEADER_SIZE as int));
            assert(s =~= x.header.enc() + s.skip(MSG_HEADER_SIZE as int));
            lemma_parse_say_enc(x);
        },
        MsgType::Record(x) => {
            lemma_parse_header_enc(x.header, s.skip(MSG_HEADER_SIZE as int));
            assert(s =~= x.header.enc() + s.skip(MSG_HEADER_SIZE as int));
            lemma_parse_record_enc(x);
        },
    }
}

proof fn lemma_net_sync_from_found(s: Seq<u8>, i: int, k: int)
    requires
        0 <= i <= k,
        k < s.len() - 4,
        read32(s, k) == MSG_MAGIC,
        forall|j: int| i <= j < k ==> read32(s, j) != MSG_MAGIC,
    ensures
        spec_net_sync_from(s, i) == Some(k),
    decreases k - i,
{
    if i == k {
    } else {
        lemma_net_sync_from_found(s, i + 1, k);
    }
}

/// RESYNC law: any run of garbage bytes in which the magic constant
/// occurs nowhere, followed by one encoded well-formed message,
/// resynchronizes at exactly the garbage's length; decoding from there
/// gives that message back and consumes exactly its encoding's length.
pub proof fn lemma_resync_roundtrip(garbage: Seq<u8>, m: MsgType)
    requires
        msg_wf(m),
        forall|j: int| 0 <= j < garbage.len() ==> read32(garbage + msg_enc(m), j) != MSG_MAGIC,
    ensures
        spec_net_sync(garbage + msg_enc(m)) == Some(garbage.len() as int),
        spec_msg_ok(
            (garbage + msg_enc(m)).skip(garbage.len() as int),
            msg_enc(m).len() as int,
            m,
        ),
{
    let s = garbage + msg_enc(m);
    let g = garbage.len() as int;
    lemma_msg_roundtrip(m);
    assert(s.skip(g) =~= msg_enc(m));
    let h = MsgHeader::spec_parse(msg_enc(m)).unwrap();
    assert(msg_enc(m).len() >= MSG_HEADER_SIZE);
    assert(s.subrange(g, g + 4) =~= msg_enc(m).subrange(0, 4));
    assert(read32(s, g) == read32(msg_enc(m), 0));
    assert(read32(msg_enc(m), 0) == MSG_MAGIC) by {
        assert(MsgHeader::spec_parse(msg_enc(m)) is Ok);
    }
    lemma_net_sync_from_found(s, 0, g);
}

} // verus!
