//! Rooms and the room registry: each room owns a roster and one rules
//! engine; the registry maps names to rooms and is created once at
//! server startup.

use crate::player::{Player, PlayerList, PlayerMode, PlayerV};
use crate::protocol::MsgGameState;
use vstd::prelude::*;
use vstd::string::*;

verus! {

/// Most players one room admits.
pub const MAX_PLAYERS: usize = 1024;

/// Most rooms one server opens.
pub const MAX_ROOMS: usize = 1024 * 4;

/// Why a join request is rejected.
#[derive(Clone, Copy, PartialEq, Eq, Structural, Debug)]
pub enum JoinError {
    /// The requested room does not exist.
    RoomNotFound,
    /// The combined wolf-and-sheep mode is not allowed in a restricted
    /// room.
    RestrictedBoth,
    /// Another player already holds the requested mode in a restricted
    /// room.
    ModeTaken,
    /// The room already has its maximum number of players.
    RoomFull,
    /// Another player already uses the requested name.
    NameTaken,
    /// The request carried an unusable room name, player name or mode.
    BadRequest,
}

impl JoinError {
    /// Human-readable reason, used in NOK replies.
    pub fn as_text(&self) -> (r: String)
        ensures
            r@ == match *self {
                JoinError::RoomNotFound => "Room not found."@,
                JoinError::RestrictedBoth => "Wolf and sheep combined is not supported in restricted mode."@,
                JoinError::ModeTaken => "The game already has such a player."@,
                JoinError::RoomFull => "Too many players in room."@,
                JoinError::NameTaken => "Player name is already occupied."@,
                JoinError::BadRequest => "Invalid join request."@,
            },
    {
        match self {
            JoinError::RoomNotFound => String::from_str("Room not found."),
            JoinError::RestrictedBoth => String::from_str(
                "Wolf and sheep combined is not supported in restricted mode.",
            ),
            JoinError::ModeTaken => String::from_str("The game already has such a player."),
            JoinError::RoomFull => String::from_str("Too many players in room."),
            JoinError::NameTaken => String::from_str("Player name is already occupied."),
            JoinError::BadRequest => String::from_str("Invalid join request."),
        }
    }
}

/// The rules engine a room consults: it alone decides move legality and
/// owns board and turn state. The registry and the connection handler
/// only move its opaque results across the wire.
pub trait GameRules: Sized {
    /// Reset the game; with `force`, even one in progress.
    fn reset(&mut self, force: bool);

    /// Apply one move action sent by a player in the given mode.
    fn apply_move(&mut self, mode: PlayerMode, action: u32, token: u32, x: u32, y: u32) -> Result<
        (),
        String,
    >;

    /// The current state as a game-state message.
    fn serialize_state(&self) -> MsgGameState;

    /// Merge a received game state; returns whether anything changed.
    fn merge_state(&mut self, msg: &MsgGameState, force: bool) -> Result<bool, String>;

    /// The textual record of the moves played so far.
    fn recorded_moves_as_text(&self) -> String;
}

/// Some roster entry has the given mode.
pub open spec fn spec_has_mode(roster: Seq<PlayerV>, mode: PlayerMode) -> bool {
    exists|i: int| 0 <= i < roster.len() && (#[trigger] roster[i]).mode == mode
}

/// Some roster entry has the given name.
pub open spec fn spec_has_name(roster: Seq<PlayerV>, name: Seq<char>) -> bool {
    exists|i: int| 0 <= i < roster.len() && (#[trigger] roster[i]).name == name
}

/// The roster with every entry of the given name removed; used to ignore
/// the caller's own old entry while it re-joins.
pub open spec fn spec_without_name(roster: Seq<PlayerV>, name: Seq<char>) -> Seq<PlayerV> {
    roster.filter(|p: PlayerV| p.name != name)
}

/// Whether a player of the given name and mode may be added to a roster:
/// in a restricted room the combined mode is rejected outright and wolf
/// or sheep only while nobody else holds it; then the room must have a
/// free place and the name must not be taken.
pub open spec fn spec_can_add(
    roster: Seq<PlayerV>,
    restrict: bool,
    name: Seq<char>,
    mode: PlayerMode,
) -> Result<(), JoinError> {
    if restrict && mode == PlayerMode::Both {
        Err(JoinError::RestrictedBoth)
    } else if restrict && mode == PlayerMode::Wolf && spec_has_mode(roster, PlayerMode::Wolf) {
        Err(JoinError::ModeTaken)
    } else if restrict && mode == PlayerMode::Sheep && spec_has_mode(roster, PlayerMode::Sheep) {
        Err(JoinError::ModeTaken)
    } else if roster.len() >= MAX_PLAYERS {
        Err(JoinError::RoomFull)
    } else if spec_has_name(roster, name) {
        Err(JoinError::NameTaken)
    } else {
        Ok(())
    }
}

proof fn lemma_filter_nonempty_exists(s: Seq<PlayerV>, pred: spec_fn(PlayerV) -> bool)
    requires
        s.filter(pred).len() > 0,
    ensures
        exists|i: int| 0 <= i < s.len() && pred(#[trigger] s[i]),
    decreases s.len(),
{
    reveal(Seq::filter);
    if s.len() > 0 {
        if pred(s.last()) {
            assert(pred(s[s.len() - 1]));
        } else {
            lemma_filter_nonempty_exists(s.drop_last(), pred);
            let i = choose|i: int| 0 <= i < s.drop_last().len() && pred(#[trigger] s.drop_last()[i]);
            assert(pred(s[i]));
        }
    }
}

proof fn lemma_exists_filter_nonempty(s: Seq<PlayerV>, pred: spec_fn(PlayerV) -> bool, i: int)
    requires
        0 <= i < s.len(),
        pred(s[i]),
    ensures
        s.filter(pred).len() > 0,
{
    Seq::lemma_filter_contains(s, pred, i);
}

proof fn lemma_filter_excluded_empty(s: Seq<PlayerV>, name: Seq<char>)
    ensures
        spec_without_name(s, name).filter(|q: PlayerV| q.name == name) =~= Seq::<
            PlayerV,
        >::empty(),
    decreases s.len(),
{
    reveal(Seq::filter);
    if s.len() > 0 {
        lemma_filter_excluded_empty(s.drop_last(), name);
        assert(spec_without_name(s, name) == if s.last().name != name {
            spec_without_name(s.drop_last(), name).push(s.last())
        } else {
            spec_without_name(s.drop_last(), name)
        });
        if s.last().name != name {
            let b2 = spec_without_name(s.drop_last(), name);
            assert(b2.push(s.last()).drop_last() =~= b2);
            assert(b2.push(s.last()).last() == s.last());
            assert(b2.push(s.last()).filter(|q: PlayerV| q.name == name) =~= b2.filter(
                |q: PlayerV| q.name == name,
            ));
        }
    }
}

/// NAME REUSE law: when a player re-joins under a name, the roster that
/// results — its old entries ignored, the new entry appended — holds
/// exactly that one entry with the name; re-joining never duplicates a
/// player.
pub proof fn lemma_rejoin_single_entry(roster: Seq<PlayerV>, name: Seq<char>, p: PlayerV)
    requires
        p.name == name,
    ensures
        spec_without_name(roster, name).push(p).filter(|q: PlayerV| q.name == name) =~= seq![p],
{
    reveal(Seq::filter);
    lemma_filter_excluded_empty(roster, name);
    let base = spec_without_name(roster, name);
    assert(base.push(p).drop_last() =~= base);
    assert(base.push(p).filter(|q: PlayerV| q.name == name) =~= base.filter(
        |q: PlayerV| q.name == name,
    ).push(p));
}

/// One room: its unique name, its roster, one rules engine, and the
/// restricted-mode flag fixed at creation time.
pub struct ServerRoom<R: GameRules> {
    pub name: String,
    pub game_state: R,
    pub player_list: PlayerList,
    pub restrict_player_modes: bool,
}

impl<R: GameRules> ServerRoom<R> {
    pub fn new(name: String, game_state: R, restrict_player_modes: bool) -> (r: ServerRoom<R>)
        ensures
            r.name == name,
            r.game_state == game_state,
            r.player_list@ == Seq::<PlayerV>::empty(),
            r.restrict_player_modes == restrict_player_modes,
    {
        let r = ServerRoom {
            name,
            game_state,
            player_list: PlayerList::new(Vec::new()),
            restrict_player_modes,
        };
        proof {
            assert(r.player_list@ =~= Seq::<PlayerV>::empty());
        }
        r
    }

    pub fn get_name(&self) -> (r: &str)
        ensures
            r@ == self.name@,
    {
        self.name.as_str()
    }

    /// The room's rules engine, for a caller acting in the given mode.
    pub fn get_game_state(&mut self) -> (r: &mut R)
        ensures
            *r == old(self).game_state,
            final(self).game_state == *final(r),
            final(self).name == old(self).name,
            final(self).player_list == old(self).player_list,
            final(self).restrict_player_modes == old(self).restrict_player_modes,
    {
        &mut self.game_state
    }

    /// Pure check whether a player could be added, optionally ignoring
    /// the caller's own old entry; the roster is not changed.
    pub fn can_add_player(
        &self,
        player_name: &str,
        player_mode: PlayerMode,
        ignore_name: Option<&str>,
    ) -> (r: Result<(), JoinError>)
        ensures
            r == spec_can_add(
                match ignore_name {
                    Some(n) => spec_without_name(self.player_list@, n@),
                    None => self.player_list@,
                },
                self.restrict_player_modes,
                player_name@,
                player_mode,
            ),
    {
        let mut player_list = self.player_list.duplicate();
        match ignore_name {
            Some(n) => {
                player_list.remove_player_by_name(n);
            },
            None => {},
        }
        let ghost roster = player_list@;

        if self.restrict_player_modes {
            if player_mode == PlayerMode::Both {
                return Err(JoinError::RestrictedBoth);
            }
            if player_mode == PlayerMode::Wolf {
                let wolves = player_list.find_players_by_mode(PlayerMode::Wolf);
                if wolves.len() > 0 {
                    proof {
                        lemma_filter_nonempty_exists(
                            roster,
                            |p: PlayerV| p.mode == PlayerMode::Wolf,
                        );
                    }
                    return Err(JoinError::ModeTaken);
                }
                proof {
                    if spec_has_mode(roster, PlayerMode::Wolf) {
                        let i = choose|i: int|
                            0 <= i < roster.len() && (#[trigger] roster[i]).mode
                                == PlayerMode::Wolf;
                        lemma_exists_filter_nonempty(
                            roster,
                            |p: PlayerV| p.mode == PlayerMode::Wolf,
                            i,
                        );
                    }
                }
            }
            if player_mode == PlayerMode::Sheep {
                let sheep = player_list.find_players_by_mode(PlayerMode::Sheep);
                if sheep.len() > 0 {
                    proof {
                        lemma_filter_nonempty_exists(
                            roster,
                            |p: PlayerV| p.mode == PlayerMode::Sheep,
                        );
                    }
                    return Err(JoinError::ModeTaken);
                }
                proof {
                    if spec_has_mode(roster, PlayerMode::Sheep) {
                        let i = choose|i: int|
                            0 <= i < roster.len() && (#[trigger] roster[i]).mode
                                == PlayerMode::Sheep;
                        lemma_exists_filter_nonempty(
                            roster,
                            |p: PlayerV| p.mode == PlayerMode::Sheep,
                            i,
                        );
                    }
                }
            }
        }

        if player_list.count() < MAX_PLAYERS {
            match player_list.find_player_by_name(player_name) {
                Some(_) => Err(JoinError::NameTaken),
                None => Ok(()),
            }
        } else {
            Err(JoinError::RoomFull)
        }
    }

    /// Add a player after re-checking that the roster admits it; on
    /// rejection the roster is unchanged.
    pub fn add_player(&mut self, player_name: &str, player_mode: PlayerMode) -> (r: Result<
        (),
        JoinError,
    >)
        ensures
            r == spec_can_add(
                old(self).player_list@,
                old(self).restrict_player_modes,
                player_name@,
                player_mode,
            ),
            r is Ok ==> final(self).player_list@ == old(self).player_list@.push(
                PlayerV { name: player_name@, mode: player_mode, is_self: false },
            ),
            r is Err ==> final(self).player_list == old(self).player_list,
            final(self).name == old(self).name,
            final(self).game_state == old(self).game_state,
            final(self).restrict_player_modes == old(self).restrict_player_modes,
    {
        match self.can_add_player(player_name, player_mode, None) {
            Ok(()) => {
                self.player_list.add_player(
                    Player::new(player_name.to_owned(), player_mode, false),
                );
                Ok(())
            },
            Err(e) => Err(e),
        }
    }

    /// Remove every roster entry with the given name.
    pub fn remove_player(&mut self, player_name: &str)
        ensures
            final(self).player_list@ == spec_without_name(old(self).player_list@, player_name@),
            final(self).name == old(self).name,
            final(self).game_state == old(self).game_state,
            final(self).restrict_player_modes == old(self).restrict_player_modes,
    {
        self.player_list.remove_player_by_name(player_name);
    }

    pub fn get_player_list_ref(&self) -> (r: &PlayerList)
        ensures
            r == &self.player_list,
    {
        &self.player_list
    }
}

/// The registry of all rooms, created once at startup; room names are
/// unique. The caller guards it with one lock and never holds that lock
/// across socket writes.
pub struct RoomRegistry<R: GameRules> {
    pub rooms: Vec<ServerRoom<R>>,
}

impl<R: GameRules> RoomRegistry<R> {
    /// Registry invariant: no two rooms share a name, and no roster
    /// exceeds the player limit.
    pub open spec fn wf(&self) -> bool {
        &&& forall|i: int, j: int|
            0 <= i < j < self.rooms@.len() ==> (#[trigger] self.rooms@[i]).name@ != (
            #[trigger] self.rooms@[j]).name@
        &&& forall|i: int|
            0 <= i < self.rooms@.len() ==> (#[trigger] self.rooms@[i]).player_list@.len()
                <= MAX_PLAYERS
        &&& self.rooms@.len() <= MAX_ROOMS
    }

    pub fn new() -> (r: RoomRegistry<R>)
        ensures
            r.wf(),
            r.rooms@.len() == 0,
    {
        RoomRegistry { rooms: Vec::new() }
    }

    /// The index of the room with the given name, if any.
    pub fn find_room(&self, name: &str) -> (r: Option<usize>)
        ensures
            r matches Some(i) ==> i < self.rooms@.len() && self.rooms@[i as int].name@ == name@,
            r is None ==> forall|i: int|
                0 <= i < self.rooms@.len() ==> (#[trigger] self.rooms@[i]).name@ != name@,
    {
        let name_string = name.to_owned();
        let mut i: usize = 0;
        while i < self.rooms.len()
            invariant
                i <= self.rooms@.len(),
                name_string@ == name@,
                forall|j: int| 0 <= j < i ==> (#[trigger] self.rooms@[j]).name@ != name@,
            decreases self.rooms@.len() - i,
        {
            if self.rooms[i].name == name_string {
                return Some(i);
            }
            i += 1;
        }
        None
    }

    /// Open a new room under a name not yet in use; a duplicate name or a
    /// full registry is refused.
    pub fn open_room(&mut self, room: ServerRoom<R>) -> (r: Result<(), JoinError>)
        requires
            old(self).wf(),
            room.player_list@.len() <= MAX_PLAYERS,
        ensures
            final(self).wf(),
            r is Ok <==> (!(exists|i: int|
                0 <= i < old(self).rooms@.len() && (#[trigger] old(self).rooms@[i]).name@
                    == room.name@) && old(self).rooms@.len() < MAX_ROOMS),
            r is Ok ==> final(self).rooms@ == old(self).rooms@.push(room),
            r is Err ==> final(self).rooms == old(self).rooms,
    {
        if self.rooms.len() >= MAX_ROOMS {
            proof {
                assert(old(self).rooms@.len() >= MAX_ROOMS);
            }
            return Err(JoinError::RoomFull);
        }
        match self.find_room(room.name.as_str()) {
            Some(_) => Err(JoinError::NameTaken),
            None => {
                self.rooms.push(room);
                Ok(())
            },
        }
    }

    /// How many rooms are open.
    pub fn room_count(&self) -> (r: usize)
        ensures
            r == self.rooms@.len(),
    {
        self.rooms.len()
    }

    /// The names of all rooms, in registry order.
    pub fn room_names(&self) -> (r: Vec<String>)
        ensures
            r@.len() == self.rooms@.len(),
            forall|i: int|
                0 <= i < r@.len() ==> (#[trigger] r@[i])@ == self.rooms@[i].name@,
    {
        let mut names: Vec<String> = Vec::new();
        let mut i: usize = 0;
        while i < self.rooms.len()
            invariant
                i <= self.rooms@.len(),
                names@.len() == i,
                forall|j: int| 0 <= j < i ==> (#[trigger] names@[j])@ == self.rooms@[j].name@,
            decreases self.rooms@.len() - i,
        {
            names.push(self.rooms[i].name.clone());
            i += 1;
        }
        names
    }
}

} // verus!
