//! Players and the roster of a room: a name, a mode, and a per-viewer
//! "this is me" flag that is not part of the canonical roster.

use crate::data_repr::NetError;
use crate::protocol::{
    MSG_PLAYERMODE_BOTH, MSG_PLAYERMODE_SHEEP, MSG_PLAYERMODE_SPECTATOR, MSG_PLAYERMODE_WOLF,
};
use itertools::Itertools;
use vstd::prelude::*;

verus! {

/// What a player may manipulate.
#[derive(Clone, Copy, PartialEq, Eq, PartialOrd, Ord, Structural, Debug)]
pub enum PlayerMode {
    /// Spectators can't manipulate the game state.
    Spectator,
    /// Player can manipulate wolves and sheep.
    Both,
    /// Player can manipulate wolves.
    Wolf,
    /// Player can manipulate sheep.
    Sheep,
}

/// The numeric wire value of a player mode.
pub open spec fn spec_player_mode_num(mode: PlayerMode) -> u32 {
    match mode {
        PlayerMode::Spectator => MSG_PLAYERMODE_SPECTATOR,
        PlayerMode::Both => MSG_PLAYERMODE_BOTH,
        PlayerMode::Wolf => MSG_PLAYERMODE_WOLF,
        PlayerMode::Sheep => MSG_PLAYERMODE_SHEEP,
    }
}

/// Decode a numeric wire value into a player mode; exactly the four
/// defined values are accepted.
pub fn num_to_player_mode(player_mode: u32) -> (r: Result<PlayerMode, NetError>)
    ensures
        r matches Ok(m) ==> spec_player_mode_num(m) == player_mode,
        r is Ok <==> player_mode <= 3,
        r is Err ==> r == Err::<PlayerMode, NetError>(NetError::InvalidString) || r == Err::<
            PlayerMode,
            NetError,
        >(NetError::UnknownId),
        player_mode > 3 ==> r == Err::<PlayerMode, NetError>(NetError::UnknownId),
{
    if player_mode == MSG_PLAYERMODE_SPECTATOR {
        Ok(PlayerMode::Spectator)
    } else if player_mode == MSG_PLAYERMODE_BOTH {
        Ok(PlayerMode::Both)
    } else if player_mode == MSG_PLAYERMODE_WOLF {
        Ok(PlayerMode::Wolf)
    } else if player_mode == MSG_PLAYERMODE_SHEEP {
        Ok(PlayerMode::Sheep)
    } else {
        Err(NetError::UnknownId)
    }
}

/// Encode a player mode as its numeric wire value.
pub fn player_mode_to_num(player_mode: PlayerMode) -> (r: u32)
    ensures
        r == spec_player_mode_num(player_mode),
{
    match player_mode {
        PlayerMode::Spectator => MSG_PLAYERMODE_SPECTATOR,
        PlayerMode::Both => MSG_PLAYERMODE_BOTH,
        PlayerMode::Wolf => MSG_PLAYERMODE_WOLF,
        PlayerMode::Sheep => MSG_PLAYERMODE_SHEEP,
    }
}

/// One player: display name, mode, and whether this entry is the viewer
/// itself in the view a connection builds.
#[derive(Clone, PartialEq, Eq, PartialOrd, Ord, Debug)]
pub struct Player {
    pub name: String,
    pub mode: PlayerMode,
    pub is_self: bool,
}

/// The abstract value of a player: its name's characters, its mode, and
/// the viewer flag.
pub struct PlayerV {
    pub name: Seq<char>,
    pub mode: PlayerMode,
    pub is_self: bool,
}

impl View for Player {
    type V = PlayerV;

    open spec fn view(&self) -> PlayerV {
        PlayerV { name: self.name@, mode: self.mode, is_self: self.is_self }
    }
}

impl Player {
    pub fn new(name: String, mode: PlayerMode, is_self: bool) -> (r: Player)
        ensures
            r == (Player { name, mode, is_self }),
    {
        Player { name, mode, is_self }
    }

    /// A copy of this player.
    pub fn duplicate(&self) -> (r: Player)
        ensures
            r == *self,
    {
        Player { name: self.name.clone(), mode: self.mode, is_self: self.is_self }
    }
}

/// The abstract values of a sequence of players.
pub open spec fn players_view(ps: Seq<Player>) -> Seq<PlayerV> {
    ps.map_values(|p: Player| p@)
}

/// The ordered roster of a room.
#[derive(Clone, PartialEq, Debug)]
pub struct PlayerList {
    pub players: Vec<Player>,
}

impl View for PlayerList {
    type V = Seq<PlayerV>;

    open spec fn view(&self) -> Seq<PlayerV> {
        players_view(self.players@)
    }
}

impl PlayerList {
    pub fn new(players: Vec<Player>) -> (r: PlayerList)
        ensures
            r.players == players,
    {
        PlayerList { players }
    }

    pub fn count(&self) -> (r: usize)
        ensures
            r == self@.len(),
    {
        self.players.len()
    }

    pub fn is_empty(&self) -> (r: bool)
        ensures
            r == (self@.len() == 0),
    {
        self.count() == 0
    }

    /// A copy of the roster.
    pub fn duplicate(&self) -> (r: PlayerList)
        ensures
            r.players@ == self.players@,
            r@ == self@,
    {
        let mut players: Vec<Player> = Vec::new();
        let mut i: usize = 0;
        while i < self.players.len()
            invariant
                i <= self.players@.len(),
                players@ =~= self.players@.take(i as int),
            decreases self.players@.len() - i,
        {
            players.push(self.players[i].duplicate());
            i += 1;
            proof {
                assert(players@ =~= self.players@.take(i as int));
            }
        }
        proof {
            assert(self.players@.take(self.players@.len() as int) =~= self.players@);
            assert(players@ =~= self.players@);
        }
        PlayerList { players }
    }

    /// Grow or shrink the roster to `new_size` entries; new entries come
    /// from `new_item`.
    pub fn resize<F: Fn() -> Player>(&mut self, new_size: usize, new_item: F)
        requires
            new_item.requires(()),
        ensures
            final(self)@.len() == new_size,
            forall|i: int|
                0 <= i < new_size && i < old(self)@.len() ==> final(self)@[i] == old(self)@[i],
            forall|i: int|
                old(self)@.len() <= i < new_size ==> new_item.ensures(
                    (),
                    #[trigger] final(self).players@[i],
                ),
    {
        if new_size <= self.players.len() {
            self.players.truncate(new_size);
        } else {
            while self.players.len() < new_size
                invariant
                    new_size <= usize::MAX,
                    old(self)@.len() <= self.players@.len() <= new_size,
                    new_item.requires(()),
                    forall|i: int|
                        0 <= i < old(self)@.len() ==> self.players@[i] == old(self).players@[i],
                    forall|i: int|
                        old(self)@.len() <= i < self.players@.len() ==> new_item.ensures(
                            (),
                            #[trigger] self.players@[i],
                        ),
                decreases new_size - self.players@.len(),
            {
                let p = new_item();
                let ghost gp = p;
                self.players.push(p);
                proof {
                    assert(new_item.ensures((), gp) && self.players@[self.players@.len() - 1]
                        == gp);
                }
            }
        }
    }

    /// The first roster entry with the given name, if any: names are
    /// compared exactly, case-sensitively.
    pub fn find_player_by_name(&self, name: &str) -> (r: Option<&Player>)
        ensures
            r matches Some(p) ==> exists|i: int|
                0 <= i < self@.len() && #[trigger] self@[i].name == name@ && *p
                    == self.players@[i] && (forall|j: int| 0 <= j < i ==> self@[j].name != name@),
            r matches Some(p) ==> p.name@ == name@,
            r is None ==> forall|i: int| 0 <= i < self@.len() ==> #[trigger] self@[i].name
                != name@,
    {
        let name_string = name.to_owned();
        let mut i: usize = 0;
        while i < self.players.len()
            invariant
                i <= self.players@.len(),
                name_string@ == name@,
                forall|j: int| 0 <= j < i ==> #[trigger] self@[j].name != name@,
            decreases self.players@.len() - i,
        {
            if self.players[i].name == name_string {
                proof {
                    assert(self@[i as int].name == name@);
                }
                return Some(&self.players[i]);
            }
            i += 1;
        }
        None
    }

    /// All roster entries with the given mode, in roster order.
    pub fn find_players_by_mode(&self, mode: PlayerMode) -> (r: Vec<Player>)
        ensures
            players_view(r@) == self@.filter(|p: PlayerV| p.mode == mode),
    {
        let mut r: Vec<Player> = Vec::new();
        let mut i: usize = 0;
        proof {
            reveal(Seq::filter);
            assert(players_view(r@) =~= self@.take(0).filter(|p: PlayerV| p.mode == mode));
        }
        while i < self.players.len()
            invariant
                i <= self.players@.len(),
                players_view(r@) == self@.take(i as int).filter(|p: PlayerV| p.mode == mode),
            decreases self.players@.len() - i,
        {
            proof {
                reveal(Seq::filter);
                assert(self@.take(i as int + 1).drop_last() =~= self@.take(i as int));
                assert(self@.take(i as int + 1).last() == self@[i as int]);
            }
            let ghost prev = players_view(r@);
            if self.players[i].mode == mode {
                r.push(self.players[i].duplicate());
                proof {
                    assert(players_view(r@) =~= prev.push(self@[i as int]));
                }
            }
            i += 1;
            proof {
                assert(players_view(r@) =~= self@.take(i as int).filter(
                    |p: PlayerV| p.mode == mode,
                ));
            }
        }
        proof {
            assert(self@.take(self@.len() as int) =~= self@);
        }
        r
    }

    /// Append a player to the roster.
    pub fn add_player(&mut self, player: Player)
        ensures
            final(self).players@ == old(self).players@.push(player),
            final(self)@ == old(self)@.push(player@),
    {
        self.players.push(player);
        proof {
            assert(final(self)@ =~= old(self)@.push(player@));
        }
    }

    /// Remove every roster entry with the given name.
    pub fn remove_player_by_name(&mut self, name: &str)
        ensures
            final(self)@ == old(self)@.filter(|p: PlayerV| p.name != name@),
    {
        let name_string = name.to_owned();
        let mut kept: Vec<Player> = Vec::new();
        let mut i: usize = 0;
        proof {
            reveal(Seq::filter);
            assert(players_view(kept@) =~= old(self)@.take(0).filter(
                |p: PlayerV| p.name != name@,
            ));
        }
        while i < self.players.len()
            invariant
                i <= self.players@.len(),
                self.players == old(self).players,
                name_string@ == name@,
                players_view(kept@) == old(self)@.take(i as int).filter(
                    |p: PlayerV| p.name != name@,
                ),
            decreases self.players@.len() - i,
        {
            proof {
                reveal(Seq::filter);
                assert(old(self)@.take(i as int + 1).drop_last() =~= old(self)@.take(i as int));
                assert(old(self)@.take(i as int + 1).last() == old(self)@[i as int]);
            }
            let ghost prev = players_view(kept@);
            if !(self.players[i].name == name_string) {
                kept.push(self.players[i].duplicate());
                proof {
                    assert(players_view(kept@) =~= prev.push(old(self)@[i as int]));
                }
            }
            i += 1;
            proof {
                assert(players_view(kept@) =~= old(self)@.take(i as int).filter(
                    |p: PlayerV| p.name != name@,
                ));
            }
        }
        proof {
            assert(old(self)@.take(old(self)@.len() as int) =~= old(self)@);
        }
        self.players = kept;
    }

    /// Replace the entry at `index`; out-of-range indices change nothing.
    pub fn set_player(&mut self, index: usize, player: Player)
        ensures
            index < old(self)@.len() ==> final(self).players@ == old(self).players@.update(
                index as int,
                player,
            ),
            index >= old(self)@.len() ==> *final(self) == *old(self),
    {
        if index < self.players.len() {
            self.players.set(index, player);
        }
    }

    /// Walk the roster in order.
    pub fn iter(&self) -> (r: PlayerListIterator<'_>)
        ensures
            r.player_list == self,
            r.index == 0,
    {
        PlayerListIterator::new(self)
    }
}

/// Lexicographic order on character sequences, by code point.
pub open spec fn spec_str_le(a: Seq<char>, b: Seq<char>) -> bool
    decreases a.len(),
{
    if a.len() == 0 {
        true
    } else if b.len() == 0 {
        false
    } else if a[0] == b[0] {
        spec_str_le(a.skip(1), b.skip(1))
    } else {
        (a[0] as u32) < (b[0] as u32)
    }
}

/// Relies on itertools' `sorted`: it collects the players into a vector
/// and sorts it ascending in the derived order, whose first and deciding
/// key is the player's name; `String` orders names by code point.
#[verifier::external_body]
pub(crate) fn sorted_players(players: &Vec<Player>) -> (r: Vec<Player>)
    ensures
        r@.len() == players@.len(),
        players_view(r@).to_multiset() == players_view(players@).to_multiset(),
        forall|i: int, j: int|
            0 <= i < j < r@.len() ==> spec_str_le(#[trigger] r@[i].name@, #[trigger] r@[j].name@),
{
    players.iter().cloned().sorted().collect()
}

/// Relies on itertools' `sorted`: it collects the names into a vector and
/// sorts it ascending; `String` orders names by code point.
#[verifier::external_body]
pub(crate) fn sorted_names(names: Vec<String>) -> (r: Vec<String>)
    ensures
        r@.len() == names@.len(),
        r@.map_values(|s: String| s@).to_multiset() == names@.map_values(
            |s: String| s@,
        ).to_multiset(),
        forall|i: int, j: int|
            0 <= i < j < r@.len() ==> spec_str_le(#[trigger] r@[i]@, #[trigger] r@[j]@),
{
    names.into_iter().sorted().collect()
}

/// Walks a roster in order.
pub struct PlayerListIterator<'a> {
    pub player_list: &'a PlayerList,
    pub index: usize,
}

impl<'a> PlayerListIterator<'a> {
    pub fn new(player_list: &'a PlayerList) -> (r: PlayerListIterator<'a>)
        ensures
            r.player_list == player_list,
            r.index == 0,
    {
        PlayerListIterator { player_list, index: 0 }
    }

    /// The next roster entry, walking front to back.
    pub fn next(&mut self) -> (r: Option<&'a Player>)
        requires
            old(self).index <= old(self).player_list@.len(),
        ensures
            final(self).player_list == old(self).player_list,
            old(self).index < old(self).player_list@.len() ==> (r matches Some(p) && *p == old(
                self,
            ).player_list.players@[old(self).index as int] && final(self).index == old(self).index
                + 1),
            old(self).index >= old(self).player_list@.len() ==> r is None && final(self).index
                == old(self).index,
    {
        if self.index >= self.player_list.players.len() {
            None
        } else {
            let i = self.index;
            self.index += 1;
            Some(&self.player_list.players[i])
        }
    }
}

} // verus!
