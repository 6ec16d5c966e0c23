//! Plain data types of the game state as the server moves it around:
//! board cell states, the mid-move token state, whose turn it is, and
//! the win state. The rules that decide move legality live behind the
//! `GameRules` collaborator interface and are not decided here.

use crate::coord::Coord;
use crate::data_repr::NetError;
use vstd::prelude::*;
use vstd::string::*;

verus! {

/// The state of one board cell.
#[derive(Clone, Copy, PartialEq, Eq, Structural, Debug)]
pub enum FieldState {
    /// Not a playable cell.
    Unused,
    /// Playable and empty.
    Empty,
    /// Holds a wolf token.
    Wolf,
    /// Holds a sheep token.
    Sheep,
}

/// The numeric wire value of a field state.
pub open spec fn spec_field_state_num(field_state: FieldState) -> u32 {
    match field_state {
        FieldState::Unused => 0,
        FieldState::Empty => 1,
        FieldState::Wolf => 2,
        FieldState::Sheep => 3,
    }
}

/// Encode a field state as its numeric wire value.
pub fn field_state_to_num(field_state: FieldState) -> (r: u32)
    ensures
        r == spec_field_state_num(field_state),
{
    match field_state {
        FieldState::Unused => 0,
        FieldState::Empty => 1,
        FieldState::Wolf => 2,
        FieldState::Sheep => 3,
    }
}

/// Decode a numeric wire value into a field state; exactly the four
/// defined values are accepted.
pub fn num_to_field_state(field_state: u32) -> (r: Result<FieldState, NetError>)
    ensures
        r matches Ok(s) ==> spec_field_state_num(s) == field_state,
        r is Ok <==> field_state <= 3,
        r is Err ==> r == Err::<FieldState, NetError>(NetError::UnknownId),
{
    match field_state {
        0 => Ok(FieldState::Unused),
        1 => Ok(FieldState::Empty),
        2 => Ok(FieldState::Wolf),
        3 => Ok(FieldState::Sheep),
        _ => Err(NetError::UnknownId),
    }
}

/// Whether the game has been decided, and for whom.
#[derive(Clone, Copy, PartialEq, Eq, Structural, Debug)]
pub enum WinState {
    Undecided,
    Wolf,
    Sheep,
}

impl WinState {
    /// Human-readable name of the win state.
    pub fn as_text(&self) -> (r: String) {
        match self {
            WinState::Undecided => String::from_str("undecided"),
            WinState::Wolf => String::from_str("wolf"),
            WinState::Sheep => String::from_str("sheep"),
        }
    }
}

/// Two cell states hold opposing tokens: one a wolf and one a sheep.
pub fn is_opposite_token(a: FieldState, b: FieldState) -> (r: bool)
    ensures
        r == ((a == FieldState::Sheep && b == FieldState::Wolf) || (a == FieldState::Wolf && b
            == FieldState::Sheep)),
{
    (a == FieldState::Sheep && b == FieldState::Wolf) || (a == FieldState::Wolf && b
        == FieldState::Sheep)
}

/// The state of a token picked up in mid-move, with the position it was
/// picked from.
#[derive(Clone, Copy, PartialEq, Eq, Structural, Debug)]
pub enum MoveState {
    NoMove,
    Wolf(Coord),
    Sheep(Coord),
}

/// The numeric wire triple of a move state: kind, x and y.
pub open spec fn spec_move_state_num(move_state: MoveState) -> (u32, u32, u32) {
    match move_state {
        MoveState::NoMove => (0, 0, 0),
        MoveState::Wolf(coord) => (1, coord.x as u32, coord.y as u32),
        MoveState::Sheep(coord) => (2, coord.x as u32, coord.y as u32),
    }
}

/// Encode a move state as its numeric wire triple. The coordinates of a
/// picked token are board positions and so never negative.
pub fn move_state_to_num(move_state: &MoveState) -> (r: (u32, u32, u32))
    requires
        match *move_state {
            MoveState::NoMove => true,
            MoveState::Wolf(coord) => coord.x >= 0 && coord.y >= 0,
            MoveState::Sheep(coord) => coord.x >= 0 && coord.y >= 0,
        },
    ensures
        r == spec_move_state_num(*move_state),
{
    match move_state {
        MoveState::NoMove => (0, 0, 0),
        MoveState::Wolf(coord) => (1, coord.x as u32, coord.y as u32),
        MoveState::Sheep(coord) => (2, coord.x as u32, coord.y as u32),
    }
}

/// Decode a numeric wire triple into a move state; kinds above two are
/// refused, as are coordinates too large for the coordinate type.
pub fn num_to_move_state(move_state: (u32, u32, u32)) -> (r: Result<MoveState, NetError>)
    ensures
        r is Ok <==> (move_state.0 == 0 || (move_state.0 <= 2 && move_state.1 <= 0x7FFF
            && move_state.2 <= 0x7FFF)),
        r matches Ok(m) ==> m == if move_state.0 == 0 {
            MoveState::NoMove
        } else if move_state.0 == 1 {
            MoveState::Wolf(
                Coord { x: move_state.1 as crate::coord::CoordAxis, y: move_state.2 as crate::coord::CoordAxis },
            )
        } else {
            MoveState::Sheep(
                Coord { x: move_state.1 as crate::coord::CoordAxis, y: move_state.2 as crate::coord::CoordAxis },
            )
        },
        r is Err ==> r == Err::<MoveState, NetError>(NetError::UnknownId),
{
    let (state, x, y) = move_state;
    if state == 0 {
        Ok(MoveState::NoMove)
    } else if state <= 2 {
        if x > 0x7FFF || y > 0x7FFF {
            Err(NetError::UnknownId)
        } else if state == 1 {
            Ok(MoveState::Wolf(Coord { x: x as i16, y: y as i16 }))
        } else {
            Ok(MoveState::Sheep(Coord { x: x as i16, y: y as i16 }))
        }
    } else {
        Err(NetError::UnknownId)
    }
}

/// Whose turn it is; the wolf may be owed a chained capture.
#[derive(Clone, Copy, PartialEq, Eq, Structural, Debug)]
pub enum Turn {
    Sheep,
    Wolf,
    WolfchainOrSheep,
}

/// The numeric wire value of a turn.
pub open spec fn spec_turn_num(turn: Turn) -> u32 {
    match turn {
        Turn::Sheep => 0,
        Turn::Wolf => 1,
        Turn::WolfchainOrSheep => 2,
    }
}

/// Encode a turn as its numeric wire value.
pub fn turn_to_num(turn: &Turn) -> (r: u32)
    ensures
        r == spec_turn_num(*turn),
{
    match turn {
        Turn::Sheep => 0,
        Turn::Wolf => 1,
        Turn::WolfchainOrSheep => 2,
    }
}

/// Decode a numeric wire value into a turn; exactly the three defined
/// values are accepted.
pub fn num_to_turn(turn: u32) -> (r: Result<Turn, NetError>)
    ensures
        r matches Ok(t) ==> spec_turn_num(t) == turn,
        r is Ok <==> turn <= 2,
        r is Err ==> r == Err::<Turn, NetError>(NetError::UnknownId),
{
    match turn {
        0 => Ok(Turn::Sheep),
        1 => Ok(Turn::Wolf),
        2 => Ok(Turn::WolfchainOrSheep),
        _ => Err(NetError::UnknownId),
    }
}

/// Token counts of a board: how many wolves and sheep stand on it, and
/// how many sheep have been captured.
#[derive(Clone, Copy, PartialEq, Eq, Structural, Debug)]
pub struct Stats {
    pub wolves: u8,
    pub sheep: u8,
    pub sheep_beaten: u8,
}

} // verus!
