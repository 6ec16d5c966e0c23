//! The board: a 5 by 7 grid of which only part is playable, split into
//! the barn at the top and the open field below it.

use crate::coord::{Coord, CoordAxis};
use vstd::prelude::*;

verus! {

pub const BOARD_WIDTH: CoordAxis = 5;

pub const BOARD_HEIGHT: CoordAxis = 7;

/// The kind of a board position.
#[derive(Clone, Copy, PartialEq, Eq, Structural, Debug)]
pub enum PosType {
    /// Not part of the playable board.
    Invalid,
    /// Part of the barn area at the top.
    Barn,
    /// Part of the open field.
    Field,
}

/// The kind of position at `(x, y)`: the barn narrows towards the top
/// row, rows two and below are playable across the full width.
pub open spec fn spec_pos_type(x: int, y: int) -> PosType {
    if !(0 <= x < BOARD_WIDTH && 0 <= y < BOARD_HEIGHT) {
        PosType::Invalid
    } else if y == 0 {
        if x == 2 {
            PosType::Barn
        } else {
            PosType::Invalid
        }
    } else if y == 1 {
        if 1 <= x <= 3 {
            PosType::Barn
        } else {
            PosType::Invalid
        }
    } else if y == 2 {
        PosType::Barn
    } else {
        PosType::Field
    }
}

/// The kind of position at `pos`.
pub fn pos_type_at(pos: Coord) -> (r: PosType)
    ensures
        r == spec_pos_type(pos.x as int, pos.y as int),
{
    if !(0 <= pos.x && pos.x < BOARD_WIDTH && 0 <= pos.y && pos.y < BOARD_HEIGHT) {
        PosType::Invalid
    } else if pos.y == 0 {
        if pos.x == 2 {
            PosType::Barn
        } else {
            PosType::Invalid
        }
    } else if pos.y == 1 {
        if 1 <= pos.x && pos.x <= 3 {
            PosType::Barn
        } else {
            PosType::Invalid
        }
    } else if pos.y == 2 {
        PosType::Barn
    } else {
        PosType::Field
    }
}

/// A position is on the board when its kind is not `Invalid`.
pub open spec fn spec_on_board(pos: Coord) -> bool {
    spec_pos_type(pos.x as int, pos.y as int) != PosType::Invalid
}

/// Check if a position is on the board.
pub fn coord_is_on_board(pos: Coord) -> (r: bool)
    ensures
        r == spec_on_board(pos),
{
    pos_type_at(pos) != PosType::Invalid
}

/// A position lies on one of the two main diagonal lines: the falling
/// diagonal through `(0, 2)` and the rising one through `(0, 6)`.
pub open spec fn spec_on_main_diag(pos: Coord) -> bool {
    0 <= pos.x < BOARD_WIDTH && (pos.y == pos.x + 2 || pos.y == 6 - pos.x)
}

/// Check if a position is on the main diagonal lines.
pub fn is_on_main_diag(pos: Coord) -> (r: bool)
    ensures
        r == spec_on_main_diag(pos),
{
    0 <= pos.x && pos.x < BOARD_WIDTH && (pos.y as i32 == pos.x as i32 + 2 || pos.y as i32 == 6
        - pos.x as i32)
}

/// The cell at scan index `idx`, scanning each row left to right.
pub open spec fn spec_scan_cell(idx: int) -> Coord {
    Coord { x: (idx % 5) as CoordAxis, y: (idx / 5) as CoordAxis }
}

/// The first on-board cell at or after scan index `idx`, if any.
pub open spec fn spec_next_on_board(idx: int) -> Option<Coord>
    decreases 40 - idx,
{
    if idx < 0 || idx >= 40 {
        None
    } else if spec_on_board(spec_scan_cell(idx)) {
        Some(spec_scan_cell(idx))
    } else {
        spec_next_on_board(idx + 1)
    }
}

/// Walks the on-board positions in scan order, each row left to right.
pub struct BoardIterator {
    pub x: CoordAxis,
    pub y: CoordAxis,
}

impl BoardIterator {
    /// Cursor invariant: within the scan range, including the rest
    /// position one row below the board.
    pub open spec fn wf(&self) -> bool {
        0 <= self.x <= 4 && 0 <= self.y <= 7
    }

    /// The scan index of the cursor.
    pub open spec fn idx(&self) -> int {
        self.y * 5 + self.x
    }

    pub fn new() -> (r: BoardIterator)
        ensures
            r.wf(),
            r.idx() == 0,
    {
        BoardIterator { x: 0, y: 0 }
    }

    /// The next on-board position in scan order, or `None` at the end of
    /// the board, after which the walk restarts from the top.
    pub fn next(&mut self) -> (r: Option<Coord>)
        requires
            old(self).wf(),
        ensures
            final(self).wf(),
            r == spec_next_on_board(old(self).idx()),
            r matches Some(c) ==> spec_on_board(c) && final(self).idx() == c.y * 5 + c.x + 1,
            r is None ==> final(self).idx() == 0,
    {
        loop
            invariant
                self.wf(),
                spec_next_on_board(old(self).idx()) == spec_next_on_board(self.idx()),
            decreases 40 - self.idx(),
        {
            let cand = Coord { x: self.x, y: self.y };
            let mut at_end = false;
            if self.x >= BOARD_WIDTH - 1 {
                self.x = 0;
                if self.y >= BOARD_HEIGHT {
                    self.y = 0;
                    at_end = true;
                } else {
                    self.y = self.y + 1;
                }
            } else {
                self.x = self.x + 1;
            }
            proof {
                assert((cand.y * 5 + cand.x) % 5 == cand.x as int && (cand.y * 5 + cand.x) / 5
                    == cand.y as int) by (nonlinear_arith)
                    requires
                        0 <= cand.x < 5 && 0 <= cand.y,
                ;
                assert(spec_scan_cell(cand.y * 5 + cand.x) == cand);
            }
            if at_end {
                proof {
                    reveal_with_fuel(spec_next_on_board, 3);
                }
                return None;
            }
            if coord_is_on_board(cand) {
                return Some(cand);
            }
        }
    }
}

/// Walks the on-board positions together with their kind.
pub struct BoardPosIterator {
    pub iter: BoardIterator,
}

impl BoardPosIterator {
    pub open spec fn wf(&self) -> bool {
        self.iter.wf()
    }

    pub open spec fn idx(&self) -> int {
        self.iter.idx()
    }

    pub fn new() -> (r: BoardPosIterator)
        ensures
            r.wf(),
            r.idx() == 0,
    {
        BoardPosIterator { iter: BoardIterator::new() }
    }

    /// The next on-board position and its kind, in scan order.
    pub fn next(&mut self) -> (r: Option<(Coord, PosType)>)
        requires
            old(self).wf(),
        ensures
            final(self).wf(),
            r matches Some((c, t)) ==> spec_next_on_board(old(self).idx()) == Some(c) && t
                == spec_pos_type(c.x as int, c.y as int),
            r is None ==> spec_next_on_board(old(self).idx()) is None,
    {
        match self.iter.next() {
            Some(c) => Some((c, pos_type_at(c))),
            None => None,
        }
    }
}

} // verus!
