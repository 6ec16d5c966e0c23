//! The textual record of the moves of a game: one line per move, in the
//! form token letter, from-position, move kind, to-position, for example
//! a wolf capture written as its letter, the two squares and an `x`
//! between them.

use crate::board::{coord_is_on_board, spec_on_board};
use crate::coord::{Coord, CoordAxis};
use crate::data_repr::NetError;
use crate::game_state::{MoveState, WinState};
use vstd::prelude::*;
use vstd::string::*;

verus! {

/// The column letter of column `x`.
pub open spec fn spec_x_name(x: int) -> char {
    if x == 0 {
        'a'
    } else if x == 1 {
        'b'
    } else if x == 2 {
        'c'
    } else if x == 3 {
        'd'
    } else {
        'e'
    }
}

/// The row digit of row `y`: rows count down from seven at the top.
pub open spec fn spec_y_name(y: int) -> char {
    if y == 0 {
        '7'
    } else if y == 1 {
        '6'
    } else if y == 2 {
        '5'
    } else if y == 3 {
        '4'
    } else if y == 4 {
        '3'
    } else if y == 5 {
        '2'
    } else {
        '1'
    }
}

/// The two characters naming a board position.
pub open spec fn spec_pos_text(pos: Coord) -> Seq<char> {
    seq![spec_x_name(pos.x as int), spec_y_name(pos.y as int)]
}

/// The record line of one move: token letter, from-position, the move
/// kind (`-` plain, `x` capture, `#` game-deciding), to-position; an
/// empty line when no token moved.
pub open spec fn spec_move_text(m: RecordedMove) -> Seq<char> {
    match m.move_state {
        MoveState::NoMove => Seq::<char>::empty(),
        MoveState::Wolf(from_pos) => seq!['W'] + spec_pos_text(from_pos) + seq![
            spec_move_kind(m),
        ] + spec_pos_text(m.to_pos),
        MoveState::Sheep(from_pos) => seq!['S'] + spec_pos_text(from_pos) + seq![
            spec_move_kind(m),
        ] + spec_pos_text(m.to_pos),
    }
}

/// The move-kind character of one move.
pub open spec fn spec_move_kind(m: RecordedMove) -> char {
    match m.win_state {
        WinState::Undecided => if m.captured {
            'x'
        } else {
            '-'
        },
        _ => '#',
    }
}

/// The column of a position byte, accepting either case.
pub open spec fn spec_x_of_byte(b: u8) -> Option<int> {
    if b == 97 || b == 65 {
        Some(0int)
    } else if b == 98 || b == 66 {
        Some(1int)
    } else if b == 99 || b == 67 {
        Some(2int)
    } else if b == 100 || b == 68 {
        Some(3int)
    } else if b == 101 || b == 69 {
        Some(4int)
    } else {
        None
    }
}

/// The row of a position byte: digits seven down to one.
pub open spec fn spec_y_of_byte(b: u8) -> Option<int> {
    if b == 55 {
        Some(0int)
    } else if b == 54 {
        Some(1int)
    } else if b == 53 {
        Some(2int)
    } else if b == 52 {
        Some(3int)
    } else if b == 51 {
        Some(4int)
    } else if b == 50 {
        Some(5int)
    } else if b == 49 {
        Some(6int)
    } else {
        None
    }
}

/// The position named by two bytes, if they name one on the board.
pub open spec fn spec_parse_pos(b0: u8, b1: u8) -> Option<Coord> {
    match (spec_x_of_byte(b0), spec_y_of_byte(b1)) {
        (Some(x), Some(y)) => {
            let pos = Coord { x: x as CoordAxis, y: y as CoordAxis };
            if spec_on_board(pos) {
                Some(pos)
            } else {
                None
            }
        },
        _ => None,
    }
}

/// The move recorded by a log line's bytes, if they form one: a token
/// letter, a from-position, a move kind, and a to-position. Trailing
/// bytes are ignored.
pub open spec fn spec_parse_log_line(b: Seq<u8>) -> Option<RecordedMove> {
    if b.len() < 6 {
        None
    } else {
        let wolf = b[0] == 87 || b[0] == 119;
        let sheep = b[0] == 83 || b[0] == 115;
        match spec_parse_pos(b[1], b[2]) {
            None => None,
            Some(from_pos) => {
                match spec_parse_pos(b[4], b[5]) {
                    None => None,
                    Some(to_pos) => {
                        if !(wolf || sheep) {
                            None
                        } else if b[3] == 45 {
                            Some(
                                RecordedMove {
                                    move_state: if wolf {
                                        MoveState::Wolf(from_pos)
                                    } else {
                                        MoveState::Sheep(from_pos)
                                    },
                                    to_pos,
                                    captured: false,
                                    win_state: WinState::Undecided,
                                },
                            )
                        } else if b[3] == 88 || b[3] == 120 {
                            Some(
                                RecordedMove {
                                    move_state: if wolf {
                                        MoveState::Wolf(from_pos)
                                    } else {
                                        MoveState::Sheep(from_pos)
                                    },
                                    to_pos,
                                    captured: true,
                                    win_state: WinState::Undecided,
                                },
                            )
                        } else if b[3] == 35 {
                            Some(
                                RecordedMove {
                                    move_state: if wolf {
                                        MoveState::Wolf(from_pos)
                                    } else {
                                        MoveState::Sheep(from_pos)
                                    },
                                    to_pos,
                                    captured: wolf,
                                    win_state: if wolf {
                                        WinState::Wolf
                                    } else {
                                        WinState::Sheep
                                    },
                                },
                            )
                        } else {
                            None
                        }
                    },
                }
            },
        }
    }
}

/// The two-character name of an on-board position.
pub fn coord_to_recorder_pos(pos: &Coord) -> (r: String)
    requires
        spec_on_board(*pos),
    ensures
        r@ == spec_pos_text(*pos),
{
    let xs = match pos.x {
        0 => "a",
        1 => "b",
        2 => "c",
        3 => "d",
        _ => "e",
    };
    let ys = match pos.y {
        0 => "7",
        1 => "6",
        2 => "5",
        3 => "4",
        4 => "3",
        5 => "2",
        _ => "1",
    };
    proof {
        reveal_strlit("a");
        reveal_strlit("b");
        reveal_strlit("c");
        reveal_strlit("d");
        reveal_strlit("e");
        reveal_strlit("1");
        reveal_strlit("2");
        reveal_strlit("3");
        reveal_strlit("4");
        reveal_strlit("5");
        reveal_strlit("6");
        reveal_strlit("7");
    }
    let mut r = String::from_str(xs);
    r.append(ys);
    proof {
        assert(r@ =~= spec_pos_text(*pos));
    }
    r
}

/// Parse a two-byte position name into the position it names; refused
/// when it is not the name of an on-board position.
pub fn recorder_pos_to_coord(chars: &[u8]) -> (r: Result<Coord, NetError>)
    requires
        chars@.len() == 2,
    ensures
        r matches Ok(c) ==> spec_parse_pos(chars@[0], chars@[1]) == Some(c) && spec_on_board(c),
        r is Err <==> spec_parse_pos(chars@[0], chars@[1]) is None,
        r matches Err(e) ==> e == NetError::InvalidString,
{
    let b0 = chars[0];
    let x: CoordAxis = if b0 == 97 || b0 == 65 {
        0
    } else if b0 == 98 || b0 == 66 {
        1
    } else if b0 == 99 || b0 == 67 {
        2
    } else if b0 == 100 || b0 == 68 {
        3
    } else if b0 == 101 || b0 == 69 {
        4
    } else {
        return Err(NetError::InvalidString);
    };
    let b1 = chars[1];
    let y: CoordAxis = if b1 == 55 {
        0
    } else if b1 == 54 {
        1
    } else if b1 == 53 {
        2
    } else if b1 == 52 {
        3
    } else if b1 == 51 {
        4
    } else if b1 == 50 {
        5
    } else if b1 == 49 {
        6
    } else {
        return Err(NetError::InvalidString);
    };
    let pos = Coord { x, y };
    if coord_is_on_board(pos) {
        Ok(pos)
    } else {
        Err(NetError::InvalidString)
    }
}

/// One recorded game move.
#[derive(Clone, Copy, PartialEq, Eq, Structural, Debug)]
pub struct RecordedMove {
    /// The token that has been moved, with the position it came from.
    pub move_state: MoveState,
    /// The target position of the move.
    pub to_pos: Coord,
    /// True if a token has been captured during this move.
    pub captured: bool,
    /// The game-win state after this move.
    pub win_state: WinState,
}

impl RecordedMove {
    /// The positions of the move lie on the board.
    pub open spec fn wf(&self) -> bool {
        match self.move_state {
            MoveState::NoMove => true,
            MoveState::Wolf(from_pos) => spec_on_board(from_pos) && spec_on_board(self.to_pos),
            MoveState::Sheep(from_pos) => spec_on_board(from_pos) && spec_on_board(self.to_pos),
        }
    }

    /// Parse a move record line.
    pub fn parse_log_line(line: &str) -> (r: Result<RecordedMove, NetError>)
        ensures
            r matches Ok(m) ==> spec_parse_log_line(line.spec_bytes()) == Some(m) && m.wf(),
            r is Err <==> spec_parse_log_line(line.spec_bytes()) is None,
    {
        let bytes = line.as_bytes();
        if bytes.len() < 6 {
            return Err(NetError::InvalidString);
        }
        let b0 = bytes[0];
        let wolf = b0 == 87 || b0 == 119;
        let sheep = b0 == 83 || b0 == 115;
        if !(wolf || sheep) {
            return Err(NetError::InvalidString);
        }
        let from_pos = match recorder_pos_to_coord(&bytes[1..3]) {
            Ok(p) => p,
            Err(e) => {
                return Err(e);
            },
        };
        let to_pos = match recorder_pos_to_coord(&bytes[4..6]) {
            Ok(p) => p,
            Err(e) => {
                return Err(e);
            },
        };
        let b3 = bytes[3];
        let (win_state, captured) = if b3 == 45 {
            (WinState::Undecided, false)
        } else if b3 == 88 || b3 == 120 {
            (WinState::Undecided, true)
        } else if b3 == 35 {
            if wolf {
                (WinState::Wolf, true)
            } else {
                (WinState::Sheep, false)
            }
        } else {
            return Err(NetError::InvalidString);
        };
        let move_state = if wolf {
            MoveState::Wolf(from_pos)
        } else {
            MoveState::Sheep(from_pos)
        };
        Ok(RecordedMove { move_state, to_pos, captured, win_state })
    }

    /// The record line of this move; empty when no token moved.
    pub fn as_text(&self) -> (r: String)
        requires
            self.wf(),
        ensures
            r@ == spec_move_text(*self),
    {
        let from_pos = match self.move_state {
            MoveState::NoMove => {
                let r = String::new();
                proof {
                    assert(r@ =~= spec_move_text(*self));
                }
                return r;
            },
            MoveState::Wolf(from_pos) => from_pos,
            MoveState::Sheep(from_pos) => from_pos,
        };
        let token = match self.move_state {
            MoveState::Wolf(_) => "W",
            _ => "S",
        };
        let kind = match self.win_state {
            WinState::Undecided => if self.captured {
                "x"
            } else {
                "-"
            },
            _ => "#",
        };
        proof {
            reveal_strlit("W");
            reveal_strlit("S");
            reveal_strlit("x");
            reveal_strlit("-");
            reveal_strlit("#");
        }
        let mut r = String::from_str(token);
        let fp = coord_to_recorder_pos(&from_pos);
        r.append(fp.as_str());
        r.append(kind);
        let tp = coord_to_recorder_pos(&self.to_pos);
        r.append(tp.as_str());
        proof {
            assert(r@ =~= spec_move_text(*self));
        }
        r
    }
}


/// A blank byte of a record line: space, tab or carriage return.
pub open spec fn spec_ws(c: u8) -> bool {
    c == 32 || c == 9 || c == 13
}

/// The length of the first line of `b`: its bytes before the first
/// newline, or all of it.
pub open spec fn spec_line_len(b: Seq<u8>) -> int
    decreases b.len(),
{
    if b.len() == 0 {
        0
    } else if b[0] == 10 {
        0
    } else {
        1 + spec_line_len(b.skip(1))
    }
}

/// Where the first line of `b` ends: before its first newline.
pub proof fn lemma_line_len(b: Seq<u8>)
    ensures
        0 <= spec_line_len(b) <= b.len(),
        forall|i: int| 0 <= i < spec_line_len(b) ==> b[i] != 10,
        spec_line_len(b) < b.len() ==> b[spec_line_len(b)] == 10,
    decreases b.len(),
{
    if b.len() > 0 && b[0] != 10 {
        lemma_line_len(b.skip(1));
        assert forall|i: int| 0 <= i < spec_line_len(b) implies b[i] != 10 by {
            if i > 0 {
                assert(b.skip(1)[i - 1] != 10);
            }
        }
    }
}

/// A run without newlines that ends at one, or at the end, is the first
/// line.
pub proof fn lemma_line_len_eq(b: Seq<u8>, l: int)
    requires
        0 <= l <= b.len(),
        forall|j: int| 0 <= j < l ==> b[j] != 10,
        l < b.len() ==> b[l] == 10,
    ensures
        spec_line_len(b) == l,
    decreases l,
{
    if l > 0 {
        lemma_line_len_eq(b.skip(1), l - 1);
    }
}

/// `b` without its leading blank bytes.
pub open spec fn spec_trim_front(b: Seq<u8>) -> Seq<u8>
    decreases b.len(),
{
    if b.len() > 0 && spec_ws(b[0]) {
        spec_trim_front(b.skip(1))
    } else {
        b
    }
}

/// `b` without its trailing blank bytes.
pub open spec fn spec_trim_back(b: Seq<u8>) -> Seq<u8>
    decreases b.len(),
{
    if b.len() > 0 && spec_ws(b[b.len() - 1]) {
        spec_trim_back(b.drop_last())
    } else {
        b
    }
}

/// `b` without leading and trailing blank bytes.
pub open spec fn spec_trim(b: Seq<u8>) -> Seq<u8> {
    spec_trim_back(spec_trim_front(b))
}

/// The freshly formatted move lines that re-reading a record text
/// produces: its newline-separated segments trimmed of blanks, blank
/// segments skipped; nothing when a segment does not parse as a move.
pub open spec fn spec_parse_record_text(b: Seq<u8>) -> Option<Seq<Seq<char>>>
    decreases b.len(),
    via spec_parse_record_text_decreases
{
    let k = spec_line_len(b);
    let line = spec_trim(b.take(k));
    let rest = if k < b.len() {
        spec_parse_record_text(b.skip(k + 1))
    } else {
        Some(Seq::<Seq<char>>::empty())
    };
    match rest {
        None => None,
        Some(t) => if line.len() == 0 {
            Some(t)
        } else {
            match spec_parse_log_line(line) {
                None => None,
                Some(m) => Some(seq![spec_move_text(m)] + t),
            }
        },
    }
}

#[via_fn]
proof fn spec_parse_record_text_decreases(b: Seq<u8>) {
    lemma_line_len(b);
}

/// `l` is the record line of some well-formed move.
pub open spec fn spec_is_move_line(l: Seq<char>) -> bool {
    exists|m: RecordedMove| m.wf() && l == spec_move_text(m)
}

/// The move lines joined with one newline between them.
pub open spec fn spec_join_lines(lines: Seq<Seq<char>>) -> Seq<char>
    decreases lines.len(),
{
    if lines.len() == 0 {
        Seq::empty()
    } else if lines.len() == 1 {
        lines[0]
    } else {
        spec_join_lines(lines.drop_last()) + seq!['\n'] + lines.last()
    }
}

/// The recorded move log: one formatted line per move.
pub struct Recorder {
    pub move_log: Vec<String>,
}

impl View for Recorder {
    type V = Seq<Seq<char>>;

    open spec fn view(&self) -> Seq<Seq<char>> {
        self.move_log@.map_values(|s: String| s@)
    }
}

impl Recorder {
    pub fn new() -> (r: Recorder)
        ensures
            r@ == Seq::<Seq<char>>::empty(),
    {
        let r = Recorder { move_log: Vec::new() };
        proof {
            assert(r@ =~= Seq::<Seq<char>>::empty());
        }
        r
    }

    /// Forget all recorded moves.
    pub fn reset(&mut self)
        ensures
            final(self)@ == Seq::<Seq<char>>::empty(),
    {
        self.move_log.clear();
        proof {
            assert(self@ =~= Seq::<Seq<char>>::empty());
        }
    }

    /// Add a move to the move record.
    pub fn record_move(&mut self, recorded_move: &RecordedMove)
        requires
            recorded_move.wf(),
        ensures
            final(self)@ == old(self)@.push(spec_move_text(*recorded_move)),
    {
        self.move_log.push(recorded_move.as_text());
        proof {
            assert(self@ =~= old(self)@.push(spec_move_text(*recorded_move)));
        }
    }

    pub fn get_moves(&self) -> (r: &Vec<String>)
        ensures
            r == &self.move_log,
    {
        &self.move_log
    }

    /// All recorded lines as one text, newline-separated.
    pub fn get_moves_as_text(&self) -> (r: String)
        ensures
            r@ == spec_join_lines(self@),
    {
        let mut r = String::new();
        let n = self.move_log.len();
        let mut i: usize = 0;
        proof {
            reveal_strlit("\n");
        }
        while i < n
            invariant
                i <= n,
                n == self.move_log@.len(),
                r@ == spec_join_lines(self@.take(i as int)),
            decreases n - i,
        {
            if i > 0 {
                r.append("\n");
            }
            r.append(self.move_log[i].as_str());
            i += 1;
            proof {
                reveal_strlit("\n");
                assert(self@.take(i as int).drop_last() =~= self@.take(i as int - 1));
                assert(self@.take(i as int).last() == self@[i as int - 1]);
                if i == 1 {
                    assert(r@ =~= spec_join_lines(self@.take(1)));
                } else {
                    assert(r@ =~= spec_join_lines(self@.take(i as int - 1)) + seq!['\n']
                        + self@[i as int - 1]);
                }
            }
        }
        proof {
            assert(self@.take(n as int) =~= self@);
        }
        r
    }

    /// Re-read a textual record: every newline-separated, blank-trimmed
    /// line that is not empty must parse as one move; the log is rebuilt
    /// from the parsed moves, freshly formatted. On a line that does not
    /// parse, the moves before it stay recorded.
    pub fn parse_text(&mut self, text: &str) -> (r: Result<(), NetError>)
        ensures
            forall|k: int|
                0 <= k < final(self)@.len() ==> spec_is_move_line(#[trigger] final(self)@[k]),
            r is Ok <==> spec_parse_record_text(text.spec_bytes()) is Some,
            r is Ok ==> final(self)@ == spec_parse_record_text(text.spec_bytes()).unwrap(),
    {
        self.reset();
        let bytes = text.as_bytes();
        let n = bytes.len();
        let mut start: usize = 0;
        let mut i: usize = 0;
        proof {
            assert(bytes@.skip(0) =~= bytes@);
            match spec_parse_record_text(bytes@) {
                None => {},
                Some(t) => {
                    assert(Seq::<Seq<char>>::empty() + t =~= t);
                },
            }
        }
        while i < n
            invariant
                start <= i <= n,
                n == bytes@.len(),
                bytes@ == text.spec_bytes(),
                forall|j: int| start <= j < i ==> bytes@[j] != 10,
                spec_parse_record_text(bytes@) == (match spec_parse_record_text(
                    bytes@.skip(start as int),
                ) {
                    None => None::<Seq<Seq<char>>>,
                    Some(t) => Some(self@ + t),
                }),
                forall|k: int| 0 <= k < self@.len() ==> spec_is_move_line(#[trigger] self@[k]),
            decreases n - i,
        {
            if bytes[i] == 10 {
                proof {
                    Self::lemma_segment_step(bytes@, start as int, i as int);
                }
                let ghost log_before = self@;
                match self.take_line(bytes, start, i) {
                    Ok(()) => {},
                    Err(e) => {
                        proof {
                            assert(spec_parse_record_text(bytes@.skip(start as int)) is None);
                            assert(spec_parse_record_text(bytes@) is None);
                        }
                        return Err(e);
                    },
                }
                proof {
                    let line = spec_trim(bytes@.subrange(start as int, i as int));
                    match spec_parse_record_text(bytes@.skip(i as int + 1)) {
                        None => {},
                        Some(t) => {
                            if line.len() == 0 {
                            } else {
                                let m = spec_parse_log_line(line).unwrap();
                                assert(log_before + (seq![spec_move_text(m)] + t)
                                    =~= log_before.push(spec_move_text(m)) + t);
                            }
                        },
                    }
                }
                start = i + 1;
            }
            i += 1;
        }
        proof {
            Self::lemma_segment_step(bytes@, start as int, n as int);
        }
        let ghost log_before = self@;
        match self.take_line(bytes, start, n) {
            Ok(()) => {},
            Err(e) => {
                proof {
                    assert(spec_parse_record_text(bytes@.skip(start as int)) is None);
                    assert(spec_parse_record_text(bytes@) is None);
                }
                return Err(e);
            },
        }
        proof {
            let line = spec_trim(bytes@.subrange(start as int, n as int));
            if line.len() == 0 {
                assert(log_before + Seq::<Seq<char>>::empty() =~= log_before);
            } else {
                let m = spec_parse_log_line(line).unwrap();
                assert(log_before + (seq![spec_move_text(m)] + Seq::<Seq<char>>::empty())
                    =~= log_before.push(spec_move_text(m)));
            }
        }
        Ok(())
    }

    /// Unfold the record-text parse at a line boundary: a segment free of
    /// newlines that ends at a newline, or at the end of the text, is the
    /// first line of the remaining text.
    proof fn lemma_segment_step(b: Seq<u8>, start: int, i: int)
        requires
            0 <= start <= i <= b.len(),
            forall|j: int| start <= j < i ==> b[j] != 10,
            i < b.len() ==> b[i] == 10,
        ensures
            spec_parse_record_text(b.skip(start)) == ({
                let line = spec_trim(b.subrange(start, i));
                let rest = if i < b.len() {
                    spec_parse_record_text(b.skip(i + 1))
                } else {
                    Some(Seq::<Seq<char>>::empty())
                };
                match rest {
                    None => None::<Seq<Seq<char>>>,
                    Some(t) => if line.len() == 0 {
                        Some(t)
                    } else {
                        match spec_parse_log_line(line) {
                            None => None,
                            Some(m) => Some(seq![spec_move_text(m)] + t),
                        }
                    },
                }
            }),
    {
        let s = b.skip(start);
        assert forall|j: int| 0 <= j < i - start implies s[j] != 10 by {
            assert(s[j] == b[start + j]);
        }
        if i < b.len() {
            assert(s[i - start] == 10);
        }
        lemma_line_len_eq(s, i - start);
        assert(s.take(i - start) =~= b.subrange(start, i));
        if i < b.len() {
            assert(s.skip(i - start + 1) =~= b.skip(i + 1));
        }
    }

    /// Trim one line of the record text and, if anything remains, parse
    /// it and record the parsed move, freshly formatted.
    fn take_line(&mut self, bytes: &[u8], from: usize, to: usize) -> (r: Result<(), NetError>)
        requires
            from <= to <= bytes@.len(),
        ensures
            ({
                let line = spec_trim(bytes@.subrange(from as int, to as int));
                &&& (r is Ok <==> (line.len() == 0 || spec_parse_log_line(line) is Some))
                &&& (r is Ok ==> final(self)@ == if line.len() == 0 {
                    old(self)@
                } else {
                    old(self)@.push(spec_move_text(spec_parse_log_line(line).unwrap()))
                })
                &&& (r is Err ==> final(self)@ == old(self)@)
            }),
            final(self)@.len() >= old(self)@.len(),
            forall|k: int| 0 <= k < old(self)@.len() ==> final(self)@[k] == old(self)@[k],
            forall|k: int|
                old(self)@.len() <= k < final(self)@.len() ==> spec_is_move_line(
                    #[trigger] final(self)@[k],
                ),
    {
        let ghost seg = bytes@.subrange(from as int, to as int);
        let mut a = from;
        let mut b = to;
        proof {
            assert(seg.skip(0) =~= seg);
        }
        while a < b && (bytes[a] == 32 || bytes[a] == 9 || bytes[a] == 13)
            invariant
                from <= a <= b <= bytes@.len(),
                b == to,
                seg == bytes@.subrange(from as int, to as int),
                spec_trim_front(seg) == spec_trim_front(seg.skip(a - from)),
            decreases b - a,
        {
            proof {
                assert(seg.skip(a - from)[0] == bytes@[a as int]);
                assert(seg.skip(a - from).skip(1) =~= seg.skip(a - from + 1));
            }
            a += 1;
        }
        proof {
            if a < b {
                assert(seg.skip(a - from)[0] == bytes@[a as int]);
            }
            assert(spec_trim_front(seg) == seg.skip(a - from));
        }
        let ghost tf = seg.skip(a - from);
        proof {
            assert(tf.take(b - a) =~= tf);
        }
        while b > a && (bytes[b - 1] == 32 || bytes[b - 1] == 9 || bytes[b - 1] == 13)
            invariant
                from <= a <= b <= to <= bytes@.len(),
                tf == seg.skip(a - from),
                seg == bytes@.subrange(from as int, to as int),
                spec_trim_back(tf) == spec_trim_back(tf.take(b - a)),
            decreases b,
        {
            proof {
                assert(tf.take(b - a).last() == bytes@[b - 1]);
                assert(tf.take(b - a).drop_last() =~= tf.take(b - a - 1));
            }
            b -= 1;
        }
        proof {
            if b > a {
                assert(tf.take(b - a).last() == bytes@[b - 1]);
            }
            assert(spec_trim_back(tf) == tf.take(b - a));
            assert(spec_trim(seg) =~= bytes@.subrange(a as int, b as int));
        }
        if b > a {
            let line = &bytes[a..b];
            let mov = match Self::parse_line_bytes(line) {
                Ok(m) => m,
                Err(e) => {
                    return Err(e);
                },
            };
            let formatted = mov.as_text();
            proof {
                assert(mov.wf() && formatted@ == spec_move_text(mov));
            }
            self.move_log.push(formatted);
            proof {
                assert(self@ =~= old(self)@.push(spec_move_text(mov)));
            }
        }
        Ok(())
    }

    /// Parse one trimmed record line given as bytes.
    fn parse_line_bytes(line: &[u8]) -> (r: Result<RecordedMove, NetError>)
        ensures
            r matches Ok(m) ==> spec_parse_log_line(line@) == Some(m) && m.wf(),
            r is Err <==> spec_parse_log_line(line@) is None,
    {
        if line.len() < 6 {
            return Err(NetError::InvalidString);
        }
        let b0 = line[0];
        let wolf = b0 == 87 || b0 == 119;
        let sheep = b0 == 83 || b0 == 115;
        if !(wolf || sheep) {
            return Err(NetError::InvalidString);
        }
        let from_pos = match recorder_pos_to_coord(&line[1..3]) {
            Ok(p) => p,
            Err(e) => {
                return Err(e);
            },
        };
        let to_pos = match recorder_pos_to_coord(&line[4..6]) {
            Ok(p) => p,
            Err(e) => {
                return Err(e);
            },
        };
        let b3 = line[3];
        let (win_state, captured) = if b3 == 45 {
            (WinState::Undecided, false)
        } else if b3 == 88 || b3 == 120 {
            (WinState::Undecided, true)
        } else if b3 == 35 {
            if wolf {
                (WinState::Wolf, true)
            } else {
                (WinState::Sheep, false)
            }
        } else {
            return Err(NetError::InvalidString);
        };
        let move_state = if wolf {
            MoveState::Wolf(from_pos)
        } else {
            MoveState::Sheep(from_pos)
        };
        Ok(RecordedMove { move_state, to_pos, captured, win_state })
    }
}

} // verus!
