//! Board-geometry, move-record and logging-configuration tests.

use wolfsheep::board::{
    coord_is_on_board, is_on_main_diag, BoardIterator, BoardPosIterator, PosType,
};
use wolfsheep::coord::Coord;
use wolfsheep::game_state::{
    field_state_to_num, is_opposite_token, num_to_field_state, num_to_move_state, num_to_turn,
    move_state_to_num, turn_to_num, FieldState, MoveState, Turn, WinState,
};
use wolfsheep::print::{Print, PrintLevel};
use wolfsheep::recorder::{
    coord_to_recorder_pos, recorder_pos_to_coord, RecordedMove, Recorder,
};

fn c(x: i16, y: i16) -> Coord {
    Coord { x, y }
}

#[test]
fn board_positions() {
    // The top row holds only the barn tip.
    assert!(coord_is_on_board(c(2, 0)));
    assert!(!coord_is_on_board(c(0, 0)));
    assert!(!coord_is_on_board(c(1, 0)));
    // The second row is the barn's middle.
    assert!(coord_is_on_board(c(1, 1)));
    assert!(!coord_is_on_board(c(0, 1)));
    // From row two down the whole width is playable.
    for x in 0..5 {
        for y in 2..7 {
            assert!(coord_is_on_board(c(x, y)));
        }
    }
    // Outside the grid.
    assert!(!coord_is_on_board(c(-1, 3)));
    assert!(!coord_is_on_board(c(5, 3)));
    assert!(!coord_is_on_board(c(2, 7)));
}

#[test]
fn main_diagonals() {
    // The falling diagonal from the barn's left edge.
    assert!(is_on_main_diag(c(0, 2)));
    assert!(is_on_main_diag(c(4, 6)));
    // The rising diagonal.
    assert!(is_on_main_diag(c(0, 6)));
    assert!(is_on_main_diag(c(4, 2)));
    // Their crossing point.
    assert!(is_on_main_diag(c(2, 4)));
    // Off the diagonals.
    assert!(!is_on_main_diag(c(1, 2)));
    assert!(!is_on_main_diag(c(0, 3)));
}

#[test]
fn board_iterator_walks_every_playable_cell() {
    let mut iter = BoardIterator::new();
    let mut count = 0;
    while let Some(pos) = iter.next() {
        assert!(coord_is_on_board(pos));
        count += 1;
    }
    // 1 + 3 + 5 cells of barn, then four full field rows.
    assert_eq!(count, 29);
    // After the end the walk restarts.
    assert!(iter.next().is_some());
}

#[test]
fn board_pos_iterator_tags_kinds() {
    let mut iter = BoardPosIterator::new();
    let mut barn = 0;
    let mut field = 0;
    while let Some((_, kind)) = iter.next() {
        match kind {
            PosType::Barn => barn += 1,
            PosType::Field => field += 1,
            PosType::Invalid => panic!("iterator yielded an invalid cell"),
        }
    }
    assert_eq!(barn, 9);
    assert_eq!(field, 20);
}

#[test]
fn field_state_numbers() {
    for s in [
        FieldState::Unused,
        FieldState::Empty,
        FieldState::Wolf,
        FieldState::Sheep,
    ] {
        assert_eq!(num_to_field_state(field_state_to_num(s)).unwrap(), s);
    }
    assert!(num_to_field_state(4).is_err());
    assert!(is_opposite_token(FieldState::Wolf, FieldState::Sheep));
    assert!(is_opposite_token(FieldState::Sheep, FieldState::Wolf));
    assert!(!is_opposite_token(FieldState::Wolf, FieldState::Wolf));
    assert!(!is_opposite_token(FieldState::Wolf, FieldState::Empty));
}

#[test]
fn move_state_numbers() {
    let m = MoveState::Wolf(c(2, 4));
    let triple = move_state_to_num(&m);
    assert_eq!(triple, (1, 2, 4));
    assert_eq!(num_to_move_state(triple).unwrap(), m);
    assert_eq!(num_to_move_state((0, 9, 9)).unwrap(), MoveState::NoMove);
    assert!(num_to_move_state((3, 0, 0)).is_err());
    for t in [Turn::Sheep, Turn::Wolf, Turn::WolfchainOrSheep] {
        assert_eq!(num_to_turn(turn_to_num(&t)).unwrap(), t);
    }
    assert!(num_to_turn(3).is_err());
}

#[test]
fn recorder_positions() {
    // Column a..e left to right, row digits 7 at the top down to 1.
    assert_eq!(coord_to_recorder_pos(&c(0, 2)), "a5");
    assert_eq!(coord_to_recorder_pos(&c(2, 0)), "c7");
    assert_eq!(coord_to_recorder_pos(&c(4, 6)), "e1");
    assert_eq!(recorder_pos_to_coord(b"a5").unwrap(), c(0, 2));
    assert_eq!(recorder_pos_to_coord(b"C7").unwrap(), c(2, 0));
    // Off-board and malformed names are refused.
    assert!(recorder_pos_to_coord(b"a7").is_err());
    assert!(recorder_pos_to_coord(b"f1").is_err());
    assert!(recorder_pos_to_coord(b"a0").is_err());
}

#[test]
fn record_lines_round_trip() {
    let mv = RecordedMove {
        move_state: MoveState::Wolf(c(2, 4)),
        to_pos: c(2, 5),
        captured: true,
        win_state: WinState::Undecided,
    };
    let line = mv.as_text();
    assert_eq!(line, "Wc3xc2");
    let parsed = RecordedMove::parse_log_line(&line).unwrap();
    assert_eq!(parsed, mv);

    // A deciding move is marked '#'; for the wolf it implies a capture.
    let win = RecordedMove {
        move_state: MoveState::Wolf(c(1, 3)),
        to_pos: c(1, 5),
        captured: true,
        win_state: WinState::Wolf,
    };
    assert_eq!(win.as_text(), "Wb4#b2");
    let parsed = RecordedMove::parse_log_line("wb4#b2").unwrap();
    assert_eq!(parsed, win);

    // A sheep's deciding move captures nothing.
    let parsed = RecordedMove::parse_log_line("Sa3#a4").unwrap();
    assert_eq!(parsed.win_state, WinState::Sheep);
    assert!(!parsed.captured);

    assert!(RecordedMove::parse_log_line("").is_err());
    assert!(RecordedMove::parse_log_line("Qa3-a4").is_err());
    assert!(RecordedMove::parse_log_line("Wa3?a4").is_err());
    assert!(RecordedMove::parse_log_line("Wa7-a4").is_err());
}

#[test]
fn recorder_log_and_text() {
    let mut rec = Recorder::new();
    assert_eq!(rec.get_moves_as_text(), "");
    rec.record_move(&RecordedMove {
        move_state: MoveState::Sheep(c(0, 4)),
        to_pos: c(0, 3),
        captured: false,
        win_state: WinState::Undecided,
    });
    rec.record_move(&RecordedMove {
        move_state: MoveState::Wolf(c(1, 2)),
        to_pos: c(1, 3),
        captured: false,
        win_state: WinState::Undecided,
    });
    assert_eq!(rec.get_moves().len(), 2);
    assert_eq!(rec.get_moves_as_text(), "Sa3-a4\nWb5-b4");

    // Parsing a text rebuilds the log, skipping blank lines and
    // normalizing whitespace.
    let mut rec2 = Recorder::new();
    rec2.parse_text("  Sa3-a4  \n\nWb5-b4\n").unwrap();
    assert_eq!(rec2.get_moves_as_text(), "Sa3-a4\nWb5-b4");
    // The newline-joined log round-trips through the parser.
    let mut rec3 = Recorder::new();
    rec3.parse_text(&rec.get_moves_as_text()).unwrap();
    assert_eq!(rec3.get_moves(), rec.get_moves());
    // A line that parses as no move is refused, keeping earlier lines.
    assert!(rec2.parse_text("Sa3-a4\nnot a move").is_err());
    assert_eq!(rec2.get_moves_as_text(), "Sa3-a4");
    rec.reset();
    assert_eq!(rec.get_moves_as_text(), "");
}

#[test]
fn print_levels() {
    let mut p = Print::new();
    assert_eq!(p.level, PrintLevel::Info);
    assert!(p.should_print(PrintLevel::Error));
    assert!(p.should_print(PrintLevel::Info));
    assert!(!p.should_print(PrintLevel::Debug));
    p.set_level(PrintLevel::Silent);
    assert!(!p.should_print(PrintLevel::Error));
    p.set_level_number(2);
    assert_eq!(p.level, PrintLevel::Warning);
    assert!(p.should_print(PrintLevel::Warning));
    assert!(!p.should_print(PrintLevel::Info));
    p.set_level_number(9);
    assert_eq!(p.level, PrintLevel::Debug);
}
