use chess_rules::board::{Board, IllegalMove};
use chess_rules::chess_move::Move;
use chess_rules::coordinate::Coordinate;
use chess_rules::notation::ParseError;
use chess_rules::piece::{Color, Piece, PieceType};

fn sq(name: &str) -> Coordinate {
    let chars: Vec<char> = name.chars().collect();
    Coordinate::new(chars[0], (chars[1] as u8 - b'0') as i8).unwrap()
}

fn mv(from: &str, to: &str) -> Move {
    Move { from: sq(from), to: sq(to) }
}

fn flagged_count(b: &Board) -> usize {
    let mut n = 0;
    for f in ['a', 'b', 'c', 'd', 'e', 'f', 'g', 'h'] {
        for r in 1..=8 {
            if let Some(p) = b.piece_at(&Coordinate::new(f, r).unwrap()) {
                if p.doubled_last_turn {
                    n += 1;
                }
            }
        }
    }
    n
}

#[test]
fn opening_moves_are_sixteen_pawn_and_four_knight_moves() {
    let b = Board::new();
    let moves = b.legal_moves();
    assert_eq!(moves.len(), 20);
    for f in ['a', 'b', 'c', 'd', 'e', 'f', 'g', 'h'] {
        let from = Coordinate::new(f, 2).unwrap();
        assert!(moves.contains(&Move { from, to: Coordinate::new(f, 3).unwrap() }));
        assert!(moves.contains(&Move { from, to: Coordinate::new(f, 4).unwrap() }));
    }
    for (from, to) in [("b1", "a3"), ("b1", "c3"), ("g1", "f3"), ("g1", "h3")] {
        assert!(moves.contains(&mv(from, to)));
    }
}

#[test]
fn replaying_a_move_is_rejected() {
    let mut b = Board::new();
    let m = mv("e2", "e4");
    assert_eq!(b.make_move(&m), Ok(()));
    assert_eq!(b.make_move(&m), Err(IllegalMove));
    assert_eq!(b.turn_color(), Color::Black);
    assert_eq!(b.history().len(), 1);
}

#[test]
fn every_legal_move_survives_format_and_parse() {
    let mut b = Board::new();
    for m in b.legal_moves() {
        assert_eq!(b.parse_alg(&m.alg()), Ok(m));
    }
    b.make_move(&mv("e2", "e4")).unwrap();
    for m in b.legal_moves() {
        assert_eq!(b.parse_alg(&m.alg()), Ok(m));
    }
}

#[test]
fn turn_alternates_with_each_applied_move() {
    let mut b = Board::new();
    assert_eq!(b.turn_color(), Color::White);
    let line = [("e2", "e4"), ("e7", "e5"), ("g1", "f3"), ("b8", "c6"), ("f3", "e5")];
    for (n, (from, to)) in line.iter().enumerate() {
        assert_eq!(b.make_move(&mv(from, to)), Ok(()));
        let expected = if (n + 1) % 2 == 0 { Color::White } else { Color::Black };
        assert_eq!(b.turn_color(), expected);
        assert_eq!(b.history().len(), n + 1);
    }
}

#[test]
fn double_step_flag_lasts_one_reply() {
    let mut b = Board::new();
    b.make_move(&mv("e2", "e4")).unwrap();
    assert_eq!(flagged_count(&b), 1);
    assert!(b.piece_at(&sq("e4")).unwrap().doubled_last_turn);
    b.make_move(&mv("b8", "c6")).unwrap();
    assert_eq!(flagged_count(&b), 0);
}

#[test]
fn double_step_reply_moves_the_flag() {
    let mut b = Board::new();
    b.make_move(&mv("e2", "e4")).unwrap();
    b.make_move(&mv("e7", "e5")).unwrap();
    assert_eq!(flagged_count(&b), 1);
    assert!(!b.piece_at(&sq("e4")).unwrap().doubled_last_turn);
    assert!(b.piece_at(&sq("e5")).unwrap().doubled_last_turn);
}

#[test]
fn corner_knight_has_two_moves() {
    let mut b = Board::empty(Color::White);
    b.put(&sq("a1"), Some(Piece::fresh(PieceType::Knight, Color::White)));
    let moves = b.legal_moves();
    assert_eq!(moves.len(), 2);
    assert!(moves.contains(&mv("a1", "b3")));
    assert!(moves.contains(&mv("a1", "c2")));
}

#[test]
fn hemmed_knight_has_no_moves() {
    let mut b = Board::empty(Color::White);
    b.put(&sq("d4"), Some(Piece::fresh(PieceType::Knight, Color::White)));
    for t in ["b3", "b5", "c2", "c6", "e2", "e6", "f3", "f5"] {
        b.put(&sq(t), Some(Piece::fresh(PieceType::Bishop, Color::White)));
    }
    assert_eq!(b.legal_moves().len(), 0);
    assert_eq!(b.make_move(&mv("d4", "b3")), Err(IllegalMove));
}

#[test]
fn knight_captures_opposing_piece() {
    let mut b = Board::empty(Color::White);
    b.put(&sq("d4"), Some(Piece::fresh(PieceType::Knight, Color::White)));
    b.put(&sq("e6"), Some(Piece::fresh(PieceType::Rook, Color::Black)));
    assert_eq!(b.legal_moves().len(), 8);
    assert_eq!(b.make_move(&mv("d4", "e6")), Ok(()));
    let p = b.piece_at(&sq("e6")).unwrap();
    assert_eq!(p.piece_type, PieceType::Knight);
    assert_eq!(p.color, Color::White);
    assert!(p.has_moved);
    assert!(!p.doubled_last_turn);
    assert_eq!(b.piece_at(&sq("d4")), None);
}

#[test]
fn pawn_double_step_from_e2() {
    let mut b = Board::new();
    assert_eq!(b.make_move(&mv("e2", "e4")), Ok(()));
    assert_eq!(b.piece_at(&sq("e2")), None);
    assert_eq!(
        b.piece_at(&sq("e4")),
        Some(Piece {
            piece_type: PieceType::Pawn,
            color: Color::White,
            doubled_last_turn: true,
            has_moved: true,
        })
    );
    assert_eq!(b.turn_color(), Color::Black);
    assert_eq!(b.history().len(), 1);
    assert_eq!(b.history()[0], mv("e2", "e4"));
}

#[test]
fn black_pawns_move_down_the_board() {
    let mut b = Board::new();
    b.make_move(&mv("e2", "e4")).unwrap();
    let moves = b.legal_moves();
    assert_eq!(moves.len(), 20);
    assert!(moves.contains(&mv("e7", "e5")));
    assert!(moves.contains(&mv("e7", "e6")));
    assert!(moves.contains(&mv("g8", "f6")));
    assert!(!moves.contains(&mv("e4", "e5")));
}

#[test]
fn pawn_captures_diagonally_only_onto_opponents() {
    let mut b = Board::new();
    for (from, to) in [("e2", "e4"), ("d7", "d5")] {
        b.make_move(&mv(from, to)).unwrap();
    }
    let moves = b.legal_moves();
    assert!(moves.contains(&mv("e4", "d5")));
    assert!(moves.contains(&mv("e4", "e5")));
    assert!(!moves.contains(&mv("e4", "f5")));
    assert_eq!(b.make_move(&mv("e4", "d5")), Ok(()));
    let p = b.piece_at(&sq("d5")).unwrap();
    assert_eq!(p.color, Color::White);
    assert_eq!(p.piece_type, PieceType::Pawn);
    assert!(!p.doubled_last_turn);
}

#[test]
fn blocked_pawn_does_not_advance() {
    let mut b = Board::empty(Color::White);
    b.put(&sq("e2"), Some(Piece::fresh(PieceType::Pawn, Color::White)));
    b.put(&sq("e3"), Some(Piece::fresh(PieceType::Pawn, Color::Black)));
    assert_eq!(b.legal_moves().len(), 0);
    b.put(&sq("e3"), None);
    b.put(&sq("e4"), Some(Piece::fresh(PieceType::Pawn, Color::Black)));
    let moves = b.legal_moves();
    assert_eq!(moves, vec![mv("e2", "e3")]);
}

#[test]
fn moved_pawn_has_no_double_step() {
    let mut b = Board::empty(Color::White);
    let mut p = Piece::fresh(PieceType::Pawn, Color::White);
    p.has_moved = true;
    b.put(&sq("c2"), Some(p));
    assert_eq!(b.legal_moves(), vec![mv("c2", "c3")]);
}

#[test]
fn pawn_on_last_rank_stays_on_the_board() {
    let mut b = Board::empty(Color::White);
    b.put(&sq("a8"), Some(Piece::fresh(PieceType::Pawn, Color::White)));
    assert_eq!(b.legal_moves().len(), 0);
}

#[test]
fn other_pieces_generate_nothing() {
    let mut b = Board::empty(Color::Black);
    for (t, kind) in [
        ("d4", PieceType::Bishop),
        ("e4", PieceType::Rook),
        ("d5", PieceType::Queen),
        ("e5", PieceType::King),
    ] {
        b.put(&sq(t), Some(Piece::fresh(kind, Color::Black)));
    }
    assert_eq!(b.legal_moves().len(), 0);
}

#[test]
fn wrong_side_move_is_illegal_and_changes_nothing() {
    let mut b = Board::new();
    assert_eq!(b.make_move(&mv("e7", "e5")), Err(IllegalMove));
    assert_eq!(b.make_move(&mv("e2", "e5")), Err(IllegalMove));
    assert_eq!(b.make_move(&mv("a1", "a3")), Err(IllegalMove));
    assert_eq!(b.turn_color(), Color::White);
    assert_eq!(b.history().len(), 0);
    assert_eq!(b.piece_at(&sq("e2")).map(|p| p.has_moved), Some(false));
}

#[test]
fn coordinates_stay_on_the_board() {
    let a1 = Coordinate::new('a', 1).unwrap();
    assert_eq!((a1.file(), a1.rank()), (1, 1));
    let h8 = Coordinate::new('h', 8).unwrap();
    assert_eq!((h8.file(), h8.rank()), (8, 8));
    assert_eq!(Coordinate::new('i', 1), None);
    assert_eq!(Coordinate::new('`', 1), None);
    assert_eq!(Coordinate::new('A', 1), None);
    assert_eq!(Coordinate::new('a', 0), None);
    assert_eq!(Coordinate::new('a', 9), None);
    assert_eq!(Coordinate::new('a', -1), None);
}

#[test]
fn move_formats_as_two_squares() {
    assert_eq!(mv("g1", "f3").alg(), "g1f3");
    assert_eq!(mv("a8", "h1").alg(), "a8h1");
}

#[test]
fn parse_reads_long_algebraic_lines() {
    let b = Board::new();
    let e2e4 = Ok(mv("e2", "e4"));
    assert_eq!(b.parse_alg(&"e2e4".to_string()), e2e4);
    assert_eq!(b.parse_alg(&"e2e4\n".to_string()), e2e4);
    assert_eq!(b.parse_alg(&"e2e4\r\n".to_string()), e2e4);
    assert_eq!(b.parse_alg(&"h8a1".to_string()), Ok(mv("h8", "a1")));
}

#[test]
fn parse_rejects_malformed_text() {
    let b = Board::new();
    for bad in ["", "\n", "e2", "e2e", "e2e45", "e2e4 ", "e9e4", "e0e4", "i2e4", "e2ex", "E2E4", "2e4e"] {
        assert_eq!(b.parse_alg(&bad.to_string()), Err(ParseError), "{:?}", bad);
    }
}
