use vstd::prelude::*;
use crate::board::{initial_piece, moved_piece, Board};
use crate::chess_move::Move;
use crate::coordinate::{on_board, Coordinate};
use crate::notation::{is_move_text, line_body, move_text, names_move};
use crate::piece::{Color, PieceType};

verus! {

/// White's opening moves: one or two squares forward with any pawn, and the
/// knight jumps b1-a3, b1-c3, g1-f3 and g1-h3.
pub open spec fn opening_move(m: Move) -> bool {
    ||| m.from_rank() == 2 && 1 <= m.from_file() <= 8 && m.to_file() == m.from_file() && (
    m.to_rank() == 3 || m.to_rank() == 4)
    ||| m.from_file() == 2 && m.from_rank() == 1 && m.to_rank() == 3 && (m.to_file() == 1
        || m.to_file() == 3)
    ||| m.from_file() == 7 && m.from_rank() == 1 && m.to_rank() == 3 && (m.to_file() == 6
        || m.to_file() == 8)
}

/// In the starting position the legal moves are exactly White's sixteen pawn
/// advances and four knight jumps; bishops, rooks, queen and king have none.
pub proof fn lemma_opening_moves(b: Board, m: Move)
    requires
        b.is_initial(),
    ensures
        b.is_legal(m) <==> opening_move(m),
{
    let ff = m.from_file();
    let fr = m.from_rank();
    let tf = m.to_file();
    let tr = m.to_rank();
    assert(b.at(ff, fr) == initial_piece(ff, fr));
    assert(b.at(tf, tr) == initial_piece(tf, tr));
    assert(b.at(ff, fr + 1) == initial_piece(ff, fr + 1));
}

/// The move from `(ff, fr)` to `(tf, tr)`.
pub open spec fn step(ff: int, fr: int, tf: int, tr: int) -> Move {
    Move { from: Coordinate::square(ff, fr), to: Coordinate::square(tf, tr) }
}

/// White's twenty opening moves, written out.
pub open spec fn opening_moves() -> Set<Move> {
    set![
        step(1, 2, 1, 3), step(1, 2, 1, 4), step(2, 2, 2, 3), step(2, 2, 2, 4),
        step(3, 2, 3, 3), step(3, 2, 3, 4), step(4, 2, 4, 3), step(4, 2, 4, 4),
        step(5, 2, 5, 3), step(5, 2, 5, 4), step(6, 2, 6, 3), step(6, 2, 6, 4),
        step(7, 2, 7, 3), step(7, 2, 7, 4), step(8, 2, 8, 3), step(8, 2, 8, 4),
        step(2, 1, 1, 3), step(2, 1, 3, 3), step(7, 1, 6, 3), step(7, 1, 8, 3),
    ]
}

/// Any list that holds each legal move of the starting position once holds
/// exactly twenty moves: sixteen pawn advances and four knight jumps.
pub proof fn lemma_opening_count(b: Board, moves: Seq<Move>)
    requires
        b.is_initial(),
        moves.no_duplicates(),
        forall|m: Move| #[trigger] moves.contains(m) <==> b.is_legal(m),
    ensures
        moves.len() == 20,
{
    broadcast use Coordinate::lemma_square;
    assert forall|m: Move| #[trigger] moves.to_set().contains(m) <==> opening_moves().contains(m) by {
        lemma_opening_moves(b, m);
        Coordinate::lemma_square_of(m.from);
        Coordinate::lemma_square_of(m.to);
    }
    assert(moves.to_set() =~= opening_moves());
    moves.unique_seq_to_set();
}

/// A move that was just applied cannot be applied again: its origin is empty.
pub proof fn lemma_replay_rejected(b: Board, m: Move, next: Board)
    requires
        b.is_legal(m),
        b.after_move(m, next),
    ensures
        !next.is_legal(m),
{
    assert(next.at(m.from_file(), m.from_rank()) is None);
}

/// After `n` applied moves from the starting position, White is to move
/// exactly when `n` is even, and the history holds `n` moves.
pub proof fn lemma_turn_alternates(boards: Seq<Board>, moves: Seq<Move>)
    requires
        boards.len() == moves.len() + 1,
        boards[0].is_initial(),
        boards[0].played().len() == 0,
        forall|i: int|
            0 <= i < moves.len() ==> #[trigger] boards[i].after_move(moves[i], boards[i + 1]),
    ensures
        (boards.last().turn() == Color::White) <==> moves.len() % 2 == 0,
        boards.last().played().len() == moves.len(),
    decreases moves.len(),
{
    if moves.len() > 0 {
        let n = moves.len() - 1;
        lemma_turn_alternates(boards.drop_last(), moves.drop_last());
        assert(boards[n].after_move(moves[n], boards[n + 1]));
        assert(boards.drop_last().last() == boards[n]);
    }
}

/// `m` moves a pawn two ranks on `b`.
pub open spec fn is_double_step(b: Board, m: Move) -> bool {
    &&& b.at(m.from_file(), m.from_rank()) is Some
    &&& b.at(m.from_file(), m.from_rank())->0.piece_type == PieceType::Pawn
    &&& (m.to_rank() - m.from_rank() == 2 || m.to_rank() - m.from_rank() == -2)
}

/// Whether square `(f, r)` holds a piece flagged as having just made a double step.
pub open spec fn flagged(b: Board, f: int, r: int) -> bool {
    b.at(f, r) is Some && b.at(f, r)->0.doubled_last_turn
}

/// After a pawn's two-square advance exactly one piece carries the
/// double-step flag, the pawn itself; once the opponent has replied with a
/// move that is not itself a two-square pawn advance, no piece carries it.
pub proof fn lemma_double_step_flag(b0: Board, m1: Move, b1: Board, m2: Move, b2: Board)
    requires
        b0.is_legal(m1),
        is_double_step(b0, m1),
        b0.after_move(m1, b1),
        b1.is_legal(m2),
        !is_double_step(b1, m2),
        b1.after_move(m2, b2),
    ensures
        flagged(b1, m1.to_file(), m1.to_rank()),
        forall|f: int, r: int| #[trigger]
            flagged(b1, f, r) ==> f == m1.to_file() && r == m1.to_rank(),
        forall|f: int, r: int| !#[trigger] flagged(b2, f, r),
{
    assert(b1.at(m1.to_file(), m1.to_rank()) == Some(
        moved_piece(b0.at(m1.from_file(), m1.from_rank())->0, m1),
    ));
    assert forall|f: int, r: int| #[trigger] flagged(b1, f, r) implies f == m1.to_file() && r
        == m1.to_rank() by {
        assert(b1.at(f, r) == b1.at(f, r));
    }
    assert forall|f: int, r: int| !#[trigger] flagged(b2, f, r) by {
        assert(b2.at(f, r) == b2.at(f, r));
    }
}

/// A knight in the corner a1 reaches b3 and c2 and no other square; each
/// of the two it may take when empty or held by an opposing piece.
pub proof fn lemma_corner_knight(b: Board, m: Move)
    requires
        b.at(1, 1) is Some,
        b.at(1, 1)->0.piece_type == PieceType::Knight,
        b.at(1, 1)->0.color == b.turn(),
        m.from_file() == 1,
        m.from_rank() == 1,
    ensures
        b.is_legal(m) <==> ((m.to_file() == 2 && m.to_rank() == 3) || (m.to_file() == 3
            && m.to_rank() == 2)) && (b.at(m.to_file(), m.to_rank()) is None || b.at(
            m.to_file(),
            m.to_rank(),
        )->0.color != b.turn()),
{
}

/// A knight whose every target square on the board holds a piece of its own
/// color has no move.
pub proof fn lemma_hemmed_knight(b: Board, m: Move)
    requires
        b.at(m.from_file(), m.from_rank()) is Some,
        b.at(m.from_file(), m.from_rank())->0.piece_type == PieceType::Knight,
        forall|f: int, r: int|
            on_board(f, r) && b.knight_reaches(
                b.at(m.from_file(), m.from_rank())->0,
                m.from_file(),
                m.from_rank(),
                f,
                r,
            ) ==> #[trigger] b.at(f, r) is Some && b.at(f, r)->0.color == b.at(
                m.from_file(),
                m.from_rank(),
            )->0.color,
    ensures
        !b.is_legal(m),
{
    assert(b.at(m.to_file(), m.to_rank()) == b.at(m.to_file(), m.to_rank()));
}

/// Writing a legal move in long algebraic notation and reading the text back
/// gives that move: the text is well formed and names this move and no other.
pub proof fn lemma_round_trip(b: Board, m: Move, read: Move)
    requires
        b.is_legal(m),
    ensures
        is_move_text(line_body(move_text(m))),
        names_move(line_body(move_text(m)), m),
        names_move(line_body(move_text(m)), read) ==> read == m,
{
    b.lemma_occupied_on_board(m.from_file(), m.from_rank());
    let t = move_text(m);
    assert(line_body(t) == t);
    if names_move(t, read) {
        Coordinate::lemma_square_of(read.from);
        Coordinate::lemma_square_of(read.to);
        Coordinate::lemma_square_of(m.from);
        Coordinate::lemma_square_of(m.to);
    }
}

} // verus!
