use vstd::prelude::*;
use crate::chess_move::Move;
use crate::coordinate::{on_board, Coordinate};
use crate::piece::{Color, Piece, PieceType};

verus! {

/// The move handed to `make_move` is not among the legal moves of the side to move.
#[derive(Debug, Clone, Copy, PartialEq, Eq, Structural)]
pub struct IllegalMove;

/// A chess position: one cell per square (rank by rank, file a first), the
/// side to move, and the moves applied so far.
pub struct Board {
    squares: [Option<Piece>; 64],
    turn_color: Color,
    moves: Vec<Move>,
}

/// The cell that holds square `(file, rank)`.
pub open spec fn square_index(file: int, rank: int) -> int {
    (rank - 1) * 8 + (file - 1)
}

/// The piece type that starts on `file` of a back rank.
pub open spec fn back_rank_type(file: int) -> PieceType {
    if file == 1 || file == 8 {
        PieceType::Rook
    } else if file == 2 || file == 7 {
        PieceType::Knight
    } else if file == 3 || file == 6 {
        PieceType::Bishop
    } else if file == 4 {
        PieceType::Queen
    } else {
        PieceType::King
    }
}

pub open spec fn unmoved(piece_type: PieceType, color: Color) -> Piece {
    Piece { piece_type, color, doubled_last_turn: false, has_moved: false }
}

/// What stands on `(file, rank)` in the standard starting position.
pub open spec fn initial_piece(file: int, rank: int) -> Option<Piece> {
    if !on_board(file, rank) {
        None
    } else if rank == 2 {
        Some(unmoved(PieceType::Pawn, Color::White))
    } else if rank == 7 {
        Some(unmoved(PieceType::Pawn, Color::Black))
    } else if rank == 1 {
        Some(unmoved(back_rank_type(file), Color::White))
    } else if rank == 8 {
        Some(unmoved(back_rank_type(file), Color::Black))
    } else {
        None
    }
}

/// The piece `p` once it has made the move `m`: it has moved, and it carries
/// the double-step flag exactly when it is a pawn that went two ranks.
pub open spec fn moved_piece(p: Piece, m: Move) -> Piece {
    Piece {
        has_moved: true,
        doubled_last_turn: p.piece_type == PieceType::Pawn && (m.to_rank() - m.from_rank() == 2
            || m.to_rank() - m.from_rank() == -2),
        ..p
    }
}

/// The contents of a square with the double-step flag cleared.
pub open spec fn cleared(o: Option<Piece>) -> Option<Piece> {
    match o {
        Some(p) => Some(Piece { doubled_last_turn: false, ..p }),
        None => None,
    }
}

impl Board {
    /// `next` is this board after the move `m`: every double-step flag is
    /// cleared, the piece on the origin moves to the destination (replacing
    /// what stood there), the move is recorded and the turn passes.
    pub open spec fn after_move(self, m: Move, next: Board) -> bool {
        &&& next.turn() == self.turn().opponent()
        &&& next.played() == self.played().push(m)
        &&& forall|f: int, r: int| #[trigger]
            next.at(f, r) == if f == m.to_file() && r == m.to_rank() {
                Some(moved_piece(self.at(m.from_file(), m.from_rank())->0, m))
            } else if f == m.from_file() && r == m.from_rank() {
                None
            } else {
                cleared(self.at(f, r))
            }
    }

    /// What stands on `(file, rank)`; `None` for an empty or off-board square.
    pub closed spec fn at(self, file: int, rank: int) -> Option<Piece> {
        if on_board(file, rank) {
            self.squares@[square_index(file, rank)]
        } else {
            None
        }
    }

    /// The side to move.
    pub closed spec fn turn(self) -> Color {
        self.turn_color
    }

    /// The moves applied so far, oldest first.
    pub closed spec fn played(self) -> Seq<Move> {
        self.moves@
    }

    /// Only squares of the board hold pieces.
    pub proof fn lemma_occupied_on_board(self, file: int, rank: int)
        ensures
            self.at(file, rank) is Some ==> on_board(file, rank),
    {
    }

    /// The board holds the standard starting position with White to move.
    pub open spec fn is_initial(self) -> bool {
        &&& self.turn() == Color::White
        &&& forall|f: int, r: int| #[trigger] self.at(f, r) == initial_piece(f, r)
    }

    pub(crate) fn get(&self, file: i8, rank: i8) -> (r: Option<Piece>)
        ensures
            r == self.at(file as int, rank as int),
    {
        if 1 <= file && file <= 8 && 1 <= rank && rank <= 8 {
            self.squares[((rank - 1) * 8 + (file - 1)) as usize]
        } else {
            None
        }
    }

    /// What stands on square `c`.
    pub fn piece_at(&self, c: &Coordinate) -> (r: Option<Piece>)
        ensures
            r == self.at(c.file_spec(), c.rank_spec()),
    {
        self.get(c.file(), c.rank())
    }

    /// The side to move.
    pub fn turn_color(&self) -> (r: Color)
        ensures
            r == self.turn(),
    {
        self.turn_color
    }

    /// The moves applied so far, oldest first.
    pub fn history(&self) -> (r: &Vec<Move>)
        ensures
            r@ == self.played(),
    {
        &self.moves
    }

    fn back_rank_piece_type(file: i8) -> (t: PieceType)
        ensures
            t == back_rank_type(file as int),
    {
        if file == 1 || file == 8 {
            PieceType::Rook
        } else if file == 2 || file == 7 {
            PieceType::Knight
        } else if file == 3 || file == 6 {
            PieceType::Bishop
        } else if file == 4 {
            PieceType::Queen
        } else {
            PieceType::King
        }
    }

    fn starting_piece(file: i8, rank: i8) -> (r: Option<Piece>)
        requires
            on_board(file as int, rank as int),
        ensures
            r == initial_piece(file as int, rank as int),
    {
        if rank == 2 {
            Some(Piece::fresh(PieceType::Pawn, Color::White))
        } else if rank == 7 {
            Some(Piece::fresh(PieceType::Pawn, Color::Black))
        } else if rank == 1 {
            Some(Piece::fresh(Self::back_rank_piece_type(file), Color::White))
        } else if rank == 8 {
            Some(Piece::fresh(Self::back_rank_piece_type(file), Color::Black))
        } else {
            None
        }
    }

    /// The standard starting position, White to move, no moves applied.
    pub fn new() -> (b: Board)
        ensures
            b.is_initial(),
            b.played().len() == 0,
    {
        let mut squares: [Option<Piece>; 64] = [None; 64];
        let mut i: usize = 0;
        while i < 64
            invariant
                0 <= i <= 64,
                forall|j: int| 0 <= j < i ==> #[trigger] squares@[j] == initial_piece(
                    j % 8 + 1,
                    j / 8 + 1,
                ),
            decreases 64 - i,
        {
            let file: i8 = (i % 8 + 1) as i8;
            let rank: i8 = (i / 8 + 1) as i8;
            let p = Self::starting_piece(file, rank);
            squares[i] = p;
            i = i + 1;
        }
        let b = Board { squares, turn_color: Color::White, moves: Vec::new() };
        assert forall|f: int, r: int| #[trigger] b.at(f, r) == initial_piece(f, r) by {
            if on_board(f, r) {
                let j = square_index(f, r);
                assert(j % 8 + 1 == f && j / 8 + 1 == r);
            }
        }
        b
    }

    /// A board with no pieces, `turn_color` to move and no moves applied.
    pub fn empty(turn_color: Color) -> (b: Board)
        ensures
            b.turn() == turn_color,
            b.played().len() == 0,
            forall|f: int, r: int| #[trigger] b.at(f, r) is None,
    {
        Board { squares: [None; 64], turn_color, moves: Vec::new() }
    }

    /// Sets what stands on square `c`, leaving every other square, the side
    /// to move and the history as they were.
    pub fn put(&mut self, c: &Coordinate, piece: Option<Piece>)
        ensures
            final(self).turn() == old(self).turn(),
            final(self).played() == old(self).played(),
            forall|f: int, r: int| #[trigger]
                final(self).at(f, r) == if f == c.file_spec() && r == c.rank_spec() {
                    piece
                } else {
                    old(self).at(f, r)
                },
    {
        let f = c.file();
        let r = c.rank();
        self.squares[((r - 1) * 8 + (f - 1)) as usize] = piece;
    }

    /// Applies `mov` when it is among the legal moves of the side to move;
    /// otherwise fails with `IllegalMove` and leaves the board unchanged.
    pub fn make_move(&mut self, mov: &Move) -> (res: Result<(), IllegalMove>)
        ensures
            res is Ok <==> old(self).is_legal(*mov),
            res is Ok ==> old(self).after_move(*mov, *final(self)),
            res is Err ==> *final(self) == *old(self),
    {
        let legal = self.legal_moves();
        let mut found = false;
        let mut j: usize = 0;
        while j < legal.len()
            invariant
                j <= legal@.len(),
                found ==> legal@.contains(*mov),
                !found ==> forall|k: int| 0 <= k < j ==> legal@[k] != *mov,
            ensures
                found ==> legal@.contains(*mov),
                !found ==> forall|k: int| 0 <= k < legal@.len() ==> legal@[k] != *mov,
            decreases legal@.len() - j,
        {
            if legal[j] == *mov {
                found = true;
                break;
            }
            j = j + 1;
        }
        if !found {
            proof {
                if legal@.contains(*mov) {
                    let k = choose|k: int| 0 <= k < legal@.len() && legal@[k] == *mov;
                }
            }
            return Err(IllegalMove);
        }
        let ghost start = *self;
        let ff = mov.from.file();
        let fr = mov.from.rank();
        let tf = mov.to.file();
        let tr = mov.to.rank();
        let mut p = match self.get(ff, fr) {
            Some(p) => p,
            None => {
                return Err(IllegalMove);
            },
        };
        let mut k: usize = 0;
        while k < 64
            invariant
                0 <= k <= 64,
                self.turn_color == start.turn_color,
                self.moves@ == start.moves@,
                forall|c: int|
                    0 <= c < k ==> #[trigger] self.squares@[c] == cleared(start.squares@[c]),
                forall|c: int| k <= c < 64 ==> #[trigger] self.squares@[c] == start.squares@[c],
            decreases 64 - k,
        {
            let cell = match self.squares[k] {
                Some(q) => Some(Piece { doubled_last_turn: false, ..q }),
                None => None,
            };
            self.squares[k] = cell;
            k = k + 1;
        }
        p.has_moved = true;
        p.doubled_last_turn = match p.piece_type {
            PieceType::Pawn => tr - fr == 2 || tr - fr == -2,
            _ => false,
        };
        self.squares[((fr - 1) * 8 + (ff - 1)) as usize] = None;
        self.squares[((tr - 1) * 8 + (tf - 1)) as usize] = Some(p);
        self.moves.push(*mov);
        self.turn_color = self.turn_color.other();
        Ok(())
    }
}

} // verus!
