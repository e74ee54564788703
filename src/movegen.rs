use vstd::prelude::*;
use crate::board::{square_index, Board};
use crate::chess_move::Move;
use crate::coordinate::{on_board, Coordinate};
use crate::piece::{Color, Piece, PieceType};

verus! {

/// The move from `from` to the square `(file, rank)`.
pub open spec fn move_to(from: Coordinate, file: int, rank: int) -> Move {
    Move { from, to: Coordinate::square(file, rank) }
}

impl Board {
    /// A pawn `p` on `(ff, fr)` may go to `(tf, tr)`: one step forward onto an
    /// empty square, two steps forward from an unmoved pawn across two empty
    /// squares, or one step diagonally forward onto an opposing piece.
    pub open spec fn pawn_reaches(self, p: Piece, ff: int, fr: int, tf: int, tr: int) -> bool {
        let d = p.color.pawn_dir();
        ||| tf == ff && tr == fr + d && self.at(tf, tr) is None
        ||| tf == ff && tr == fr + 2 * d && !p.has_moved && self.at(ff, fr + d) is None
            && self.at(tf, tr) is None
        ||| (tf == ff - 1 || tf == ff + 1) && tr == fr + d && self.at(tf, tr) is Some
            && self.at(tf, tr)->0.color != p.color
    }

    /// A knight `p` on `(ff, fr)` may go to `(tf, tr)`: an L-shaped jump onto a
    /// square that is empty or holds an opposing piece.
    pub open spec fn knight_reaches(self, p: Piece, ff: int, fr: int, tf: int, tr: int) -> bool {
        let df = tf - ff;
        let dr = tr - fr;
        &&& ((df == 1 || df == -1) && (dr == 2 || dr == -2)) || ((df == 2 || df == -2) && (dr == 1
            || dr == -1))
        &&& (self.at(tf, tr) is None || self.at(tf, tr)->0.color != p.color)
    }

    /// Whether the piece `p` on the origin of `m` may make the move `m`.
    pub open spec fn piece_reaches(self, p: Piece, m: Move) -> bool {
        match p.piece_type {
            PieceType::Pawn => self.pawn_reaches(
                p,
                m.from_file(),
                m.from_rank(),
                m.to_file(),
                m.to_rank(),
            ),
            PieceType::Knight => self.knight_reaches(
                p,
                m.from_file(),
                m.from_rank(),
                m.to_file(),
                m.to_rank(),
            ),
            _ => false,
        }
    }

    /// `m` is a pseudo-legal move of the side to move: its origin holds a
    /// piece of that side, which may go to the destination on the board.
    /// King safety is not considered.
    pub open spec fn is_legal(self, m: Move) -> bool {
        &&& on_board(m.to_file(), m.to_rank())
        &&& self.at(m.from_file(), m.from_rank()) is Some
        &&& self.at(m.from_file(), m.from_rank())->0.color == self.turn()
        &&& self.piece_reaches(self.at(m.from_file(), m.from_rank())->0, m)
    }

    /// Appends the move from `from` to `(file, rank)`.
    fn push_to(from: Coordinate, file: i8, rank: i8, out: &mut Vec<Move>)
        requires
            on_board(file as int, rank as int),
        ensures
            final(out)@ == old(out)@.push(move_to(from, file as int, rank as int)),
            forall|m: Move| #[trigger]
                final(out)@.contains(m) <==> old(out)@.contains(m) || m == move_to(
                    from,
                    file as int,
                    rank as int,
                ),
            old(out)@.no_duplicates() && !old(out)@.contains(
                move_to(from, file as int, rank as int),
            ) ==> final(out)@.no_duplicates(),
    {
        let to = Coordinate::from_numbers(file, rank);
        let ghost before = out@;
        out.push(Move { from, to });
        assert forall|m: Move| #[trigger]
            out@.contains(m) <==> before.contains(m) || m == move_to(
                from,
                file as int,
                rank as int,
            ) by {
            if before.contains(m) {
                let i = choose|i: int| 0 <= i < before.len() && before[i] == m;
                assert(out@[i] == m);
            }
            if out@.contains(m) {
                let i = choose|i: int| 0 <= i < out@.len() && out@[i] == m;
                if i < before.len() {
                    assert(before[i] == m);
                }
            }
            if m == move_to(from, file as int, rank as int) {
                assert(out@[before.len() as int] == m);
            }
        }
    }

    /// `m` leaves `from` and the pawn `p` there may make it.
    pub open spec fn pawn_move_of(self, p: Piece, from: Coordinate, m: Move) -> bool {
        &&& m.from == from
        &&& on_board(m.to_file(), m.to_rank())
        &&& self.pawn_reaches(p, m.from_file(), m.from_rank(), m.to_file(), m.to_rank())
    }

    /// The moves of the pawn `p` standing on `from`.
    fn pawn_moves(&self, from: Coordinate, p: Piece, out: &mut Vec<Move>)
        requires
            self.at(from.file_spec(), from.rank_spec()) == Some(p),
            p.piece_type == PieceType::Pawn,
            old(out)@.no_duplicates(),
            forall|m: Move| #[trigger] old(out)@.contains(m) ==> m.from != from,
        ensures
            final(out)@.no_duplicates(),
            forall|m: Move| #[trigger]
                final(out)@.contains(m) <==> old(out)@.contains(m) || self.pawn_move_of(
                    p,
                    from,
                    m,
                ),
    {
        let f = from.file();
        let r = from.rank();
        let d: i8 = match p.color {
            Color::White => 1,
            Color::Black => -1,
        };
        let ghost ff = f as int;
        let r1: i8 = r + d;
        if 1 <= r1 && r1 <= 8 {
            proof {
                Coordinate::lemma_square(ff, r1 as int);
            }
            if self.get(f, r1).is_none() {
                Self::push_to(from, f, r1, out);
                let r2: i8 = r1 + d;
                if !p.has_moved && 1 <= r2 && r2 <= 8 && self.get(f, r2).is_none() {
                    proof {
                        Coordinate::lemma_square(ff, r2 as int);
                    }
                    Self::push_to(from, f, r2, out);
                }
            }
            assert forall|m: Move| #[trigger]
                out@.contains(m) <==> old(out)@.contains(m) || (self.pawn_move_of(p, from, m)
                    && m.to_file() == ff) by {
                Coordinate::lemma_square_of(m.to);
            }
            let left: i8 = f - 1;
            if left >= 1 {
                match self.get(left, r1) {
                    Some(q) => {
                        if q.color != p.color {
                            proof {
                                Coordinate::lemma_square(left as int, r1 as int);
                            }
                            Self::push_to(from, left, r1, out);
                        }
                    },
                    None => {},
                }
            }
            assert forall|m: Move| #[trigger]
                out@.contains(m) <==> old(out)@.contains(m) || (self.pawn_move_of(p, from, m)
                    && m.to_file() <= ff) by {
                Coordinate::lemma_square_of(m.to);
            }
            let right: i8 = f + 1;
            if right <= 8 {
                match self.get(right, r1) {
                    Some(q) => {
                        if q.color != p.color {
                            proof {
                                Coordinate::lemma_square(right as int, r1 as int);
                            }
                            Self::push_to(from, right, r1, out);
                        }
                    },
                    None => {},
                }
            }
        }
        assert forall|m: Move| #[trigger]
            out@.contains(m) <==> old(out)@.contains(m) || self.pawn_move_of(p, from, m) by {
            Coordinate::lemma_square_of(m.to);
        }
    }

    /// `m` leaves `from` and the knight `p` there may make it.
    pub open spec fn knight_move_of(self, p: Piece, from: Coordinate, m: Move) -> bool {
        &&& m.from == from
        &&& on_board(m.to_file(), m.to_rank())
        &&& self.knight_reaches(p, m.from_file(), m.from_rank(), m.to_file(), m.to_rank())
    }

    /// `m` is the jump of the knight `p` on `from` by `(df, dr)`, landing on
    /// the board on a square that is empty or holds an opposing piece.
    pub open spec fn knight_jump(
        self,
        p: Piece,
        from: Coordinate,
        df: int,
        dr: int,
        m: Move,
    ) -> bool {
        &&& m.from == from
        &&& on_board(m.to_file(), m.to_rank())
        &&& m.to_file() == from.file_spec() + df
        &&& m.to_rank() == from.rank_spec() + dr
        &&& (self.at(m.to_file(), m.to_rank()) is None || self.at(m.to_file(), m.to_rank())->0.color
            != p.color)
    }

    /// Appends the jump of the knight `p` from `from` by `(df, dr)` when it
    /// lands on the board on a square that is empty or holds an opposing piece.
    fn knight_step(&self, from: Coordinate, p: Piece, df: i8, dr: i8, out: &mut Vec<Move>)
        requires
            -2 <= df <= 2,
            -2 <= dr <= 2,
            old(out)@.no_duplicates(),
            forall|m: Move| #[trigger]
                old(out)@.contains(m) && m.from == from ==> !(m.to_file() == from.file_spec() + df
                    && m.to_rank() == from.rank_spec() + dr),
        ensures
            final(out)@.no_duplicates(),
            forall|m: Move| #[trigger]
                final(out)@.contains(m) <==> old(out)@.contains(m) || self.knight_jump(
                    p,
                    from,
                    df as int,
                    dr as int,
                    m,
                ),
    {
        let tf: i8 = from.file() + df;
        let tr: i8 = from.rank() + dr;
        if 1 <= tf && tf <= 8 && 1 <= tr && tr <= 8 {
            proof {
                Coordinate::lemma_square(tf as int, tr as int);
            }
            let free = match self.get(tf, tr) {
                Some(q) => q.color != p.color,
                None => true,
            };
            if free {
                Self::push_to(from, tf, tr, out);
            }
        }
        assert forall|m: Move| #[trigger]
            out@.contains(m) <==> old(out)@.contains(m) || self.knight_jump(
                p,
                from,
                df as int,
                dr as int,
                m,
            ) by {
            Coordinate::lemma_square_of(m.to);
        }
    }

    /// The moves of the knight `p` standing on `from`.
    fn knight_moves(&self, from: Coordinate, p: Piece, out: &mut Vec<Move>)
        requires
            self.at(from.file_spec(), from.rank_spec()) == Some(p),
            p.piece_type == PieceType::Knight,
            old(out)@.no_duplicates(),
            forall|m: Move| #[trigger] old(out)@.contains(m) ==> m.from != from,
        ensures
            final(out)@.no_duplicates(),
            forall|m: Move| #[trigger]
                final(out)@.contains(m) <==> old(out)@.contains(m) || self.knight_move_of(
                    p,
                    from,
                    m,
                ),
    {
        self.knight_step(from, p, -2, -1, out);
        self.knight_step(from, p, -1, -2, out);
        self.knight_step(from, p, -2, 1, out);
        self.knight_step(from, p, -1, 2, out);
        self.knight_step(from, p, 2, 1, out);
        self.knight_step(from, p, 1, 2, out);
        self.knight_step(from, p, 2, -1, out);
        self.knight_step(from, p, 1, -2, out);
    }

    /// The pseudo-legal moves of the side to move, each once, in no
    /// particular order. Only pawns and knights generate moves.
    pub fn legal_moves(&self) -> (moves: Vec<Move>)
        ensures
            moves@.no_duplicates(),
            forall|m: Move| #[trigger] moves@.contains(m) <==> self.is_legal(m),
    {
        let turn = self.turn_color();
        let mut moves: Vec<Move> = Vec::new();
        let mut i: usize = 0;
        assert forall|m: Move| #[trigger] self.is_legal(m) implies 0 <= square_index(
            m.from_file(),
            m.from_rank(),
        ) < 64 by {
            self.lemma_occupied_on_board(m.from_file(), m.from_rank());
        }
        while i < 64
            invariant
                0 <= i <= 64,
                turn == self.turn(),
                forall|m: Move| #[trigger]
                    self.is_legal(m) ==> 0 <= square_index(m.from_file(), m.from_rank()) < 64,
                moves@.no_duplicates(),
                forall|m: Move| #[trigger]
                    moves@.contains(m) <==> self.is_legal(m) && square_index(
                        m.from_file(),
                        m.from_rank(),
                    ) < i,
            decreases 64 - i,
        {
            let file: i8 = (i % 8 + 1) as i8;
            let rank: i8 = (i / 8 + 1) as i8;
            let from = Coordinate::from_numbers(file, rank);
            let ghost before = moves@;
            proof {
                assert forall|m: Move| #[trigger] before.contains(m) implies m.from != from by {
                    Coordinate::lemma_square_of(m.from);
                }
            }
            match self.get(file, rank) {
                Some(p) => {
                    if p.color == turn {
                        match p.piece_type {
                            PieceType::Pawn => self.pawn_moves(from, p, &mut moves),
                            PieceType::Knight => self.knight_moves(from, p, &mut moves),
                            _ => {},
                        }
                    }
                },
                None => {},
            }
            assert forall|m: Move| #[trigger]
                moves@.contains(m) <==> self.is_legal(m) && square_index(
                    m.from_file(),
                    m.from_rank(),
                ) < i + 1 by {
                Coordinate::lemma_square_of(m.from);
                self.lemma_occupied_on_board(m.from_file(), m.from_rank());
                if self.is_legal(m) && square_index(m.from_file(), m.from_rank()) == i {
                    assert(m.from_file() == file as int && m.from_rank() == rank as int);
                    assert(m.from == from);
                }
            }
            i = i + 1;
        }
        moves
    }
}

} // verus!
