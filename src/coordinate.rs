use vstd::prelude::*;

verus! {

/// A square of the board: a file (1 = 'a' .. 8 = 'h') and a rank (1 .. 8).
/// Both components always lie in `1..=8`.
#[derive(Debug, Clone, Copy, PartialEq, Eq, Structural, Hash)]
pub struct Coordinate {
    file: i8,
    rank: i8,
}

/// Whether `(file, rank)` names a square of the board.
pub open spec fn on_board(file: int, rank: int) -> bool {
    1 <= file <= 8 && 1 <= rank <= 8
}

/// The file number that a file letter stands for ('a' is 1).
pub open spec fn file_of_letter(c: char) -> int {
    c as int - 'a' as int + 1
}

impl Coordinate {
    #[verifier::type_invariant]
    spec fn valid(self) -> bool {
        on_board(self.file as int, self.rank as int)
    }

    /// The file of the square, `1..=8`.
    pub closed spec fn file_spec(self) -> int {
        self.file as int
    }

    /// The rank of the square, `1..=8`.
    pub closed spec fn rank_spec(self) -> int {
        self.rank as int
    }

    /// The coordinate with the given file and rank numbers.
    pub closed spec fn square(file: int, rank: int) -> Coordinate {
        Coordinate { file: file as i8, rank: rank as i8 }
    }

    /// `square` reads back the numbers it was given on the board.
    pub broadcast proof fn lemma_square(file: int, rank: int)
        requires
            on_board(file, rank),
        ensures
            (#[trigger] Coordinate::square(file, rank)).file_spec() == file,
            Coordinate::square(file, rank).rank_spec() == rank,
    {
    }

    /// A coordinate is the square of its own file and rank.
    pub proof fn lemma_square_of(c: Coordinate)
        ensures
            Coordinate::square(c.file_spec(), c.rank_spec()) == c,
    {
    }

    /// The square with the given file and rank numbers.
    pub fn from_numbers(file: i8, rank: i8) -> (c: Coordinate)
        requires
            on_board(file as int, rank as int),
        ensures
            c.file_spec() == file as int,
            c.rank_spec() == rank as int,
            c == Coordinate::square(file as int, rank as int),
    {
        Coordinate { file, rank }
    }

    /// The square named by a file letter and a rank number, or `None` when
    /// either lies off the board.
    pub fn new(f: char, r: i8) -> (res: Option<Coordinate>)
        ensures
            res is Some <==> on_board(file_of_letter(f), r as int),
            res is Some ==> res->0.file_spec() == file_of_letter(f) && res->0.rank_spec()
                == r as int,
    {
        let code: u32 = f as u32;
        if code >= 97 && code <= 104 && r >= 1 && r <= 8 {
            Some(Coordinate { file: (code - 96) as i8, rank: r })
        } else {
            None
        }
    }

    pub fn file(&self) -> (r: i8)
        ensures
            r as int == self.file_spec(),
            1 <= r <= 8,
    {
        proof { use_type_invariant(self); }
        self.file
    }

    pub fn rank(&self) -> (r: i8)
        ensures
            r as int == self.rank_spec(),
            1 <= r <= 8,
    {
        proof { use_type_invariant(self); }
        self.rank
    }
}

} // verus!
