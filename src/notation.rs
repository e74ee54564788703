use vstd::prelude::*;
use crate::board::Board;
use crate::chess_move::Move;
use crate::coordinate::{file_of_letter, on_board, Coordinate};

verus! {

/// Text handed to `parse_alg` cannot be read as a move.
#[derive(Debug, Clone, Copy, PartialEq, Eq, Structural)]
pub struct ParseError;

/// The letter of file `f` ('a' for 1).
pub open spec fn file_letter(f: int) -> char {
    if f == 1 {
        'a'
    } else if f == 2 {
        'b'
    } else if f == 3 {
        'c'
    } else if f == 4 {
        'd'
    } else if f == 5 {
        'e'
    } else if f == 6 {
        'f'
    } else if f == 7 {
        'g'
    } else {
        'h'
    }
}

/// The digit of rank `r`.
pub open spec fn rank_digit(r: int) -> char {
    if r == 1 {
        '1'
    } else if r == 2 {
        '2'
    } else if r == 3 {
        '3'
    } else if r == 4 {
        '4'
    } else if r == 5 {
        '5'
    } else if r == 6 {
        '6'
    } else if r == 7 {
        '7'
    } else {
        '8'
    }
}

/// The rank number that a digit stands for.
pub open spec fn rank_of_digit(c: char) -> int {
    c as int - '0' as int
}

/// A move in long algebraic notation: origin square, then destination square.
pub open spec fn move_text(m: Move) -> Seq<char> {
    seq![
        file_letter(m.from_file()),
        rank_digit(m.from_rank()),
        file_letter(m.to_file()),
        rank_digit(m.to_rank()),
    ]
}

/// A line without its line ending (`"\n"` or `"\r\n"`).
pub open spec fn line_body(s: Seq<char>) -> Seq<char> {
    if s.len() >= 2 && s[s.len() - 1] == '\n' && s[s.len() - 2] == '\r' {
        s.subrange(0, s.len() - 2)
    } else if s.len() >= 1 && s[s.len() - 1] == '\n' {
        s.subrange(0, s.len() - 1)
    } else {
        s
    }
}

/// `t` is four characters: two squares on the board, each a file letter and a rank digit.
pub open spec fn is_move_text(t: Seq<char>) -> bool {
    &&& t.len() == 4
    &&& on_board(file_of_letter(t[0]), rank_of_digit(t[1]))
    &&& on_board(file_of_letter(t[2]), rank_of_digit(t[3]))
}

/// The four characters of `t` name the origin and destination of `m`.
pub open spec fn names_move(t: Seq<char>, m: Move) -> bool {
    &&& t.len() == 4
    &&& file_of_letter(t[0]) == m.from_file()
    &&& rank_of_digit(t[1]) == m.from_rank()
    &&& file_of_letter(t[2]) == m.to_file()
    &&& rank_of_digit(t[3]) == m.to_rank()
}

fn letter_str(f: i8) -> (s: &'static str)
    requires
        1 <= f <= 8,
    ensures
        s@ == seq![file_letter(f as int)],
{
    if f == 1 {
        proof { reveal_strlit("a"); }
        "a"
    } else if f == 2 {
        proof { reveal_strlit("b"); }
        "b"
    } else if f == 3 {
        proof { reveal_strlit("c"); }
        "c"
    } else if f == 4 {
        proof { reveal_strlit("d"); }
        "d"
    } else if f == 5 {
        proof { reveal_strlit("e"); }
        "e"
    } else if f == 6 {
        proof { reveal_strlit("f"); }
        "f"
    } else if f == 7 {
        proof { reveal_strlit("g"); }
        "g"
    } else {
        proof { reveal_strlit("h"); }
        "h"
    }
}

fn digit_str(r: i8) -> (s: &'static str)
    requires
        1 <= r <= 8,
    ensures
        s@ == seq![rank_digit(r as int)],
{
    if r == 1 {
        proof { reveal_strlit("1"); }
        "1"
    } else if r == 2 {
        proof { reveal_strlit("2"); }
        "2"
    } else if r == 3 {
        proof { reveal_strlit("3"); }
        "3"
    } else if r == 4 {
        proof { reveal_strlit("4"); }
        "4"
    } else if r == 5 {
        proof { reveal_strlit("5"); }
        "5"
    } else if r == 6 {
        proof { reveal_strlit("6"); }
        "6"
    } else if r == 7 {
        proof { reveal_strlit("7"); }
        "7"
    } else {
        proof { reveal_strlit("8"); }
        "8"
    }
}

impl Move {
    /// The move in long algebraic notation, such as `e2e4`.
    pub fn alg(&self) -> (s: String)
        ensures
            s@ == move_text(*self),
    {
        let mut s = String::new();
        s.append(letter_str(self.from.file()));
        s.append(digit_str(self.from.rank()));
        s.append(letter_str(self.to.file()));
        s.append(digit_str(self.to.rank()));
        assert(s@ =~= move_text(*self));
        s
    }
}

/// The square written at `t[i]`, `t[i + 1]` as a file letter and a rank digit.
fn read_square(t: &str, i: usize) -> (c: Option<Coordinate>)
    requires
        i < 4,
        i + 1 < t@.len(),
    ensures
        c is Some <==> on_board(file_of_letter(t@[i as int]), rank_of_digit(t@[i + 1])),
        c is Some ==> c->0.file_spec() == file_of_letter(t@[i as int]) && c->0.rank_spec()
            == rank_of_digit(t@[i + 1]),
{
    let f = t.get_char(i);
    let r = t.get_char(i + 1);
    let code: u32 = r as u32;
    if code >= 49 && code <= 56 {
        Coordinate::new(f, (code - 48) as i8)
    } else {
        None
    }
}

impl Board {
    /// Reads a move in long algebraic notation (`e2e4`): exactly four
    /// characters, optionally followed by a line ending. Fails with
    /// `ParseError` when a character is missing or extra, or a square is not
    /// a file letter `a`..`h` followed by a rank digit `1`..`8`.
    pub fn parse_alg(&self, s: &String) -> (res: Result<Move, ParseError>)
        ensures
            res is Ok <==> is_move_text(line_body(s@)),
            res is Ok ==> names_move(line_body(s@), res->Ok_0),
    {
        let t = s.as_str();
        let mut n = t.unicode_len();
        if n >= 1 && t.get_char(n - 1) == '\n' {
            n = n - 1;
            if n >= 1 && t.get_char(n - 1) == '\r' {
                n = n - 1;
            }
        }
        assert(line_body(s@) =~= s@.subrange(0, n as int));
        if n != 4 {
            return Err(ParseError);
        }
        match read_square(t, 0) {
            Some(from) => match read_square(t, 2) {
                Some(to) => Ok(Move { from, to }),
                None => Err(ParseError),
            },
            None => Err(ParseError),
        }
    }
}

} // verus!
