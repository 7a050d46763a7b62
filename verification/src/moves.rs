//! Squares and moves by name, and castling rights.

use vstd::prelude::*;
use vstd::string::StrSliceExecFns;
use crate::color::Color;
use crate::uci::UciError;

verus! {

/// Which castling moves each side may still make: a right is lost for good
/// once the king or that rook has moved.
#[derive(Clone, Copy, Debug, PartialEq, Eq, Hash, Structural)]
pub struct Castling {
    pub white_kingside: bool,
    pub white_queenside: bool,
    pub black_kingside: bool,
    pub black_queenside: bool,
}

impl Castling {
    /// Every right still held.
    pub open spec fn all_spec() -> Castling {
        Castling {
            white_kingside: true,
            white_queenside: true,
            black_kingside: true,
            black_queenside: true,
        }
    }

    /// Whether `color` may still castle on the king's side.
    pub open spec fn kingside_spec(self, color: Color) -> bool {
        match color {
            Color::White => self.white_kingside,
            Color::Black => self.black_kingside,
        }
    }

    /// Whether `color` may still castle on the queen's side.
    pub open spec fn queenside_spec(self, color: Color) -> bool {
        match color {
            Color::White => self.white_queenside,
            Color::Black => self.black_queenside,
        }
    }

    /// The rights without the king's side right of `color`.
    pub open spec fn without_kingside_spec(self, color: Color) -> Castling {
        match color {
            Color::White => Castling { white_kingside: false, ..self },
            Color::Black => Castling { black_kingside: false, ..self },
        }
    }

    /// The rights without the queen's side right of `color`.
    pub open spec fn without_queenside_spec(self, color: Color) -> Castling {
        match color {
            Color::White => Castling { white_queenside: false, ..self },
            Color::Black => Castling { black_queenside: false, ..self },
        }
    }

    /// Every right still held.
    #[verifier::when_used_as_spec(all_spec)]
    pub fn all() -> (r: Castling)
        ensures
            r == Castling::all_spec(),
    {
        Castling {
            white_kingside: true,
            white_queenside: true,
            black_kingside: true,
            black_queenside: true,
        }
    }

    /// Whether `color` may still castle on the king's side.
    #[verifier::when_used_as_spec(kingside_spec)]
    pub fn kingside(self, color: Color) -> (r: bool)
        ensures
            r == self.kingside_spec(color),
    {
        match color {
            Color::White => self.white_kingside,
            Color::Black => self.black_kingside,
        }
    }

    /// Whether `color` may still castle on the queen's side.
    #[verifier::when_used_as_spec(queenside_spec)]
    pub fn queenside(self, color: Color) -> (r: bool)
        ensures
            r == self.queenside_spec(color),
    {
        match color {
            Color::White => self.white_queenside,
            Color::Black => self.black_queenside,
        }
    }

    /// Gives up the king's side right of `color`; the other three stay.
    #[verifier::when_used_as_spec(without_kingside_spec)]
    pub fn without_kingside(self, color: Color) -> (r: Castling)
        ensures
            r == self.without_kingside_spec(color),
    {
        match color {
            Color::White => Castling { white_kingside: false, ..self },
            Color::Black => Castling { black_kingside: false, ..self },
        }
    }

    /// Gives up the queen's side right of `color`; the other three stay.
    #[verifier::when_used_as_spec(without_queenside_spec)]
    pub fn without_queenside(self, color: Color) -> (r: Castling)
        ensures
            r == self.without_queenside_spec(color),
    {
        match color {
            Color::White => Castling { white_queenside: false, ..self },
            Color::Black => Castling { black_queenside: false, ..self },
        }
    }
}

/// A rank of the board, from white's side to black's.
#[derive(Clone, Copy, Debug, PartialEq, Eq, Hash, Structural)]
pub enum Rank {
    First,
    Second,
    Third,
    Fourth,
    Fifth,
    Sixth,
    Seventh,
    Eighth,
}

impl Rank {
    /// The number of the rank, counted from zero.
    pub open spec fn index_spec(self) -> u8 {
        match self {
            Rank::First => 0,
            Rank::Second => 1,
            Rank::Third => 2,
            Rank::Fourth => 3,
            Rank::Fifth => 4,
            Rank::Sixth => 5,
            Rank::Seventh => 6,
            Rank::Eighth => 7,
        }
    }

    /// The rank with the given number, counted from zero.
    pub open spec fn from_index_spec(i: usize) -> Rank {
        if i == 0 {
            Rank::First
        } else if i == 1 {
            Rank::Second
        } else if i == 2 {
            Rank::Third
        } else if i == 3 {
            Rank::Fourth
        } else if i == 4 {
            Rank::Fifth
        } else if i == 5 {
            Rank::Sixth
        } else if i == 6 {
            Rank::Seventh
        } else {
            Rank::Eighth
        }
    }

    /// The number of the rank, counted from zero.
    #[verifier::when_used_as_spec(index_spec)]
    pub fn index(self) -> (r: u8)
        ensures
            r == self.index_spec(),
            r < 8,
    {
        match self {
            Rank::First => 0,
            Rank::Second => 1,
            Rank::Third => 2,
            Rank::Fourth => 3,
            Rank::Fifth => 4,
            Rank::Sixth => 5,
            Rank::Seventh => 6,
            Rank::Eighth => 7,
        }
    }

    /// The rank with the given number, counted from zero.
    #[verifier::when_used_as_spec(from_index_spec)]
    pub fn from_index(i: usize) -> (r: Rank)
        requires
            i < 8,
        ensures
            r == Rank::from_index_spec(i),
            r.index() == i,
    {
        if i == 0 {
            Rank::First
        } else if i == 1 {
            Rank::Second
        } else if i == 2 {
            Rank::Third
        } else if i == 3 {
            Rank::Fourth
        } else if i == 4 {
            Rank::Fifth
        } else if i == 5 {
            Rank::Sixth
        } else if i == 6 {
            Rank::Seventh
        } else {
            Rank::Eighth
        }
    }
}

impl From<Rank> for usize {
    fn from(v: Rank) -> (r: usize) {
        match v {
            Rank::First => 0,
            Rank::Second => 1,
            Rank::Third => 2,
            Rank::Fourth => 3,
            Rank::Fifth => 4,
            Rank::Sixth => 5,
            Rank::Seventh => 6,
            Rank::Eighth => 7,
        }
    }
}

impl vstd::std_specs::convert::FromSpecImpl<Rank> for usize {
    open spec fn obeys_from_spec() -> bool {
        true
    }

    open spec fn from_spec(v: Rank) -> usize {
        v.index() as usize
    }
}

/// A file of the board, from the a-file to the h-file.
#[derive(Clone, Copy, Debug, PartialEq, Eq, Hash, Structural)]
pub enum File {
    A,
    B,
    C,
    D,
    E,
    F,
    G,
    H,
}

impl File {
    /// The number of the file, counted from zero.
    pub open spec fn index_spec(self) -> u8 {
        match self {
            File::A => 0,
            File::B => 1,
            File::C => 2,
            File::D => 3,
            File::E => 4,
            File::F => 5,
            File::G => 6,
            File::H => 7,
        }
    }

    /// The file with the given number, counted from zero.
    pub open spec fn from_index_spec(i: usize) -> File {
        if i == 0 {
            File::A
        } else if i == 1 {
            File::B
        } else if i == 2 {
            File::C
        } else if i == 3 {
            File::D
        } else if i == 4 {
            File::E
        } else if i == 5 {
            File::F
        } else if i == 6 {
            File::G
        } else {
            File::H
        }
    }

    /// The number of the file, counted from zero.
    #[verifier::when_used_as_spec(index_spec)]
    pub fn index(self) -> (r: u8)
        ensures
            r == self.index_spec(),
            r < 8,
    {
        match self {
            File::A => 0,
            File::B => 1,
            File::C => 2,
            File::D => 3,
            File::E => 4,
            File::F => 5,
            File::G => 6,
            File::H => 7,
        }
    }

    /// The file with the given number, counted from zero.
    #[verifier::when_used_as_spec(from_index_spec)]
    pub fn from_index(i: usize) -> (r: File)
        requires
            i < 8,
        ensures
            r == File::from_index_spec(i),
            r.index() == i,
    {
        if i == 0 {
            File::A
        } else if i == 1 {
            File::B
        } else if i == 2 {
            File::C
        } else if i == 3 {
            File::D
        } else if i == 4 {
            File::E
        } else if i == 5 {
            File::F
        } else if i == 6 {
            File::G
        } else {
            File::H
        }
    }
}

impl From<File> for usize {
    fn from(v: File) -> (r: usize) {
        match v {
            File::A => 0,
            File::B => 1,
            File::C => 2,
            File::D => 3,
            File::E => 4,
            File::F => 5,
            File::G => 6,
            File::H => 7,
        }
    }
}

impl vstd::std_specs::convert::FromSpecImpl<File> for usize {
    open spec fn obeys_from_spec() -> bool {
        true
    }

    open spec fn from_spec(v: File) -> usize {
        v.index() as usize
    }
}

/// A square by the names of its rank and its file.
#[derive(Clone, Copy, Debug, PartialEq, Eq, Hash, Structural)]
pub struct Square {
    pub rank: Rank,
    pub file: File,
}

/// The file that a lower-case letter from `a` to `h` names.
pub open spec fn file_named(c: char) -> Option<File> {
    if 'a' <= c && c <= 'h' {
        Some(File::from_index((c as u32 - 'a' as u32) as usize))
    } else {
        None
    }
}

/// The rank that a digit from `1` to `8` names.
pub open spec fn rank_named(c: char) -> Option<Rank> {
    if '1' <= c && c <= '8' {
        Some(Rank::from_index((c as u32 - '1' as u32) as usize))
    } else {
        None
    }
}

/// The square that a file letter and a rank digit name. The file is looked at
/// first.
pub open spec fn square_named(file: char, rank: char) -> Result<Square, UciError> {
    match file_named(file) {
        None => Err(UciError::InvalidFile(file)),
        Some(f) => match rank_named(rank) {
            None => Err(UciError::InvalidRank(rank)),
            Some(r) => Ok(Square { rank: r, file: f }),
        },
    }
}

impl Square {
    /// What `coords_to_indices` answers for a text.
    pub open spec fn coords_to_indices_spec(m: Seq<char>) -> Result<Square, UciError> {
        if m.len() != 2 {
            Err(UciError::WrongSize(2, m.len() as usize))
        } else {
            square_named(m[0], m[1])
        }
    }

    /// The square as `(file, rank)`, both counted from zero.
    pub open spec fn indices_spec(self) -> (u8, u8) {
        (self.file.index(), self.rank.index())
    }

    /// The square as `(file, rank)`, both counted from zero.
    #[verifier::when_used_as_spec(indices_spec)]
    pub fn indices(self) -> (r: (u8, u8))
        ensures
            r == self.indices_spec(),
            r.0 < 8,
            r.1 < 8,
    {
        (self.file.index(), self.rank.index())
    }

    /// The square that a file letter from `a` to `h` and a rank digit from `1`
    /// to `8` name.
    pub fn named(file: char, rank: char) -> (r: Result<Square, UciError>)
        ensures
            r == square_named(file, rank),
    {
        let f: File = match file {
            'a' => File::A,
            'b' => File::B,
            'c' => File::C,
            'd' => File::D,
            'e' => File::E,
            'f' => File::F,
            'g' => File::G,
            'h' => File::H,
            _ => {
                return Err(UciError::InvalidFile(file));
            },
        };
        let r: Rank = match rank {
            '1' => Rank::First,
            '2' => Rank::Second,
            '3' => Rank::Third,
            '4' => Rank::Fourth,
            '5' => Rank::Fifth,
            '6' => Rank::Sixth,
            '7' => Rank::Seventh,
            '8' => Rank::Eighth,
            _ => {
                return Err(UciError::InvalidRank(rank));
            },
        };
        Ok(Square { rank: r, file: f })
    }

    /// Converts algebraic coordinates such as `e4` to a square: two
    /// characters, a lower-case file letter and a rank digit.
    pub fn coords_to_indices(m: String) -> (r: Result<Square, UciError>)
        ensures
            r == Square::coords_to_indices_spec(m@),
    {
        let text: &str = m.as_str();
        let n: usize = text.unicode_len();
        if n != 2 {
            return Err(UciError::WrongSize(2, n));
        }
        Square::named(text.get_char(0), text.get_char(1))
    }
}

/// A move by the square it leaves and the square it goes to.
#[derive(Clone, Copy, Debug, PartialEq, Eq, Hash, Structural)]
pub struct Move {
    pub src: Square,
    pub dst: Square,
}

impl Move {
    /// What `uci` answers for a text: four characters, the square that the
    /// move leaves and then the square it goes to; a fault of the first square
    /// is reported before one of the second.
    pub open spec fn uci_spec(uci: Seq<char>) -> Result<Move, UciError> {
        if uci.len() != 4 {
            Err(UciError::WrongSize(4, uci.len() as usize))
        } else {
            match square_named(uci[0], uci[1]) {
                Err(e) => Err(e),
                Ok(src) => match square_named(uci[2], uci[3]) {
                    Err(e) => Err(e),
                    Ok(dst) => Ok(Move { src, dst }),
                },
            }
        }
    }

    /// Reads a move in coordinate notation, such as `e2e4`.
    pub fn uci(uci: String) -> (r: Result<Move, UciError>)
        ensures
            r == Move::uci_spec(uci@),
    {
        let text: &str = uci.as_str();
        let n: usize = text.unicode_len();
        if n != 4 {
            return Err(UciError::WrongSize(4, n));
        }
        let src: Square = match Square::named(text.get_char(0), text.get_char(1)) {
            Ok(s) => s,
            Err(e) => {
                return Err(e);
            },
        };
        let dst: Square = match Square::named(text.get_char(2), text.get_char(3)) {
            Ok(s) => s,
            Err(e) => {
                return Err(e);
            },
        };
        Ok(Move { src, dst })
    }
}

/// The castling rights of one side.
#[derive(Clone, Copy, Debug, PartialEq, Eq, Hash, Structural)]
pub enum Castle {
    Neither,
    Queenside,
    Kingside,
    Both,
}

impl Castle {
    /// Whether the rights hold the one on the queen's side.
    pub open spec fn queenside(self) -> bool {
        self == Castle::Queenside || self == Castle::Both
    }

    /// Whether the rights hold the one on the king's side.
    pub open spec fn kingside(self) -> bool {
        self == Castle::Kingside || self == Castle::Both
    }

    /// The rights that hold exactly the given ones.
    pub open spec fn of(queenside: bool, kingside: bool) -> Castle {
        if queenside && kingside {
            Castle::Both
        } else if queenside {
            Castle::Queenside
        } else if kingside {
            Castle::Kingside
        } else {
            Castle::Neither
        }
    }

    /// Whether every right in `rights` is held.
    pub fn has(&self, rights: Castle) -> (r: bool)
        ensures
            r == ((rights.queenside() ==> self.queenside()) && (rights.kingside()
                ==> self.kingside())),
    {
        match rights {
            Castle::Neither => true,
            Castle::Both => *self == Castle::Both,
            Castle::Queenside => *self == Castle::Queenside || *self == Castle::Both,
            Castle::Kingside => *self == Castle::Kingside || *self == Castle::Both,
        }
    }

    /// The rights without those in `rights`.
    pub fn remove(&self, rights: Castle) -> (r: Castle)
        ensures
            r == Castle::of(
                self.queenside() && !rights.queenside(),
                self.kingside() && !rights.kingside(),
            ),
    {
        match rights {
            Castle::Neither => *self,
            Castle::Both => Castle::Neither,
            Castle::Queenside => {
                match self {
                    Castle::Both => Castle::Kingside,
                    Castle::Queenside => Castle::Neither,
                    _ => *self,
                }
            },
            Castle::Kingside => {
                match self {
                    Castle::Both => Castle::Queenside,
                    Castle::Kingside => Castle::Neither,
                    _ => *self,
                }
            },
        }
    }

    /// The rights with those in `rights` added.
    pub fn add(&self, rights: Castle) -> (r: Castle)
        ensures
            r == Castle::of(
                self.queenside() || rights.queenside(),
                self.kingside() || rights.kingside(),
            ),
    {
        match rights {
            Castle::Neither => *self,
            Castle::Both => Castle::Both,
            Castle::Queenside => {
                match self {
                    Castle::Neither => Castle::Queenside,
                    Castle::Kingside => Castle::Both,
                    _ => *self,
                }
            },
            Castle::Kingside => {
                match self {
                    Castle::Neither => Castle::Kingside,
                    Castle::Queenside => Castle::Both,
                    _ => *self,
                }
            },
        }
    }
}

impl Castling {
    /// The rights of one side.
    pub fn rights(self, color: Color) -> (r: Castle)
        ensures
            r == Castle::of(self.queenside(color), self.kingside(color)),
    {
        match (self.queenside(color), self.kingside(color)) {
            (true, true) => Castle::Both,
            (true, false) => Castle::Queenside,
            (false, true) => Castle::Kingside,
            (false, false) => Castle::Neither,
        }
    }
}

} // verus!
