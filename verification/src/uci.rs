//! Squares and moves in coordinate notation: a file letter from `a` to `h` and
//! a rank digit from `1` to `8` for a square, two squares for a move.

use vstd::prelude::*;
use vstd::string::StrSliceExecFns;

verus! {

/// A square as `(file, rank)`, both counted from zero.
pub type Uci = (u8, u8);

/// Why a text is not a square or a move.
#[derive(Clone, Copy, Debug, PartialEq, Eq, Hash, Structural)]
pub enum UciError {
    /// The text has the second number of characters, not the first.
    WrongSize(usize, usize),
    /// The character is not a rank digit from `1` to `8`.
    InvalidRank(char),
    /// The character, in lower case, is not a file letter from `a` to `h`.
    InvalidFile(char),
}

/// The character in lower case: the letters `A` to `Z` become `a` to `z`, and
/// every other character stays what it is.
pub open spec fn lower(c: char) -> char {
    if 'A' <= c && c <= 'Z' {
        ((c as u32) + 32) as char
    } else {
        c
    }
}

/// `char::to_ascii_lowercase` maps the letters `A` to `Z` to `a` to `z` and
/// leaves every other character unchanged, as its documentation says.
pub assume_specification[ char::to_ascii_lowercase ](c: &char) -> (r: char)
    ensures
        r == (if 'A' <= *c && *c <= 'Z' {
            ((*c as u32) + 32) as char
        } else {
            *c
        }),
;

/// The rank that a digit names.
pub open spec fn rank_of(c: char) -> Option<u8> {
    if '1' <= c && c <= '8' {
        Some((c as u32 - '1' as u32) as u8)
    } else {
        None
    }
}

/// The file that a letter names, in either case.
pub open spec fn file_of(c: char) -> Option<u8> {
    if 'a' <= lower(c) && lower(c) <= 'h' {
        Some((lower(c) as u32 - 'a' as u32) as u8)
    } else {
        None
    }
}

/// The square that a file letter and a rank digit name. The rank is looked at
/// first; a bad file letter is reported in lower case.
pub open spec fn square_of(file: char, rank: char) -> Result<Uci, UciError> {
    match rank_of(rank) {
        None => Err(UciError::InvalidRank(rank)),
        Some(y) => match file_of(file) {
            None => Err(UciError::InvalidFile(lower(file))),
            Some(x) => Ok((x, y)),
        },
    }
}

/// What `one` answers for a text.
pub open spec fn one_spec(s: Seq<char>) -> Result<Uci, UciError> {
    if s.len() != 2 {
        Err(UciError::WrongSize(2, s.len() as usize))
    } else {
        square_of(s[0], s[1])
    }
}

/// The text without its spaces.
pub open spec fn without_spaces(s: Seq<char>) -> Seq<char>
    decreases s.len(),
{
    if s.len() == 0 {
        s
    } else if s.last() == ' ' {
        without_spaces(s.drop_last())
    } else {
        without_spaces(s.drop_last()).push(s.last())
    }
}

/// What `two` answers for a text: its spaces are dropped, then the first two
/// characters name the square that the move leaves and the other two the
/// square it goes to; a fault of the first square is reported before one of
/// the second.
pub open spec fn two_spec(s: Seq<char>) -> Result<(Uci, Uci), UciError> {
    let t = without_spaces(s);
    if t.len() != 4 {
        Err(UciError::WrongSize(4, t.len() as usize))
    } else {
        match square_of(t[0], t[1]) {
            Err(e) => Err(e),
            Ok(a) => match square_of(t[2], t[3]) {
                Err(e) => Err(e),
                Ok(b) => Ok((a, b)),
            },
        }
    }
}

/// The square that a file letter and a rank digit name.
pub fn square(file: char, rank: char) -> (r: Result<Uci, UciError>)
    ensures
        r == square_of(file, rank),
        r matches Ok(sq) ==> sq.0 < 8 && sq.1 < 8,
{
    let file: char = file.to_ascii_lowercase();
    let y: u8 = match rank {
        '1' => 0,
        '2' => 1,
        '3' => 2,
        '4' => 3,
        '5' => 4,
        '6' => 5,
        '7' => 6,
        '8' => 7,
        _ => {
            return Err(UciError::InvalidRank(rank));
        },
    };
    let x: u8 = match file {
        'a' => 0,
        'b' => 1,
        'c' => 2,
        'd' => 3,
        'e' => 4,
        'f' => 5,
        'g' => 6,
        'h' => 7,
        _ => {
            return Err(UciError::InvalidFile(file));
        },
    };
    Ok((x, y))
}

/// Parse a single coordinate: two characters, a file letter and a rank digit.
pub fn one(s: &str) -> (r: Result<Uci, UciError>)
    ensures
        r == one_spec(s@),
        r matches Ok(sq) ==> sq.0 < 8 && sq.1 < 8,
{
    let n: usize = s.unicode_len();
    if n != 2 {
        return Err(UciError::WrongSize(2, n));
    }
    square(s.get_char(0), s.get_char(1))
}

/// Parse two coordinates, side by side or separated by spaces.
pub fn two(s: &str) -> (r: Result<(Uci, Uci), UciError>)
    ensures
        r == two_spec(s@),
        r matches Ok(m) ==> m.0.0 < 8 && m.0.1 < 8 && m.1.0 < 8 && m.1.1 < 8,
{
    let n: usize = s.unicode_len();
    let mut t: Vec<char> = Vec::new();
    let mut i: usize = 0;
    while i < n
        invariant
            i <= n,
            n == s@.len(),
            t@ == without_spaces(s@.take(i as int)),
        decreases n - i,
    {
        let c: char = s.get_char(i);
        proof {
            assert(s@.take(i + 1).drop_last() == s@.take(i as int));
        }
        if c != ' ' {
            t.push(c);
        }
        i += 1;
    }
    proof {
        assert(s@.take(n as int) == s@);
    }
    if t.len() != 4 {
        return Err(UciError::WrongSize(4, t.len()));
    }
    let a: Uci = match square(t[0], t[1]) {
        Ok(a) => a,
        Err(e) => {
            return Err(e);
        },
    };
    let b: Uci = match square(t[2], t[3]) {
        Ok(b) => b,
        Err(e) => {
            return Err(e);
        },
    };
    Ok((a, b))
}

} // verus!
