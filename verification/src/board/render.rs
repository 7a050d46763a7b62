//! The position as text: eight ranks of eight squares, the eighth rank first,
//! each rank with its number in front.

use vstd::prelude::*;
use vstd::string::StringExecFns;
use super::Board;
use crate::color::Color;
use crate::piece::{Piece, PieceKind};

verus! {

/// The letter that stands for what is on a square: upper case for a white
/// piece, lower case for a black one, a blank for a free square.
pub open spec fn letter_text(p: Option<Piece>) -> Seq<char> {
    match p {
        None => " "@,
        Some(p) => match (p.kind, p.color) {
            (PieceKind::Pawn, Color::White) => "P"@,
            (PieceKind::Knight, Color::White) => "N"@,
            (PieceKind::Bishop, Color::White) => "B"@,
            (PieceKind::Rook, Color::White) => "R"@,
            (PieceKind::Queen, Color::White) => "Q"@,
            (PieceKind::King, Color::White) => "K"@,
            (PieceKind::Pawn, Color::Black) => "p"@,
            (PieceKind::Knight, Color::Black) => "n"@,
            (PieceKind::Bishop, Color::Black) => "b"@,
            (PieceKind::Rook, Color::Black) => "r"@,
            (PieceKind::Queen, Color::Black) => "q"@,
            (PieceKind::King, Color::Black) => "k"@,
        },
    }
}

/// The number of rank `y`, as it is printed in front of the rank.
pub open spec fn label_text(y: int) -> Seq<char> {
    if y == 0 {
        "1"@
    } else if y == 1 {
        "2"@
    } else if y == 2 {
        "3"@
    } else if y == 3 {
        "4"@
    } else if y == 4 {
        "5"@
    } else if y == 5 {
        "6"@
    } else if y == 6 {
        "7"@
    } else {
        "8"@
    }
}

/// The line between two ranks.
pub open spec fn rule_text() -> Seq<char> {
    " ---+---+---+---+---+---+---+---"@
}

impl Board {
    /// The first `n` squares of rank `y`: a blank and the letter for each, and
    /// a bar between two squares.
    pub open spec fn squares_text(&self, y: int, n: int) -> Seq<char>
        decreases n,
    {
        if n <= 0 {
            Seq::empty()
        } else {
            self.squares_text(y, n - 1) + " "@ + letter_text(self.piece_at(n - 1, y)) + (if n
                < 8 {
                " |"@
            } else {
                Seq::empty()
            })
        }
    }

    /// Rank `y` as text: its number, its eight squares, the end of the line,
    /// and below every rank but the first the line that parts it from the next.
    pub open spec fn rank_text(&self, y: int) -> Seq<char> {
        label_text(y) + self.squares_text(y, 8) + "\n"@ + (if y > 0 {
            rule_text() + "\n"@
        } else {
            Seq::empty()
        })
    }

    /// The ranks from the eighth down to rank `y`, as text.
    pub open spec fn ranks_text(&self, y: int) -> Seq<char>
        decreases 8 - y,
    {
        if y >= 8 {
            Seq::empty()
        } else {
            self.ranks_text(y + 1) + self.rank_text(y)
        }
    }

    /// The position as text: an empty line, then the eight ranks from the
    /// eighth down to the first.
    pub open spec fn rendering(&self) -> Seq<char> {
        "\n"@ + self.ranks_text(0)
    }

    /// The position as text, with the a-file on the left and the eighth rank
    /// on top; white pieces are in upper case.
    pub fn render(&self) -> (r: String)
        ensures
            r@ == self.rendering(),
    {
        let mut out: String = String::new();
        out.append("\n");
        assert(out@ =~= "\n"@ + self.ranks_text(8));
        let mut y: u8 = 8;
        while y > 0
            invariant
                y <= 8,
                out@ == "\n"@ + self.ranks_text(y as int),
            decreases y,
        {
            y -= 1;
            let ghost start = out@;
            out.append(
                match y {
                    0 => "1",
                    1 => "2",
                    2 => "3",
                    3 => "4",
                    4 => "5",
                    5 => "6",
                    6 => "7",
                    _ => "8",
                },
            );
            let mut x: u8 = 0;
            while x < 8
                invariant
                    x <= 8,
                    y < 8,
                    out@ == start + label_text(y as int) + self.squares_text(y as int, x as int),
                decreases 8 - x,
            {
                let ghost line = out@;
                out.append(" ");
                let here: Option<Piece> = match self.get(x, y) {
                    Ok(p) => p,
                    Err(_) => None,
                };
                out.append(
                    match here {
                        None => " ",
                        Some(p) => match (p.kind, p.color) {
                            (PieceKind::Pawn, Color::White) => "P",
                            (PieceKind::Knight, Color::White) => "N",
                            (PieceKind::Bishop, Color::White) => "B",
                            (PieceKind::Rook, Color::White) => "R",
                            (PieceKind::Queen, Color::White) => "Q",
                            (PieceKind::King, Color::White) => "K",
                            (PieceKind::Pawn, Color::Black) => "p",
                            (PieceKind::Knight, Color::Black) => "n",
                            (PieceKind::Bishop, Color::Black) => "b",
                            (PieceKind::Rook, Color::Black) => "r",
                            (PieceKind::Queen, Color::Black) => "q",
                            (PieceKind::King, Color::Black) => "k",
                        },
                    },
                );
                if x < 7 {
                    out.append(" |");
                }
                x += 1;
                assert(out@ =~= start + label_text(y as int) + self.squares_text(
                    y as int,
                    x as int,
                ));
            }
            out.append("\n");
            if y > 0 {
                out.append(" ---+---+---+---+---+---+---+---");
                out.append("\n");
            }
            assert(out@ =~= "\n"@ + self.ranks_text(y as int));
        }
        out
    }
}

} // verus!
