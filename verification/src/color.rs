//! The two sides.

use vstd::prelude::*;

verus! {

/// A side: white moves up the board, black down.
#[derive(Clone, Copy, Debug, PartialEq, Eq, Hash, Structural)]
pub enum Color {
    White,
    Black,
}

impl Color {
    /// The other side.
    pub open spec fn opposite_spec(self) -> Color {
        match self {
            Color::White => Color::Black,
            Color::Black => Color::White,
        }
    }

    /// The other side.
    #[verifier::when_used_as_spec(opposite_spec)]
    pub fn opposite(self) -> (r: Color)
        ensures
            r == self.opposite_spec(),
            r != self,
    {
        match self {
            Color::White => Color::Black,
            Color::Black => Color::White,
        }
    }
}

impl Color {
    /// The place of the side in the order of play: 0 for white, 1 for black.
    pub fn turn(&self) -> (r: i32)
        ensures
            r == (match *self {
                Color::White => 0i32,
                Color::Black => 1i32,
            }),
    {
        match *self {
            Color::White => 0,
            Color::Black => 1,
        }
    }
}

impl core::ops::Not for Color {
    type Output = Color;

    fn not(self) -> (r: Color) {
        self.opposite()
    }
}

impl vstd::std_specs::ops::NotSpecImpl for Color {
    open spec fn obeys_not_spec() -> bool {
        true
    }

    open spec fn not_req(self) -> bool {
        true
    }

    open spec fn not_spec(self) -> Color {
        self.opposite_spec()
    }
}

impl Default for Color {
    fn default() -> (r: Color)
        ensures
            r == Color::White,
    {
        Color::White
    }
}

} // verus!
