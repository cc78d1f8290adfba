use vstd::prelude::*;

verus! {

/// Horizontal step of a diagonal move: one column to the left or right.
#[derive(Clone, Copy, Debug, Hash, PartialEq, Eq, Structural)]
pub enum RichtungHorizontal {
    Links,
    Rechts,
}

impl RichtungHorizontal {
    pub open spec fn spec_offset(self) -> int {
        match self {
            Self::Links => -1,
            Self::Rechts => 1,
        }
    }

    pub fn offset(self) -> (r: isize)
        ensures
            r == self.spec_offset(),
    {
        match self {
            Self::Links => -1,
            Self::Rechts => 1,
        }
    }
}

/// Vertical step of a diagonal move: one row up (towards row 0) or down.
#[derive(Clone, Copy, Debug, Hash, PartialEq, Eq, Structural)]
pub enum RichtungVertikal {
    Oben,
    Unten,
}

impl RichtungVertikal {
    pub open spec fn spec_offset(self) -> int {
        match self {
            Self::Oben => -1,
            Self::Unten => 1,
        }
    }

    pub fn offset(self) -> (r: isize)
        ensures
            r == self.spec_offset(),
    {
        match self {
            Self::Oben => -1,
            Self::Unten => 1,
        }
    }
}

/// Whether (zeile, spalte) addresses one of the 32 playable dark cells
/// of the 8x8 board.
pub open spec fn gueltig(zeile: int, spalte: int) -> bool {
    &&& 0 <= spalte < 8
    &&& 0 <= zeile < 8
    &&& spalte % 2 == zeile % 2
}

/// A cell address on the board, row and column both 0-indexed.
#[derive(Clone, Copy, Hash, PartialEq, Eq, Debug, Structural)]
pub struct Position {
    pub spalte: usize,
    pub zeile: usize,
}

impl Position {
    pub open spec fn spec_valid_spalte(spalte: int) -> bool {
        0 <= spalte < 8
    }

    pub fn valid_spalte(spalte: isize) -> (r: bool)
        ensures
            r == Self::spec_valid_spalte(spalte as int),
    {
        spalte >= 0 && (spalte as usize) < 8
    }

    pub open spec fn spec_valid_zeile(zeile: int) -> bool {
        0 <= zeile < 8
    }

    pub fn valid_zeile(zeile: isize) -> (r: bool)
        ensures
            r == Self::spec_valid_zeile(zeile as int),
    {
        zeile >= 0 && (zeile as usize) < 8
    }

    pub open spec fn spec_valid(self) -> bool {
        gueltig(self.zeile as int, self.spalte as int)
    }

    pub fn valid(self) -> (r: bool)
        ensures
            r == self.spec_valid(),
    {
        self.spalte < 8 && self.zeile < 8 && self.spalte % 2 == self.zeile % 2
    }
}

} // verus!
