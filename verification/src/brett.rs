use vstd::prelude::*;
use vstd::array::spec_array_update;
use vstd::arithmetic::div_mod::lemma_fundamental_div_mod;
use vstd::string::StringExecFns;

pub mod moves;
pub mod parse;
pub mod position;
pub mod zaehlen;
pub mod zugmenge;

pub use zugmenge::ZugMenge;

pub use position::gueltig;
pub use position::Position;
pub use position::RichtungHorizontal;
pub use position::RichtungVertikal;

verus! {

/// One of the two sides of the game.
#[derive(Clone, Copy, Hash, PartialEq, Eq, Debug, Structural)]
pub enum Spieler {
    Mensch,
    Computer,
}

impl Spieler {
    pub open spec fn spec_gegner(self) -> Spieler {
        match self {
            Self::Mensch => Self::Computer,
            Self::Computer => Self::Mensch,
        }
    }

    /// The opposing side.
    pub fn gegner(self) -> (r: Spieler)
        ensures
            r == self.spec_gegner(),
    {
        match self {
            Self::Mensch => Self::Computer,
            Self::Computer => Self::Mensch,
        }
    }

    pub open spec fn spec_move_direction(self) -> RichtungVertikal {
        match self {
            Self::Mensch => RichtungVertikal::Unten,
            Self::Computer => RichtungVertikal::Oben,
        }
    }

    /// The forward direction of this side's men.
    pub fn move_direction(self) -> (r: RichtungVertikal)
        ensures
            r == self.spec_move_direction(),
    {
        match self {
            Self::Mensch => RichtungVertikal::Unten,
            Self::Computer => RichtungVertikal::Oben,
        }
    }

    pub open spec fn spec_dame_zeile(self) -> int {
        match self {
            Self::Mensch => 7,
            Self::Computer => 0,
        }
    }

    /// The row on which this side's men promote to queens.
    pub fn dame_zeile(self) -> (r: usize)
        ensures
            r == self.spec_dame_zeile(),
    {
        match self {
            Self::Mensch => 7,
            Self::Computer => 0,
        }
    }
}

/// The contents of one playable cell.
#[derive(Clone, Copy, Hash, PartialEq, Eq, Debug, Structural)]
pub enum Feld {
    Leer,
    Stein(Spieler),
    Dame(Spieler),
}

impl Default for Feld {
    fn default() -> (r: Self)
        ensures
            r == Feld::Leer,
    {
        Feld::Leer
    }
}

/// Whether the cell holds a piece (man or queen) of the given side.
pub open spec fn feld_gehoert(f: Feld, s: Spieler) -> bool {
    f == Feld::Stein(s) || f == Feld::Dame(s)
}

/// The notation character of a cell.
pub open spec fn spec_feld_char(f: Feld) -> char {
    match f {
        Feld::Leer => '_',
        Feld::Stein(Spieler::Mensch) => 'm',
        Feld::Dame(Spieler::Mensch) => 'M',
        Feld::Stein(Spieler::Computer) => 'c',
        Feld::Dame(Spieler::Computer) => 'C',
    }
}

impl Feld {
    pub fn to_character(self) -> (r: char)
        ensures
            r == spec_feld_char(self),
    {
        match self {
            Self::Leer => '_',
            Self::Stein(Spieler::Mensch) => 'm',
            Self::Dame(Spieler::Mensch) => 'M',
            Self::Stein(Spieler::Computer) => 'c',
            Self::Dame(Spieler::Computer) => 'C',
        }
    }
}

/// One row of the board; `felder[i]` is the playable cell in column
/// `2 * i` (even rows) or `2 * i + 1` (odd rows).
#[derive(Clone, Copy, Debug, Hash)]
pub struct Zeile {
    pub felder: [Feld; 4],
}

impl PartialEq for Zeile {
    fn eq(&self, other: &Zeile) -> (r: bool) {
        let r = self.felder[0] == other.felder[0] && self.felder[1] == other.felder[1]
            && self.felder[2] == other.felder[2] && self.felder[3] == other.felder[3];
        proof {
            if r {
                assert(self.felder =~= other.felder);
            }
        }
        r
    }
}

impl vstd::std_specs::cmp::PartialEqSpecImpl for Zeile {
    open spec fn obeys_eq_spec() -> bool {
        true
    }

    open spec fn eq_spec(&self, other: &Zeile) -> bool {
        *self == *other
    }
}

pub open spec fn leere_zeile() -> Zeile {
    Zeile { felder: vstd::array::spec_array_fill_for_copy_type(Feld::Leer) }
}

impl Default for Zeile {
    fn default() -> (r: Self)
        ensures
            r == leere_zeile(),
    {
        Zeile { felder: [Feld::Leer; 4] }
    }
}

impl Zeile {
    pub fn from_felder(felder: [Feld; 4]) -> (r: Self)
        ensures
            r == (Zeile { felder }),
    {
        Self { felder }
    }

    /// The cell of this row addressed by the column of `pos`.
    pub open spec fn spec_get(self, spalte: int) -> Feld {
        self.felder[spalte / 2]
    }

    pub fn get(&self, pos: Position) -> (r: Feld)
        requires
            pos.spec_valid(),
        ensures
            r == self.spec_get(pos.spalte as int),
    {
        self.felder[pos.spalte / 2]
    }

    pub fn set(&mut self, pos: Position, feld: Feld)
        requires
            pos.spec_valid(),
        ensures
            final(self).felder == spec_array_update(
                old(self).felder,
                pos.spalte as int / 2,
                feld,
            ),
    {
        self.felder[pos.spalte / 2] = feld;
        proof {
            assert(self.felder =~= spec_array_update(
                old(self).felder,
                pos.spalte as int / 2,
                feld,
            ));
        }
    }

    /// Appends this row's eight notation characters (pieces on playable
    /// cells, spaces on the inert ones) to `result`.
    pub fn append_to_string(&self, zeile: usize, result: &mut String)
        ensures
            final(result)@ == old(result)@ + spec_zeile_text(*self, zeile as int),
    {
        let ghost text = spec_zeile_text(*self, zeile as int);
        for spalte in 0..8usize
            invariant
                text == spec_zeile_text(*self, zeile as int),
                result@ == old(result)@ + text.take(spalte as int),
        {
            let position = Position { spalte, zeile };
            if position.valid() {
                match self.get(position) {
                    Feld::Leer => result.append("_"),
                    Feld::Stein(Spieler::Mensch) => result.append("m"),
                    Feld::Dame(Spieler::Mensch) => result.append("M"),
                    Feld::Stein(Spieler::Computer) => result.append("c"),
                    Feld::Dame(Spieler::Computer) => result.append("C"),
                }
            } else {
                result.append(" ");
            }
            proof {
                reveal_strlit("_");
                reveal_strlit("m");
                reveal_strlit("M");
                reveal_strlit("c");
                reveal_strlit("C");
                reveal_strlit(" ");
                assert(text.take(spalte as int + 1) =~= text.take(spalte as int).push(
                    text[spalte as int],
                ));
                assert(result@ =~= old(result)@ + text.take(spalte as int + 1));
            }
        }
        proof {
            assert(text.take(8) =~= text);
        }
    }
}

/// The eight notation characters of row `zeile` holding the cells of `z`.
pub open spec fn spec_zeile_text(z: Zeile, zeile: int) -> Seq<char> {
    Seq::new(
        8,
        |s: int|
            if gueltig(zeile, s) {
                spec_feld_char(z.spec_get(s))
            } else {
                ' '
            },
    )
}

pub open spec fn leeres_brett() -> SpielBrett {
    SpielBrett { zeilen: vstd::array::spec_array_fill_for_copy_type(leere_zeile()) }
}

/// The full board: eight rows of four playable cells each.
#[derive(Clone, Copy, Debug, Hash)]
pub struct SpielBrett {
    pub zeilen: [Zeile; 8],
}

impl PartialEq for SpielBrett {
    fn eq(&self, other: &SpielBrett) -> (r: bool) {
        let r = self.zeilen[0] == other.zeilen[0] && self.zeilen[1] == other.zeilen[1]
            && self.zeilen[2] == other.zeilen[2] && self.zeilen[3] == other.zeilen[3]
            && self.zeilen[4] == other.zeilen[4] && self.zeilen[5] == other.zeilen[5]
            && self.zeilen[6] == other.zeilen[6] && self.zeilen[7] == other.zeilen[7];
        proof {
            if r {
                assert(self.zeilen =~= other.zeilen);
            }
        }
        r
    }
}

impl vstd::std_specs::cmp::PartialEqSpecImpl for SpielBrett {
    open spec fn obeys_eq_spec() -> bool {
        true
    }

    open spec fn eq_spec(&self, other: &SpielBrett) -> bool {
        *self == *other
    }
}

impl Default for SpielBrett {
    fn default() -> (r: Self)
        ensures
            r == leeres_brett(),
    {
        SpielBrett { zeilen: [Zeile { felder: [Feld::Leer; 4] }; 8] }
    }
}

impl SpielBrett {
    pub const SIZE: usize = 8;

    /// The cell at a valid position.
    pub open spec fn spec_get(self, pos: Position) -> Feld {
        self.zeilen[pos.zeile as int].spec_get(pos.spalte as int)
    }

    /// The board with the cell at `pos` replaced by `feld`.
    pub open spec fn spec_set(self, pos: Position, feld: Feld) -> SpielBrett {
        SpielBrett {
            zeilen: spec_array_update(
                self.zeilen,
                pos.zeile as int,
                Zeile {
                    felder: spec_array_update(
                        self.zeilen[pos.zeile as int].felder,
                        pos.spalte as int / 2,
                        feld,
                    ),
                },
            ),
        }
    }

    pub fn get(&self, pos: Position) -> (r: Feld)
        requires
            pos.spec_valid(),
        ensures
            r == self.spec_get(pos),
    {
        self.zeilen[pos.zeile].get(pos)
    }

    pub fn set(&mut self, pos: Position, feld: Feld)
        requires
            pos.spec_valid(),
        ensures
            *final(self) == old(self).spec_set(pos, feld),
    {
        let mut zeile = self.zeilen[pos.zeile];
        zeile.set(pos, feld);
        self.zeilen[pos.zeile] = zeile;
        proof {
            assert(self.zeilen =~= old(self).spec_set(pos, feld).zeilen);
        }
    }

    pub open spec fn spec_has_won(self, winner: Spieler) -> bool {
        forall|p: Position|
            p.spec_valid() ==> !feld_gehoert(#[trigger] self.spec_get(p), winner.spec_gegner())
    }

    /// True iff the opponent of `winner` has no piece left on the board.
    pub fn has_won(&self, winner: Spieler) -> (r: bool)
        ensures
            r == self.spec_has_won(winner),
    {
        let verlierer = winner.gegner();
        for zeile in 0..8usize
            invariant
                verlierer == winner.spec_gegner(),
                forall|p: Position|
                    p.spec_valid() && p.zeile < zeile ==> !feld_gehoert(
                        #[trigger] self.spec_get(p),
                        winner.spec_gegner(),
                    ),
        {
            for spalte in 0..8usize
                invariant
                    verlierer == winner.spec_gegner(),
                    forall|p: Position|
                        p.spec_valid() && p.zeile < zeile ==> !feld_gehoert(
                            #[trigger] self.spec_get(p),
                            winner.spec_gegner(),
                        ),
                    forall|p: Position|
                        p.spec_valid() && p.zeile == zeile && p.spalte < spalte ==> !feld_gehoert(
                            #[trigger] self.spec_get(p),
                            winner.spec_gegner(),
                        ),
                    zeile < 8,
            {
                let position = Position { zeile, spalte };
                if position.valid() {
                    let gefunden = match self.get(position) {
                        Feld::Stein(spieler) => spieler == verlierer,
                        Feld::Dame(spieler) => spieler == verlierer,
                        Feld::Leer => false,
                    };
                    if gefunden {
                        proof {
                            assert(feld_gehoert(self.spec_get(position), winner.spec_gegner()));
                        }
                        return false;
                    }
                }
            }
        }
        true
    }
}

/// The notation text of the first `z` rows of the board: each row's eight
/// characters, rows separated by a line break.
pub open spec fn spec_brett_text_bis(b: SpielBrett, z: int) -> Seq<char>
    decreases z,
{
    if z <= 0 {
        Seq::empty()
    } else {
        spec_brett_text_bis(b, z - 1) + spec_zeile_text(b.zeilen[z - 1], z - 1) + if z - 1 < 7 {
            seq!['\n']
        } else {
            Seq::empty()
        }
    }
}

/// The notation text of the whole board.
pub open spec fn spec_brett_text(b: SpielBrett) -> Seq<char> {
    spec_brett_text_bis(b, 8)
}

impl SpielBrett {
    /// The board in text notation: eight lines of eight characters,
    /// separated by line breaks.
    pub fn to_string(&self) -> (r: String)
        ensures
            r@ == spec_brett_text(*self),
    {
        let mut result = String::new();
        for zeile_index in 0..8usize
            invariant
                result@ == spec_brett_text_bis(*self, zeile_index as int),
        {
            let zeile = self.zeilen[zeile_index];
            zeile.append_to_string(zeile_index, &mut result);
            if zeile_index != 7 {
                result.append("\n");
            }
            proof {
                reveal_strlit("\n");
                assert(result@ =~= spec_brett_text_bis(*self, zeile_index as int + 1));
            }
        }
        result
    }
}

/// A cell update changes exactly the addressed cell: reading any valid
/// position of the updated board gives the new cell at `pos` and the old
/// cell everywhere else.
pub proof fn lemma_get_set(b: SpielBrett, pos: Position, feld: Feld, q: Position)
    requires
        pos.spec_valid(),
        q.spec_valid(),
    ensures
        b.spec_set(pos, feld).spec_get(q) == if q == pos {
            feld
        } else {
            b.spec_get(q)
        },
{
    let b2 = b.spec_set(pos, feld);
    if q.zeile == pos.zeile {
        assert(b2.zeilen[q.zeile as int].felder == spec_array_update(
            b.zeilen[pos.zeile as int].felder,
            pos.spalte as int / 2,
            feld,
        ));
        if q.spalte == pos.spalte {
            assert(b2.spec_get(q) == feld);
        } else {
            lemma_fundamental_div_mod(q.spalte as int, 2);
            lemma_fundamental_div_mod(pos.spalte as int, 2);
            assert(q.spalte as int / 2 != pos.spalte as int / 2);
            assert(b2.spec_get(q) == b.spec_get(q));
        }
    } else {
        assert(b2.zeilen[q.zeile as int] == b.zeilen[q.zeile as int]);
    }
}

} // verus!
