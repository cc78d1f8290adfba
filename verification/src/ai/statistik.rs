use vstd::prelude::*;

use crate::brett::zaehlen::lemma_zellen_grenze;
use crate::brett::zaehlen::zellen_anzahl;
use crate::brett::zaehlen::zellen_bis_zeile;
use crate::brett::zaehlen::zellen_in_zeile;
use crate::brett::Feld;
use crate::brett::Position;
use crate::brett::SpielBrett;
use crate::brett::Spieler;

verus! {

/// Piece counts of one side.
#[derive(Clone, Copy, Debug)]
pub struct SpielerStatistik {
    pub steine: u32,
    pub damen: u32,
}

impl SpielerStatistik {
    /// The weighted material: men count 1, queens count 3.
    pub open spec fn spec_gewicht(self) -> int {
        self.steine + 3 * self.damen
    }

    /// The side's value: its weighted material, except that a side without
    /// any material is marked eliminated by the smallest representable
    /// value.
    pub open spec fn spec_to_number(self) -> int {
        if self.spec_gewicht() == 0 {
            i32::MIN as int
        } else {
            self.spec_gewicht()
        }
    }

    fn to_number(self) -> (r: i32)
        requires
            self.spec_gewicht() <= i32::MAX,
        ensures
            r == self.spec_to_number(),
    {
        let zahl = self.steine as i32 + self.damen as i32 * 3;
        if zahl == 0 {
            i32::MIN
        } else {
            zahl
        }
    }
}

/// `x` clamped to the values an `i32` can hold.
pub open spec fn sat_i32(x: int) -> int {
    if x < i32::MIN {
        i32::MIN as int
    } else if x > i32::MAX {
        i32::MAX as int
    } else {
        x
    }
}

fn saturating_sub_i32(a: i32, b: i32) -> (r: i32)
    ensures
        r == sat_i32(a - b),
{
    let d = a as i64 - b as i64;
    if d < i32::MIN as i64 {
        i32::MIN
    } else if d > i32::MAX as i64 {
        i32::MAX
    } else {
        d as i32
    }
}

/// Piece counts of both sides.
#[derive(Clone, Copy, Debug)]
pub struct Statistik {
    pub computer: SpielerStatistik,
    pub mensch: SpielerStatistik,
}

impl Statistik {
    /// The board value from `perspektive`'s point of view: own side value
    /// minus the opponent's, clamped to the representable range.
    pub open spec fn spec_to_number(self, perspektive: Spieler) -> int {
        match perspektive {
            Spieler::Mensch => sat_i32(
                self.mensch.spec_to_number() - self.computer.spec_to_number(),
            ),
            Spieler::Computer => sat_i32(
                self.computer.spec_to_number() - self.mensch.spec_to_number(),
            ),
        }
    }

    pub fn to_number(self, perspektive: Spieler) -> (r: i32)
        requires
            self.mensch.spec_gewicht() <= i32::MAX,
            self.computer.spec_gewicht() <= i32::MAX,
        ensures
            r == self.spec_to_number(perspektive),
    {
        match perspektive {
            Spieler::Mensch => saturating_sub_i32(self.mensch.to_number(), self.computer.to_number()),
            Spieler::Computer => saturating_sub_i32(
                self.computer.to_number(),
                self.mensch.to_number(),
            ),
        }
    }
}

/// A side has been eliminated (no material left) while the other still has
/// material: the score saturates to the extreme values — the smallest
/// representable value from the eliminated side's perspective, the largest
/// from the surviving side's.
pub proof fn lemma_elimination(stat: Statistik, verlierer: Spieler)
    requires
        stat.seite(verlierer).spec_gewicht() == 0,
        stat.seite(verlierer.spec_gegner()).spec_gewicht() > 0,
    ensures
        stat.spec_to_number(verlierer) == i32::MIN,
        stat.spec_to_number(verlierer.spec_gegner()) == i32::MAX,
{
}

impl Statistik {
    /// The counts of one side.
    pub open spec fn seite(self, spieler: Spieler) -> SpielerStatistik {
        match spieler {
            Spieler::Mensch => self.mensch,
            Spieler::Computer => self.computer,
        }
    }
}

/// The predicate "this cell holds exactly `feld`".
pub open spec fn feld_gleich(feld: Feld) -> spec_fn(Feld) -> bool {
    |f: Feld| f == feld
}

impl SpielBrett {
    /// How many playable cells hold exactly `feld`.
    pub open spec fn spec_count_felder(self, feld: Feld) -> nat {
        zellen_anzahl(self, feld_gleich(feld))
    }

    fn count_felder(&self, feld: Feld) -> (r: u32)
        ensures
            r == self.spec_count_felder(feld),
            r <= 64,
    {
        let ghost pred = feld_gleich(feld);
        let mut count: u32 = 0;
        for zeile in 0..8usize
            invariant
                pred == feld_gleich(feld),
                count == zellen_bis_zeile(*self, pred, zeile as int),
                count <= 8 * zeile,
        {
            for spalte in 0..8usize
                invariant
                    zeile < 8,
                    pred == feld_gleich(feld),
                    count == zellen_bis_zeile(*self, pred, zeile as int) + zellen_in_zeile(
                        *self,
                        pred,
                        zeile as int,
                        spalte as int,
                    ),
                    count <= 8 * zeile + spalte,
            {
                let position = Position { zeile, spalte };
                if position.valid() {
                    if self.get(position) == feld {
                        count = count + 1;
                    }
                }
            }
        }
        proof {
            lemma_zellen_grenze(*self, pred, 8);
        }
        count
    }

    /// The piece counts of both sides; the weighted material of a side of
    /// an 8x8 board never exceeds 4 * 32.
    pub fn get_statistik(&self) -> (r: Statistik)
        ensures
            r.computer.steine == self.spec_count_felder(Feld::Stein(Spieler::Computer)),
            r.computer.damen == self.spec_count_felder(Feld::Dame(Spieler::Computer)),
            r.mensch.steine == self.spec_count_felder(Feld::Stein(Spieler::Mensch)),
            r.mensch.damen == self.spec_count_felder(Feld::Dame(Spieler::Mensch)),
            r.computer.spec_gewicht() <= 256,
            r.mensch.spec_gewicht() <= 256,
    {
        Statistik {
            computer: SpielerStatistik {
                steine: self.count_felder(Feld::Stein(Spieler::Computer)),
                damen: self.count_felder(Feld::Dame(Spieler::Computer)),
            },
            mensch: SpielerStatistik {
                steine: self.count_felder(Feld::Stein(Spieler::Mensch)),
                damen: self.count_felder(Feld::Dame(Spieler::Mensch)),
            },
        }
    }
}

/// Elimination scoring on the board itself: a side with zero weighted
/// material takes the minimal sentinel before the subtraction, so any
/// board with that side eliminated (and the other side still on the
/// board) scores as an extreme loss for it and an extreme win for the
/// other side.
pub proof fn lemma_elimination_score(b: SpielBrett, verlierer: Spieler)
    requires
        b.spec_count_felder(Feld::Stein(verlierer)) == 0,
        b.spec_count_felder(Feld::Dame(verlierer)) == 0,
        b.spec_count_felder(Feld::Stein(verlierer.spec_gegner())) + 3 * b.spec_count_felder(
            Feld::Dame(verlierer.spec_gegner()),
        ) > 0,
    ensures
        spec_score(b, verlierer) == i32::MIN,
        spec_score(b, verlierer.spec_gegner()) == i32::MAX,
{
    assert(verlierer.spec_gegner().spec_gegner() == verlierer);
    assert(spec_seite_wert(b, verlierer) == i32::MIN);
    assert(spec_seite_wert(b, verlierer.spec_gegner()) >= 1);
}

/// The weighted value of one side of the board, with the elimination
/// sentinel.
pub open spec fn spec_seite_wert(b: SpielBrett, spieler: Spieler) -> int {
    let gewicht = b.spec_count_felder(Feld::Stein(spieler)) as int + 3 * b.spec_count_felder(
        Feld::Dame(spieler),
    ) as int;
    if gewicht == 0 {
        i32::MIN as int
    } else {
        gewicht
    }
}

/// The board's score from `perspektive`'s point of view.
pub open spec fn spec_score(b: SpielBrett, perspektive: Spieler) -> int {
    sat_i32(spec_seite_wert(b, perspektive) - spec_seite_wert(b, perspektive.spec_gegner()))
}

} // verus!
