use vstd::prelude::*;

use crate::brett::moves::spec_possible_moves;
use crate::brett::SpielBrett;
use crate::brett::Spieler;

pub mod statistik;

use statistik::spec_score;

verus! {

/// `z` is a board of `zuege` whose backed-up value (with `naechster` to
/// act and `tiefe` plies to go) is largest among the boards of `zuege`.
pub open spec fn ist_maximaler_zug(
    zuege: Set<SpielBrett>,
    naechster: Spieler,
    tiefe: nat,
    z: SpielBrett,
) -> bool {
    zuege.contains(z) && forall|w: SpielBrett|
        zuege.contains(w) ==> #[trigger] spec_bewertung(w, naechster, tiefe) <= spec_bewertung(
            z,
            naechster,
            tiefe,
        )
}

/// The largest backed-up value among the boards of `zuege` (0 for sets the
/// search never produces: empty or infinite ones).
pub open spec fn max_wert(zuege: Set<SpielBrett>, naechster: Spieler, tiefe: nat) -> int
    decreases tiefe, 1int, zuege.len(),
{
    if !zuege.finite() || zuege.len() == 0 {
        0
    } else {
        let z = zuege.choose();
        let wert = spec_bewertung(z, naechster, tiefe);
        if zuege.len() == 1 {
            wert
        } else {
            let rest = max_wert(zuege.remove(z), naechster, tiefe);
            if wert >= rest {
                wert
            } else {
                rest
            }
        }
    }
}

/// The smallest backed-up value among the boards of `zuege`.
pub open spec fn min_wert(zuege: Set<SpielBrett>, naechster: Spieler, tiefe: nat) -> int
    decreases tiefe, 1int, zuege.len(),
{
    if !zuege.finite() || zuege.len() == 0 {
        0
    } else {
        let z = zuege.choose();
        let wert = spec_bewertung(z, naechster, tiefe);
        if zuege.len() == 1 {
            wert
        } else {
            let rest = min_wert(zuege.remove(z), naechster, tiefe);
            if wert <= rest {
                wert
            } else {
                rest
            }
        }
    }
}

/// The depth-bounded minimax value of a board, always measured from the
/// Computer's perspective. A board whose mover has no legal reply passes
/// the turn; the Computer maximizes over its moves, the Human minimizes.
pub open spec fn spec_bewertung(b: SpielBrett, am_zug: Spieler, tiefe: nat) -> int
    decreases tiefe, 0int, 0int,
{
    if tiefe == 0 {
        spec_score(b, Spieler::Computer)
    } else {
        let zuege = spec_possible_moves(b, am_zug);
        let naechster = am_zug.spec_gegner();
        if zuege.is_empty() {
            spec_bewertung(b, naechster, (tiefe - 1) as nat)
        } else if am_zug == Spieler::Computer {
            max_wert(zuege, naechster, (tiefe - 1) as nat)
        } else {
            min_wert(zuege, naechster, (tiefe - 1) as nat)
        }
    }
}

/// `max_wert` is the value of some board of the set, and no board of the
/// set has a larger value.
pub proof fn lemma_max_wert_eigenschaften(zuege: Set<SpielBrett>, naechster: Spieler, tiefe: nat)
    requires
        zuege.finite(),
        zuege.len() > 0,
    ensures
        exists|z: SpielBrett|
            zuege.contains(z) && max_wert(zuege, naechster, tiefe) == #[trigger] spec_bewertung(
                z,
                naechster,
                tiefe,
            ),
        forall|z: SpielBrett|
            zuege.contains(z) ==> #[trigger] spec_bewertung(z, naechster, tiefe) <= max_wert(
                zuege,
                naechster,
                tiefe,
            ),
    decreases zuege.len(),
{
    let z0 = zuege.choose();
    assert(zuege.contains(z0));
    if zuege.len() > 1 {
        lemma_max_wert_eigenschaften(zuege.remove(z0), naechster, tiefe);
        assert forall|z: SpielBrett| zuege.contains(z) implies #[trigger] spec_bewertung(
            z,
            naechster,
            tiefe,
        ) <= max_wert(zuege, naechster, tiefe) by {
            if z != z0 {
                assert(zuege.remove(z0).contains(z));
            }
        }
        let zr = choose|z: SpielBrett|
            zuege.remove(z0).contains(z) && max_wert(zuege.remove(z0), naechster, tiefe)
                == #[trigger] spec_bewertung(z, naechster, tiefe);
        assert(zuege.contains(zr));
        if spec_bewertung(z0, naechster, tiefe) >= max_wert(zuege.remove(z0), naechster, tiefe) {
            assert(max_wert(zuege, naechster, tiefe) == spec_bewertung(z0, naechster, tiefe));
        } else {
            assert(max_wert(zuege, naechster, tiefe) == spec_bewertung(zr, naechster, tiefe));
        }
    } else {
        assert(max_wert(zuege, naechster, tiefe) == spec_bewertung(z0, naechster, tiefe));
    }
}

/// `min_wert` is the value of some board of the set, and no board of the
/// set has a smaller value.
pub proof fn lemma_min_wert_eigenschaften(zuege: Set<SpielBrett>, naechster: Spieler, tiefe: nat)
    requires
        zuege.finite(),
        zuege.len() > 0,
    ensures
        exists|z: SpielBrett|
            zuege.contains(z) && min_wert(zuege, naechster, tiefe) == #[trigger] spec_bewertung(
                z,
                naechster,
                tiefe,
            ),
        forall|z: SpielBrett|
            zuege.contains(z) ==> min_wert(zuege, naechster, tiefe) <= #[trigger] spec_bewertung(
                z,
                naechster,
                tiefe,
            ),
    decreases zuege.len(),
{
    let z0 = zuege.choose();
    assert(zuege.contains(z0));
    if zuege.len() > 1 {
        lemma_min_wert_eigenschaften(zuege.remove(z0), naechster, tiefe);
        assert forall|z: SpielBrett| zuege.contains(z) implies min_wert(zuege, naechster, tiefe)
            <= #[trigger] spec_bewertung(z, naechster, tiefe) by {
            if z != z0 {
                assert(zuege.remove(z0).contains(z));
            }
        }
        let zr = choose|z: SpielBrett|
            zuege.remove(z0).contains(z) && min_wert(zuege.remove(z0), naechster, tiefe)
                == #[trigger] spec_bewertung(z, naechster, tiefe);
        assert(zuege.contains(zr));
        if spec_bewertung(z0, naechster, tiefe) <= min_wert(zuege.remove(z0), naechster, tiefe) {
            assert(min_wert(zuege, naechster, tiefe) == spec_bewertung(z0, naechster, tiefe));
        } else {
            assert(min_wert(zuege, naechster, tiefe) == spec_bewertung(zr, naechster, tiefe));
        }
    } else {
        assert(min_wert(zuege, naechster, tiefe) == spec_bewertung(z0, naechster, tiefe));
    }
}

impl SpielBrett {
    #[verifier::rlimit(60)]
    fn bewertung(&self, am_zug: Spieler, tiefe: u32) -> (r: i32)
        ensures
            r == spec_bewertung(*self, am_zug, tiefe as nat),
        decreases tiefe,
    {
        if tiefe == 0 {
            let statistik = self.get_statistik();
            return statistik.to_number(Spieler::Computer);
        }
        let zuege = self.get_possible_moves(am_zug);
        if zuege.is_empty() {
            return self.bewertung(am_zug.gegner(), tiefe - 1);
        }
        let n = zuege.len();
        let naechster = am_zug.gegner();
        let ghost tiefer = (tiefe - 1) as nat;
        let ghost kinder = zuege.folge();
        let mut bestes_brett: SpielBrett = *zuege.get(0);
        let mut bester: i32 = bestes_brett.bewertung(naechster, tiefe - 1);
        proof {
            assert(bestes_brett == kinder[0]);
        }
        for i in 1..n
            invariant
                1 <= i <= n,
                n == kinder.len(),
                kinder == zuege.folge(),
                kinder.to_set() == zuege@,
                zuege@.finite(),
                naechster == am_zug.spec_gegner(),
                tiefe >= 1,
                tiefer == (tiefe - 1) as nat,
                kinder.to_set().contains(bestes_brett),
                bester == spec_bewertung(bestes_brett, am_zug.spec_gegner(), tiefer),
                am_zug == Spieler::Computer ==> forall|j: int|
                    0 <= j < i ==> #[trigger] spec_bewertung(kinder[j], am_zug.spec_gegner(), tiefer)
                        <= bester,
                am_zug != Spieler::Computer ==> forall|j: int|
                    0 <= j < i ==> bester <= #[trigger] spec_bewertung(
                        kinder[j],
                        am_zug.spec_gegner(),
                        tiefer,
                    ),
        {
            let kandidat = *zuege.get(i);
            let wert = kandidat.bewertung(naechster, tiefe - 1);
            proof {
                assert(kandidat == kinder[i as int]);
                assert(wert == spec_bewertung(kinder[i as int], am_zug.spec_gegner(), tiefer));
            }
            match am_zug {
                Spieler::Computer => {
                    if wert > bester {
                        bester = wert;
                        bestes_brett = kandidat;
                    }
                },
                Spieler::Mensch => {
                    if wert < bester {
                        bester = wert;
                        bestes_brett = kandidat;
                    }
                },
            }
        }
        proof {
            assert(zuege@.contains(bestes_brett));
            if am_zug == Spieler::Computer {
                lemma_max_wert_eigenschaften(zuege@, naechster, tiefer);
                assert(max_wert(zuege@, naechster, tiefer) <= bester) by {
                    let z = choose|z: SpielBrett|
                        zuege@.contains(z) && max_wert(zuege@, naechster, tiefer)
                            == #[trigger] spec_bewertung(z, naechster, tiefer);
                    assert(kinder.contains(z));
                    let j = choose|j: int| 0 <= j < kinder.len() && kinder[j] == z;
                    assert(spec_bewertung(kinder[j], naechster, tiefer) <= bester);
                }
                assert(bester <= max_wert(zuege@, naechster, tiefer));
            } else {
                lemma_min_wert_eigenschaften(zuege@, naechster, tiefer);
                assert(bester <= min_wert(zuege@, naechster, tiefer)) by {
                    let z = choose|z: SpielBrett|
                        zuege@.contains(z) && min_wert(zuege@, naechster, tiefer)
                            == #[trigger] spec_bewertung(z, naechster, tiefer);
                    assert(kinder.contains(z));
                    let j = choose|j: int| 0 <= j < kinder.len() && kinder[j] == z;
                    assert(bester <= spec_bewertung(kinder[j], naechster, tiefer));
                }
                assert(min_wert(zuege@, naechster, tiefer) <= bester);
            }
        }
        bester
    }

    /// The Computer's best reply to this board, found by a game tree of
    /// `max_depth` plies: among the boards one legal Computer move away, one
    /// whose backed-up minimax value (scored from the Computer's
    /// perspective) is largest. A board on which the Computer has no legal
    /// move is returned unchanged.
    pub fn get_best_move(&self, max_depth: u32) -> (r: SpielBrett)
        requires
            max_depth >= 1,
        ensures
            spec_possible_moves(*self, Spieler::Computer).is_empty() ==> r == *self,
            !spec_possible_moves(*self, Spieler::Computer).is_empty() ==> ist_maximaler_zug(
                spec_possible_moves(*self, Spieler::Computer),
                Spieler::Mensch,
                (max_depth - 1) as nat,
                r,
            ),
    {
        let zuege = self.get_possible_moves(Spieler::Computer);
        if zuege.is_empty() {
            return *self;
        }
        let n = zuege.len();
        let ghost tiefer = (max_depth - 1) as nat;
        let ghost kinder = zuege.folge();
        let mut bestes_brett: SpielBrett = *zuege.get(0);
        let mut bester: i32 = bestes_brett.bewertung(Spieler::Mensch, max_depth - 1);
        proof {
            assert(bestes_brett == kinder[0]);
        }
        for i in 1..n
            invariant
                1 <= i <= n,
                n == kinder.len(),
                kinder == zuege.folge(),
                kinder.to_set() == zuege@,
                max_depth >= 1,
                tiefer == (max_depth - 1) as nat,
                kinder.to_set().contains(bestes_brett),
                bester == spec_bewertung(bestes_brett, Spieler::Mensch, tiefer),
                forall|j: int|
                    0 <= j < i ==> #[trigger] spec_bewertung(kinder[j], Spieler::Mensch, tiefer)
                        <= bester,
        {
            let kandidat = *zuege.get(i);
            let wert = kandidat.bewertung(Spieler::Mensch, max_depth - 1);
            proof {
                assert(kandidat == kinder[i as int]);
                assert(wert == spec_bewertung(kinder[i as int], Spieler::Mensch, tiefer));
            }
            if wert > bester {
                bester = wert;
                bestes_brett = kandidat;
            }
        }
        proof {
            assert(zuege@.contains(bestes_brett));
            assert forall|w: SpielBrett| zuege@.contains(w) implies #[trigger] spec_bewertung(
                w,
                Spieler::Mensch,
                tiefer,
            ) <= spec_bewertung(bestes_brett, Spieler::Mensch, tiefer) by {
                assert(kinder.contains(w));
                let j = choose|j: int| 0 <= j < kinder.len() && kinder[j] == w;
                assert(spec_bewertung(kinder[j], Spieler::Mensch, tiefer) <= bester);
            }
            assert(ist_maximaler_zug(zuege@, Spieler::Mensch, tiefer, bestes_brett));
        }
        bestes_brett
    }
}

} // verus!
