use vstd::prelude::*;

use crate::brett::gueltig;
use crate::brett::lemma_get_set;
use crate::brett::Feld;
use crate::brett::Position;
use crate::brett::SpielBrett;

verus! {

/// Number of cells `(z, s)` with `s < bis` in row `z` that are playable and
/// whose contents satisfy `pred`.
pub open spec fn zellen_in_zeile(
    b: SpielBrett,
    pred: spec_fn(Feld) -> bool,
    z: int,
    bis: int,
) -> nat
    decreases bis,
{
    if bis <= 0 {
        0
    } else {
        zellen_in_zeile(b, pred, z, bis - 1) + if gueltig(z, bis - 1) && pred(
            b.spec_get(Position { spalte: (bis - 1) as usize, zeile: z as usize }),
        ) {
            1nat
        } else {
            0nat
        }
    }
}

/// Number of playable cells in rows below `bis` whose contents satisfy `pred`.
pub open spec fn zellen_bis_zeile(
    b: SpielBrett,
    pred: spec_fn(Feld) -> bool,
    bis: int,
) -> nat
    decreases bis,
{
    if bis <= 0 {
        0
    } else {
        zellen_bis_zeile(b, pred, bis - 1) + zellen_in_zeile(b, pred, bis - 1, 8)
    }
}

/// Number of playable cells of the whole board whose contents satisfy `pred`.
pub open spec fn zellen_anzahl(b: SpielBrett, pred: spec_fn(Feld) -> bool) -> nat {
    zellen_bis_zeile(b, pred, 8)
}

pub open spec fn ist_figur(f: Feld) -> bool {
    f != Feld::Leer
}

/// Number of pieces (men and queens of both sides) on the board.
pub open spec fn figuren_anzahl(b: SpielBrett) -> nat {
    zellen_anzahl(b, |f: Feld| ist_figur(f))
}

proof fn lemma_zellen_in_zeile_grenze(b: SpielBrett, pred: spec_fn(Feld) -> bool, z: int, bis: int)
    ensures
        zellen_in_zeile(b, pred, z, bis) <= if bis <= 0 {
            0
        } else {
            bis as nat
        },
    decreases bis,
{
    if bis > 0 {
        lemma_zellen_in_zeile_grenze(b, pred, z, bis - 1);
    }
}

/// No predicate matches more often than there are cells.
pub proof fn lemma_zellen_grenze(b: SpielBrett, pred: spec_fn(Feld) -> bool, bis: int)
    ensures
        zellen_bis_zeile(b, pred, bis) <= if bis <= 0 {
            0
        } else {
            8 * bis as nat
        },
    decreases bis,
{
    if bis > 0 {
        lemma_zellen_grenze(b, pred, bis - 1);
        lemma_zellen_in_zeile_grenze(b, pred, bis - 1, 8);
    }
}

proof fn lemma_zellen_in_zeile_set(
    b: SpielBrett,
    pos: Position,
    feld: Feld,
    pred: spec_fn(Feld) -> bool,
    z: int,
    bis: int,
)
    requires
        pos.spec_valid(),
    ensures
        zellen_in_zeile(b.spec_set(pos, feld), pred, z, bis) == zellen_in_zeile(b, pred, z, bis)
            + (if pos.zeile == z && pos.spalte < bis && pred(feld) {
            1int
        } else {
            0int
        }) - (if pos.zeile == z && pos.spalte < bis && pred(b.spec_get(pos)) {
            1int
        } else {
            0int
        }),
    decreases bis,
{
    if bis > 0 {
        lemma_zellen_in_zeile_set(b, pos, feld, pred, z, bis - 1);
        if gueltig(z, bis - 1) {
            let q = Position { spalte: (bis - 1) as usize, zeile: z as usize };
            lemma_get_set(b, pos, feld, q);
        }
    }
}

proof fn lemma_zellen_bis_zeile_set(
    b: SpielBrett,
    pos: Position,
    feld: Feld,
    pred: spec_fn(Feld) -> bool,
    bis: int,
)
    requires
        pos.spec_valid(),
    ensures
        zellen_bis_zeile(b.spec_set(pos, feld), pred, bis) == zellen_bis_zeile(b, pred, bis)
            + (if pos.zeile < bis && pred(feld) {
            1int
        } else {
            0int
        }) - (if pos.zeile < bis && pred(b.spec_get(pos)) {
            1int
        } else {
            0int
        }),
    decreases bis,
{
    if bis > 0 {
        lemma_zellen_bis_zeile_set(b, pos, feld, pred, bis - 1);
        lemma_zellen_in_zeile_set(b, pos, feld, pred, bis - 1, 8);
    }
}

/// How one cell update changes a cell count: the new cell is counted in,
/// the replaced cell is counted out.
pub proof fn lemma_zellen_anzahl_set(
    b: SpielBrett,
    pos: Position,
    feld: Feld,
    pred: spec_fn(Feld) -> bool,
)
    requires
        pos.spec_valid(),
    ensures
        zellen_anzahl(b.spec_set(pos, feld), pred) == zellen_anzahl(b, pred) + (if pred(feld) {
            1int
        } else {
            0int
        }) - (if pred(b.spec_get(pos)) {
            1int
        } else {
            0int
        }),
{
    lemma_zellen_bis_zeile_set(b, pos, feld, pred, 8);
}

/// A capture — the capturing piece lifted, the captured piece removed, the
/// capturing piece put back down on an empty cell — leaves one piece fewer
/// on the board.
pub proof fn lemma_schlag_verringert_figuren(
    b: SpielBrett,
    von: Position,
    geschlagen: Position,
    nach: Position,
    feld: Feld,
)
    requires
        von.spec_valid(),
        geschlagen.spec_valid(),
        nach.spec_valid(),
        von != geschlagen,
        von != nach,
        geschlagen != nach,
        ist_figur(b.spec_get(von)),
        ist_figur(b.spec_get(geschlagen)),
        !ist_figur(b.spec_get(nach)),
        ist_figur(feld),
    ensures
        figuren_anzahl(
            b.spec_set(von, Feld::Leer).spec_set(geschlagen, Feld::Leer).spec_set(nach, feld),
        ) + 1 == figuren_anzahl(b),
{
    let pred = |f: Feld| ist_figur(f);
    let b1 = b.spec_set(von, Feld::Leer);
    let b2 = b1.spec_set(geschlagen, Feld::Leer);
    lemma_zellen_anzahl_set(b, von, Feld::Leer, pred);
    lemma_get_set(b, von, Feld::Leer, geschlagen);
    lemma_zellen_anzahl_set(b1, geschlagen, Feld::Leer, pred);
    lemma_get_set(b1, geschlagen, Feld::Leer, nach);
    lemma_get_set(b, von, Feld::Leer, nach);
    lemma_zellen_anzahl_set(b2, nach, feld, pred);
}

} // verus!
