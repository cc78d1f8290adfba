use vstd::prelude::*;

use crate::brett::feld_gehoert;
use crate::brett::gueltig;
use crate::brett::lemma_get_set;
use crate::brett::zaehlen::figuren_anzahl;
use crate::brett::zaehlen::lemma_schlag_verringert_figuren;
use crate::brett::Feld;
use crate::brett::Position;
use crate::brett::RichtungHorizontal;
use crate::brett::RichtungVertikal;
use crate::brett::SpielBrett;
use crate::brett::Spieler;
use crate::brett::ZugMenge;

verus! {

/// The position with row `zeile` and column `spalte`; meaningful when
/// `gueltig(zeile, spalte)` holds.
pub open spec fn pos_bei(zeile: int, spalte: int) -> Position {
    Position { spalte: spalte as usize, zeile: zeile as usize }
}

/// The piece a man of `spieler` becomes when landing on row `zeile`:
/// a queen on the promotion row, a man anywhere else.
pub open spec fn stein_ziel_feld(spieler: Spieler, zeile: int) -> Feld {
    if zeile == spieler.spec_dame_zeile() {
        Feld::Dame(spieler)
    } else {
        Feld::Stein(spieler)
    }
}

/// A man of `spieler` standing on `pos` can jump one step in direction
/// `(dv, dh)`: the adjacent cell holds an opposing piece and the cell one
/// step beyond it is a free playable cell.
pub open spec fn sprung_gueltig(
    b: SpielBrett,
    pos: Position,
    spieler: Spieler,
    dv: int,
    dh: int,
) -> bool {
    &&& pos.spec_valid()
    &&& b.spec_get(pos) == Feld::Stein(spieler)
    &&& gueltig(pos.zeile as int + dv, pos.spalte as int + dh)
    &&& feld_gehoert(
        b.spec_get(pos_bei(pos.zeile as int + dv, pos.spalte as int + dh)),
        spieler.spec_gegner(),
    )
    &&& gueltig(pos.zeile as int + 2 * dv, pos.spalte as int + 2 * dh)
    &&& b.spec_get(pos_bei(pos.zeile as int + 2 * dv, pos.spalte as int + 2 * dh)) == Feld::Leer
}

/// The board after that jump: the man leaves `pos`, the jumped piece is
/// removed, and the man (possibly promoted) lands two steps away.
pub open spec fn sprung_brett(
    b: SpielBrett,
    pos: Position,
    spieler: Spieler,
    dv: int,
    dh: int,
) -> SpielBrett {
    b.spec_set(pos, Feld::Leer).spec_set(
        pos_bei(pos.zeile as int + dv, pos.spalte as int + dh),
        Feld::Leer,
    ).spec_set(
        pos_bei(pos.zeile as int + 2 * dv, pos.spalte as int + 2 * dh),
        stein_ziel_feld(spieler, pos.zeile as int + 2 * dv),
    )
}

proof fn lemma_sprung_verringert(b: SpielBrett, pos: Position, spieler: Spieler, dv: int, dh: int)
    requires
        sprung_gueltig(b, pos, spieler, dv, dh),
    ensures
        figuren_anzahl(sprung_brett(b, pos, spieler, dv, dh)) < figuren_anzahl(b),
{
    let schlag = pos_bei(pos.zeile as int + dv, pos.spalte as int + dh);
    let neu = pos_bei(pos.zeile as int + 2 * dv, pos.spalte as int + 2 * dh);
    assert(spieler != spieler.spec_gegner());
    assert(pos != schlag);
    assert(pos != neu);
    assert(schlag != neu);
    lemma_schlag_verringert_figuren(
        b,
        pos,
        schlag,
        neu,
        stein_ziel_feld(spieler, pos.zeile as int + 2 * dv),
    );
}

/// All boards reachable by a maximal capture chain of the man on `pos`,
/// starting with a jump in direction `(dv, dh)`. If the jump is possible
/// and deeper captures exist from the landing cell, only those deeper
/// results count; otherwise the jump's own board is the single result.
pub open spec fn stein_schlagen_richtung(
    b: SpielBrett,
    pos: Position,
    spieler: Spieler,
    dv: int,
    dh: int,
) -> Set<SpielBrett>
    decreases figuren_anzahl(b), 3int,
    via stein_schlagen_richtung_dec
{
    if sprung_gueltig(b, pos, spieler, dv, dh) {
        let b2 = sprung_brett(b, pos, spieler, dv, dh);
        let tiefer = stein_schlagen_von(
            b2,
            pos_bei(pos.zeile as int + 2 * dv, pos.spalte as int + 2 * dh),
            true,
        );
        if tiefer.is_empty() {
            Set::empty().insert(b2)
        } else {
            tiefer
        }
    } else {
        Set::empty()
    }
}

#[via_fn]
proof fn stein_schlagen_richtung_dec(
    b: SpielBrett,
    pos: Position,
    spieler: Spieler,
    dv: int,
    dh: int,
) {
    if sprung_gueltig(b, pos, spieler, dv, dh) {
        lemma_sprung_verringert(b, pos, spieler, dv, dh);
    }
}

/// All boards reachable by a maximal capture chain of the man on `pos`.
/// The first jump of a turn must go forward; later jumps of the chain
/// (`backwards` set) may go in all four directions.
pub open spec fn stein_schlagen_von(b: SpielBrett, pos: Position, backwards: bool) -> Set<
    SpielBrett,
>
    decreases figuren_anzahl(b), 4int,
{
    if pos.spec_valid() {
        match b.spec_get(pos) {
            Feld::Stein(spieler) => {
                let dv = spieler.spec_move_direction().spec_offset();
                let vorwaerts = stein_schlagen_richtung(b, pos, spieler, dv, -1).union(
                    stein_schlagen_richtung(b, pos, spieler, dv, 1),
                );
                if backwards {
                    vorwaerts.union(
                        stein_schlagen_richtung(b, pos, spieler, -dv, -1).union(
                            stein_schlagen_richtung(b, pos, spieler, -dv, 1),
                        ),
                    )
                } else {
                    vorwaerts
                }
            },
            _ => Set::empty(),
        }
    } else {
        Set::empty()
    }
}

/// A promotion ends the chain: when a jump lands the man on its promotion
/// row, no further capture follows, and the jump's board is the single
/// result of this direction, even if more captures would be geometrically
/// possible for a man.
pub proof fn lemma_umwandlung_beendet_kette(
    b: SpielBrett,
    pos: Position,
    spieler: Spieler,
    dv: int,
    dh: int,
)
    requires
        sprung_gueltig(b, pos, spieler, dv, dh),
        pos.zeile as int + 2 * dv == spieler.spec_dame_zeile(),
    ensures
        stein_schlagen_richtung(b, pos, spieler, dv, dh) == Set::empty().insert(
            sprung_brett(b, pos, spieler, dv, dh),
        ),
{
    let schlag = pos_bei(pos.zeile as int + dv, pos.spalte as int + dh);
    let neu = pos_bei(pos.zeile as int + 2 * dv, pos.spalte as int + 2 * dh);
    let b2 = sprung_brett(b, pos, spieler, dv, dh);
    assert(spieler != spieler.spec_gegner());
    assert(schlag != neu);
    lemma_get_set(b.spec_set(pos, Feld::Leer).spec_set(schlag, Feld::Leer), neu, stein_ziel_feld(
        spieler,
        pos.zeile as int + 2 * dv,
    ), neu);
    assert(b2.spec_get(neu) == Feld::Dame(spieler));
    assert(stein_schlagen_von(b2, neu, true) == Set::<SpielBrett>::empty());
}

/// All boards reachable by a maximal capture chain of the queen on `pos`
/// whose first capture lies on the ray `(dv, dh)`, scanning outward from
/// distance `d`. The first occupied cell of the ray decides: a piece of the
/// mover blocks the ray; an opposing piece is captured when the cell one
/// step beyond it is a free playable cell, and the queen lands exactly
/// there, never farther.
pub open spec fn dame_schlagen_strahl(
    b: SpielBrett,
    pos: Position,
    spieler: Spieler,
    dv: int,
    dh: int,
    d: int,
) -> Set<SpielBrett>
    decreases figuren_anzahl(b), 9 - d,
    via dame_schlagen_strahl_dec
{
    if !(pos.spec_valid() && b.spec_get(pos) == Feld::Dame(spieler)) {
        Set::empty()
    } else if d > 8 {
        Set::empty()
    } else {
        let sz = pos.zeile as int + d * dv;
        let ss = pos.spalte as int + d * dh;
        if !gueltig(sz, ss) {
            Set::empty()
        } else {
            let feld = b.spec_get(pos_bei(sz, ss));
            if feld == Feld::Leer {
                dame_schlagen_strahl(b, pos, spieler, dv, dh, d + 1)
            } else if feld_gehoert(feld, spieler) {
                Set::empty()
            } else {
                let nz = sz + dv;
                let ns = ss + dh;
                if gueltig(nz, ns) && b.spec_get(pos_bei(nz, ns)) == Feld::Leer {
                    let b2 = b.spec_set(pos, Feld::Leer).spec_set(
                        pos_bei(sz, ss),
                        Feld::Leer,
                    ).spec_set(pos_bei(nz, ns), Feld::Dame(spieler));
                    let tiefer = dame_schlagen_von(b2, pos_bei(nz, ns));
                    if tiefer.is_empty() {
                        Set::empty().insert(b2)
                    } else {
                        tiefer
                    }
                } else {
                    Set::empty()
                }
            }
        }
    }
}

#[via_fn]
proof fn dame_schlagen_strahl_dec(
    b: SpielBrett,
    pos: Position,
    spieler: Spieler,
    dv: int,
    dh: int,
    d: int,
) {
    if pos.spec_valid() && b.spec_get(pos) == Feld::Dame(spieler) && d <= 8 {
        let sz = pos.zeile as int + d * dv;
        let ss = pos.spalte as int + d * dh;
        if gueltig(sz, ss) {
            let feld = b.spec_get(pos_bei(sz, ss));
            if feld != Feld::Leer && !feld_gehoert(feld, spieler) {
                let nz = sz + dv;
                let ns = ss + dh;
                if gueltig(nz, ns) && b.spec_get(pos_bei(nz, ns)) == Feld::Leer {
                    let schlag = pos_bei(sz, ss);
                    let neu = pos_bei(nz, ns);
                    assert(spieler != spieler.spec_gegner());
                    assert(pos != schlag);
                    assert(pos != neu);
                    assert(schlag != neu);
                    lemma_schlag_verringert_figuren(b, pos, schlag, neu, Feld::Dame(spieler));
                }
            }
        }
    }
}

proof fn lemma_dame_strahl_ueberspringt_leere(
    b: SpielBrett,
    pos: Position,
    spieler: Spieler,
    dv: int,
    dh: int,
    d: int,
    a: int,
)
    requires
        pos.spec_valid(),
        b.spec_get(pos) == Feld::Dame(spieler),
        1 <= a <= d <= 8,
        forall|k: int|
            1 <= k < d ==> gueltig(pos.zeile as int + k * dv, pos.spalte as int + k * dh)
                && b.spec_get(
                #[trigger] pos_bei(pos.zeile as int + k * dv, pos.spalte as int + k * dh),
            ) == Feld::Leer,
    ensures
        dame_schlagen_strahl(b, pos, spieler, dv, dh, a) == dame_schlagen_strahl(
            b,
            pos,
            spieler,
            dv,
            dh,
            d,
        ),
    decreases d - a,
{
    if a < d {
        assert(b.spec_get(pos_bei(pos.zeile as int + a * dv, pos.spalte as int + a * dh))
            == Feld::Leer);
        lemma_dame_strahl_ueberspringt_leere(b, pos, spieler, dv, dh, d, a + 1);
    }
}

/// A queen's capture lands exactly one cell beyond the captured piece,
/// never farther: when the first occupied cell of a ray holds an opposing
/// piece, the cell just behind it is free, and no further capture follows
/// from that cell, the ray contributes exactly the one board on which the
/// queen stands on that cell.
pub proof fn lemma_dame_schlag_landung(
    b: SpielBrett,
    pos: Position,
    spieler: Spieler,
    dv: int,
    dh: int,
    d: int,
)
    requires
        pos.spec_valid(),
        b.spec_get(pos) == Feld::Dame(spieler),
        1 <= d <= 8,
        forall|k: int|
            1 <= k < d ==> gueltig(pos.zeile as int + k * dv, pos.spalte as int + k * dh)
                && b.spec_get(
                #[trigger] pos_bei(pos.zeile as int + k * dv, pos.spalte as int + k * dh),
            ) == Feld::Leer,
        gueltig(pos.zeile as int + d * dv, pos.spalte as int + d * dh),
        feld_gehoert(
            b.spec_get(pos_bei(pos.zeile as int + d * dv, pos.spalte as int + d * dh)),
            spieler.spec_gegner(),
        ),
        gueltig(pos.zeile as int + (d + 1) * dv, pos.spalte as int + (d + 1) * dh),
        b.spec_get(pos_bei(pos.zeile as int + (d + 1) * dv, pos.spalte as int + (d + 1) * dh))
            == Feld::Leer,
        dame_schlagen_von(
            b.spec_set(pos, Feld::Leer).spec_set(
                pos_bei(pos.zeile as int + d * dv, pos.spalte as int + d * dh),
                Feld::Leer,
            ).spec_set(
                pos_bei(pos.zeile as int + (d + 1) * dv, pos.spalte as int + (d + 1) * dh),
                Feld::Dame(spieler),
            ),
            pos_bei(pos.zeile as int + (d + 1) * dv, pos.spalte as int + (d + 1) * dh),
        ).is_empty(),
    ensures
        dame_schlagen_strahl(b, pos, spieler, dv, dh, 1) == Set::empty().insert(
            b.spec_set(pos, Feld::Leer).spec_set(
                pos_bei(pos.zeile as int + d * dv, pos.spalte as int + d * dh),
                Feld::Leer,
            ).spec_set(
                pos_bei(pos.zeile as int + (d + 1) * dv, pos.spalte as int + (d + 1) * dh),
                Feld::Dame(spieler),
            ),
        ),
{
    lemma_dame_strahl_ueberspringt_leere(b, pos, spieler, dv, dh, d, 1);
    let sz = pos.zeile as int + d * dv;
    let ss = pos.spalte as int + d * dh;
    let nz = sz + dv;
    let ns = ss + dh;
    let feld = b.spec_get(pos_bei(sz, ss));
    assert(spieler != spieler.spec_gegner());
    assert(feld != Feld::Leer);
    assert(!feld_gehoert(feld, spieler));
    assert((d + 1) * dv == d * dv + dv && (d + 1) * dh == d * dh + dh) by (nonlinear_arith);
    assert(nz == pos.zeile as int + (d + 1) * dv && ns == pos.spalte as int + (d + 1) * dh);
    let b2 = b.spec_set(pos, Feld::Leer).spec_set(pos_bei(sz, ss), Feld::Leer).spec_set(
        pos_bei(nz, ns),
        Feld::Dame(spieler),
    );
    assert(dame_schlagen_von(b2, pos_bei(nz, ns)).is_empty());
    assert(dame_schlagen_strahl(b, pos, spieler, dv, dh, d) == Set::empty().insert(b2));
}

/// All boards reachable by a maximal capture chain of the queen on `pos`,
/// over all four diagonal directions.
pub open spec fn dame_schlagen_von(b: SpielBrett, pos: Position) -> Set<SpielBrett>
    decreases figuren_anzahl(b), 10int,
{
    if pos.spec_valid() {
        match b.spec_get(pos) {
            Feld::Dame(spieler) => dame_schlagen_strahl(b, pos, spieler, -1, -1, 1).union(
                dame_schlagen_strahl(b, pos, spieler, -1, 1, 1),
            ).union(
                dame_schlagen_strahl(b, pos, spieler, 1, -1, 1).union(
                    dame_schlagen_strahl(b, pos, spieler, 1, 1, 1),
                ),
            ),
            _ => Set::empty(),
        }
    } else {
        Set::empty()
    }
}

/// All boards reachable by a plain (non-capturing) slide of the queen on
/// `pos` along the ray `(dv, dh)`, from distance `d` on: every free
/// playable cell of the ray up to the first occupied cell is a landing.
pub open spec fn dame_zuege_strahl(
    b: SpielBrett,
    pos: Position,
    spieler: Spieler,
    dv: int,
    dh: int,
    d: int,
) -> Set<SpielBrett>
    decreases 9 - d,
{
    if d > 8 {
        Set::empty()
    } else {
        let nz = pos.zeile as int + d * dv;
        let ns = pos.spalte as int + d * dh;
        if !gueltig(nz, ns) {
            Set::empty()
        } else if b.spec_get(pos_bei(nz, ns)) == Feld::Leer {
            dame_zuege_strahl(b, pos, spieler, dv, dh, d + 1).insert(
                b.spec_set(pos, Feld::Leer).spec_set(pos_bei(nz, ns), Feld::Dame(spieler)),
            )
        } else {
            Set::empty()
        }
    }
}

/// All boards reachable by a plain slide of the queen on `pos`.
pub open spec fn dame_zuege_von(b: SpielBrett, pos: Position, spieler: Spieler) -> Set<
    SpielBrett,
> {
    dame_zuege_strahl(b, pos, spieler, -1, -1, 1).union(
        dame_zuege_strahl(b, pos, spieler, -1, 1, 1),
    ).union(
        dame_zuege_strahl(b, pos, spieler, 1, -1, 1).union(
            dame_zuege_strahl(b, pos, spieler, 1, 1, 1),
        ),
    )
}

/// A man of `spieler` on `pos` can step (without capturing) to the
/// diagonally forward cell with column offset `dh`.
pub open spec fn stein_zug_gueltig(b: SpielBrett, pos: Position, spieler: Spieler, dh: int) -> bool {
    let dv = spieler.spec_move_direction().spec_offset();
    &&& pos.spec_valid()
    &&& b.spec_get(pos) == Feld::Stein(spieler)
    &&& gueltig(pos.zeile as int + dv, pos.spalte as int + dh)
    &&& b.spec_get(pos_bei(pos.zeile as int + dv, pos.spalte as int + dh)) == Feld::Leer
}

/// The board after that step; the man promotes when it reaches its
/// promotion row.
pub open spec fn stein_zug_brett(
    b: SpielBrett,
    pos: Position,
    spieler: Spieler,
    dh: int,
) -> SpielBrett {
    let dv = spieler.spec_move_direction().spec_offset();
    b.spec_set(pos, Feld::Leer).spec_set(
        pos_bei(pos.zeile as int + dv, pos.spalte as int + dh),
        stein_ziel_feld(spieler, pos.zeile as int + dv),
    )
}

/// The plain steps of the man on `pos`: diagonally forward, left or right.
pub open spec fn stein_zuege_von(b: SpielBrett, pos: Position, spieler: Spieler) -> Set<
    SpielBrett,
> {
    let links = if stein_zug_gueltig(b, pos, spieler, -1) {
        Set::empty().insert(stein_zug_brett(b, pos, spieler, -1))
    } else {
        Set::empty()
    };
    let rechts = if stein_zug_gueltig(b, pos, spieler, 1) {
        Set::empty().insert(stein_zug_brett(b, pos, spieler, 1))
    } else {
        Set::empty()
    };
    links.union(rechts)
}

/// Union of the per-cell contributions `beitrag(zeile, spalte)` over the
/// cells of column `spalte` with row index below `bis`.
pub open spec fn zuege_spalte(
    beitrag: spec_fn(int, int) -> Set<SpielBrett>,
    spalte: int,
    bis: int,
) -> Set<SpielBrett>
    decreases bis,
{
    if bis <= 0 {
        Set::empty()
    } else {
        zuege_spalte(beitrag, spalte, bis - 1).union(beitrag(bis - 1, spalte))
    }
}

/// Union of the per-cell contributions over all columns below `bis`.
pub open spec fn zuege_bis_spalte(
    beitrag: spec_fn(int, int) -> Set<SpielBrett>,
    bis: int,
) -> Set<SpielBrett>
    decreases bis,
{
    if bis <= 0 {
        Set::empty()
    } else {
        zuege_bis_spalte(beitrag, bis - 1).union(zuege_spalte(beitrag, bis - 1, 8))
    }
}

/// Union of the per-cell contributions over the whole board.
pub open spec fn zuege_alle(beitrag: spec_fn(int, int) -> Set<SpielBrett>) -> Set<SpielBrett> {
    zuege_bis_spalte(beitrag, 8)
}

pub open spec fn stein_schlag_beitrag(b: SpielBrett, spieler: Spieler) -> spec_fn(int, int) -> Set<
    SpielBrett,
> {
    |zeile: int, spalte: int|
        if gueltig(zeile, spalte) && b.spec_get(pos_bei(zeile, spalte)) == Feld::Stein(spieler) {
            stein_schlagen_von(b, pos_bei(zeile, spalte), false)
        } else {
            Set::empty()
        }
}

/// The capturing moves of all of `spieler`'s men.
pub open spec fn alle_stein_schlagen(b: SpielBrett, spieler: Spieler) -> Set<SpielBrett> {
    zuege_alle(stein_schlag_beitrag(b, spieler))
}

pub open spec fn dame_schlag_beitrag(b: SpielBrett, spieler: Spieler) -> spec_fn(int, int) -> Set<
    SpielBrett,
> {
    |zeile: int, spalte: int|
        if gueltig(zeile, spalte) && b.spec_get(pos_bei(zeile, spalte)) == Feld::Dame(spieler) {
            dame_schlagen_von(b, pos_bei(zeile, spalte))
        } else {
            Set::empty()
        }
}

/// The capturing moves of all of `spieler`'s queens.
pub open spec fn alle_dame_schlagen(b: SpielBrett, spieler: Spieler) -> Set<SpielBrett> {
    zuege_alle(dame_schlag_beitrag(b, spieler))
}

pub open spec fn stein_zug_beitrag(b: SpielBrett, spieler: Spieler) -> spec_fn(int, int) -> Set<
    SpielBrett,
> {
    |zeile: int, spalte: int|
        if gueltig(zeile, spalte) && b.spec_get(pos_bei(zeile, spalte)) == Feld::Stein(spieler) {
            stein_zuege_von(b, pos_bei(zeile, spalte), spieler)
        } else {
            Set::empty()
        }
}

/// The plain steps of all of `spieler`'s men.
pub open spec fn alle_stein_zuege(b: SpielBrett, spieler: Spieler) -> Set<SpielBrett> {
    zuege_alle(stein_zug_beitrag(b, spieler))
}

pub open spec fn dame_zug_beitrag(b: SpielBrett, spieler: Spieler) -> spec_fn(int, int) -> Set<
    SpielBrett,
> {
    |zeile: int, spalte: int|
        if gueltig(zeile, spalte) && b.spec_get(pos_bei(zeile, spalte)) == Feld::Dame(spieler) {
            dame_zuege_von(b, pos_bei(zeile, spalte), spieler)
        } else {
            Set::empty()
        }
}

/// The plain slides of all of `spieler`'s queens.
pub open spec fn alle_dame_zuege(b: SpielBrett, spieler: Spieler) -> Set<SpielBrett> {
    zuege_alle(dame_zug_beitrag(b, spieler))
}

/// All capturing moves of `spieler`.
pub open spec fn schlag_zuege(b: SpielBrett, spieler: Spieler) -> Set<SpielBrett> {
    alle_stein_schlagen(b, spieler).union(alle_dame_schlagen(b, spieler))
}

/// All non-capturing moves of `spieler`.
pub open spec fn normale_zuege(b: SpielBrett, spieler: Spieler) -> Set<SpielBrett> {
    alle_stein_zuege(b, spieler).union(alle_dame_zuege(b, spieler))
}

/// The legal moves of `spieler`: when any capture is possible, exactly the
/// capturing moves; otherwise the plain steps and slides.
pub open spec fn spec_possible_moves(b: SpielBrett, spieler: Spieler) -> Set<SpielBrett> {
    if !schlag_zuege(b, spieler).is_empty() {
        schlag_zuege(b, spieler)
    } else {
        normale_zuege(b, spieler)
    }
}

impl SpielBrett {
    fn stein_schlagen_richtung_zuege(
        &self,
        position: Position,
        spieler: Spieler,
        richtung_v: RichtungVertikal,
        richtung_h: RichtungHorizontal,
    ) -> (r: ZugMenge)
        requires
            position.spec_valid(),
            self.spec_get(position) == Feld::Stein(spieler),
        ensures
            r.wf(),
            r@ == stein_schlagen_richtung(
                *self,
                position,
                spieler,
                richtung_v.spec_offset(),
                richtung_h.spec_offset(),
            ),
        decreases figuren_anzahl(*self), 1int,
    {
        let ghost dv = richtung_v.spec_offset();
        let ghost dh = richtung_h.spec_offset();
        let sz = position.zeile as isize + richtung_v.offset();
        let ss = position.spalte as isize + richtung_h.offset();
        if sz < 0 || ss < 0 {
            return ZugMenge::new();
        }
        let schlagen_position = Position { spalte: ss as usize, zeile: sz as usize };
        if !schlagen_position.valid() {
            return ZugMenge::new();
        }
        let gegner = spieler.gegner();
        let ist_gegner = match self.get(schlagen_position) {
            Feld::Stein(s) => s == gegner,
            Feld::Dame(s) => s == gegner,
            Feld::Leer => false,
        };
        if !ist_gegner {
            return ZugMenge::new();
        }
        let nz = sz + richtung_v.offset();
        let ns = ss + richtung_h.offset();
        if nz < 0 || ns < 0 {
            return ZugMenge::new();
        }
        let neue_position = Position { spalte: ns as usize, zeile: nz as usize };
        if !neue_position.valid() {
            return ZugMenge::new();
        }
        match self.get(neue_position) {
            Feld::Leer => {},
            _ => {
                return ZugMenge::new();
            },
        }
        let mut neues_brett = *self;
        neues_brett.set(position, Feld::Leer);
        neues_brett.set(schlagen_position, Feld::Leer);
        let ziel = if neue_position.zeile == spieler.dame_zeile() {
            Feld::Dame(spieler)
        } else {
            Feld::Stein(spieler)
        };
        neues_brett.set(neue_position, ziel);
        proof {
            assert(schlagen_position == pos_bei(
                position.zeile as int + dv,
                position.spalte as int + dh,
            ));
            assert(neue_position == pos_bei(
                position.zeile as int + 2 * dv,
                position.spalte as int + 2 * dh,
            ));
            assert(sprung_gueltig(*self, position, spieler, dv, dh));
            assert(neues_brett == sprung_brett(*self, position, spieler, dv, dh));
            lemma_sprung_verringert(*self, position, spieler, dv, dh);
        }
        let tiefer = neues_brett.stein_schlagen_zuege(neue_position, true);
        if tiefer.is_empty() {
            let mut r = ZugMenge::new();
            r.insert(neues_brett);
            r
        } else {
            tiefer
        }
    }

    fn stein_schlagen_zuege(&self, position: Position, backwards: bool) -> (r: ZugMenge)
        ensures
            r.wf(),
            r@ == stein_schlagen_von(*self, position, backwards),
        decreases figuren_anzahl(*self), 2int,
    {
        if !position.valid() {
            return ZugMenge::new();
        }
        let spieler = match self.get(position) {
            Feld::Stein(spieler) => spieler,
            _ => {
                return ZugMenge::new();
            },
        };
        let richtung_v = spieler.move_direction();
        let mut zuege = self.stein_schlagen_richtung_zuege(
            position,
            spieler,
            richtung_v,
            RichtungHorizontal::Links,
        );
        zuege.add_alle(
            &self.stein_schlagen_richtung_zuege(
                position,
                spieler,
                richtung_v,
                RichtungHorizontal::Rechts,
            ),
        );
        if backwards {
            let gegen_richtung = match richtung_v {
                RichtungVertikal::Oben => RichtungVertikal::Unten,
                RichtungVertikal::Unten => RichtungVertikal::Oben,
            };
            zuege.add_alle(
                &self.stein_schlagen_richtung_zuege(
                    position,
                    spieler,
                    gegen_richtung,
                    RichtungHorizontal::Links,
                ),
            );
            zuege.add_alle(
                &self.stein_schlagen_richtung_zuege(
                    position,
                    spieler,
                    gegen_richtung,
                    RichtungHorizontal::Rechts,
                ),
            );
            proof {
                assert(gegen_richtung.spec_offset() == -richtung_v.spec_offset());
            }
        }
        proof {
            assert(zuege@ =~= stein_schlagen_von(*self, position, backwards));
        }
        zuege
    }

    fn append_all_stein_schlagen_moves(&self, spieler: Spieler, moves: &mut ZugMenge)
        requires
            old(moves).wf(),
        ensures
            final(moves).wf(),
            final(moves)@ == old(moves)@.union(alle_stein_schlagen(*self, spieler)),
    {
        let ghost beitrag = stein_schlag_beitrag(*self, spieler);
        for spalte in 0..8usize
            invariant
                moves.wf(),
                beitrag == stein_schlag_beitrag(*self, spieler),
                moves@ == old(moves)@.union(zuege_bis_spalte(beitrag, spalte as int)),
        {
            proof {
                assert(moves@ =~= old(moves)@.union(
                    zuege_bis_spalte(beitrag, spalte as int).union(
                        zuege_spalte(beitrag, spalte as int, 0),
                    ),
                ));
            }
            for zeile in 0..8usize
                invariant
                    moves.wf(),
                    spalte < 8,
                    beitrag == stein_schlag_beitrag(*self, spieler),
                    moves@ == old(moves)@.union(
                        zuege_bis_spalte(beitrag, spalte as int).union(
                            zuege_spalte(beitrag, spalte as int, zeile as int),
                        ),
                    ),
            {
                let position = Position { spalte, zeile };
                if position.valid() {
                    let ist_eigener_stein = match self.get(position) {
                        Feld::Stein(s) => s == spieler,
                        _ => false,
                    };
                    if ist_eigener_stein {
                        let zuege = self.stein_schlagen_zuege(position, false);
                        moves.add_alle(&zuege);
                        proof {
                            assert(position == pos_bei(zeile as int, spalte as int));
                            assert(beitrag(zeile as int, spalte as int) == stein_schlagen_von(
                                *self,
                                position,
                                false,
                            ));
                        }
                    } else {
                        proof {
                            assert(beitrag(zeile as int, spalte as int) =~= Set::<
                                SpielBrett,
                            >::empty());
                        }
                    }
                } else {
                    proof {
                        assert(beitrag(zeile as int, spalte as int) =~= Set::<SpielBrett>::empty());
                    }
                }
                proof {
                    assert(moves@ =~= old(moves)@.union(
                        zuege_bis_spalte(beitrag, spalte as int).union(
                            zuege_spalte(beitrag, spalte as int, zeile as int + 1),
                        ),
                    ));
                }
            }
            proof {
                assert(moves@ =~= old(moves)@.union(zuege_bis_spalte(beitrag, spalte as int + 1)));
            }
        }
    }
}

impl SpielBrett {
    fn stein_zug_ziel(
        &self,
        position: Position,
        spieler: Spieler,
        richtung_h: RichtungHorizontal,
    ) -> (r: Option<SpielBrett>)
        requires
            position.spec_valid(),
            self.spec_get(position) == Feld::Stein(spieler),
        ensures
            stein_zug_gueltig(*self, position, spieler, richtung_h.spec_offset()) ==> r == Some(
                stein_zug_brett(*self, position, spieler, richtung_h.spec_offset()),
            ),
            !stein_zug_gueltig(*self, position, spieler, richtung_h.spec_offset()) ==> r is None,
    {
        let nz = position.zeile as isize + spieler.move_direction().offset();
        let ns = position.spalte as isize + richtung_h.offset();
        if nz < 0 || ns < 0 {
            return None;
        }
        let neue_position = Position { spalte: ns as usize, zeile: nz as usize };
        if !neue_position.valid() {
            return None;
        }
        match self.get(neue_position) {
            Feld::Leer => {},
            _ => {
                return None;
            },
        }
        let mut neues_brett = *self;
        neues_brett.set(position, Feld::Leer);
        let ziel = if neue_position.zeile == spieler.dame_zeile() {
            Feld::Dame(spieler)
        } else {
            Feld::Stein(spieler)
        };
        neues_brett.set(neue_position, ziel);
        Some(neues_brett)
    }

    fn append_all_stein_moves(&self, spieler: Spieler, moves: &mut ZugMenge)
        requires
            old(moves).wf(),
        ensures
            final(moves).wf(),
            final(moves)@ == old(moves)@.union(alle_stein_zuege(*self, spieler)),
    {
        let ghost beitrag = stein_zug_beitrag(*self, spieler);
        for spalte in 0..8usize
            invariant
                moves.wf(),
                beitrag == stein_zug_beitrag(*self, spieler),
                moves@ == old(moves)@.union(zuege_bis_spalte(beitrag, spalte as int)),
        {
            proof {
                assert(moves@ =~= old(moves)@.union(
                    zuege_bis_spalte(beitrag, spalte as int).union(
                        zuege_spalte(beitrag, spalte as int, 0),
                    ),
                ));
            }
            for zeile in 0..8usize
                invariant
                    moves.wf(),
                    spalte < 8,
                    beitrag == stein_zug_beitrag(*self, spieler),
                    moves@ == old(moves)@.union(
                        zuege_bis_spalte(beitrag, spalte as int).union(
                            zuege_spalte(beitrag, spalte as int, zeile as int),
                        ),
                    ),
            {
                let position = Position { spalte, zeile };
                let ghost alt = moves@;
                if position.valid() {
                    let ist_eigener_stein = match self.get(position) {
                        Feld::Stein(s) => s == spieler,
                        _ => false,
                    };
                    if ist_eigener_stein {
                        if let Some(brett) = self.stein_zug_ziel(
                            position,
                            spieler,
                            RichtungHorizontal::Links,
                        ) {
                            moves.insert(brett);
                        }
                        if let Some(brett) = self.stein_zug_ziel(
                            position,
                            spieler,
                            RichtungHorizontal::Rechts,
                        ) {
                            moves.insert(brett);
                        }
                        proof {
                            assert(position == pos_bei(zeile as int, spalte as int));
                            assert(moves@ =~= alt.union(stein_zuege_von(*self, position, spieler)));
                        }
                    } else {
                        proof {
                            assert(beitrag(zeile as int, spalte as int) =~= Set::<
                                SpielBrett,
                            >::empty());
                        }
                    }
                } else {
                    proof {
                        assert(beitrag(zeile as int, spalte as int) =~= Set::<SpielBrett>::empty());
                    }
                }
                proof {
                    assert(moves@ =~= old(moves)@.union(
                        zuege_bis_spalte(beitrag, spalte as int).union(
                            zuege_spalte(beitrag, spalte as int, zeile as int + 1),
                        ),
                    ));
                }
            }
            proof {
                assert(moves@ =~= old(moves)@.union(zuege_bis_spalte(beitrag, spalte as int + 1)));
            }
        }
    }

    fn dame_zuege_richtung_zuege(
        &self,
        position: Position,
        spieler: Spieler,
        richtung_v: RichtungVertikal,
        richtung_h: RichtungHorizontal,
    ) -> (r: ZugMenge)
        requires
            position.spec_valid(),
        ensures
            r.wf(),
            r@ == dame_zuege_strahl(
                *self,
                position,
                spieler,
                richtung_v.spec_offset(),
                richtung_h.spec_offset(),
                1,
            ),
    {
        let ghost dv = richtung_v.spec_offset();
        let ghost dh = richtung_h.spec_offset();
        let mut zuege = ZugMenge::new();
        let mut d: usize = 1;
        while d <= 8
            invariant
                zuege.wf(),
                1 <= d <= 9,
                position.spec_valid(),
                dv == richtung_v.spec_offset(),
                dh == richtung_h.spec_offset(),
                dame_zuege_strahl(*self, position, spieler, dv, dh, 1) == zuege@.union(
                    dame_zuege_strahl(*self, position, spieler, dv, dh, d as int),
                ),
            decreases 9 - d,
        {
            let nz = position.zeile as isize + (d as isize) * richtung_v.offset();
            let ns = position.spalte as isize + (d as isize) * richtung_h.offset();
            if nz < 0 || ns < 0 {
                proof {
                    assert(zuege@ =~= dame_zuege_strahl(*self, position, spieler, dv, dh, 1));
                }
                return zuege;
            }
            let neue_position = Position { spalte: ns as usize, zeile: nz as usize };
            if !neue_position.valid() {
                proof {
                    assert(zuege@ =~= dame_zuege_strahl(*self, position, spieler, dv, dh, 1));
                }
                return zuege;
            }
            match self.get(neue_position) {
                Feld::Leer => {},
                _ => {
                    proof {
                        assert(zuege@ =~= dame_zuege_strahl(*self, position, spieler, dv, dh, 1));
                    }
                    return zuege;
                },
            }
            let mut neues_brett = *self;
            neues_brett.set(position, Feld::Leer);
            neues_brett.set(neue_position, Feld::Dame(spieler));
            let ghost zuege_alt = zuege@;
            zuege.insert(neues_brett);
            proof {
                assert(neue_position == pos_bei(
                    position.zeile as int + d as int * dv,
                    position.spalte as int + d as int * dh,
                ));
                assert(dame_zuege_strahl(*self, position, spieler, dv, dh, d as int)
                    == dame_zuege_strahl(*self, position, spieler, dv, dh, d as int + 1).insert(
                    neues_brett,
                ));
                assert(zuege@.union(dame_zuege_strahl(*self, position, spieler, dv, dh, d as int + 1))
                    =~= zuege_alt.union(
                    dame_zuege_strahl(*self, position, spieler, dv, dh, d as int),
                ));
            }
            d += 1;
        }
        proof {
            assert(zuege@ =~= dame_zuege_strahl(*self, position, spieler, dv, dh, 1));
        }
        zuege
    }

    fn append_all_dame_moves(&self, spieler: Spieler, moves: &mut ZugMenge)
        requires
            old(moves).wf(),
        ensures
            final(moves).wf(),
            final(moves)@ == old(moves)@.union(alle_dame_zuege(*self, spieler)),
    {
        let ghost beitrag = dame_zug_beitrag(*self, spieler);
        for spalte in 0..8usize
            invariant
                moves.wf(),
                beitrag == dame_zug_beitrag(*self, spieler),
                moves@ == old(moves)@.union(zuege_bis_spalte(beitrag, spalte as int)),
        {
            proof {
                assert(moves@ =~= old(moves)@.union(
                    zuege_bis_spalte(beitrag, spalte as int).union(
                        zuege_spalte(beitrag, spalte as int, 0),
                    ),
                ));
            }
            for zeile in 0..8usize
                invariant
                    moves.wf(),
                    spalte < 8,
                    beitrag == dame_zug_beitrag(*self, spieler),
                    moves@ == old(moves)@.union(
                        zuege_bis_spalte(beitrag, spalte as int).union(
                            zuege_spalte(beitrag, spalte as int, zeile as int),
                        ),
                    ),
            {
                let position = Position { spalte, zeile };
                let ghost alt = moves@;
                if position.valid() {
                    let ist_eigene_dame = match self.get(position) {
                        Feld::Dame(s) => s == spieler,
                        _ => false,
                    };
                    if ist_eigene_dame {
                        moves.add_alle(
                            &self.dame_zuege_richtung_zuege(
                                position,
                                spieler,
                                RichtungVertikal::Oben,
                                RichtungHorizontal::Links,
                            ),
                        );
                        moves.add_alle(
                            &self.dame_zuege_richtung_zuege(
                                position,
                                spieler,
                                RichtungVertikal::Oben,
                                RichtungHorizontal::Rechts,
                            ),
                        );
                        moves.add_alle(
                            &self.dame_zuege_richtung_zuege(
                                position,
                                spieler,
                                RichtungVertikal::Unten,
                                RichtungHorizontal::Links,
                            ),
                        );
                        moves.add_alle(
                            &self.dame_zuege_richtung_zuege(
                                position,
                                spieler,
                                RichtungVertikal::Unten,
                                RichtungHorizontal::Rechts,
                            ),
                        );
                        proof {
                            assert(position == pos_bei(zeile as int, spalte as int));
                            assert(moves@ =~= alt.union(dame_zuege_von(*self, position, spieler)));
                        }
                    } else {
                        proof {
                            assert(beitrag(zeile as int, spalte as int) =~= Set::<
                                SpielBrett,
                            >::empty());
                        }
                    }
                } else {
                    proof {
                        assert(beitrag(zeile as int, spalte as int) =~= Set::<SpielBrett>::empty());
                    }
                }
                proof {
                    assert(moves@ =~= old(moves)@.union(
                        zuege_bis_spalte(beitrag, spalte as int).union(
                            zuege_spalte(beitrag, spalte as int, zeile as int + 1),
                        ),
                    ));
                }
            }
            proof {
                assert(moves@ =~= old(moves)@.union(zuege_bis_spalte(beitrag, spalte as int + 1)));
            }
        }
    }

    fn dame_schlagen_richtung_zuege(
        &self,
        position: Position,
        spieler: Spieler,
        richtung_v: RichtungVertikal,
        richtung_h: RichtungHorizontal,
    ) -> (r: ZugMenge)
        requires
            position.spec_valid(),
            self.spec_get(position) == Feld::Dame(spieler),
        ensures
            r.wf(),
            r@ == dame_schlagen_strahl(
                *self,
                position,
                spieler,
                richtung_v.spec_offset(),
                richtung_h.spec_offset(),
                1,
            ),
        decreases figuren_anzahl(*self), 1int,
    {
        let ghost dv = richtung_v.spec_offset();
        let ghost dh = richtung_h.spec_offset();
        let mut d: usize = 1;
        while d <= 8
            invariant
                1 <= d <= 9,
                position.spec_valid(),
                self.spec_get(position) == Feld::Dame(spieler),
                dv == richtung_v.spec_offset(),
                dh == richtung_h.spec_offset(),
                dame_schlagen_strahl(*self, position, spieler, dv, dh, 1) == dame_schlagen_strahl(
                    *self,
                    position,
                    spieler,
                    dv,
                    dh,
                    d as int,
                ),
            decreases 9 - d,
        {
            let sz = position.zeile as isize + (d as isize) * richtung_v.offset();
            let ss = position.spalte as isize + (d as isize) * richtung_h.offset();
            if sz < 0 || ss < 0 {
                return ZugMenge::new();
            }
            let schlagen_position = Position { spalte: ss as usize, zeile: sz as usize };
            if !schlagen_position.valid() {
                return ZugMenge::new();
            }
            let geschlagen_spieler = match self.get(schlagen_position) {
                Feld::Leer => {
                    proof {
                        assert(dame_schlagen_strahl(*self, position, spieler, dv, dh, d as int)
                            == dame_schlagen_strahl(
                            *self,
                            position,
                            spieler,
                            dv,
                            dh,
                            d as int + 1,
                        ));
                    }
                    d += 1;
                    continue ;
                },
                Feld::Stein(s) => s,
                Feld::Dame(s) => s,
            };
            if geschlagen_spieler == spieler {
                return ZugMenge::new();
            }
            let nz = sz + richtung_v.offset();
            let ns = ss + richtung_h.offset();
            if nz < 0 || ns < 0 {
                return ZugMenge::new();
            }
            let neue_position = Position { spalte: ns as usize, zeile: nz as usize };
            if !neue_position.valid() {
                return ZugMenge::new();
            }
            match self.get(neue_position) {
                Feld::Leer => {},
                _ => {
                    return ZugMenge::new();
                },
            }
            let mut neues_brett = *self;
            neues_brett.set(position, Feld::Leer);
            neues_brett.set(schlagen_position, Feld::Leer);
            neues_brett.set(neue_position, Feld::Dame(spieler));
            proof {
                assert(spieler != spieler.spec_gegner());
                assert(feld_gehoert(self.spec_get(schlagen_position), spieler.spec_gegner()));
                lemma_schlag_verringert_figuren(
                    *self,
                    position,
                    schlagen_position,
                    neue_position,
                    Feld::Dame(spieler),
                );
            }
            let tiefer = neues_brett.dame_schlagen_zuege(neue_position);
            if tiefer.is_empty() {
                let mut r = ZugMenge::new();
                r.insert(neues_brett);
                return r;
            } else {
                return tiefer;
            }
        }
        ZugMenge::new()
    }

    fn dame_schlagen_zuege(&self, position: Position) -> (r: ZugMenge)
        ensures
            r.wf(),
            r@ == dame_schlagen_von(*self, position),
        decreases figuren_anzahl(*self), 2int,
    {
        if !position.valid() {
            return ZugMenge::new();
        }
        let spieler = match self.get(position) {
            Feld::Dame(spieler) => spieler,
            _ => {
                return ZugMenge::new();
            },
        };
        let mut zuege = self.dame_schlagen_richtung_zuege(
            position,
            spieler,
            RichtungVertikal::Oben,
            RichtungHorizontal::Links,
        );
        zuege.add_alle(
            &self.dame_schlagen_richtung_zuege(
                position,
                spieler,
                RichtungVertikal::Oben,
                RichtungHorizontal::Rechts,
            ),
        );
        zuege.add_alle(
            &self.dame_schlagen_richtung_zuege(
                position,
                spieler,
                RichtungVertikal::Unten,
                RichtungHorizontal::Links,
            ),
        );
        zuege.add_alle(
            &self.dame_schlagen_richtung_zuege(
                position,
                spieler,
                RichtungVertikal::Unten,
                RichtungHorizontal::Rechts,
            ),
        );
        proof {
            assert(zuege@ =~= dame_schlagen_von(*self, position));
        }
        zuege
    }

    fn append_all_dame_schlagen_moves(&self, spieler: Spieler, moves: &mut ZugMenge)
        requires
            old(moves).wf(),
        ensures
            final(moves).wf(),
            final(moves)@ == old(moves)@.union(alle_dame_schlagen(*self, spieler)),
    {
        let ghost beitrag = dame_schlag_beitrag(*self, spieler);
        for spalte in 0..8usize
            invariant
                moves.wf(),
                beitrag == dame_schlag_beitrag(*self, spieler),
                moves@ == old(moves)@.union(zuege_bis_spalte(beitrag, spalte as int)),
        {
            proof {
                assert(moves@ =~= old(moves)@.union(
                    zuege_bis_spalte(beitrag, spalte as int).union(
                        zuege_spalte(beitrag, spalte as int, 0),
                    ),
                ));
            }
            for zeile in 0..8usize
                invariant
                    moves.wf(),
                    spalte < 8,
                    beitrag == dame_schlag_beitrag(*self, spieler),
                    moves@ == old(moves)@.union(
                        zuege_bis_spalte(beitrag, spalte as int).union(
                            zuege_spalte(beitrag, spalte as int, zeile as int),
                        ),
                    ),
            {
                let position = Position { spalte, zeile };
                if position.valid() {
                    let ist_eigene_dame = match self.get(position) {
                        Feld::Dame(s) => s == spieler,
                        _ => false,
                    };
                    if ist_eigene_dame {
                        let zuege = self.dame_schlagen_zuege(position);
                        moves.add_alle(&zuege);
                        proof {
                            assert(position == pos_bei(zeile as int, spalte as int));
                            assert(beitrag(zeile as int, spalte as int) == dame_schlagen_von(
                                *self,
                                position,
                            ));
                        }
                    } else {
                        proof {
                            assert(beitrag(zeile as int, spalte as int) =~= Set::<
                                SpielBrett,
                            >::empty());
                        }
                    }
                } else {
                    proof {
                        assert(beitrag(zeile as int, spalte as int) =~= Set::<SpielBrett>::empty());
                    }
                }
                proof {
                    assert(moves@ =~= old(moves)@.union(
                        zuege_bis_spalte(beitrag, spalte as int).union(
                            zuege_spalte(beitrag, spalte as int, zeile as int + 1),
                        ),
                    ));
                }
            }
            proof {
                assert(moves@ =~= old(moves)@.union(zuege_bis_spalte(beitrag, spalte as int + 1)));
            }
        }
    }

    /// The set of boards reachable by one full legal turn of `spieler`:
    /// exactly the capturing moves when any capture exists (capture is
    /// mandatory), otherwise the plain steps and slides.
    pub fn get_possible_moves(&self, spieler: Spieler) -> (r: ZugMenge)
        ensures
            r.wf(),
            r@ == spec_possible_moves(*self, spieler),
    {
        let mut moves = ZugMenge::new();
        self.append_all_stein_schlagen_moves(spieler, &mut moves);
        self.append_all_dame_schlagen_moves(spieler, &mut moves);
        proof {
            assert(moves@ =~= schlag_zuege(*self, spieler));
        }
        if !moves.is_empty() {
            return moves;
        }
        self.append_all_stein_moves(spieler, &mut moves);
        self.append_all_dame_moves(spieler, &mut moves);
        proof {
            assert(moves@ =~= normale_zuege(*self, spieler));
        }
        moves
    }
}

/// Capture is mandatory: whenever a capture is available, the legal moves
/// are exactly the capturing moves, and no non-capturing board is offered;
/// only when no capture exists are the plain moves legal.
pub proof fn lemma_schlagzwang(b: SpielBrett, spieler: Spieler)
    ensures
        !schlag_zuege(b, spieler).is_empty() ==> spec_possible_moves(b, spieler) == schlag_zuege(
            b,
            spieler,
        ),
        schlag_zuege(b, spieler).is_empty() ==> spec_possible_moves(b, spieler) == normale_zuege(
            b,
            spieler,
        ),
{
}

} // verus!
