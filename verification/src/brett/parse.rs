use vstd::prelude::*;
use vstd::array::spec_array_update;
use vstd::arithmetic::div_mod::lemma_fundamental_div_mod;
use vstd::std_specs::iter::IteratorSpec;

use crate::brett::gueltig;
use crate::brett::leere_zeile;
use crate::brett::leeres_brett;
use crate::brett::spec_brett_text;
use crate::brett::spec_brett_text_bis;
use crate::brett::spec_feld_char;
use crate::brett::spec_zeile_text;
use crate::brett::Feld;
use crate::brett::Position;
use crate::brett::SpielBrett;
use crate::brett::Spieler;
use crate::brett::Zeile;

verus! {

/// The cell denoted by a notation character, if any.
pub open spec fn spec_feld_parse(c: char) -> Option<Feld> {
    if c == '_' {
        Some(Feld::Leer)
    } else if c == 'm' {
        Some(Feld::Stein(Spieler::Mensch))
    } else if c == 'M' {
        Some(Feld::Dame(Spieler::Mensch))
    } else if c == 'c' {
        Some(Feld::Stein(Spieler::Computer))
    } else if c == 'C' {
        Some(Feld::Dame(Spieler::Computer))
    } else {
        None
    }
}

impl Feld {
    fn parse(character: char) -> (r: Option<Self>)
        ensures
            r == spec_feld_parse(character),
    {
        match character {
            '_' => Some(Self::Leer),
            'm' => Some(Self::Stein(Spieler::Mensch)),
            'M' => Some(Self::Dame(Spieler::Mensch)),
            'c' => Some(Self::Stein(Spieler::Computer)),
            'C' => Some(Self::Dame(Spieler::Computer)),
            _ => None,
        }
    }
}

/// The character `c` is acceptable at column `s` of row `zeile`: a piece
/// character or `_` on a playable cell, a space on an inert one.
pub open spec fn zeichen_passt(c: char, zeile: int, s: int) -> bool {
    if gueltig(zeile, s) {
        spec_feld_parse(c) is Some
    } else {
        c == ' '
    }
}

/// The text `t` is a well-formed row `zeile`: eight characters, each
/// acceptable at its column.
pub open spec fn zeile_passt(t: Seq<char>, zeile: int) -> bool {
    t.len() == 8 && forall|s: int| 0 <= s < 8 ==> #[trigger] zeichen_passt(t[s], zeile, s)
}

/// The row built from the first `bis` characters of `t`, unread cells
/// empty.
pub open spec fn zeile_aus_text(t: Seq<char>, zeile: int, bis: int) -> Zeile
    decreases bis,
{
    if bis <= 0 {
        leere_zeile()
    } else {
        let vorher = zeile_aus_text(t, zeile, bis - 1);
        if gueltig(zeile, bis - 1) {
            Zeile {
                felder: spec_array_update(
                    vorher.felder,
                    (bis - 1) / 2,
                    spec_feld_parse(t[bis - 1]).unwrap(),
                ),
            }
        } else {
            vorher
        }
    }
}

/// What parsing one row of text yields: the decoded row, or nothing when
/// the text does not denote row `zeile`.
pub open spec fn spec_zeile_parse(zeile: int, t: Seq<char>) -> Option<Zeile> {
    if zeile_passt(t, zeile) {
        Some(zeile_aus_text(t, zeile, 8))
    } else {
        None
    }
}

/// Collects the characters of a string slice.
fn str_chars(text: &str) -> (r: Vec<char>)
    ensures
        r@ == text@,
{
    let mut iter = text.chars();
    let mut v: Vec<char> = Vec::new();
    loop
        invariant
            iter.obeys_prophetic_iter_laws(),
            iter.decrease() is Some,
            v@ + iter.remaining() == text@,
        ensures
            v@ == text@,
        decreases iter.decrease()->0,
    {
        match iter.next() {
            Some(c) => {
                v.push(c);
            },
            None => {
                proof {
                    assert(v@ =~= text@);
                }
                break ;
            },
        }
    }
    v
}

impl Zeile {
    /// Reads eight characters of `chars` from `start` on as row `zeile`.
    fn aus_zeichen(zeile: usize, chars: &Vec<char>, start: usize) -> (r: Option<Zeile>)
        requires
            start + 8 <= chars@.len(),
        ensures
            r == spec_zeile_parse(zeile as int, chars@.subrange(start as int, start as int + 8)),
    {
        let ghost t = chars@.subrange(start as int, start as int + 8);
        let n = chars.len();
        let mut ergebnis = Zeile::default();
        for spalte in 0..8usize
            invariant
                n == chars@.len(),
                start + 8 <= n,
                t == chars@.subrange(start as int, start as int + 8),
                ergebnis == zeile_aus_text(t, zeile as int, spalte as int),
                forall|s: int| 0 <= s < spalte ==> #[trigger] zeichen_passt(t[s], zeile as int, s),
        {
            let c = chars[start + spalte];
            proof {
                assert(c == t[spalte as int]);
            }
            let position = Position { spalte, zeile };
            if position.valid() {
                match Feld::parse(c) {
                    Some(feld) => {
                        ergebnis.set(position, feld);
                    },
                    None => {
                        proof {
                            assert(!zeichen_passt(t[spalte as int], zeile as int, spalte as int));
                        }
                        return None;
                    },
                }
            } else {
                if c != ' ' {
                    proof {
                        assert(!zeichen_passt(t[spalte as int], zeile as int, spalte as int));
                    }
                    return None;
                }
            }
        }
        proof {
            assert(zeile_passt(t, zeile as int));
        }
        Some(ergebnis)
    }

    /// Reads one line of text notation as row `zeile`; absent when the
    /// line does not have exactly eight acceptable characters.
    pub fn parse(zeile: usize, text: &str) -> (r: Option<Self>)
        ensures
            r == spec_zeile_parse(zeile as int, text@),
    {
        let chars = str_chars(text);
        if chars.len() != 8 {
            return None;
        }
        proof {
            assert(chars@.subrange(0, 8) =~= text@);
        }
        Self::aus_zeichen(zeile, &chars, 0)
    }
}

/// `t` with every carriage return that directly precedes a line feed
/// removed: a `"\r\n"` line ending becomes a plain `"\n"`, while a lone
/// carriage return stays (and later fails the row checks).
pub open spec fn entferne_cr(t: Seq<char>) -> Seq<char>
    decreases t.len(),
{
    if t.len() == 0 {
        Seq::empty()
    } else if t.len() >= 2 && t[0] == '\r' && t[1] == '\n' {
        seq!['\n'] + entferne_cr(t.skip(2))
    } else {
        seq![t[0]] + entferne_cr(t.skip(1))
    }
}

/// The text `t` (with its line endings already normalized) is a
/// well-formed board: eight well-formed rows of eight characters each,
/// separated by line feeds, with at most one trailing line feed.
pub open spec fn brett_text_passt(t: Seq<char>) -> bool {
    &&& (t.len() == 71 || (t.len() == 72 && t[71] == '\n'))
    &&& forall|z: int| 0 <= z < 7 ==> #[trigger] t[9 * z + 8] == '\n'
    &&& forall|z: int|
        0 <= z < 8 ==> (#[trigger] spec_zeile_parse(z, t.subrange(9 * z, 9 * z + 8))) is Some
}

/// The board built from the first `bis` rows of `t`, unread rows empty.
pub open spec fn brett_aus_text(t: Seq<char>, bis: int) -> SpielBrett
    decreases bis,
{
    if bis <= 0 {
        leeres_brett()
    } else {
        let vorher = brett_aus_text(t, bis - 1);
        SpielBrett {
            zeilen: spec_array_update(
                vorher.zeilen,
                bis - 1,
                spec_zeile_parse(bis - 1, t.subrange(9 * (bis - 1), 9 * (bis - 1) + 8)).unwrap(),
            ),
        }
    }
}

/// What parsing a board text yields: the decoded board, or nothing when
/// the text is not well-formed. Lines may end in `"\n"` or `"\r\n"`.
pub open spec fn spec_brett_parse(t: Seq<char>) -> Option<SpielBrett> {
    if brett_text_passt(entferne_cr(t)) {
        Some(brett_aus_text(entferne_cr(t), 8))
    } else {
        None
    }
}

/// Normalizes line endings: drops each carriage return that directly
/// precedes a line feed.
fn entferne_cr_zeichen(chars: &Vec<char>) -> (r: Vec<char>)
    ensures
        r@ == entferne_cr(chars@),
{
    let n = chars.len();
    let mut bereinigt: Vec<char> = Vec::new();
    let mut i: usize = 0;
    proof {
        assert(chars@.skip(0) =~= chars@);
        assert(bereinigt@ + entferne_cr(chars@.skip(0)) =~= entferne_cr(chars@));
    }
    while i < n
        invariant
            n == chars@.len(),
            i <= n,
            bereinigt@ + entferne_cr(chars@.skip(i as int)) == entferne_cr(chars@),
        decreases n - i,
    {
        let ghost rest = chars@.skip(i as int);
        let ghost vorher = bereinigt@;
        if chars[i] == '\r' && i + 1 < n && chars[i + 1] == '\n' {
            bereinigt.push('\n');
            proof {
                assert(rest[0] == '\r');
                assert(rest[1] == '\n');
                assert(rest.skip(2) =~= chars@.skip(i as int + 2));
                assert(entferne_cr(rest) == seq!['\n'] + entferne_cr(chars@.skip(i as int + 2)));
                assert(bereinigt@ + entferne_cr(chars@.skip(i as int + 2)) =~= vorher + entferne_cr(
                    rest,
                ));
            }
            i = i + 2;
        } else {
            bereinigt.push(chars[i]);
            proof {
                assert(rest[0] == chars@[i as int]);
                if i + 1 < n {
                    assert(rest[1] == chars@[i as int + 1]);
                }
                assert(rest.skip(1) =~= chars@.skip(i as int + 1));
                assert(entferne_cr(rest) == seq![rest[0]] + entferne_cr(
                    chars@.skip(i as int + 1),
                ));
                assert(bereinigt@ + entferne_cr(chars@.skip(i as int + 1)) =~= vorher + entferne_cr(
                    rest,
                ));
            }
            i = i + 1;
        }
    }
    proof {
        assert(chars@.skip(n as int) =~= Seq::<char>::empty());
        assert(bereinigt@ =~= entferne_cr(chars@));
    }
    bereinigt
}

impl SpielBrett {
    /// Reads a board from text notation; absent when the text is not
    /// exactly eight lines of eight acceptable characters. A line may end
    /// in a line feed or in a carriage return followed by a line feed.
    pub fn parse(text: &str) -> (r: Option<Self>)
        ensures
            r == spec_brett_parse(text@),
    {
        let roh = str_chars(text);
        let chars = entferne_cr_zeichen(&roh);
        let ghost t = entferne_cr(text@);
        if !(chars.len() == 71 || (chars.len() == 72 && chars[71] == '\n')) {
            return None;
        }
        for z in 0..7usize
            invariant
                t == entferne_cr(text@),
                t == chars@,
                chars@.len() >= 71,
                forall|zz: int| 0 <= zz < z ==> #[trigger] t[9 * zz + 8] == '\n',
        {
            if chars[9 * z + 8] != '\n' {
                proof {
                    assert(t[9 * (z as int) + 8] != '\n');
                    assert(!brett_text_passt(t));
                }
                return None;
            }
        }
        let mut brett = SpielBrett::default();
        for z in 0..8usize
            invariant
                t == entferne_cr(text@),
                t == chars@,
                chars@.len() >= 71,
                brett == brett_aus_text(t, z as int),
                forall|zz: int|
                    0 <= zz < z ==> (#[trigger] spec_zeile_parse(
                        zz,
                        t.subrange(9 * zz, 9 * zz + 8),
                    )) is Some,
        {
            match Zeile::aus_zeichen(z, &chars, 9 * z) {
                Some(zeile) => {
                    brett.zeilen[z] = zeile;
                    proof {
                        assert(brett.zeilen =~= brett_aus_text(t, z as int + 1).zeilen);
                    }
                },
                None => {
                    proof {
                        assert(spec_zeile_parse(
                            z as int,
                            t.subrange(9 * (z as int), 9 * (z as int) + 8),
                        ) is None);
                        assert(!brett_text_passt(t));
                    }
                    return None;
                },
            }
        }
        proof {
            assert(brett_text_passt(t));
        }
        Some(brett)
    }
}

proof fn lemma_text_laenge(b: SpielBrett, z: int)
    requires
        0 <= z <= 8,
    ensures
        spec_brett_text_bis(b, z).len() == if z < 8 {
            9 * z
        } else {
            71int
        },
    decreases z,
{
    if z > 0 {
        lemma_text_laenge(b, z - 1);
    }
}

proof fn lemma_text_zeile(b: SpielBrett, z: int, zz: int)
    requires
        0 <= zz < z <= 8,
    ensures
        spec_brett_text_bis(b, z).subrange(9 * zz, 9 * zz + 8) == spec_zeile_text(
            b.zeilen[zz],
            zz,
        ),
        zz < 7 ==> spec_brett_text_bis(b, z)[9 * zz + 8] == '\n',
    decreases z,
{
    lemma_text_laenge(b, z);
    lemma_text_laenge(b, z - 1);
    if zz == z - 1 {
        assert(spec_brett_text_bis(b, z).subrange(9 * zz, 9 * zz + 8) =~= spec_zeile_text(
            b.zeilen[zz],
            zz,
        ));
    } else {
        lemma_text_zeile(b, z - 1, zz);
        assert(spec_brett_text_bis(b, z).subrange(9 * zz, 9 * zz + 8) =~= spec_brett_text_bis(
            b,
            z - 1,
        ).subrange(9 * zz, 9 * zz + 8));
    }
}

proof fn lemma_feld_zeichen(f: Feld)
    ensures
        spec_feld_parse(spec_feld_char(f)) == Some(f),
{
}

proof fn lemma_zeile_aus_text_praefix(zl: Zeile, z: int, t: Seq<char>, n: int)
    requires
        t == spec_zeile_text(zl, z),
        0 <= z < 8,
        0 <= n <= 8,
    ensures
        forall|i: int|
            0 <= i < 4 ==> zeile_aus_text(t, z, n).felder[i] == if 2 * i + z % 2 < n {
                zl.felder[i]
            } else {
                Feld::Leer
            },
    decreases n,
{
    if n > 0 {
        lemma_zeile_aus_text_praefix(zl, z, t, n - 1);
        if gueltig(z, n - 1) {
            lemma_fundamental_div_mod(n - 1, 2);
            assert(2 * ((n - 1) / 2) + z % 2 == n - 1);
            assert(t[n - 1] == spec_feld_char(zl.spec_get(n - 1)));
            lemma_feld_zeichen(zl.felder[(n - 1) / 2]);
            assert forall|i: int| 0 <= i < 4 implies zeile_aus_text(t, z, n).felder[i] == (if 2 * i
                + z % 2 < n {
                zl.felder[i]
            } else {
                Feld::Leer
            }) by {
                if i != (n - 1) / 2 {
                    lemma_fundamental_div_mod(2 * i + z % 2, 2);
                    assert(2 * i + z % 2 != n - 1);
                }
            }
        } else {
            assert forall|i: int| 0 <= i < 4 implies zeile_aus_text(t, z, n).felder[i] == (if 2 * i
                + z % 2 < n {
                zl.felder[i]
            } else {
                Feld::Leer
            }) by {
                assert(2 * i + z % 2 != n - 1) by {
                    if 2 * i + z % 2 == n - 1 {
                        assert(gueltig(z, n - 1));
                    }
                }
            }
        }
    }
}

proof fn lemma_zeile_roundtrip(zl: Zeile, z: int)
    requires
        0 <= z < 8,
    ensures
        spec_zeile_parse(z, spec_zeile_text(zl, z)) == Some(zl),
{
    let t = spec_zeile_text(zl, z);
    assert forall|s: int| 0 <= s < 8 implies #[trigger] zeichen_passt(t[s], z, s) by {
        if gueltig(z, s) {
            lemma_feld_zeichen(zl.spec_get(s));
        }
    }
    assert(zeile_passt(t, z));
    lemma_zeile_aus_text_praefix(zl, z, t, 8);
    let gebaut = zeile_aus_text(t, z, 8);
    assert forall|i: int| 0 <= i < 4 implies gebaut.felder[i] == zl.felder[i] by {
        assert(2 * i + z % 2 < 8);
    }
    assert(gebaut.felder =~= zl.felder);
}

proof fn lemma_brett_aus_text_praefix(b: SpielBrett, t: Seq<char>, n: int)
    requires
        t == spec_brett_text(b),
        0 <= n <= 8,
    ensures
        forall|i: int|
            0 <= i < 8 ==> brett_aus_text(t, n).zeilen[i] == if i < n {
                b.zeilen[i]
            } else {
                leere_zeile()
            },
    decreases n,
{
    if n > 0 {
        lemma_brett_aus_text_praefix(b, t, n - 1);
        lemma_text_laenge(b, 8);
        lemma_text_zeile(b, 8, n - 1);
        lemma_zeile_roundtrip(b.zeilen[n - 1], n - 1);
        assert(spec_zeile_parse(n - 1, t.subrange(9 * (n - 1), 9 * (n - 1) + 8)) == Some(
            b.zeilen[n - 1],
        ));
        assert forall|i: int| 0 <= i < 8 implies brett_aus_text(t, n).zeilen[i] == (if i < n {
            b.zeilen[i]
        } else {
            leere_zeile()
        }) by {
            if i != n - 1 {
                assert(brett_aus_text(t, n).zeilen[i] == brett_aus_text(t, n - 1).zeilen[i]);
            }
        }
    }
}


proof fn lemma_text_bis_ohne_cr(b: SpielBrett, z: int)
    requires
        0 <= z <= 8,
    ensures
        forall|i: int|
            0 <= i < spec_brett_text_bis(b, z).len() ==> #[trigger] spec_brett_text_bis(b, z)[i]
                != '\r',
    decreases z,
{
    if z > 0 {
        lemma_text_bis_ohne_cr(b, z - 1);
        let vorher = spec_brett_text_bis(b, z - 1);
        let zt = spec_zeile_text(b.zeilen[z - 1], z - 1);
        assert forall|i: int| 0 <= i < spec_brett_text_bis(b, z).len() implies #[trigger] spec_brett_text_bis(
            b,
            z,
        )[i] != '\r' by {
            if i < vorher.len() {
                assert(spec_brett_text_bis(b, z)[i] == vorher[i]);
            } else if i < vorher.len() + 8 {
                let s = i - vorher.len();
                assert(spec_brett_text_bis(b, z)[i] == zt[s]);
                assert(zt[s] != '\r');
            } else {
                assert(spec_brett_text_bis(b, z)[i] == '\n');
            }
        }
    }
}

proof fn lemma_entferne_cr_ohne_cr(t: Seq<char>)
    requires
        forall|i: int| 0 <= i < t.len() ==> t[i] != '\r',
    ensures
        entferne_cr(t) == t,
    decreases t.len(),
{
    if t.len() > 0 {
        assert forall|i: int| 0 <= i < t.skip(1).len() implies t.skip(1)[i] != '\r' by {
            assert(t.skip(1)[i] == t[i + 1]);
        }
        lemma_entferne_cr_ohne_cr(t.skip(1));
        assert(entferne_cr(t) =~= t);
    }
}

/// Parsing inverts rendering: reading back the text notation of any board
/// gives exactly that board.
pub proof fn lemma_parse_to_string(b: SpielBrett)
    ensures
        spec_brett_parse(spec_brett_text(b)) == Some(b),
{
    let t = spec_brett_text(b);
    lemma_text_bis_ohne_cr(b, 8);
    lemma_entferne_cr_ohne_cr(t);
    assert(entferne_cr(t) == t);
    lemma_text_laenge(b, 8);
    assert forall|z: int| 0 <= z < 7 implies #[trigger] t[9 * z + 8] == '\n' by {
        lemma_text_zeile(b, 8, z);
    }
    assert forall|z: int| 0 <= z < 8 implies (#[trigger] spec_zeile_parse(
        z,
        t.subrange(9 * z, 9 * z + 8),
    )) is Some by {
        lemma_text_zeile(b, 8, z);
        lemma_zeile_roundtrip(b.zeilen[z], z);
    }
    assert(brett_text_passt(t));
    lemma_brett_aus_text_praefix(b, t, 8);
    let gebaut = brett_aus_text(t, 8);
    assert(gebaut.zeilen =~= b.zeilen);
}

} // verus!
