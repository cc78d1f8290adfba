use dame::brett::Position;
use dame::brett::RichtungHorizontal;
use dame::brett::RichtungVertikal;
use dame::brett::Spieler;

fn valid(spalte: usize, zeile: usize) -> bool {
    Position { spalte, zeile }.valid()
}

#[test]
fn test_position_valid() {
    assert_eq!(valid(0, 0), true);
    assert_eq!(valid(0, 1), false);
    assert_eq!(valid(0, 2), true);
    assert_eq!(valid(0, 3), false);
    assert_eq!(valid(0, 4), true);
    assert_eq!(valid(0, 5), false);
    assert_eq!(valid(0, 6), true);
    assert_eq!(valid(0, 7), false);

    assert_eq!(valid(1, 0), false);
    assert_eq!(valid(1, 1), true);
    assert_eq!(valid(1, 2), false);
    assert_eq!(valid(1, 3), true);
    assert_eq!(valid(1, 4), false);
    assert_eq!(valid(1, 5), true);
    assert_eq!(valid(1, 6), false);
    assert_eq!(valid(1, 7), true);

    assert_eq!(valid(2, 0), true);
    assert_eq!(valid(2, 1), false);
    assert_eq!(valid(2, 2), true);
    assert_eq!(valid(2, 3), false);
    assert_eq!(valid(2, 4), true);
    assert_eq!(valid(2, 5), false);
    assert_eq!(valid(2, 6), true);
    assert_eq!(valid(2, 7), false);

    assert_eq!(valid(3, 0), false);
    assert_eq!(valid(3, 1), true);
    assert_eq!(valid(3, 2), false);
    assert_eq!(valid(3, 3), true);
    assert_eq!(valid(3, 4), false);
    assert_eq!(valid(3, 5), true);
    assert_eq!(valid(3, 6), false);
    assert_eq!(valid(3, 7), true);

    assert_eq!(valid(8, 0), false);
    assert_eq!(valid(0, 8), false);
}

#[test]
fn valid_iff_same_parity_exhaustive() {
    for zeile in 0..8usize {
        for spalte in 0..8usize {
            assert_eq!(valid(spalte, zeile), zeile % 2 == spalte % 2);
        }
    }
}

#[test]
fn valid_spalte_and_zeile_bounds() {
    assert!(Position::valid_spalte(0));
    assert!(Position::valid_spalte(7));
    assert!(!Position::valid_spalte(-1));
    assert!(!Position::valid_spalte(8));
    assert!(Position::valid_zeile(0));
    assert!(Position::valid_zeile(7));
    assert!(!Position::valid_zeile(-1));
    assert!(!Position::valid_zeile(8));
}

#[test]
fn offsets_of_directions() {
    assert_eq!(RichtungHorizontal::Links.offset(), -1);
    assert_eq!(RichtungHorizontal::Rechts.offset(), 1);
    assert_eq!(RichtungVertikal::Oben.offset(), -1);
    assert_eq!(RichtungVertikal::Unten.offset(), 1);
}

#[test]
fn spieler_directions_and_promotion_rows() {
    assert_eq!(Spieler::Mensch.move_direction(), RichtungVertikal::Unten);
    assert_eq!(Spieler::Computer.move_direction(), RichtungVertikal::Oben);
    assert_eq!(Spieler::Mensch.dame_zeile(), 7);
    assert_eq!(Spieler::Computer.dame_zeile(), 0);
}
