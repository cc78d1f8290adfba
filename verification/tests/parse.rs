use dame::brett::Feld;
use dame::brett::SpielBrett;
use dame::brett::Spieler;
use dame::brett::Zeile;

#[test]
fn test_brett_parse_1() {
    let brett = SpielBrett::parse(
        "m m m m \n m m m m\nm m m m \n _ _ _ _\n_ _ _ _ \n c c c c\nc c c c \n c c c c",
    )
    .unwrap();

    assert_eq!(
        brett.zeilen[0],
        Zeile::from_felder([
            Feld::Stein(Spieler::Mensch),
            Feld::Stein(Spieler::Mensch),
            Feld::Stein(Spieler::Mensch),
            Feld::Stein(Spieler::Mensch)
        ])
    );

    assert_eq!(
        brett.zeilen[1],
        Zeile::from_felder([
            Feld::Stein(Spieler::Mensch),
            Feld::Stein(Spieler::Mensch),
            Feld::Stein(Spieler::Mensch),
            Feld::Stein(Spieler::Mensch)
        ])
    );

    assert_eq!(
        brett.zeilen[2],
        Zeile::from_felder([
            Feld::Stein(Spieler::Mensch),
            Feld::Stein(Spieler::Mensch),
            Feld::Stein(Spieler::Mensch),
            Feld::Stein(Spieler::Mensch)
        ])
    );

    assert_eq!(
        brett.zeilen[3],
        Zeile::from_felder([Feld::Leer, Feld::Leer, Feld::Leer, Feld::Leer,])
    );

    assert_eq!(
        brett.zeilen[4],
        Zeile::from_felder([Feld::Leer, Feld::Leer, Feld::Leer, Feld::Leer,])
    );

    assert_eq!(
        brett.zeilen[5],
        Zeile::from_felder([
            Feld::Stein(Spieler::Computer),
            Feld::Stein(Spieler::Computer),
            Feld::Stein(Spieler::Computer),
            Feld::Stein(Spieler::Computer)
        ])
    );

    assert_eq!(
        brett.zeilen[6],
        Zeile::from_felder([
            Feld::Stein(Spieler::Computer),
            Feld::Stein(Spieler::Computer),
            Feld::Stein(Spieler::Computer),
            Feld::Stein(Spieler::Computer)
        ])
    );

    assert_eq!(
        brett.zeilen[7],
        Zeile::from_felder([
            Feld::Stein(Spieler::Computer),
            Feld::Stein(Spieler::Computer),
            Feld::Stein(Spieler::Computer),
            Feld::Stein(Spieler::Computer)
        ])
    );
}

#[test]
fn test_brett_parse_2() {
    let brett = SpielBrett::parse(
        "C c _ m \n _ M c C\n_ _ _ _ \n _ _ _ _\n_ _ _ _ \n _ _ _ _\n_ _ _ _ \n _ _ _ _",
    )
    .unwrap();

    assert_eq!(
        brett.zeilen[0],
        Zeile::from_felder([
            Feld::Dame(Spieler::Computer),
            Feld::Stein(Spieler::Computer),
            Feld::Leer,
            Feld::Stein(Spieler::Mensch)
        ])
    );

    assert_eq!(
        brett.zeilen[1],
        Zeile::from_felder([
            Feld::Leer,
            Feld::Dame(Spieler::Mensch),
            Feld::Stein(Spieler::Computer),
            Feld::Dame(Spieler::Computer)
        ])
    );
}

#[test]
fn parse_accepts_trailing_newline() {
    let ohne = SpielBrett::parse(
        "_ _ _ _ \n _ _ _ _\n_ _ _ _ \n _ _ _ _\n_ _ _ _ \n _ _ _ _\n_ _ _ _ \n _ _ _ _",
    );
    let mit = SpielBrett::parse(
        "_ _ _ _ \n _ _ _ _\n_ _ _ _ \n _ _ _ _\n_ _ _ _ \n _ _ _ _\n_ _ _ _ \n _ _ _ _\n",
    );
    assert!(ohne.is_some());
    assert!(mit.is_some());
    assert_eq!(ohne.unwrap(), mit.unwrap());
}

#[test]
fn parse_rejects_wrong_line_count() {
    assert!(SpielBrett::parse("").is_none());
    assert!(SpielBrett::parse("m m m m ").is_none());
    assert!(
        SpielBrett::parse(
            "_ _ _ _ \n _ _ _ _\n_ _ _ _ \n _ _ _ _\n_ _ _ _ \n _ _ _ _\n_ _ _ _ "
        )
        .is_none()
    );
    assert!(
        SpielBrett::parse(
            "_ _ _ _ \n _ _ _ _\n_ _ _ _ \n _ _ _ _\n_ _ _ _ \n _ _ _ _\n_ _ _ _ \n _ _ _ _\n\n"
        )
        .is_none()
    );
}

#[test]
fn parse_rejects_wrong_line_length() {
    assert!(
        SpielBrett::parse(
            "_ _ _ _\n _ _ _ _\n_ _ _ _ \n _ _ _ _\n_ _ _ _ \n _ _ _ _\n_ _ _ _ \n _ _ _ _"
        )
        .is_none()
    );
}

#[test]
fn parse_rejects_unknown_character() {
    assert!(
        SpielBrett::parse(
            "x _ _ _ \n _ _ _ _\n_ _ _ _ \n _ _ _ _\n_ _ _ _ \n _ _ _ _\n_ _ _ _ \n _ _ _ _"
        )
        .is_none()
    );
}

#[test]
fn parse_rejects_piece_on_inert_cell() {
    assert!(
        SpielBrett::parse(
            "_m_ _ _ \n _ _ _ _\n_ _ _ _ \n _ _ _ _\n_ _ _ _ \n _ _ _ _\n_ _ _ _ \n _ _ _ _"
        )
        .is_none()
    );
}

#[test]
fn zeile_parse_reads_one_line() {
    let zeile = Zeile::parse(0, "m _ C _ ").unwrap();
    assert_eq!(
        zeile,
        Zeile::from_felder([
            Feld::Stein(Spieler::Mensch),
            Feld::Leer,
            Feld::Dame(Spieler::Computer),
            Feld::Leer
        ])
    );
    assert!(Zeile::parse(0, " m _ C _").is_none());
    assert!(Zeile::parse(1, " m _ C _").is_some());
    assert!(Zeile::parse(0, "m _ C _").is_none());
}

#[test]
fn to_string_then_parse_round_trips() {
    let texte = [
        "m m m m \n m m m m\nm m m m \n _ _ _ _\n_ _ _ _ \n c c c c\nc c c c \n c c c c",
        "C c _ m \n _ M c C\n_ _ _ _ \n _ _ _ _\n_ _ _ _ \n _ _ _ _\n_ _ _ _ \n _ _ _ _",
        "_ _ _ _ \n _ _ _ _\n_ _ _ _ \n _ _ _ _\n_ _ _ _ \n _ _ _ _\n_ _ _ _ \n _ _ _ _",
    ];
    for text in texte {
        let brett = SpielBrett::parse(text).unwrap();
        let wieder = SpielBrett::parse(&brett.to_string()).unwrap();
        assert_eq!(wieder, brett);
        assert_eq!(brett.to_string(), text);
    }
}

#[test]
fn to_character_names_every_cell() {
    assert_eq!(Feld::Leer.to_character(), '_');
    assert_eq!(Feld::Stein(Spieler::Mensch).to_character(), 'm');
    assert_eq!(Feld::Dame(Spieler::Mensch).to_character(), 'M');
    assert_eq!(Feld::Stein(Spieler::Computer).to_character(), 'c');
    assert_eq!(Feld::Dame(Spieler::Computer).to_character(), 'C');
}

#[test]
fn parse_accepts_crlf_line_endings() {
    let mit_lf = SpielBrett::parse(
        "C c _ m \n _ M c C\n_ _ _ _ \n _ _ _ _\n_ _ _ _ \n _ _ _ _\n_ _ _ _ \n _ _ _ _",
    )
    .unwrap();
    let mit_crlf = SpielBrett::parse(
        "C c _ m \r\n _ M c C\r\n_ _ _ _ \r\n _ _ _ _\r\n_ _ _ _ \r\n _ _ _ _\r\n_ _ _ _ \r\n _ _ _ _",
    )
    .unwrap();
    assert_eq!(mit_lf, mit_crlf);

    let mit_crlf_am_ende = SpielBrett::parse(
        "C c _ m \r\n _ M c C\r\n_ _ _ _ \r\n _ _ _ _\r\n_ _ _ _ \r\n _ _ _ _\r\n_ _ _ _ \r\n _ _ _ _\r\n",
    )
    .unwrap();
    assert_eq!(mit_lf, mit_crlf_am_ende);

    let gemischt = SpielBrett::parse(
        "C c _ m \r\n _ M c C\n_ _ _ _ \r\n _ _ _ _\n_ _ _ _ \n _ _ _ _\r\n_ _ _ _ \n _ _ _ _",
    )
    .unwrap();
    assert_eq!(mit_lf, gemischt);
}

#[test]
fn parse_rejects_bare_carriage_return() {
    assert!(
        SpielBrett::parse(
            "_ _ _ _ \r _ _ _ _\n_ _ _ _ \n _ _ _ _\n_ _ _ _ \n _ _ _ _\n_ _ _ _ \n _ _ _ _"
        )
        .is_none()
    );
    assert!(
        SpielBrett::parse(
            "_ _ _ _ \n _ _ _ _\n_ _ _ _ \n _ _ _ _\n_ _ _ _ \n _ _ _ _\n_ _ _ _ \n _ _ _ _\r"
        )
        .is_none()
    );
}
