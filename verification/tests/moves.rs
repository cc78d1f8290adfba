use dame::brett::SpielBrett;
use dame::brett::Spieler;

fn brett(zeilen: [&str; 8]) -> SpielBrett {
    let mut text = String::new();
    for zeile in zeilen {
        text.push_str(zeile);
        text.push('\n');
    }
    SpielBrett::parse(&text).unwrap()
}

fn check_moves(input: [&str; 8], spieler: Spieler, expected: &[[&str; 8]]) {
    let ausgangslage = brett(input);
    let moves = ausgangslage.get_possible_moves(spieler);
    for e in expected {
        assert!(moves.contains(&brett(*e)));
    }
    assert_eq!(moves.len(), expected.len());
}

#[test]
fn test_stein_move() {
    check_moves(
        [
            "_ _ m _ ",
            " _ _ M _",
            "_ _ _ _ ",
            " _ _ _ _",
            "_ _ _ _ ",
            " _ _ _ _",
            "_ _ _ _ ",
            " c _ _ _",
        ],
        Spieler::Computer,
        &[
            [
                "_ _ m _ ",
                " _ _ M _",
                "_ _ _ _ ",
                " _ _ _ _",
                "_ _ _ _ ",
                " _ _ _ _",
                "c _ _ _ ",
                " _ _ _ _",
            ],
            [
                "_ _ m _ ",
                " _ _ M _",
                "_ _ _ _ ",
                " _ _ _ _",
                "_ _ _ _ ",
                " _ _ _ _",
                "_ c _ _ ",
                " _ _ _ _",
            ],
        ],
    );

    // At the edge of the board.
    check_moves(
        [
            "_ _ _ _ ",
            " _ _ _ _",
            "_ _ _ _ ",
            " _ _ _ _",
            "c _ _ _ ",
            " _ _ _ _",
            "_ _ _ _ ",
            " _ _ _ _",
        ],
        Spieler::Computer,
        &[
            [
                "_ _ _ _ ",
                " _ _ _ _",
                "_ _ _ _ ",
                " c _ _ _",
                "_ _ _ _ ",
                " _ _ _ _",
                "_ _ _ _ ",
                " _ _ _ _",
            ],
        ],
    );

    // Promotion to queen.
    check_moves(
        [
            "_ _ _ _ ",
            " _ c _ _",
            "_ _ _ _ ",
            " _ _ _ _",
            "_ _ _ _ ",
            " _ _ _ _",
            "_ _ _ _ ",
            " _ _ _ _",
        ],
        Spieler::Computer,
        &[
            [
                "_ C _ _ ",
                " _ _ _ _",
                "_ _ _ _ ",
                " _ _ _ _",
                "_ _ _ _ ",
                " _ _ _ _",
                "_ _ _ _ ",
                " _ _ _ _",
            ],
            [
                "_ _ C _ ",
                " _ _ _ _",
                "_ _ _ _ ",
                " _ _ _ _",
                "_ _ _ _ ",
                " _ _ _ _",
                "_ _ _ _ ",
                " _ _ _ _",
            ],
        ],
    );

    // Several pieces at once.
    check_moves(
        [
            "m _ _ _ ",
            " _ _ _ _",
            "_ _ _ _ ",
            " _ _ _ _",
            "_ _ _ _ ",
            " _ _ _ _",
            "_ m _ _ ",
            " _ _ _ c",
        ],
        Spieler::Mensch,
        &[
            [
                "_ _ _ _ ",
                " m _ _ _",
                "_ _ _ _ ",
                " _ _ _ _",
                "_ _ _ _ ",
                " _ _ _ _",
                "_ m _ _ ",
                " _ _ _ c",
            ],
            [
                "m _ _ _ ",
                " _ _ _ _",
                "_ _ _ _ ",
                " _ _ _ _",
                "_ _ _ _ ",
                " _ _ _ _",
                "_ _ _ _ ",
                " M _ _ c",
            ],
            [
                "m _ _ _ ",
                " _ _ _ _",
                "_ _ _ _ ",
                " _ _ _ _",
                "_ _ _ _ ",
                " _ _ _ _",
                "_ _ _ _ ",
                " _ M _ c",
            ],
        ],
    );
}

#[test]
fn test_stein_schlagen() {
    check_moves(
        [
            "_ _ _ _ ",
            " _ _ _ _",
            "_ _ _ _ ",
            " _ _ _ _",
            "_ _ _ _ ",
            " _ _ _ _",
            "_ m _ _ ",
            " c _ _ _",
        ],
        Spieler::Computer,
        &[
            [
                "_ _ _ _ ",
                " _ _ _ _",
                "_ _ _ _ ",
                " _ _ _ _",
                "_ _ _ _ ",
                " _ c _ _",
                "_ _ _ _ ",
                " _ _ _ _",
            ],
        ],
    );

    // Promotion to queen by a capture.
    check_moves(
        [
            "_ _ _ _ ",
            " _ m _ _",
            "_ c _ _ ",
            " _ _ _ _",
            "_ _ _ _ ",
            " _ _ _ _",
            "_ _ _ _ ",
            " _ _ _ _",
        ],
        Spieler::Computer,
        &[
            [
                "_ _ C _ ",
                " _ _ _ _",
                "_ _ _ _ ",
                " _ _ _ _",
                "_ _ _ _ ",
                " _ _ _ _",
                "_ _ _ _ ",
                " _ _ _ _",
            ],
        ],
    );

    // Several possible captures.
    check_moves(
        [
            "_ _ _ _ ",
            " _ _ _ _",
            "_ _ _ _ ",
            " _ _ _ _",
            "_ _ _ _ ",
            " _ _ _ _",
            "_ M M _ ",
            " c c c c",
        ],
        Spieler::Computer,
        &[
            [
                "_ _ _ _ ",
                " _ _ _ _",
                "_ _ _ _ ",
                " _ _ _ _",
                "_ _ _ _ ",
                " _ c _ _",
                "_ _ M _ ",
                " _ c c c",
            ],
            [
                "_ _ _ _ ",
                " _ _ _ _",
                "_ _ _ _ ",
                " _ _ _ _",
                "_ _ _ _ ",
                " c _ _ _",
                "_ _ M _ ",
                " c _ c c",
            ],
            [
                "_ _ _ _ ",
                " _ _ _ _",
                "_ _ _ _ ",
                " _ _ _ _",
                "_ _ _ _ ",
                " _ _ c _",
                "_ M _ _ ",
                " c _ c c",
            ],
            [
                "_ _ _ _ ",
                " _ _ _ _",
                "_ _ _ _ ",
                " _ _ _ _",
                "_ _ _ _ ",
                " _ c _ _",
                "_ M _ _ ",
                " c c _ c",
            ],
        ],
    );

    // A chain of captures.
    check_moves(
        [
            "_ m _ _ ",
            " _ c _ _",
            "_ _ _ _ ",
            " _ _ c _",
            "_ _ _ _ ",
            " _ _ c _",
            "_ _ _ _ ",
            " _ c _ _",
        ],
        Spieler::Mensch,
        &[
            [
                "_ _ _ _ ",
                " _ _ _ _",
                "_ _ _ _ ",
                " _ _ _ _",
                "_ _ _ _ ",
                " _ _ _ _",
                "_ _ m _ ",
                " _ c _ _",
            ],
        ],
    );

    // A chain that continues backwards.
    check_moves(
        [
            "_ m _ _ ",
            " _ c c _",
            "_ _ _ _ ",
            " _ _ _ _",
            "_ _ _ _ ",
            " _ _ _ _",
            "_ _ _ _ ",
            " _ _ _ _",
        ],
        Spieler::Mensch,
        &[
            [
                "_ _ _ m ",
                " _ _ _ _",
                "_ _ _ _ ",
                " _ _ _ _",
                "_ _ _ _ ",
                " _ _ _ _",
                "_ _ _ _ ",
                " _ _ _ _",
            ],
        ],
    );

    // Several choices, and chains that take several pieces.
    check_moves(
        [
            "_ m _ _ ",
            " c c c _",
            "_ _ _ _ ",
            " c _ _ _",
            "_ _ _ _ ",
            " _ _ _ _",
            "_ _ _ _ ",
            " _ _ _ _",
        ],
        Spieler::Mensch,
        &[
            [
                "_ _ _ _ ",
                " _ c c _",
                "_ _ _ _ ",
                " _ _ _ _",
                "_ m _ _ ",
                " _ _ _ _",
                "_ _ _ _ ",
                " _ _ _ _",
            ],
            [
                "_ _ _ m ",
                " c _ _ _",
                "_ _ _ _ ",
                " c _ _ _",
                "_ _ _ _ ",
                " _ _ _ _",
                "_ _ _ _ ",
                " _ _ _ _",
            ],
        ],
    );

    // The chain ends as soon as the man is promoted.
    check_moves(
        [
            "_ _ _ _ ",
            " M m _ _",
            "c _ _ _ ",
            " _ _ _ _",
            "_ _ _ _ ",
            " _ _ _ _",
            "_ _ _ _ ",
            " _ _ _ _",
        ],
        Spieler::Computer,
        &[
            [
                "_ C _ _ ",
                " _ m _ _",
                "_ _ _ _ ",
                " _ _ _ _",
                "_ _ _ _ ",
                " _ _ _ _",
                "_ _ _ _ ",
                " _ _ _ _",
            ],
        ],
    );
}

#[test]
fn test_dame_move() {
    check_moves(
        [
            "_ _ _ _ ",
            " _ M _ _",
            "_ _ _ _ ",
            " _ _ _ _",
            "c _ _ _ ",
            " _ _ _ _",
            "_ _ _ _ ",
            " _ _ _ _",
        ],
        Spieler::Mensch,
        &[
            [
                "_ M _ _ ",
                " _ _ _ _",
                "_ _ _ _ ",
                " _ _ _ _",
                "c _ _ _ ",
                " _ _ _ _",
                "_ _ _ _ ",
                " _ _ _ _",
            ],
            [
                "_ _ M _ ",
                " _ _ _ _",
                "_ _ _ _ ",
                " _ _ _ _",
                "c _ _ _ ",
                " _ _ _ _",
                "_ _ _ _ ",
                " _ _ _ _",
            ],
            [
                "_ _ _ _ ",
                " _ _ _ _",
                "_ M _ _ ",
                " _ _ _ _",
                "c _ _ _ ",
                " _ _ _ _",
                "_ _ _ _ ",
                " _ _ _ _",
            ],
            [
                "_ _ _ _ ",
                " _ _ _ _",
                "_ _ _ _ ",
                " M _ _ _",
                "c _ _ _ ",
                " _ _ _ _",
                "_ _ _ _ ",
                " _ _ _ _",
            ],
            [
                "_ _ _ _ ",
                " _ _ _ _",
                "_ _ M _ ",
                " _ _ _ _",
                "c _ _ _ ",
                " _ _ _ _",
                "_ _ _ _ ",
                " _ _ _ _",
            ],
            [
                "_ _ _ _ ",
                " _ _ _ _",
                "_ _ _ _ ",
                " _ _ M _",
                "c _ _ _ ",
                " _ _ _ _",
                "_ _ _ _ ",
                " _ _ _ _",
            ],
            [
                "_ _ _ _ ",
                " _ _ _ _",
                "_ _ _ _ ",
                " _ _ _ _",
                "c _ _ M ",
                " _ _ _ _",
                "_ _ _ _ ",
                " _ _ _ _",
            ],
            [
                "_ _ _ _ ",
                " _ _ _ _",
                "_ _ _ _ ",
                " _ _ _ _",
                "c _ _ _ ",
                " _ _ _ M",
                "_ _ _ _ ",
                " _ _ _ _",
            ],
        ],
    );
}

#[test]
fn test_dame_schlagen() {
    check_moves(
        [
            "_ _ _ _ ",
            " _ _ m _",
            "_ _ _ _ ",
            " _ C _ _",
            "_ _ _ _ ",
            " _ _ _ _",
            "_ _ _ _ ",
            " _ _ _ _",
        ],
        Spieler::Computer,
        &[
            [
                "_ _ _ C ",
                " _ _ _ _",
                "_ _ _ _ ",
                " _ _ _ _",
                "_ _ _ _ ",
                " _ _ _ _",
                "_ _ _ _ ",
                " _ _ _ _",
            ],
        ],
    );

    // Several possible captures.
    check_moves(
        [
            "_ _ _ _ ",
            " _ _ M _",
            "_ _ _ _ ",
            " _ C _ _",
            "_ _ m _ ",
            " _ _ _ _",
            "_ _ _ _ ",
            " _ _ _ _",
        ],
        Spieler::Computer,
        &[
            [
                "_ _ _ C ",
                " _ _ _ _",
                "_ _ _ _ ",
                " _ _ _ _",
                "_ _ m _ ",
                " _ _ _ _",
                "_ _ _ _ ",
                " _ _ _ _",
            ],
            [
                "_ _ _ _ ",
                " _ _ M _",
                "_ _ _ _ ",
                " _ _ _ _",
                "_ _ _ _ ",
                " _ _ C _",
                "_ _ _ _ ",
                " _ _ _ _",
            ],
        ],
    );

    // Chains that take several pieces.
    check_moves(
        [
            "_ _ _ _ ",
            " _ _ m _",
            "_ _ _ _ ",
            " _ C _ _",
            "_ m _ _ ",
            " _ _ _ _",
            "_ _ _ m ",
            " _ _ _ _",
        ],
        Spieler::Computer,
        &[
            [
                "_ _ _ _ ",
                " _ _ _ _",
                "_ _ _ _ ",
                " _ _ _ _",
                "_ _ _ _ ",
                " C _ _ _",
                "_ _ _ m ",
                " _ _ _ _",
            ],
            [
                "_ _ _ C ",
                " _ _ _ _",
                "_ _ _ _ ",
                " _ _ _ _",
                "_ _ _ _ ",
                " _ _ _ _",
                "_ _ _ m ",
                " _ _ _ _",
            ],
            [
                "_ _ _ _ ",
                " _ _ m _",
                "_ _ _ _ ",
                " _ _ _ _",
                "_ m _ _ ",
                " _ _ _ _",
                "_ _ _ _ ",
                " _ _ _ C",
            ],
        ],
    );
}

#[test]
fn dame_lands_only_just_beyond_the_captured_piece() {
    // The queen captures the adjacent man and must stop on the cell right
    // behind it, although further cells of the ray are free.
    check_moves(
        [
            "_ _ _ _ ",
            " _ _ _ _",
            "_ _ _ _ ",
            " _ _ _ _",
            "_ m _ _ ",
            " C _ _ _",
            "_ _ _ _ ",
            " _ _ _ _",
        ],
        Spieler::Computer,
        &[
            [
                "_ _ _ _ ",
                " _ _ _ _",
                "_ _ _ _ ",
                " _ C _ _",
                "_ _ _ _ ",
                " _ _ _ _",
                "_ _ _ _ ",
                " _ _ _ _",
            ],
        ],
    );
}

#[test]
fn capture_is_mandatory_over_plain_moves() {
    // The man must capture; neither its plain steps nor the queen's many
    // slides are offered.
    check_moves(
        [
            "_ _ _ _ ",
            " _ _ _ _",
            "_ m _ _ ",
            " _ c _ _",
            "_ _ _ _ ",
            " _ _ _ _",
            "_ _ _ _ ",
            " _ _ _ M",
        ],
        Spieler::Mensch,
        &[
            [
                "_ _ _ _ ",
                " _ _ _ _",
                "_ _ _ _ ",
                " _ _ _ _",
                "_ _ m _ ",
                " _ _ _ _",
                "_ _ _ _ ",
                " _ _ _ M",
            ],
        ],
    );
}
