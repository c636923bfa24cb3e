use gameday::domain::{Extras, Game, League, Team};
use gameday::linescore::{linescore_lines, ROWS};

fn team(abbr: &str) -> Team {
    Team { abbr: abbr.into(), name: abbr.into(), ..Default::default() }
}

fn game() -> Game {
    Game {
        id: "1".into(),
        league: League::Nhl,
        away: team("EDM"),
        home: team("TOR"),
        away_score: 3,
        home_score: 2,
        linescore: vec![(1, 0), (0, 2), (2, 0)],
        ..Game::default()
    }
}

#[test]
fn no_linescore_no_rows() {
    let mut g = game();
    g.linescore.clear();
    assert_eq!(linescore_lines(&g), None);
    assert_eq!(ROWS, 3);
}

#[test]
fn the_rows_are_periods_then_the_games_own_score() {
    let (head, away, home) = linescore_lines(&game()).unwrap();
    assert_eq!(head, "       1  2  3   R");
    assert_eq!(away, "EDM    1  0  2   3");
    assert_eq!(home, "TOR    0  2  0   2");
}

#[test]
fn a_partial_linescore_still_totals_the_score() {
    let mut g = game();
    g.linescore = vec![(1, 0)];
    let (_, away, home) = linescore_lines(&g).unwrap();
    assert_eq!(away, "EDM    1   3", "R is the game's score, not the sum of the periods");
    assert_eq!(home, "TOR    0   2");
}

#[test]
fn baseball_adds_hits_and_errors() {
    let mut g = game();
    g.league = League::Mlb;
    g.away = team("SEA");
    g.home = team("BOS");
    g.away_score = 8;
    g.home_score = 10;
    g.linescore = vec![(0, 1), (8, 9)];
    g.extras = Extras::Baseball { hits: Some((11, 12)), errors: Some((0, 1)) };
    let (head, away, home) = linescore_lines(&g).unwrap();
    assert_eq!(head, "       1  2   R  H  E");
    assert_eq!(away, "SEA    0  8   8 11  0");
    assert_eq!(home, "BOS    1  9  10 12  1");
    g.extras = Extras::Baseball { hits: Some((11, 12)), errors: None };
    let (head, _, _) = linescore_lines(&g).unwrap();
    assert_eq!(head, "       1  2   R  H", "a pair the feed lacks is left out");
}
