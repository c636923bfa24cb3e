use gameday::config::{Favorite, Pin};
use gameday::derive::{derive_sections, Sections};
use gameday::domain::{Game, League, Status, Team};

fn team(abbr: &str) -> Team {
    Team { id: abbr.into(), abbr: abbr.into(), name: abbr.into(), color: [1, 2, 3], ..Default::default() }
}

fn g(id: &str, away: &str, home: &str, live: bool) -> Game {
    Game {
        id: id.into(),
        league: League::Nfl,
        away: team(away),
        home: team(home),
        away_score: 7,
        home_score: 3,
        status: if live { Status::Live } else { Status::Pre },
        period: "Q2".into(),
        clock: "5:00".into(),
        ..Game::default()
    }
}

fn ids(vis: &[Game], sec: &[usize]) -> Vec<String> {
    sec.iter().map(|&i| vis[i].id.clone()).collect()
}

fn pin(id: &str) -> Pin {
    Pin { game_id: id.into(), league: League::Nfl, final_at: None }
}

const NOW: i64 = 1_789_331_100;

#[test]
fn the_sections_partition_the_board_in_selection_order() {
    let mut games = vec![
        g("live1", "KC", "TB", true),
        g("live2", "DAL", "PHI", true),
        g("pre1", "NE", "SEA", false),
        g("fin1", "GB", "CHI", false),
    ];
    games[3].status = Status::Final;
    let favs = vec![Favorite { league: League::Nfl, team_abbr: "NE".into() }];
    let d: Sections = derive_sections(&games, &vec![pin("live2")], &favs, &vec![], NOW);

    assert_eq!(ids(&games, &d.my_games), vec!["live2", "pre1"], "pins then favorites");
    assert_eq!(ids(&games, &d.in_play), vec!["live1"], "the band is not in play");
    assert_eq!(ids(&games, &d.finals), vec!["fin1"]);
    assert!(d.later.is_empty(), "pre1 is a my-game: {:?}", ids(&games, &d.later));
    assert_eq!(
        ids(&games, &d.selection),
        vec!["live2", "pre1", "live1", "fin1"],
        "selection is my_games ++ in_play ++ finals ++ later"
    );
    let mut unique = ids(&games, &d.selection);
    unique.sort();
    unique.dedup();
    assert_eq!(unique.len(), d.selection.len(), "no game in two sections");
    assert_eq!(d.selection.len(), games.len());
    assert_eq!(d.hero.map(|h| games[h].id.clone()).as_deref(), Some("live2"));
    assert!(!d.mixed, "one league on the board");

    // A band whose top game is not live hands the hero to the ranking.
    let d = derive_sections(&games, &vec![pin("pre1")], &vec![], &vec![], NOW);
    assert_eq!(ids(&games, &d.my_games), vec!["pre1"]);
    assert_eq!(d.hero.map(|h| games[h].id.clone()).as_deref(), Some("live1"), "a pre-game pin never takes the hero");
}

#[test]
fn a_pinned_favorite_appears_once_and_favorites_ignore_case() {
    let games = vec![g("a", "KC", "TB", true), g("b", "NE", "SEA", false)];
    let favs = vec![Favorite { league: League::Nfl, team_abbr: "kc".into() }];
    let d = derive_sections(&games, &vec![pin("a")], &favs, &vec![], NOW);
    assert_eq!(ids(&games, &d.my_games), vec!["a"]);
    assert_eq!(ids(&games, &d.later), vec!["b"]);
    let other_league = vec![Favorite { league: League::Nba, team_abbr: "KC".into() }];
    let d = derive_sections(&games, &vec![], &other_league, &vec![], NOW);
    assert!(d.my_games.is_empty(), "a favorite is a team in one league");
}

#[test]
fn a_pin_six_hours_past_its_final_no_longer_holds_the_band() {
    let mut fin = g("f", "KC", "TB", false);
    fin.status = Status::Final;
    let games = vec![fin];
    let old = Pin { game_id: "f".into(), league: League::Nfl, final_at: Some(NOW - 6 * 3600) };
    let d = derive_sections(&games, &vec![old], &vec![], &vec![], NOW);
    assert!(d.my_games.is_empty());
    assert_eq!(ids(&games, &d.finals), vec!["f"]);
    let recent = Pin { game_id: "f".into(), league: League::Nfl, final_at: Some(NOW - 6 * 3600 + 1) };
    let d = derive_sections(&games, &vec![recent], &vec![], &vec![], NOW);
    assert_eq!(ids(&games, &d.my_games), vec!["f"]);
}

#[test]
fn two_leagues_make_a_mixed_board() {
    let mut b = g("b", "DEN", "BOS", true);
    b.league = League::Nba;
    let games = vec![g("a", "KC", "TB", true), b];
    assert!(derive_sections(&games, &vec![], &vec![], &vec![], NOW).mixed);
    assert!(!derive_sections(&vec![], &vec![], &vec![], &vec![], NOW).mixed);
}

#[test]
fn in_play_keeps_the_frozen_ranking_and_appends_unseen_games() {
    let games = vec![
        g("a", "KC", "TB", true),
        g("b", "DAL", "PHI", true),
        g("c", "NE", "SEA", true),
        g("d", "GB", "CHI", true),
    ];
    let order: Vec<String> = vec!["c".into(), "gone".into(), "a".into(), "c".into()];
    let d = derive_sections(&games, &vec![], &vec![], &order, NOW);
    assert_eq!(ids(&games, &d.in_play), vec!["c", "a", "b", "d"]);
    assert_eq!(d.hero.map(|h| games[h].id.clone()).as_deref(), Some("c"), "the top of the ranking leads");
    assert_eq!(ids(&games, &d.selection), vec!["c", "a", "b", "d"]);
}
