use gameday::alerts::{AlertState, BANNER_TICKS, COOLDOWN_TICKS};
use gameday::config::Favorite;
use gameday::domain::{Game, League, Status, Team};

fn team(abbr: &str) -> Team {
    Team {
        id: abbr.into(),
        abbr: abbr.into(),
        name: abbr.into(),
        logo_key: format!("nfl/{}", abbr.to_lowercase()),
        ..Default::default()
    }
}

fn game(id: &str, away: &str, home: &str, away_score: u16, home_score: u16) -> Game {
    Game {
        id: id.into(),
        league: League::Nfl,
        away: team(away),
        home: team(home),
        away_score,
        home_score,
        status: Status::Live,
        period: "Q4".into(),
        clock: "1:27".into(),
        situation: None,
        last_plays: vec![],
        meter: None,
        ..Game::default()
    }
}

fn boards(games: Vec<Game>) -> Vec<(League, Vec<Game>)> {
    vec![(League::Nfl, games)]
}

fn kc_favorite() -> Vec<Favorite> {
    vec![Favorite { league: League::Nfl, team_abbr: "KC".into() }]
}

#[test]
fn favorite_score_delta_alerts_with_star_text() {
    let mut state = AlertState::default();
    let favs = kc_favorite();
    assert_eq!(state.check(&favs, &boards(vec![game("1", "KC", "TB", 20, 24)]), 0), None);
    let alert = state.check(&favs, &boards(vec![game("1", "KC", "TB", 27, 24)]), 5).expect("favorite delta must alert");
    assert_eq!(alert.text, "★ KC SCORES  27-24");
    assert_eq!(alert.until_tick, 5 + BANNER_TICKS);
}

#[test]
fn same_game_within_cooldown_stays_silent_then_rearms() {
    let mut state = AlertState::default();
    let favs = kc_favorite();
    state.check(&favs, &boards(vec![game("1", "KC", "TB", 20, 24)]), 0);
    assert!(state.check(&favs, &boards(vec![game("1", "KC", "TB", 27, 24)]), 5).is_some());
    let inside = 5 + COOLDOWN_TICKS - 1;
    assert_eq!(state.check(&favs, &boards(vec![game("1", "KC", "TB", 30, 24)]), inside), None);
    let past = 5 + COOLDOWN_TICKS;
    assert!(state.check(&favs, &boards(vec![game("1", "KC", "TB", 37, 24)]), past).is_some());
}

#[test]
fn non_favorite_delta_is_silent() {
    let mut state = AlertState::default();
    let favs = kc_favorite();
    state.check(&favs, &boards(vec![game("1", "DAL", "PHI", 0, 0), game("2", "KC", "TB", 20, 24)]), 0);
    assert_eq!(state.check(&favs, &boards(vec![game("1", "DAL", "PHI", 7, 0), game("2", "KC", "TB", 20, 31)]), 5), None);
}

#[test]
fn favorite_league_must_match() {
    let mut state = AlertState::default();
    let favs = vec![Favorite { league: League::Nba, team_abbr: "KC".into() }];
    state.check(&favs, &boards(vec![game("1", "KC", "TB", 20, 24)]), 0);
    assert_eq!(
        state.check(&favs, &boards(vec![game("1", "KC", "TB", 27, 24)]), 5),
        None,
        "an NBA favorite must not alert on the NFL board"
    );
}

#[test]
fn a_home_favorite_alerts_with_its_own_score_first() {
    let mut state = AlertState::default();
    let favs = vec![Favorite { league: League::Nfl, team_abbr: "tb".into() }];
    state.check(&favs, &boards(vec![game("1", "KC", "TB", 20, 24)]), 0);
    let a = state.check(&favs, &boards(vec![game("1", "KC", "TB", 20, 31)]), 9).unwrap();
    assert_eq!(a.text, "★ TB SCORES  31-20");
}

#[test]
fn a_game_that_left_the_boards_seeds_again_on_return() {
    let mut state = AlertState::default();
    let favs = kc_favorite();
    state.check(&favs, &boards(vec![game("1", "KC", "TB", 20, 24)]), 0);
    state.check(&favs, &boards(vec![]), 1);
    assert_eq!(state.check(&favs, &boards(vec![game("1", "KC", "TB", 27, 24)]), 2), None, "a first sighting again");
}

#[test]
fn only_the_first_mover_fires() {
    let mut state = AlertState::default();
    let favs = vec![
        Favorite { league: League::Nfl, team_abbr: "KC".into() },
        Favorite { league: League::Nfl, team_abbr: "GB".into() },
    ];
    state.check(&favs, &boards(vec![game("1", "KC", "TB", 0, 0), game("2", "GB", "CHI", 0, 0)]), 0);
    let a = state.check(&favs, &boards(vec![game("1", "KC", "TB", 3, 0), game("2", "GB", "CHI", 7, 0)]), 1).unwrap();
    assert_eq!(a.text, "★ KC SCORES  3-0");
    // GB's delta was consumed, not queued: the next check with no change is silent.
    assert_eq!(state.check(&favs, &boards(vec![game("1", "KC", "TB", 3, 0), game("2", "GB", "CHI", 7, 0)]), 2), None);
}

#[test]
fn every_board_is_diffed_in_the_order_held() {
    let mut state = AlertState::default();
    let favs = vec![Favorite { league: League::Nba, team_abbr: "DEN".into() }];
    let mut den = game("2", "DEN", "BOS", 90, 88);
    den.league = League::Nba;
    let first = vec![(League::Nfl, vec![game("1", "KC", "TB", 20, 24)]), (League::Nba, vec![den.clone()])];
    assert_eq!(state.check(&favs, &first, 0), None);
    den.away_score = 93;
    let next = vec![(League::Nfl, vec![game("1", "KC", "TB", 20, 24)]), (League::Nba, vec![den])];
    let a = state.check(&favs, &next, 3).expect("a favorite on any board alerts");
    assert_eq!(a.text, "★ DEN SCORES  93-88");
}
