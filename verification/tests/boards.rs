use gameday::app::Tab;
use gameday::boards::{
    any_live, concat_boards, copy_game, filter_miss_message, league_visible, live_all, scoring_events, ticker_events, ticker_live,
};
use gameday::config::{Config, Favorite, Pin};
use gameday::domain::{Game, League, Play, Status, Team};

fn team(abbr: &str) -> Team {
    Team { abbr: abbr.into(), name: abbr.into(), ..Default::default() }
}

fn g(id: &str, away: &str, home: &str, live: bool) -> Game {
    Game {
        id: id.into(),
        league: League::Nfl,
        away: team(away),
        home: team(home),
        away_score: 7,
        home_score: 3,
        status: if live { Status::Live } else { Status::Pre },
        period: "Q2".into(),
        clock: "5:00".into(),
        ..Game::default()
    }
}

fn nba(id: &str, away: &str, home: &str, live: bool) -> Game {
    Game { league: League::Nba, ..g(id, away, home, live) }
}

fn ids(games: &[Game]) -> Vec<String> {
    games.iter().map(|x| x.id.clone()).collect()
}

#[test]
fn nfl_tab_shows_all_league_games() {
    let board = vec![g("1", "KC", "TB", true), g("2", "DAL", "PHI", false)];
    let visible = league_visible(&board, None);
    assert_eq!(visible.len(), 2);
    assert_eq!(visible.iter().filter(|x| x.status == Status::Live).count(), 1);
    assert_eq!(visible.iter().filter(|x| x.status != Status::Live).count(), 1);
}

#[test]
fn filter_matches_abbr_location_and_name_case_insensitively() {
    let mut chiefs = team("KC");
    chiefs.location = "KANSAS CITY".into();
    chiefs.name = "Chiefs".into();
    let mut game = g("1", "KC", "TB", true);
    game.away = chiefs;
    let board = vec![game, g("2", "DAL", "PHI", true)];
    for needle in ["kc", "kansas", "chiefs", "CHIEFS", "tb"] {
        assert_eq!(ids(&league_visible(&board, Some(needle))), vec!["1"], "needle {needle:?}");
    }
    assert_eq!(ids(&league_visible(&board, Some("phi"))), vec!["2"]);
}

#[test]
fn any_live_reflects_all_boards() {
    let mut boards = vec![(League::Nfl, vec![g("1", "KC", "TB", false)])];
    assert!(!any_live(&boards, false));
    boards.push((League::Nba, vec![nba("2", "DEN", "BOS", true)]));
    assert!(any_live(&boards, false), "a live game on any board counts");
    assert!(any_live(&vec![], true), "a running cut counts too");
}

#[test]
fn ticker_scores_lane_is_every_board_but_honors_the_filter() {
    let enabled = Config::default_all().enabled_tabs;
    let boards = vec![
        (League::Nba, vec![nba("2", "DEN", "BOS", true)]),
        (League::Nfl, vec![g("1", "KC", "TB", true)]),
    ];
    assert_eq!(ids(&ticker_live(&enabled, &boards, None)), vec!["1", "2"], "the ticker walks the tabs in order");
    assert_eq!(ids(&ticker_live(&enabled, &boards, Some("den"))), vec!["2"], "a typed filter narrows the ticker too");
}

#[test]
fn the_ticker_skips_disabled_boards_and_games_not_live() {
    let boards = vec![
        (League::Nfl, vec![g("1", "KC", "TB", true), g("3", "DAL", "PHI", false)]),
        (League::Nba, vec![nba("2", "DEN", "BOS", true)]),
    ];
    assert_eq!(ids(&ticker_live(&vec![League::Nba], &boards, None)), vec!["2"]);
    assert_eq!(ids(&concat_boards(&vec![League::Nba, League::Nfl], &boards)), vec!["2", "1", "3"]);
}

#[test]
fn live_all_leaves_out_pins_and_favorites() {
    let enabled = vec![League::Nfl, League::Nba];
    let boards = vec![
        (League::Nfl, vec![g("1", "KC", "TB", true), g("3", "DAL", "PHI", true), g("4", "NYG", "NYJ", false)]),
        (League::Nba, vec![nba("2", "DEN", "BOS", true)]),
    ];
    let pins = vec![Pin { game_id: "1".into(), league: League::Nfl, final_at: None }];
    let favs = vec![Favorite { league: League::Nba, team_abbr: "bos".into() }];
    assert_eq!(ids(&live_all(&enabled, &boards, &pins, &favs)), vec!["3"]);
    assert_eq!(ids(&live_all(&enabled, &boards, &vec![], &vec![])), vec!["1", "3", "2"]);
}

#[test]
fn the_scoring_feed_is_newest_first_per_game_in_board_order() {
    let play = |t: &str| Play { text: t.into(), scoring: true, ..Default::default() };
    let mut a = g("1", "KC", "TB", true);
    a.scoring_plays = vec![play("FG"), play("TD")];
    let mut b = nba("2", "DEN", "BOS", false);
    b.status = Status::Final;
    b.scoring_plays = vec![play("dunk")];
    let boards = vec![(League::Nba, vec![b]), (League::Nfl, vec![a])];
    let ev = scoring_events(&vec![League::Nfl, League::Nba], &boards);
    let got: Vec<(String, String)> = ev.iter().map(|(g, p)| (g.id.clone(), p.text.clone())).collect();
    assert_eq!(
        got,
        vec![("1".into(), "TD".into()), ("1".into(), "FG".into()), ("2".into(), "dunk".into())],
        "a final keeps its plays on the feed"
    );
}

#[test]
fn an_empty_filtered_board_names_its_scope_and_the_tickers_matches() {
    let ticker = vec![g("1", "KC", "TB", true), g("2", "DAL", "PHI", true), g("3", "NYG", "NYJ", true)];
    assert_eq!(
        filter_miss_message("k", Tab::League(League::Nba), &ticker),
        "no games match \"k\" on NBA · ticker matches KC@TB, DAL@PHI · esc clears"
    );
    assert_eq!(filter_miss_message("zzz", Tab::Home, &vec![]), "no games match \"zzz\" on all boards · esc clears");
    assert_eq!(
        filter_miss_message("kc", Tab::Home, &ticker[..1].to_vec()),
        "no games match \"kc\" on all boards · ticker matches KC@TB · esc clears"
    );
}

#[test]
fn a_copied_game_is_the_same_game() {
    let mut a = g("1", "KC", "TB", true);
    a.scoring_plays = vec![Play { text: "TD".into(), scoring: true, ..Default::default() }];
    a.linescore = vec![(7, 0), (0, 3)];
    a.headline = Some("Chiefs hold on".into());
    assert_eq!(copy_game(&a), a);
}

#[test]
fn a_game_is_found_by_id_on_any_board_or_dated_slate() {
    let boards = vec![(League::Nfl, vec![g("1", "KC", "TB", true)]), (League::Nba, vec![nba("2", "DEN", "BOS", true)])];
    let dated = vec![vec![g("9", "NYG", "NYJ", false)]];
    assert_eq!(gameday::boards::game_by_id(&boards, &dated, "2").map(|x| x.away.abbr), Some("DEN".to_string()));
    assert_eq!(gameday::boards::game_by_id(&boards, &dated, "9").map(|x| x.home.abbr), Some("NYJ".to_string()));
    assert!(gameday::boards::game_by_id(&boards, &dated, "7").is_none());
}

#[test]
fn an_empty_league_board_names_the_next_game_after_the_day() {
    let day0: i64 = 20_000; // a local day, in days since the epoch
    let at = |day: i64, secs: i64| Some(day * 86_400 + secs);
    let mut a = g("1", "KC", "TB", false);
    a.start = at(day0, 70_000);
    let mut b = g("2", "DAL", "PHI", false);
    b.start = at(day0 + 2, 3_600);
    let mut c = g("3", "NYG", "NYJ", false);
    c.start = at(day0 + 1, 80_000);
    let mut d = g("4", "SF", "SEA", true);
    d.start = at(day0 + 1, 1_000);
    let games = vec![a, b, c, d];
    assert_eq!(gameday::boards::next_game(&games, day0, 0), Some(2), "the earliest start on a later day, scheduled only");
    assert_eq!(gameday::boards::next_game(&games, day0, 20_000), Some(0), "days turn at the local midnight");
    assert_eq!(gameday::boards::next_game(&games, day0 + 2, 0), None);
    assert_eq!(
        gameday::boards::empty_league_line(League::Nfl, "SAT SEP 6", Some(("1:00 PM", &games[2]))),
        "No NFL games SAT SEP 6 · next 1:00 PM NYG @ NYJ"
    );
    assert_eq!(
        gameday::boards::empty_league_line(League::Nhl, "TUE SEP 9", None),
        "No NHL games TUE SEP 9 · nothing scheduled"
    );
}

#[test]
fn an_empty_board_never_reads_as_a_quiet_night_during_an_outage() {
    assert_eq!(gameday::boards::empty_state(false, true, &gameday::net::NetChip::Live, Tab::Home), None);
    assert_eq!(gameday::boards::empty_state(true, true, &gameday::net::NetChip::NoDataYet, Tab::Home), Some(gameday::boards::EmptyBoard::FilterMiss));
    let offline = gameday::net::NetChip::Offline { retry_in: Some(15_000), error: "timeout".into() };
    assert_eq!(
        gameday::boards::empty_state(true, false, &offline, Tab::Home),
        Some(gameday::boards::EmptyBoard::Outage {
            headline: "OFFLINE · retry 15s".into(),
            detail: "last error: timeout".into(),
            offline: true
        })
    );
    assert_eq!(
        gameday::boards::empty_state(true, false, &gameday::net::NetChip::NoDataYet, Tab::League(League::Nfl)),
        Some(gameday::boards::EmptyBoard::Outage {
            headline: "NO DATA YET".into(),
            detail: "waiting for the first scoreboard…".into(),
            offline: false
        })
    );
    assert_eq!(gameday::boards::empty_state(true, false, &gameday::net::NetChip::Live, Tab::Home), Some(gameday::boards::EmptyBoard::NothingLive));
    assert_eq!(
        gameday::boards::empty_state(true, false, &gameday::net::NetChip::Stale { age: 5 }, Tab::League(League::Nba)),
        Some(gameday::boards::EmptyBoard::NextKickoff)
    );
}

#[test]
fn the_ticker_feed_keeps_only_the_tickers_live_games() {
    let play = |t: &str| Play { text: t.into(), scoring: true, ..Default::default() };
    let mut a = g("1", "KC", "TB", true);
    a.scoring_plays = vec![play("FG"), play("TD")];
    let mut b = nba("2", "DEN", "BOS", false);
    b.status = Status::Final;
    b.scoring_plays = vec![play("dunk")];
    let boards = vec![(League::Nba, vec![b]), (League::Nfl, vec![a])];
    let enabled = vec![League::Nfl, League::Nba];
    let ev = scoring_events(&enabled, &boards);
    let live = ticker_live(&enabled, &boards, None);
    let got: Vec<(String, String)> =
        ticker_events(&ev, &live).iter().map(|(g, p)| (g.id.clone(), p.text.clone())).collect();
    assert_eq!(got, vec![("1".into(), "TD".into()), ("1".into(), "FG".into())], "the final's play is not on the ticker");
}
