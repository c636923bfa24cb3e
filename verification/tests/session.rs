use gameday::boards::{concat_boards, scoring_events};
use gameday::config::{Favorite, Pin};
use gameday::domain::{Game, League, Play, Status, Summary, Team};
use gameday::net::NetChip;
use gameday::session::Session;

fn team(abbr: &str) -> Team {
    Team { abbr: abbr.into(), name: abbr.into(), ..Default::default() }
}

fn g(id: &str, away: &str, home: &str, live: bool) -> Game {
    Game {
        id: id.into(),
        league: League::Nfl,
        away: team(away),
        home: team(home),
        away_score: 7,
        home_score: 3,
        status: if live { Status::Live } else { Status::Pre },
        period: "Q2".into(),
        clock: "5:00".into(),
        ..Game::default()
    }
}

fn play(text: &str, scoring: bool) -> Play {
    Play { text: text.into(), team: "KC".into(), scoring, ..Default::default() }
}

fn apply(s: &mut Session, league: League, games: Vec<Game>, stale: bool, favs: &Vec<Favorite>, tick: u64) {
    s.apply_boards(league, games, stale, favs, false, None, tick, 1_000, tick * 100);
}

#[test]
fn a_marked_scoring_play_is_captured_and_cuts_once() {
    let mut s = Session::new(vec![]);
    let favs = vec![];
    let first = g("1", "KC", "TB", true);
    apply(&mut s, League::Nfl, vec![first.clone()], false, &favs, 400);
    assert!(s.cuts.active(400).is_none(), "first sighting seeds silently");
    let mut scored = first.clone();
    scored.away_score = 14;
    scored.last_plays = vec![play("Mahomes 20 yd TD pass", true)];
    apply(&mut s, League::Nfl, vec![scored.clone()], false, &favs, 410);
    let cut = s.cuts.active(410).expect("a captured play cuts");
    assert_eq!(cut.game_id, "1");
    assert!(!cut.full, "someone else's game gets the band");
    assert!(!s.bell_pending, "a band is quiet");
    assert_eq!(s.boards[0].1[0].scoring_plays.len(), 1);
    apply(&mut s, League::Nfl, vec![scored], false, &favs, 420);
    assert_eq!(s.boards[0].1[0].scoring_plays.len(), 1, "the same play is not captured twice");
}

#[test]
fn a_pinned_games_cut_takes_the_screen_and_rings() {
    let mut s = Session::new(vec![Pin { game_id: "1".into(), league: League::Nfl, final_at: None }]);
    let favs = vec![];
    let first = g("1", "KC", "TB", true);
    apply(&mut s, League::Nfl, vec![first.clone()], false, &favs, 400);
    let mut scored = first;
    scored.away_score = 14;
    scored.last_plays = vec![play("TD", true)];
    apply(&mut s, League::Nfl, vec![scored], false, &favs, 410);
    assert!(s.cuts.active(410).unwrap().full);
    assert!(s.bell_pending);
}

#[test]
fn a_cached_board_never_rings_the_bell() {
    let mut s = Session::new(vec![]);
    let favs = vec![Favorite { league: League::Nfl, team_abbr: "KC".into() }];
    let mut first = g("1", "KC", "TB", true);
    first.away_score = 14;
    first.home_score = 10;
    apply(&mut s, League::Nfl, vec![first.clone()], false, &favs, 400);
    s.active_alert = None;
    s.bell_pending = false;
    let mut cached = first.clone();
    cached.away_score = 7;
    apply(&mut s, League::Nfl, vec![cached], true, &favs, 410);
    assert!(s.active_alert.is_none(), "no banner from a cached payload");
    assert!(!s.bell_pending, "no bell from a cached payload");
    let mut next = first.clone();
    next.away_score = 21;
    apply(&mut s, League::Nfl, vec![next], false, &favs, 420);
    assert!(s.active_alert.is_some(), "the real score change still alerts");
    assert!(s.bell_pending);
}

#[test]
fn a_cached_board_writes_no_scoring_play_and_fires_nothing() {
    let mut s = Session::new(vec![]);
    let favs = vec![];
    let mut scored = g("1", "KC", "TB", true);
    scored.away_score = 14;
    apply(&mut s, League::Nfl, vec![scored.clone()], false, &favs, 400);
    let mut cached = scored.clone();
    cached.away_score = 7;
    cached.last_plays = vec![play("Pacheco run for 3 yards", true)];
    apply(&mut s, League::Nfl, vec![cached], true, &favs, 410);
    assert!(!s.feed.flash_active("1", 410), "a cached payload must not flash");
    assert!(s.cuts.active(410).is_none());
    assert_eq!(s.boards[0].1[0].scoring_plays.len(), 0, "no scoring play from a cached payload");
}

#[test]
fn apply_boards_marks_the_connection_live() {
    let mut s = Session::new(vec![]);
    apply(&mut s, League::Nfl, vec![g("1", "KC", "TB", true)], false, &vec![], 400);
    assert_eq!(s.net.chip(40_000, 30_000), NetChip::Live);
    apply(&mut s, League::Nba, vec![], true, &vec![], 410);
    assert!(matches!(s.net.chip(41_000, 30_000), NetChip::Stale { .. }), "a cached apply is stale on arrival");
}

#[test]
fn cfb_board_is_separate_from_nfl() {
    let mut s = Session::new(vec![]);
    let mut game = g("c1", "ALA", "UGA", true);
    game.league = League::Cfb;
    apply(&mut s, League::Cfb, vec![game], false, &vec![], 400);
    let cfb: Vec<String> = concat_boards(&vec![League::Cfb], &s.boards).into_iter().map(|x| x.id).collect();
    assert_eq!(cfb, vec!["c1"]);
    assert!(concat_boards(&vec![League::Nfl], &s.boards).is_empty());
}

#[test]
fn pins_are_stamped_final_and_dropped_after_six_hours() {
    let mut s = Session::new(vec![Pin { game_id: "1".into(), league: League::Nfl, final_at: None }]);
    let mut fin = g("1", "KC", "TB", false);
    fin.status = Status::Final;
    s.apply_boards(League::Nfl, vec![fin.clone()], false, &vec![], false, None, 400, 1_000, 0);
    assert_eq!(s.pins[0].final_at, Some(1_000));
    s.apply_boards(League::Nfl, vec![fin.clone()], false, &vec![], false, None, 401, 1_000 + 6 * 3600 - 1, 0);
    assert_eq!(s.pins.len(), 1);
    s.apply_boards(League::Nfl, vec![fin], false, &vec![], false, None, 402, 1_000 + 6 * 3600, 0);
    assert!(s.pins.is_empty());
}

#[test]
fn summary_scoring_plays_replace_the_delta_derived_list_and_survive_truncation() {
    let mut s = Session::new(vec![]);
    apply(&mut s, League::Nfl, vec![g("1", "SEA", "BOS", true)], false, &vec![], 400);
    let plays: Vec<Play> = (0..20)
        .map(|i| Play { text: format!("play {i}"), team: "SEA".into(), scoring: i == 3, ..Default::default() })
        .collect();
    let summary = Summary { last_plays: plays.clone(), scoring_plays: vec![plays[3].clone()], ..Default::default() };
    s.merge_summary(&"1".to_string(), summary, &vec![], false, None, 410);
    let ev = scoring_events(&vec![League::Nfl], &s.boards);
    assert_eq!(ev.len(), 1);
    assert_eq!(ev[0].1.text, "play 3");
    assert_eq!(s.boards[0].1[0].last_plays.len(), 20, "no 8-row truncation in the model");
}

#[test]
fn an_unmarked_delta_asks_the_summary_and_its_answer_cuts() {
    let mut s = Session::new(vec![]);
    let favs = vec![];
    let first = g("1", "KC", "TB", true);
    apply(&mut s, League::Nfl, vec![first.clone()], false, &favs, 400);
    let mut scored = first;
    scored.away_score = 14;
    scored.last_plays = vec![play("next snap", false)];
    apply(&mut s, League::Nfl, vec![scored], false, &favs, 410);
    assert!(s.cuts.active(410).is_none(), "an unmarked play is never captured");
    assert_eq!(s.feed.catchup.len(), 1, "the summary is asked instead");
    let td = Play { text: "Mahomes 20 yd TD pass".into(), team: "KC".into(), scoring: true, score_after: Some((14, 3)), ..Default::default() };
    let summary = Summary { last_plays: vec![td.clone()], scoring_plays: vec![td], ..Default::default() };
    let (cut, again, dropped) = s.merge_summary(&"1".to_string(), summary, &favs, false, None, 420);
    assert_eq!(cut.map(|p| p.text), Some("Mahomes 20 yd TD pass".to_string()));
    assert!(!again);
    assert!(dropped.is_none());
    assert!(s.feed.catchup.is_empty(), "the answer retires the ask");
    assert_eq!(s.cuts.active(420).map(|c| c.game_id.clone()), Some("1".to_string()));
}

#[test]
fn a_summary_for_a_game_no_board_carries_changes_no_board() {
    let mut s = Session::new(vec![]);
    let (cut, again, _) = s.merge_summary(&"9".to_string(), Summary::default(), &vec![], false, None, 10);
    assert!(cut.is_none());
    assert!(!again);
    assert!(s.boards.is_empty());
}

#[test]
fn a_failure_with_nothing_on_the_board_is_the_news() {
    let mut s = Session::new(vec![]);
    let line = s.note_failure(League::Nfl, "timeout".into(), Some(15_000), 5_000);
    assert_eq!(line.as_deref(), Some("nfl · timeout · retry in 15s"));
    assert!(matches!(s.net.chip(6_000, 30_000), NetChip::Offline { .. }));
    apply(&mut s, League::Nfl, vec![g("1", "KC", "TB", true)], false, &vec![], 400);
    assert_eq!(s.note_failure(League::Nfl, "timeout".into(), None, 50_000), None, "a populated board keeps quiet");
}

#[test]
fn a_tick_closes_old_flashes_and_banners() {
    let mut s = Session::new(vec![]);
    let favs = vec![Favorite { league: League::Nfl, team_abbr: "KC".into() }];
    let first = g("1", "KC", "TB", true);
    apply(&mut s, League::Nfl, vec![first.clone()], false, &favs, 400);
    let mut scored = first;
    scored.away_score = 14;
    apply(&mut s, League::Nfl, vec![scored], false, &favs, 401);
    assert!(s.feed.flash_active("1", 401));
    let until = s.active_alert.as_ref().unwrap().until_tick;
    s.advance_tick(until - 1);
    assert!(s.active_alert.is_some());
    s.advance_tick(until);
    assert!(s.active_alert.is_none(), "the banner is one-shot");
    assert!(!s.feed.flash_active("1", until), "the flash window closed");
}

#[test]
fn a_new_session_has_no_failure_and_no_fetch_yet() {
    let s = Session::new(vec![]);
    assert!(s.net.upd_label(5_000, 60_000).is_none());
    assert!(matches!(s.net.chip(5_000, 60_000), NetChip::NoDataYet));
}
