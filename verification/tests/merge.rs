use gameday::app::FLASH_TICKS;
use gameday::config::Pin;
use gameday::domain::{Extras, Game, HockeyStrength, League, PenaltyEvent, Play, Status, Summary, Team};
use gameday::merge::{
    mark_pins_final, merge_summary_game, resolve_catchup, retry_catchup, same_play, CatchupEntry, CatchupOutcome,
    Feed, CATCHUP_MAX_ATTEMPTS,
};

fn team(abbr: &str) -> Team {
    Team { id: abbr.into(), abbr: abbr.into(), name: abbr.into(), ..Default::default() }
}

fn g(id: &str, away: &str, home: &str, live: bool) -> Game {
    Game {
        id: id.into(),
        league: League::Nfl,
        away: team(away),
        home: team(home),
        away_score: 7,
        home_score: 3,
        status: if live { Status::Live } else { Status::Pre },
        period: "Q2".into(),
        clock: "5:00".into(),
        ..Game::default()
    }
}

fn p(text: &str) -> Play {
    Play { text: text.into(), ..Default::default() }
}

fn scored(text: &str, after: (u16, u16)) -> Play {
    Play { text: text.into(), scoring: true, score_after: Some(after), ..Default::default() }
}

/// One fresh board through the feed, as the app applies it.
fn apply(feed: &mut Feed, prev: &Vec<Game>, games: Vec<Game>, stale: bool, tick: u64) -> (Vec<Game>, Vec<(String, Play)>) {
    feed.apply(prev, games, stale, tick)
}

#[test]
fn apply_boards_stamps_final_at() {
    let mut pins = vec![Pin { game_id: "1".into(), league: League::Nfl, final_at: None }];
    let mut done = g("1", "KC", "TB", false);
    done.status = Status::Final;
    mark_pins_final(&mut pins, &vec![done], 1_000);
    assert_eq!(pins[0].final_at, Some(1_000));
    // A stamp, once set, is never moved.
    let mut again = g("1", "KC", "TB", false);
    again.status = Status::Final;
    mark_pins_final(&mut pins, &vec![again], 2_000);
    assert_eq!(pins[0].final_at, Some(1_000));
    // A live game stamps nothing.
    let mut other = vec![Pin { game_id: "2".into(), league: League::Nfl, final_at: None }];
    mark_pins_final(&mut other, &vec![g("2", "A", "B", true)], 3_000);
    assert_eq!(other[0].final_at, None);
}

#[test]
fn score_change_flashes_then_settles_once() {
    let mut feed = Feed::new();
    let (board, _) = apply(&mut feed, &vec![], vec![g("1", "KC", "TB", true)], false, 0);
    let mut tick = 0u64;
    assert!(!feed.flash_active("1", tick), "first sighting must not flash");
    for _ in 0..5 {
        tick += 1;
        feed.expire_flashes(tick);
    }
    let mut s = g("1", "KC", "TB", true);
    s.away_score = 13;
    let (board, _) = apply(&mut feed, &board, vec![s.clone()], false, tick);
    assert!(feed.flash_active("1", tick), "data-driven score change flashes");
    for _ in 0..FLASH_TICKS - 1 {
        tick += 1;
        feed.expire_flashes(tick);
    }
    assert!(feed.flash_active("1", tick), "still lit one tick before the window ends");
    tick += 1;
    feed.expire_flashes(tick);
    assert!(!feed.flash_active("1", tick), "settles after FLASH_TICKS");
    let _ = apply(&mut feed, &board, vec![s], false, tick);
    tick += 1;
    feed.expire_flashes(tick);
    assert!(!feed.flash_active("1", tick));
}

#[test]
fn last_scores_forget_games_that_left_the_boards() {
    let mut feed = Feed::new();
    let (board, _) = apply(&mut feed, &vec![], vec![g("1", "KC", "TB", true)], false, 0);
    let (board, _) = apply(&mut feed, &board, vec![], false, 0);
    feed.forget_gone(&vec![]);
    let mut back = g("1", "KC", "TB", true);
    back.away_score = 99;
    let _ = apply(&mut feed, &board, vec![back], false, 1);
    assert!(!feed.flash_active("1", 1), "re-appearing game must seed, not flash a stale diff");
    feed.forget_gone(&vec!["1".to_string()]);
    assert_eq!(feed.last_scores.len(), 1, "only games on the boards are remembered");
    assert_eq!(feed.last_scores.get("1"), Some((99, 3)));
}

#[test]
fn a_cached_board_writes_nothing_and_the_next_fresh_delta_counts() {
    let mut first = g("1", "KC", "TB", true);
    first.away_score = 14;
    first.home_score = 10;
    first.last_plays = vec![Play { text: "Mahomes 20 yd TD pass".into(), ..Default::default() }];
    let mut feed = Feed::new();
    let (board, _) = apply(&mut feed, &vec![], vec![first.clone()], false, 0);
    assert_eq!(board[0].scoring_plays.len(), 0);

    let mut cached = first.clone();
    cached.away_score = 7;
    cached.last_plays = vec![scored("Pacheco run for 3 yards", (7, 10))];
    let (board, cuts) = apply(&mut feed, &board, vec![cached], true, 1);
    assert!(cuts.is_empty());
    assert!(!feed.flash_active("1", 1), "a cached payload must not flash");
    assert_eq!(board[0].scoring_plays.len(), 0, "no scoring play from a cached payload");
    assert_eq!(feed.last_scores.get("1"), Some((14, 10)), "the fresh scores survive a cached apply");

    // The next fresh delta whose last play is marked scoring is captured and cut on.
    let mut next = first.clone();
    next.away_score = 21;
    next.last_plays = vec![scored("Kelce 8 yd TD pass", (21, 10))];
    let (board, cuts) = apply(&mut feed, &board, vec![next], false, 2);
    assert_eq!(board[0].scoring_plays.len(), 1);
    assert!(board[0].scoring_plays[0].text.contains("Kelce"));
    assert_eq!(cuts.len(), 1);
    assert_eq!(cuts[0].0, "1");
}

#[test]
fn an_unmarked_delta_queues_one_ask_that_chases_the_newest_score() {
    let mut feed = Feed::new();
    let (board, _) = apply(&mut feed, &vec![], vec![g("1", "KC", "TB", true)], false, 0);
    let mut a = g("1", "KC", "TB", true);
    a.away_score = 14;
    a.last_plays = vec![p("Pacheco run for 3 yards")];
    let (board, cuts) = apply(&mut feed, &board, vec![a], false, 4);
    assert!(cuts.is_empty(), "the summary is the authority");
    assert_eq!(feed.catchup.len(), 1);
    assert_eq!(feed.catchup[0].target, (14, 3));
    assert_eq!(feed.catchup[0].queued_tick, 4);
    assert_eq!(feed.catchup[0].seq, 1);
    let mut b = g("1", "KC", "TB", true);
    b.away_score = 21;
    let _ = apply(&mut feed, &board, vec![b], false, 9);
    assert_eq!(feed.catchup.len(), 1, "still one ask per game");
    assert_eq!(feed.catchup[0].target, (21, 3));
    assert_eq!(feed.catchup[0].attempts, 0);
    assert_eq!(feed.catchup[0].queued_tick, 4, "the TTL runs from the first delta");
}

#[test]
fn the_carry_keeps_scoring_plays_and_a_live_nhl_strength() {
    let mut prev = g("1", "EDM", "DAL", true);
    prev.league = League::Nhl;
    prev.scoring_plays = vec![scored("Draisaitl GOAL", (3, 2))];
    prev.extras = Extras::Hockey {
        strength: HockeyStrength::PowerPlay,
        penalties: vec![PenaltyEvent { team: "DAL".into(), minutes: 2, kind: "Hooking".into(), period: 2, clock: "3:00".into() }],
    };
    let mut fresh = prev.clone();
    fresh.scoring_plays = vec![];
    fresh.extras = Extras::Empty;
    let mut feed = Feed::new();
    let (board, _) = apply(&mut feed, &vec![prev.clone()], vec![fresh.clone()], true, 0);
    assert_eq!(board[0].scoring_plays, prev.scoring_plays);
    assert_eq!(board[0].extras, prev.extras);
    // A final keeps its plays but has no power play to carry.
    let mut fin = fresh.clone();
    fin.status = Status::Final;
    let (board, _) = apply(&mut feed, &vec![prev.clone()], vec![fin], true, 0);
    assert_eq!(board[0].scoring_plays, prev.scoring_plays);
    assert_eq!(board[0].extras, Extras::Empty);
}

#[test]
fn the_answer_is_the_oldest_play_reaching_the_target() {
    let mut plays = vec![scored("FG", (3, 0)), scored("TD", (10, 0)), scored("TD2", (17, 0))];
    // The board showed 9-0 (a pre-kick touchdown): the 10-0 row answers.
    let out = resolve_catchup(&mut plays, (9, 0), &vec![]);
    assert_eq!(out, CatchupOutcome::Cut(scored("TD", (10, 0))));
    assert_eq!(plays.len(), 2, "what follows the answer stays unknown");
    let mut plays = vec![scored("FG", (3, 0)), scored("TD", (10, 0))];
    let known = vec![scored("TD", (10, 0))];
    assert_eq!(resolve_catchup(&mut plays, (10, 0), &known), CatchupOutcome::Answered);
    let mut plays = vec![scored("FG", (3, 0))];
    assert_eq!(resolve_catchup(&mut plays, (10, 0), &vec![]), CatchupOutcome::AskAgain);
    assert_eq!(plays.len(), 1);
}

#[test]
fn play_identity_is_the_id_when_both_have_one() {
    let a = Play { id: "9".into(), text: "x".into(), ..Default::default() };
    let b = Play { id: "9".into(), text: "y".into(), ..Default::default() };
    let c = Play { id: String::new(), text: "x".into(), ..Default::default() };
    assert!(same_play(&a, &b));
    assert!(same_play(&a, &c), "no id on one side: the text decides");
    assert!(!same_play(&b, &c));
}

fn entry(id: &str, attempts: u8) -> CatchupEntry {
    CatchupEntry {
        league: League::Nfl,
        game_id: id.into(),
        seq: 1,
        queued_tick: 0,
        attempts,
        target: (7, 0),
        next_ask_tick: 0,
    }
}

#[test]
fn the_retry_ladder_rearms_then_drops() {
    let mut q = vec![entry("1", 0)];
    let mut seq = 1u64;
    assert!(retry_catchup(&mut q, &mut seq, Some(0), 100).is_none());
    assert_eq!(q[0].attempts, 1);
    assert_eq!(q[0].seq, 2);
    assert_eq!(q[0].next_ask_tick, 100 + 150);
    assert!(retry_catchup(&mut q, &mut seq, Some(0), 200).is_none());
    let dropped = retry_catchup(&mut q, &mut seq, Some(0), 300).expect("the third miss drops it");
    assert_eq!(dropped.attempts + 1, CATCHUP_MAX_ATTEMPTS);
    assert!(q.is_empty());
    assert!(retry_catchup(&mut q, &mut seq, None, 300).is_none());
}

#[test]
fn empty_summary_keeps_scoreboard_plays() {
    let mut game = g("1", "KC", "TB", true);
    game.last_plays = vec![Play { clock: "1:27".into(), team: "KC".into(), text: "from scoreboard".into(), ..Default::default() }];
    let mut feed = Feed::new();
    let (merged, cut, asked, _) = feed.merge_summary(Some(game), "1", Summary::default(), 0);
    assert_eq!(merged.as_ref().unwrap().last_plays[0].text, "from scoreboard");
    assert!(cut.is_none() && !asked);
    let s = Summary {
        last_plays: vec![Play { clock: "0:55".into(), team: "TB".into(), text: "from summary".into(), ..Default::default() }],
        ..Summary::default()
    };
    let (merged, _, _, _) = feed.merge_summary(merged, "1", s, 0);
    assert_eq!(merged.unwrap().last_plays[0].text, "from summary");
}

#[test]
fn a_newest_first_summary_list_is_turned_oldest_first_and_marks_the_feed() {
    let mut game = g("1", "SEA", "BOS", true);
    let s = Summary {
        last_plays: vec![p("late"), p("mid"), p("early")],
        scoring_plays: vec![p("late"), p("early")],
        ..Summary::default()
    };
    let (cut, ask) = merge_summary_game(&mut game, s, None, false);
    assert_eq!(game.scoring_plays.iter().map(|x| x.text.as_str()).collect::<Vec<_>>(), vec!["early", "late"]);
    assert!(game.last_plays[0].scoring && !game.last_plays[1].scoring && game.last_plays[2].scoring);
    assert_eq!(cut, None, "a first summary with nothing queued is history");
    assert!(!ask);
}

#[test]
fn a_queued_summary_cuts_on_the_run_it_reports() {
    let mut feed = Feed::new();
    let (board, _) = apply(&mut feed, &vec![], vec![g("1", "KC", "TB", true)], false, 0);
    let mut moved = g("1", "KC", "TB", true);
    moved.away_score = 14;
    let (board, _) = apply(&mut feed, &board, vec![moved], false, 1);
    assert_eq!(feed.catchup.len(), 1);
    let s = Summary {
        last_plays: vec![p("kick")],
        scoring_plays: vec![scored("TD", (14, 3)), scored("later TD", (21, 3))],
        ..Summary::default()
    };
    let (merged, cut, asked, _) = feed.merge_summary(Some(board[0].clone()), "1", s, 2);
    assert_eq!(cut.map(|c| c.text), Some("TD".to_string()));
    assert!(!asked);
    assert!(feed.catchup.is_empty(), "the answer retires the ask");
    assert_eq!(merged.unwrap().scoring_plays.len(), 1, "the future run stays unknown");
}

#[test]
fn a_summary_behind_the_board_asks_again() {
    let mut feed = Feed::new();
    let (board, _) = apply(&mut feed, &vec![], vec![g("1", "KC", "TB", true)], false, 0);
    let mut moved = g("1", "KC", "TB", true);
    moved.away_score = 14;
    let (board, _) = apply(&mut feed, &board, vec![moved], false, 1);
    let s = Summary { last_plays: vec![p("kick")], scoring_plays: vec![scored("FG", (10, 3))], ..Summary::default() };
    let (_, cut, asked, dropped) = feed.merge_summary(Some(board[0].clone()), "1", s, 2);
    assert!(cut.is_none() && asked && dropped.is_none());
    assert_eq!(feed.catchup[0].attempts, 1);
    // A summary for a game that left every board retires the ask.
    let (gone, _, asked, _) = feed.merge_summary(None, "1", Summary { last_plays: vec![p("x")], ..Summary::default() }, 3);
    assert!(gone.is_none() && !asked);
    assert!(feed.catchup.is_empty());
}
