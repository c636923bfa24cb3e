use gameday::domain::{Game, League, Status, Team};
use gameday::tv::{cut_suppressed, tv_slate, TvState};

fn team(abbr: &str) -> Team {
    Team { abbr: abbr.into(), name: abbr.into(), ..Default::default() }
}

fn g(id: &str, status: Status) -> Game {
    Game { id: id.into(), league: League::Nfl, away: team("A"), home: team("B"), status, ..Game::default() }
}

fn board() -> Vec<Game> {
    vec![g("a", Status::Live), g("b", Status::Final), g("c", Status::Live), g("d", Status::Live)]
}

#[test]
fn the_slate_is_the_live_games_of_my_games_then_in_play() {
    let vis = board();
    assert_eq!(tv_slate(&vis, &vec![1, 2], &vec![0, 3]), vec![2, 0, 3]);
    assert_eq!(tv_slate(&vis, &vec![], &vec![]), Vec::<usize>::new());
}

#[test]
fn n_walks_the_slate_and_wraps() {
    let vis = board();
    let slate = vec![0, 2, 3];
    let mut tv = TvState::open(&vis, Some(0));
    assert_eq!(tv.shown.as_deref(), Some("a"));
    tv.step(&vis, &slate, Some(0));
    assert_eq!(tv.shown.as_deref(), Some("c"));
    tv.step(&vis, &slate, Some(0));
    assert_eq!(tv.shown.as_deref(), Some("d"));
    tv.step(&vis, &slate, Some(0));
    assert_eq!(tv.shown.as_deref(), Some("a"), "after the last comes the first");
    assert_eq!(tv.lock, None);
}

#[test]
fn a_shown_game_off_the_slate_steps_to_the_first() {
    let vis = board();
    let mut tv = TvState { shown: Some("b".into()), lock: None };
    tv.step(&vis, &vec![2, 3], None);
    assert_eq!(tv.shown.as_deref(), Some("c"), "the first game is where n lands, not the second");
    let mut empty = TvState { shown: Some("b".into()), lock: Some("b".into()) };
    empty.step(&vis, &vec![], None);
    assert_eq!(empty, TvState { shown: Some("b".into()), lock: Some("b".into()) }, "an empty slate changes nothing");
}

#[test]
fn a_lock_travels_with_n_and_space_toggles_it() {
    let vis = board();
    let slate = vec![0, 2];
    let mut tv = TvState::open(&vis, Some(0));
    tv.toggle_lock(&vis, &slate, Some(0));
    assert_eq!(tv.lock.as_deref(), Some("a"));
    tv.step(&vis, &slate, Some(0));
    assert_eq!(tv.shown.as_deref(), Some("c"));
    assert_eq!(tv.lock.as_deref(), Some("c"), "you asked for this game, so it holds");
    tv.toggle_lock(&vis, &slate, Some(0));
    assert_eq!(tv.lock, None);
}

#[test]
fn events_follow_the_hero_unless_locked_or_off_tv() {
    let vis = board();
    let mut tv = TvState { shown: Some("a".into()), lock: None };
    tv.follow(&vis, true, Some(3));
    assert_eq!(tv.shown.as_deref(), Some("d"));
    tv.follow(&vis, false, Some(0));
    assert_eq!(tv.shown.as_deref(), Some("d"), "not on TV, nothing moves");
    tv.lock = Some("d".into());
    tv.follow(&vis, true, Some(0));
    assert_eq!(tv.shown.as_deref(), Some("d"), "a lock holds");
}

#[test]
fn hygiene_drops_a_dangling_lock_and_reanchors_to_the_hero() {
    let vis = board();
    let slate = vec![0, 2];
    let mut tv = TvState { shown: Some("b".into()), lock: Some("b".into()) };
    tv.hygiene(&vis, &slate, true, Some(2));
    assert_eq!(tv, TvState { shown: Some("c".into()), lock: None });
    let mut off = TvState { shown: Some("b".into()), lock: Some("b".into()) };
    off.hygiene(&vis, &slate, false, Some(2));
    assert_eq!(off.lock.as_deref(), Some("b"), "only in TV");
}

#[test]
fn the_next_cut_names_a_game_other_than_the_shown_one() {
    let vis = board();
    let slate = vec![0, 2, 3];
    let tv = TvState { shown: Some("a".into()), lock: None };
    assert_eq!(tv.next_cut(&vis, &slate, &vec![2], Some(0), None), Some(2), "MY GAMES' live top wins");
    assert_eq!(tv.next_cut(&vis, &slate, &vec![1], Some(0), Some("d".into())), Some(3), "else the ranking's top");
    assert_eq!(tv.next_cut(&vis, &slate, &vec![], Some(0), Some("a".into())), None, "already on screen");
    assert_eq!(tv.next_cut(&vis, &slate, &vec![], Some(0), Some("b".into())), None, "not on the slate");
    let locked = TvState { shown: Some("a".into()), lock: Some("a".into()) };
    assert_eq!(locked.next_cut(&vis, &slate, &vec![2], Some(0), None), None);
}

#[test]
fn the_cut_keeps_quiet_early_and_over_prompts() {
    assert!(cut_suppressed(299, false, false, false, false));
    assert!(!cut_suppressed(300, false, false, false, false));
    assert!(cut_suppressed(300, true, false, false, false));
    assert!(cut_suppressed(300, false, true, false, false));
    assert!(cut_suppressed(300, false, false, true, false));
    assert!(cut_suppressed(300, false, false, false, true));
}
