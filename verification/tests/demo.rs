use gameday::demo::{demo_boards, demo_config, demo_pins, demo_stats, inning_play, play};
use gameday::domain::{League, Status};

#[test]
fn demo_board_has_four_live_leagues_and_pins() {
    let boards = demo_boards();
    let board = |l: League| boards.iter().find(|(league, _)| *league == l).map(|(_, g)| g).expect("board");
    for (league, id) in [(League::Nfl, "nfl-live"), (League::Nba, "nba-live"), (League::Mlb, "mlb-live"), (League::Nhl, "nhl-live")] {
        let game = board(league).iter().find(|g| g.id == id).expect("live game");
        assert_eq!(game.status, Status::Live);
    }
    let pins = demo_pins();
    assert_eq!(pins.len(), 1);
    assert_eq!(pins[0].game_id, "nfl-live");
    for pin in &pins {
        let game = board(pin.league).iter().find(|g| g.id == pin.game_id).expect("pinned game");
        assert_eq!(game.status, Status::Live);
        assert!(!game.last_plays.is_empty());
        assert!(game.meter.is_some());
    }
}

#[test]
fn the_demo_slate_fills_the_gallery_frame_and_fires_the_off_screen_lane() {
    let boards = demo_boards();
    let all: Vec<_> = boards.iter().flat_map(|(_, g)| g.iter()).collect();
    let count = |st: Status| all.iter().filter(|g| g.status == st).count();
    assert_eq!(all.len(), 15, "the slate is 15 games");
    assert_eq!(count(Status::Live), 7, "live games");
    assert_eq!(count(Status::Final), 5, "FINAL has five rows");
    assert_eq!(count(Status::Pre), 3, "LATER has three rows");
    for league in demo_config("broadcast").enabled_tabs {
        assert!(
            boards.iter().any(|(l, g)| *l == league && !g.is_empty()),
            "{league:?} has no demo games"
        );
    }
}

#[test]
fn demo_scoring_plays_mirror_the_scoring_rows_oldest_first() {
    let boards = demo_boards();
    let (_, nhl) = boards.iter().find(|(l, _)| *l == League::Nhl).unwrap();
    let live = &nhl[0];
    let texts: Vec<&str> = live.scoring_plays.iter().map(|p| p.text.as_str()).collect();
    assert_eq!(texts, vec!["Roope Hintz tip-in goal  [2-2]", "Leon Draisaitl snap shot GOAL (32)  [3-2]"]);
    for (league, games) in &boards {
        let mut ids: Vec<&str> = games.iter().map(|g| g.id.as_str()).collect();
        ids.sort();
        ids.dedup();
        assert_eq!(ids.len(), games.len());
        assert!(games.iter().all(|g| g.league == *league));
    }
}

#[test]
fn demo_stats_lists_kc_then_tb_leaders() {
    let s = demo_stats();
    assert_eq!(s.rows.len(), 22);
    assert_eq!(s.rows[7].label, "Total Yards");
    assert_eq!((s.rows[7].away.as_str(), s.rows[7].home.as_str()), ("356", "341"));
    assert_eq!(s.leaders.len(), 10);
    assert!(s.leaders[..5].iter().all(|l| l.team == "KC"));
    assert!(s.leaders[5..].iter().all(|l| l.team == "TB"));
}

#[test]
fn demo_plays_carry_a_clock_or_an_inning() {
    let p = play("1:27", "KC", "pass", false);
    assert_eq!((p.clock.as_str(), p.period.as_str()), ("1:27", ""));
    let b = inning_play("B7", "TOR", "single", true);
    assert_eq!((b.clock.as_str(), b.period.as_str(), b.scoring), ("", "B7", true));
    let c = demo_config("studio");
    assert_eq!(c.theme, "studio");
    assert_eq!(c.enabled_tabs, vec![League::Nfl, League::Nba, League::Mlb, League::Nhl, League::Epl]);
}

#[test]
fn the_demo_logos_are_keyed_by_league_and_lowercase_abbr() {
    let boards = demo_boards();
    let kc = &boards[0].1[0].away;
    assert_eq!(kc.logo_key, "nfl/kc");
}

#[test]
fn the_nhl_live_game_lists_both_goals_oldest_first() {
    let boards = demo_boards();
    let (_, nhl) = boards.iter().find(|(l, _)| *l == League::Nhl).expect("nhl board");
    let g = nhl.iter().find(|g| g.id == "nhl-live").expect("nhl-live");
    let texts: Vec<&str> = g.scoring_plays.iter().map(|p| p.text.as_str()).collect();
    assert_eq!(texts, ["Roope Hintz tip-in goal  [2-2]", "Leon Draisaitl snap shot GOAL (32)  [3-2]"]);
}

#[test]
fn a_final_keeps_its_one_headline() {
    let boards = demo_boards();
    let (_, nfl) = boards.iter().find(|(l, _)| *l == League::Nfl).expect("nfl board");
    let g = nfl.iter().find(|g| g.id == "nfl-final2").expect("nfl-final2");
    assert_eq!(g.status, Status::Final);
    assert_eq!((g.away_score, g.home_score), (10, 13));
    assert_eq!(g.scoring_plays.len(), 1);
    assert_eq!(g.scoring_plays[0].text, "Tua finds Hill for the winner");
}

#[test]
fn the_demo_box_score_opens_with_first_downs_and_the_kc_passer() {
    let s = demo_stats();
    assert_eq!((s.rows[0].label.as_str(), s.rows[0].away.as_str(), s.rows[0].home.as_str()), ("1st Downs", "19", "21"));
    assert_eq!(
        gameday::rows::leaders_line(&s).as_deref(),
        Some("KC Passing Yards: P. Mahomes 22/31, 255 YDS, 2 TD")
    );
}
