use gameday::domain::{Game, League, Play, Situation, Status, Team};
use gameday::rows::{start_clock, tier1_cells, tier3_cells, truncate, Align, RowCell};

fn team(abbr: &str) -> Team {
    Team { abbr: abbr.into(), name: abbr.into(), ..Default::default() }
}

fn cells(v: &[RowCell]) -> Vec<(u16, u16, u16, Align, String)> {
    v.iter().map(|c| (c.x, c.row, c.width, c.align, c.text.clone())).collect()
}

fn live() -> Game {
    Game {
        id: "1".into(),
        league: League::Nfl,
        away: team("PHI"),
        home: team("DAL"),
        away_score: 17,
        home_score: 14,
        status: Status::Live,
        period: "Q3".into(),
        clock: "4:12".into(),
        situation: Some(Situation {
            down_distance: "3rd & 6".into(),
            possession: Some("phi".into()),
            ball_on: Some("dal 38".into()),
            ..Default::default()
        }),
        last_plays: vec![Play {
            text: "Hurts pass deep right to A.J. Brown for 22 yards, tackled by Diggs. Penalty declined.".into(),
            ..Default::default()
        }],
        ..Game::default()
    }
}

#[test]
fn truncation_keeps_what_fits_and_marks_the_cut() {
    assert_eq!(truncate("KC -3.5", 10), "KC -3.5");
    assert_eq!(truncate("abcdefgh", 5), "abcd…");
    assert_eq!(truncate("abc", 0), "");
}

#[test]
fn a_promoted_row_shows_state_chip_fragment_and_the_last_play() {
    let g = live();
    let r = tier1_cells(&g, true, Some("2-MIN"), false, "", 80);
    assert_eq!(
        cells(&r),
        vec![
            (5, 0, 4, Align::Right, "PHI".to_string()),
            (10, 0, 3, Align::Right, "17".to_string()),
            (14, 0, 4, Align::Left, "DAL".to_string()),
            (19, 0, 3, Align::Right, "14".to_string()),
            (5, 1, 4, Align::Right, "NFL".to_string()),
            (23, 0, 14, Align::Left, "Q3 4:12".to_string()),
            (23, 1, 20, Align::Left, "2-MIN".to_string()),
            (43, 0, 37, Align::Left, "PHI 3RD & 6 AT DAL 38".to_string()),
            (43, 1, 37, Align::Left, "▸ Hurts pass deep right to A.J. Brow…".to_string()),
        ]
    );
}

#[test]
fn the_clause_cap_shortens_the_play_before_the_room_does() {
    let g = live();
    let r = tier1_cells(&g, false, None, true, "", 200);
    let play = r.iter().find(|c| c.row == 1 && c.x == 43).expect("play cell");
    assert_eq!(play.text, "▸ Hurts pass deep right to A.J. Brown for 22 yards…");
}

#[test]
fn a_later_row_prints_the_at_the_network_and_the_line() {
    let g = Game {
        away: team("TB"),
        home: team("ATL"),
        status: Status::Pre,
        broadcast: Some("fox".into()),
        odds: Some("TB -1.5 O/U 47.5".into()),
        ..Game::default()
    };
    let r = tier3_cells(&g, true, None, "4:25 PM", 60);
    assert_eq!(
        cells(&r),
        vec![
            (5, 0, 4, Align::Right, "TB ".to_string()),
            (10, 0, 3, Align::Center, "@".to_string()),
            (14, 0, 4, Align::Left, "ATL".to_string()),
            (23, 0, 14, Align::Left, "4:25 PM".to_string()),
            (38, 0, 4, Align::Left, "NFL".to_string()),
            (43, 0, 7, Align::Left, "FOX".to_string()),
            (51, 0, 9, Align::Left, "TB -1.5 …".to_string()),
        ]
    );
}

#[test]
fn a_200_char_headline_is_cut_with_an_ellipsis_at_60_cols() {
    let g = Game {
        league: League::Epl,
        away: team("ARS"),
        home: team("BHA"),
        status: Status::Final,
        headline: Some("A".repeat(200)),
        ..Game::default()
    };
    let r = tier3_cells(&g, false, None, "", 60);
    let story = r.iter().find(|c| c.x == 43).expect("story cell");
    assert_eq!(story.width, 17);
    assert_eq!(story.text, format!("{}…", "A".repeat(16)));
    assert!(r.iter().any(|c| c.x == 23 && c.text == "FT"));
}

#[test]
fn a_final_falls_back_to_its_situation() {
    let mut g = live();
    g.status = Status::Final;
    g.last_plays.clear();
    let r = tier3_cells(&g, false, None, "", 80);
    assert_eq!(r.last().map(|c| c.text.as_str()), Some("PHI 3RD & 6 AT DAL 38"));
}

#[test]
fn a_start_reads_as_a_twelve_hour_clock_at_the_offset() {
    assert_eq!(start_clock(Some(1_789_345_200), -4 * 3600), "8:20 PM");
    assert_eq!(start_clock(Some(1_789_345_200), 0), "12:20 AM");
    assert_eq!(start_clock(Some(1_789_331_100), -4 * 3600), "4:25 PM");
    assert_eq!(start_clock(Some(1_789_331_100 - 12 * 3600 + 35 * 60), -4 * 3600), "5:00 AM");
    assert_eq!(start_clock(None, 0), "");
    assert_eq!(start_clock(Some(i64::MAX), 0), "");
}
