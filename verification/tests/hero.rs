use gameday::domain::{Game, League, Play, Situation, Status, Team};
use gameday::hero::{clock_text, digit_rows, fragment_line, nameplate_text, row_plan, GLYPH_ROWS, QUAD_ROWS};

fn team(abbr: &str) -> Team {
    Team { id: abbr.into(), abbr: abbr.into(), name: abbr.into(), record: "2-0".into(), ..Default::default() }
}

fn nfl_game() -> Game {
    Game {
        id: "1".into(),
        league: League::Nfl,
        away: team("KC"),
        home: team("BUF"),
        away_score: 24,
        home_score: 21,
        status: Status::Live,
        period: "Q4".into(),
        clock: "1:52".into(),
        situation: Some(Situation {
            down_distance: "2nd & Goal".into(),
            possession: Some("KC".into()),
            ball_on: Some("4".into()),
            ..Default::default()
        }),
        last_plays: vec![Play {
            clock: "1:52".into(),
            team: "KC".into(),
            text: "Mahomes scrambles for 9, first and goal".into(),
            ..Default::default()
        }],
        ..Game::default()
    }
}

fn mlb_game() -> Game {
    Game {
        id: "2".into(),
        league: League::Mlb,
        away: team("SEA"),
        home: team("BOS"),
        away_score: 8,
        home_score: 7,
        status: Status::Live,
        period: "BOT 9TH".into(),
        clock: String::new(),
        situation: Some(Situation {
            down_distance: "1 OUT · 1-0".into(),
            balls: Some(1),
            strikes: Some(0),
            outs: Some(1),
            on_base: Some([false, false, true]),
            ..Default::default()
        }),
        ..Game::default()
    }
}

#[test]
fn mlb_hero_has_no_duplicate_fragment_line() {
    assert!(fragment_line(&mlb_game()).is_none(), "MLB's meter row IS its fragment line");
}

#[test]
fn the_football_fragment_reads_down_spot_and_possession() {
    assert_eq!(fragment_line(&nfl_game()).as_deref(), Some("2ND & GOAL · BALL ON 4 · KC BALL"));
    let mut g = nfl_game();
    g.situation = None;
    assert_eq!(fragment_line(&g), None, "nothing to say, no line");
    let mut g = nfl_game();
    g.situation = Some(Situation { possession: Some("buf".into()), ..Default::default() });
    assert_eq!(fragment_line(&g).as_deref(), Some("BUF BALL"));
}

#[test]
fn the_nameplates_are_mirror_images_of_each_other() {
    let g = nfl_game();
    let away = nameplate_text(&g, true, true, true, false, false);
    let home = nameplate_text(&g, false, true, true, false, false);
    assert_eq!(away, "⚑ ★ KC 2-0", "away nameplate: glyphs outermost");
    assert_eq!(home, "2-0 BUF ★ ⚑", "home nameplate mirrors it");
    let mut a: Vec<&str> = away.split(' ').collect();
    a.reverse();
    let h: Vec<&str> = home.split(' ').collect();
    assert_eq!(a.len(), h.len());
    for (x, y) in a.iter().zip(h.iter()) {
        if *x != "KC" {
            assert_eq!(x, y, "the same pieces, in reverse");
        } else {
            assert_eq!(*y, "BUF");
        }
    }
}

#[test]
fn selected_hero_carries_a_bright_caret_on_both_outside_edges() {
    let g = nfl_game();
    let away = nameplate_text(&g, true, false, false, true, false);
    let home = nameplate_text(&g, false, false, false, true, false);
    assert!(away.starts_with('▸'), "away caret on the outside edge: {away:?}");
    assert!(home.ends_with('▸'), "home caret on the outside edge: {home:?}");
    for side in [true, false] {
        let plate = nameplate_text(&g, side, false, false, false, false);
        assert!(!plate.contains('▸'), "no caret when the hero is not selected: {plate:?}");
    }
}

#[test]
fn a_fallen_home_color_marks_the_abbr_and_an_empty_record_drops_out() {
    let mut g = nfl_game();
    assert_eq!(nameplate_text(&g, false, false, false, false, true), "2-0 ▌BUF");
    g.away.record = String::new();
    assert_eq!(nameplate_text(&g, true, false, false, false, false), "KC");
}

#[test]
fn the_hero_clock_reads_period_and_clock_then_final_then_start() {
    let g = nfl_game();
    assert_eq!(clock_text(&g, "8:20 PM"), "Q4 1:52");
    assert_eq!(clock_text(&mlb_game(), "8:20 PM"), "BOT 9TH", "an empty clock leaves no trailing space");
    let mut fin = nfl_game();
    fin.status = Status::Final;
    assert_eq!(clock_text(&fin, "8:20 PM"), "FINAL");
    let mut pre = nfl_game();
    pre.status = Status::Pre;
    assert_eq!(clock_text(&pre, "8:20 PM"), "8:20 PM");
}

#[test]
fn digit_forms_have_their_heights() {
    assert_eq!(digit_rows(true), GLYPH_ROWS);
    assert_eq!(digit_rows(false), QUAD_ROWS);
}

#[test]
fn the_row_plan_keeps_the_digits_and_sheds_extra_rows_bottom_up() {
    // Everything fits: the full digits and all three extra rows.
    assert_eq!(row_plan(12, [true, true, true], true), (GLYPH_ROWS, [true, true, true]));
    // One spare row goes to the first extra row the game has.
    assert_eq!(row_plan(10, [true, true, true], true), (GLYPH_ROWS, [true, false, false]));
    // Under the full form's rows the quadrant floor takes over; the rows
    // no extra row takes stay with the band.
    assert_eq!(row_plan(7, [false, false, true], true), (QUAD_ROWS + 1, [false, false, true]));
    // A two-row hero keeps only the nameplate row and one for the score.
    let (band, keep) = row_plan(2, [true, true, true], true);
    assert_eq!(band, 1);
    assert_eq!(keep, [false, false, false]);
    // Rows that do not exist are never kept.
    let (_, keep) = row_plan(40, [false, true, false], true);
    assert_eq!(keep, [false, true, false]);
}
