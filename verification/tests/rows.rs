use gameday::domain::{Game, GameStats, League, Leader, Play, Situation, Status, Team};
use gameday::rows::{
    clause_cap, final_story, leaders_line, situation_summary, state_text_raw, DesignOpts, ABBR_W, AWAY_ABBR_X,
    AWAY_SCORE_X, BCAST_W, CLAUSE_MIN, CLOCK_W, CLOCK_X, GAP, GUTTER, HOME_ABBR_X, HOME_SCORE_X, LEAGUE_W,
    LEAGUE_X, MARK_W, NUDGE_W, ODDS_X, SCORE_W, TEXT_X,
};

#[test]
fn the_grid_derives_from_its_widths() {
    assert_eq!(GUTTER, MARK_W + NUDGE_W);
    assert_eq!(AWAY_SCORE_X, AWAY_ABBR_X + ABBR_W);
    assert_eq!(HOME_ABBR_X, AWAY_SCORE_X + SCORE_W + GAP);
    assert_eq!(HOME_SCORE_X, HOME_ABBR_X + ABBR_W);
    assert_eq!(CLOCK_X, HOME_SCORE_X + SCORE_W + GAP);
    assert_eq!(LEAGUE_X, CLOCK_X + CLOCK_W + GAP);
    assert_eq!(TEXT_X, LEAGUE_X + LEAGUE_W + GAP);
    assert_eq!(ODDS_X, TEXT_X + BCAST_W + GAP);
    assert_eq!(CLOCK_W as usize, "SEP 21 8:20 PM".chars().count(), "CLOCK_W holds the longest state");
    assert_eq!(BCAST_W as usize, "NETFLIX".len());
}

fn team(abbr: &str) -> Team {
    Team { abbr: abbr.into(), name: abbr.into(), ..Default::default() }
}

fn final_game() -> Game {
    Game {
        id: "f".into(),
        league: League::Epl,
        away: team("ARS"),
        home: team("BHA"),
        status: Status::Final,
        scoring_plays: vec![Play { text: "Saka opens the scoring".into(), scoring: true, ..Default::default() }],
        ..Game::default()
    }
}

#[test]
fn final_story_prefers_headline_then_leaders_then_scoring_play() {
    let mut fin = final_game();
    fin.headline = Some("Arsenal beat Brighton to go top of the table".into());
    assert_eq!(
        final_story(&fin, Some("ARS Saka: 2 G, 1 A")).as_deref(),
        Some("Arsenal beat Brighton to go top of the table")
    );
    fin.headline = Some("   ".into());
    assert_eq!(final_story(&fin, Some("ARS Saka: 2 G, 1 A")).as_deref(), Some("ARS Saka: 2 G, 1 A"));
    fin.headline = None;
    assert_eq!(final_story(&fin, None).as_deref(), Some("Saka opens the scoring"));
    fin.scoring_plays.clear();
    assert_eq!(final_story(&fin, None), None);
}

#[test]
fn the_leaders_line_is_the_first_leader() {
    let stats = GameStats {
        rows: vec![],
        leaders: vec![
            Leader { team: "KC".into(), label: "Passing Yards".into(), text: "P. Mahomes 255 YDS".into() },
            Leader { team: "TB".into(), label: "Sacks".into(), text: "Y. Diaby 1.5".into() },
        ],
    };
    assert_eq!(leaders_line(&stats).as_deref(), Some("KC Passing Yards: P. Mahomes 255 YDS"));
    assert_eq!(leaders_line(&GameStats::default()), None);
}

#[test]
fn clause_cap_cuts_at_the_first_boundary_past_the_minimum() {
    let text = "Mahomes finds Kelce over the middle for twelve yards, and the Chiefs lead late";
    let capped = clause_cap(text, CLAUSE_MIN);
    assert_eq!(capped, "Mahomes finds Kelce over the middle for twelve yards…");
    assert_eq!(clause_cap("short, text", CLAUSE_MIN), "short, text");
    assert_eq!(clause_cap("no boundary here at all", 5), "no boundary here at all");
}

#[test]
fn design_opts_parse_and_name_the_valid_set() {
    let o = DesignOpts::parse("tint-rows,wide-tier").unwrap();
    assert!(o.tint_rows && o.wide_tier && !o.clause_cap);
    assert_eq!(DesignOpts::parse("").unwrap(), DesignOpts::default());
    assert_eq!(DesignOpts::parse(" clause-cap ,").unwrap(), DesignOpts { clause_cap: true, ..Default::default() });
    let err = DesignOpts::parse("tint-rows,sparkle").unwrap_err();
    assert_eq!(err, "unknown --opt \"sparkle\", valid: tint-rows|clause-cap|wide-tier");
}

#[test]
fn the_situation_fragment_reads_possession_down_and_spot() {
    let g = Game {
        situation: Some(Situation {
            down_distance: "3rd & 6".into(),
            possession: Some("phi".into()),
            ball_on: Some("dal 38".into()),
            ..Default::default()
        }),
        ..Game::default()
    };
    assert_eq!(situation_summary(&g).as_deref(), Some("PHI 3RD & 6 AT DAL 38"));
    assert_eq!(situation_summary(&Game::default()), None);
}

#[test]
fn a_live_row_states_period_and_clock() {
    let g = Game { status: Status::Live, period: "Q4".into(), clock: "1:27".into(), ..Game::default() };
    let s = state_text_raw(&g, "");
    assert!(s.contains("Q4"), "{s}");
    let pre = Game { status: Status::Pre, ..Game::default() };
    assert_eq!(state_text_raw(&pre, "SEP 21 8:20 PM"), "SEP 21 8:20 PM");
}

#[test]
fn the_final_row_prefers_the_headline() {
    let mut fin = final_game();
    fin.headline = Some("Arsenal beat Brighton to go top of the table".into());
    let story = final_story(&fin, Some("ARS Saka: 2 G, 1 A")).unwrap();
    assert!(story.contains("Arsenal beat Brighton to go top of the table"), "{story}");
    assert!(!story.contains("Saka opens"), "the headline wins over the scoring play\n{story}");
    fin.headline = None;
    let story = final_story(&fin, Some("ARS Saka: 2 G, 1 A")).unwrap();
    assert!(story.contains("ARS Saka: 2 G, 1 A"), "{story}");
    assert!(!story.contains("Saka opens"), "leaders wins over the scoring play\n{story}");
    let story = final_story(&fin, None).unwrap();
    assert!(story.contains("Saka opens the scoring"), "{story}");
}

#[test]
fn a_headline_survives_a_later_scoring_play_refresh() {
    let mut fin = final_game();
    fin.headline = Some("Arsenal beat Brighton to go top of the table".into());
    fin.scoring_plays = vec![
        Play { text: "Saka opens the scoring".into(), scoring: true, ..Default::default() },
        Play { text: "Ødegaard doubles the lead".into(), scoring: true, ..Default::default() },
    ];
    assert_eq!(
        final_story(&fin, None).as_deref(),
        Some("Arsenal beat Brighton to go top of the table"),
        "the headline must survive a later scoring-play refresh"
    );
    fin.headline = None;
    assert_eq!(
        final_story(&fin, None).as_deref(),
        Some("Ødegaard doubles the lead"),
        "without a headline, the newest scoring play from the refresh must surface"
    );
}
