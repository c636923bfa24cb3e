use gameday::board::{
    board_view, build_blocks, drawn_end, first_visible, lane_text, off_screen, rule_caption, rule_label,
    sort_phrase, Block, RuleLabel, TIER1_ROWS,
};
use gameday::derive::derive_sections;
use gameday::domain::{Game, League, Status, Team};
use gameday::rank::SortKey;

fn team(abbr: &str) -> Team {
    Team { id: abbr.into(), abbr: abbr.into(), name: abbr.into(), ..Default::default() }
}

fn g(id: &str, away: &str, home: &str, status: Status) -> Game {
    Game {
        id: id.into(),
        league: League::Nfl,
        away: team(away),
        home: team(home),
        away_score: 21,
        home_score: 17,
        status,
        ..Game::default()
    }
}

fn slate() -> Vec<Game> {
    vec![
        g("l1", "KC", "TB", Status::Live),
        g("l2", "GB", "CHI", Status::Live),
        g("l3", "SF", "SEA", Status::Live),
        g("f1", "PHI", "DAL", Status::Final),
        g("p1", "HOU", "LAR", Status::Pre),
    ]
}

#[test]
fn blocks_follow_the_sections_with_the_hero_above_in_play() {
    let vis = slate();
    let s = derive_sections(&vis, &vec![], &vec![], &vec![], 0);
    let blocks = build_blocks(&vis, &s, 0, 6, 1);
    assert_eq!(
        blocks,
        vec![
            Block::Hero { sel: 0, rows: 6 },
            Block::Rule { label: RuleLabel::InPlay },
            Block::Tier1 { sel: 1 },
            Block::Tier2 { sel: 2 },
            Block::Rule { label: RuleLabel::Final },
            Block::Tier3 { sel: 3 },
            Block::Rule { label: RuleLabel::Later },
            Block::Tier3 { sel: 4 },
        ]
    );
    // No hero fits: every live game is a row, the first promoted.
    let blocks = build_blocks(&vis, &s, 0, 0, 1);
    assert_eq!(blocks[0], Block::Rule { label: RuleLabel::InPlay });
    assert_eq!(blocks[1], Block::Tier1 { sel: 0 });
}

#[test]
fn a_pinned_live_game_is_the_band_hero() {
    let vis = slate();
    let pins = vec![gameday::config::Pin { game_id: "l2".into(), league: League::Nfl, final_at: None }];
    let s = derive_sections(&vis, &pins, &vec![], &vec![], 0);
    let blocks = build_blocks(&vis, &s, 1, 6, 0);
    assert_eq!(blocks[0], Block::Rule { label: RuleLabel::MyGames { pinned: 1 } });
    assert_eq!(blocks[1], Block::Hero { sel: 0, rows: 6 });
    assert_eq!(blocks[2], Block::Rule { label: RuleLabel::InPlay });
    assert_eq!(blocks[3], Block::Tier2 { sel: 1 });
}

#[test]
fn the_window_scrolls_by_whole_blocks_to_the_selection() {
    let blocks = vec![
        Block::Hero { sel: 0, rows: 6 },
        Block::Rule { label: RuleLabel::InPlay },
        Block::Tier1 { sel: 1 },
        Block::Tier2 { sel: 2 },
        Block::Tier2 { sel: 3 },
    ];
    assert_eq!(first_visible(&blocks, 0, 8), 0);
    assert_eq!(first_visible(&blocks, 2, 8), 1, "6+1+3 overflows 8, so the hero scrolls off whole");
    assert_eq!(first_visible(&blocks, 3, 8), 1);
    assert_eq!(first_visible(&blocks, 9, 8), 0, "no target: the top");
    assert_eq!(first_visible(&blocks, 2, 2), 0, "nothing fits: the walk stops where it is");
    assert_eq!(drawn_end(&blocks, 0, 8), 1, "the hero only: IN PLAY's rule would sit over nothing");
    assert_eq!(drawn_end(&blocks, 2, 8), 5);
    assert_eq!(TIER1_ROWS, 3);
}

#[test]
fn a_rule_is_never_left_orphaned_at_the_bottom() {
    let blocks = vec![Block::Tier2 { sel: 0 }, Block::Rule { label: RuleLabel::Final }, Block::Tier3 { sel: 1 }];
    assert_eq!(drawn_end(&blocks, 0, 2), 1, "FINAL's rule would sit over nothing");
    assert_eq!(drawn_end(&blocks, 0, 3), 3);
}

#[test]
fn the_lane_names_live_games_else_counts() {
    let live = vec![g("l1", "KC", "TB", Status::Live), g("f1", "PHI", "DAL", Status::Final)];
    assert_eq!(lane_text(&live), "KC 21 TB 17");
    let two = vec![g("a", "KC", "TB", Status::Live), g("b", "GB", "CHI", Status::Live)];
    assert_eq!(lane_text(&two), "KC 21 TB 17  ·  GB 21 CHI 17");
    let rest = vec![
        g("f1", "PHI", "DAL", Status::Final),
        g("p1", "HOU", "LAR", Status::Pre),
        g("p2", "NO", "CAR", Status::Pre),
    ];
    assert_eq!(lane_text(&rest), "3 OFF-SCREEN · 1 FINAL · 2 LATER");
}

#[test]
fn captions_and_labels_read_like_the_frame() {
    assert_eq!(rule_label(RuleLabel::MyGames { pinned: 2 }), "MY GAMES");
    assert_eq!(rule_caption(RuleLabel::MyGames { pinned: 2 }, ""), "2 PINNED · NEVER RE-SORTS");
    assert_eq!(rule_caption(RuleLabel::MyGames { pinned: 0 }, ""), "NEVER RE-SORTS");
    assert_eq!(rule_caption(RuleLabel::InPlay, sort_phrase(SortKey::Watch, "WATCH")), "SORTED BY WATCHABILITY");
    assert_eq!(sort_phrase(SortKey::Time, "TIME"), "TIME");
    assert_eq!(rule_caption(RuleLabel::Final, "x"), "");
}

#[test]
fn a_short_board_fires_the_lane_for_what_it_cut() {
    let vis = slate();
    let s = derive_sections(&vis, &vec![], &vec![], &vec![], 0);
    let v = board_view(&vis, &s, 0, 120, 12, 0);
    assert!(v.lane, "the slate does not fit 12 rows");
    let off = off_screen(&v, s.selection.len());
    assert!(!off.is_empty());
    assert!(!off.contains(&0), "the selected hero is on screen");
    let tall = board_view(&vis, &s, 0, 120, 40, 0);
    assert!(!tall.lane);
    assert!(off_screen(&tall, s.selection.len()).is_empty());
}
