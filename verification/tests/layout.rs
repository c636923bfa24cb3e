use gameday::cut::BAND_ROWS;
use gameday::layout::{plan, plan_detailed, RULE_ROWS};

#[test]
fn the_sizes_ladder_matches_the_spec_table() {
    // 120x40: full hero, up to 3 promoted, no lane.
    let p = plan(120, 38, 8, 2, 4, 0);
    assert_eq!(p.hero_rows, 12);
    assert!(p.hero_digits_full);
    assert_eq!(p.tier1, 3);
    assert!(!p.scores_lane);
    // 80x24: sextant hero, all tier 2, lane when truncated.
    let p = plan(80, 22, 8, 2, 4, 0);
    assert!(p.hero_rows <= 6 && p.hero_rows >= 4);
    assert!(!p.hero_digits_full);
    assert_eq!(p.tier1, 0);
    assert!(p.scores_lane, "LATER doesn't fit 22 rows — lane on");
    // <60 cols: 2-row compact hero, still one list.
    let p = plan(55, 38, 3, 1, 2, 0);
    assert_eq!(p.hero_rows, 2);
    // Never negative / overlapping: sum of allocated rows <= height.
    for (w, h) in [(40u16, 12u16), (60, 20), (100, 30), (200, 60)] {
        let p = plan_detailed(w, h, 12, 5, 8, 2);
        let used = p.hero_rows
            + p.band_rows
            + 3 * p.tier1 as u16
            + p.tier2 as u16
            + p.finals as u16
            + p.later as u16
            + 4 * RULE_ROWS
            + if p.scores_lane { 1 } else { 0 };
        assert!(used <= h, "{w}x{h}: used {used}");
    }
}

#[test]
fn rows_run_out_bottom_up() {
    let tall = plan_detailed(120, 38, 6, 3, 6, 0);
    let short = plan_detailed(120, 26, 6, 3, 6, 0);
    assert!(short.later < tall.later, "later shrinks first");
    assert!(short.tier2 + short.tier1 >= 6usize.min(tall.tier1 + tall.tier2), "live rows survive");
    let tiny = plan_detailed(120, 16, 6, 3, 6, 0);
    assert_eq!(tiny.finals, 0);
    assert!(tiny.scores_lane);
    let public = plan(120, 26, 6, 3, 6, 0);
    assert_eq!(public.hero_rows, short.hero_rows);
    assert_eq!(public.hero_digits_full, short.hero_digits_full);
    assert_eq!(public.tier1, short.tier1);
    assert_eq!(public.scores_lane, short.scores_lane);
}

#[test]
fn no_live_games_means_no_reservation() {
    let finals_only = plan(120, 36, 0, 5, 4, 0);
    assert_eq!(finals_only.band_rows, 0, "no live game can fire a band");
    let live = plan(120, 36, 6, 5, 4, 0);
    assert_eq!(live.band_rows, BAND_ROWS);
    let reserved = plan_detailed(120, 30, 6, 2, 3, 0);
    let shorter = plan_detailed(120, 30 - BAND_ROWS, 6, 2, 3, 0);
    assert_eq!(reserved.tier1, shorter.tier1);
    assert_eq!(reserved.tier2, shorter.tier2);
    assert_eq!(reserved.finals, shorter.finals);
    assert_eq!(reserved.later, shorter.later);
}

#[test]
fn my_games_rows_come_off_the_same_budget() {
    let without = plan_detailed(120, 30, 6, 2, 3, 0);
    let with = plan_detailed(120, 30, 6, 2, 3, 2);
    assert!(with.tier2 <= without.tier2, "band rows are not free");
}

#[test]
fn the_budget_never_over_allocates() {
    let widths = [40u16, 55, 60, 80, 100, 120, 180];
    let heights = [12u16, 13, 15, 16, 22, 24, 26, 30, 40, 60];
    let counts = [
        (0usize, 0usize, 0usize, 0usize),
        (3, 1, 2, 0),
        (6, 3, 6, 0),
        (8, 2, 4, 0),
        (12, 5, 8, 2),
        (20, 0, 0, 0),
        (15, 3, 3, 0),
    ];
    for &w in &widths {
        for &h in &heights {
            for &(live, finals, later, my_games) in &counts {
                let p = plan_detailed(w, h, live, finals, later, my_games);
                let my_games_rows = my_games.min(h as usize);
                let sections_rendering = [my_games_rows > 0, p.tier1 + p.tier2 > 0, p.finals > 0, p.later > 0]
                    .into_iter()
                    .filter(|&present| present)
                    .count() as u16;
                let used = p.hero_rows
                    + p.band_rows
                    + 3 * p.tier1 as u16
                    + p.tier2 as u16
                    + p.finals as u16
                    + p.later as u16
                    + my_games_rows as u16
                    + sections_rendering * RULE_ROWS
                    + if p.scores_lane { 1 } else { 0 };
                assert!(
                    used <= h,
                    "{w}x{h} live={live} finals={finals} later={later} my_games={my_games}: used {used} > {h} ({p:?})"
                );
            }
        }
    }
}

#[test]
fn a_tiny_terminal_has_no_hero_and_a_wide_one_promotes_three() {
    let p = plan(39, 40, 4, 0, 0, 0);
    assert_eq!(p.hero_rows, 0);
    let p = plan(120, 40, 4, 0, 0, 0);
    assert_eq!(p.tier1, 3);
    assert_eq!(p.hero_rows, 12);
}

#[test]
fn a_full_my_games_block_leaves_no_room_for_the_scores_lane() {
    let (w, h) = (120u16, 12u16);
    let p = plan_detailed(w, h, 1, 0, 0, 10);
    let body = h.saturating_sub(p.hero_rows + p.band_rows);
    let my_rows = if body <= 1 { 0 } else { 10usize.min(body as usize - 1) as u16 };
    let sections = [my_rows > 0, p.tier1 + p.tier2 > 0, p.finals > 0, p.later > 0]
        .into_iter()
        .filter(|&present| present)
        .count() as u16;
    let used = p.hero_rows
        + p.band_rows
        + 3 * p.tier1 as u16
        + p.tier2 as u16
        + p.finals as u16
        + p.later as u16
        + my_rows
        + sections * RULE_ROWS
        + if p.scores_lane { 1 } else { 0 };
    assert!(used <= h, "used {used} of {h} ({p:?})");
}
