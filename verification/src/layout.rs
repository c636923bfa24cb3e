//! The tier budget: the sizes ladder as one pure function. Height and counts
//! in, `TierPlan` out — nothing here reads a `Game` or renders a cell.
//!
//! Hero height is a pure function of the (width, height) bracket, never of
//! game counts. The scoring band is reserved, never inserted: `band_rows` is
//! charged before the tiers on any board with a live game.
use vstd::prelude::*;
use crate::cut::BAND_ROWS;

verus! {

/// How many rows each piece of the board gets at a given size.
#[derive(Clone, Debug, PartialEq, Eq)]
pub struct TierPlan {
    /// 0 = no hero fits.
    pub hero_rows: u16,
    /// 8-row full digits vs the small form.
    pub hero_digits_full: bool,
    /// Promoted 3-row rows (0..=3).
    pub tier1: usize,
    /// The scoring band's rows, reserved at the top of the body whenever
    /// something is live.
    pub band_rows: u16,
    /// The off-screen SCORES lane: on exactly when tier2, finals or later got
    /// cut short of what the raw counts asked for.
    pub scores_lane: bool,
}

/// Row cost of one section rule/label line.
pub const RULE_ROWS: u16 = 1;

/// Every row count the cascade computes.
#[derive(Clone, Debug, PartialEq, Eq)]
pub struct FullPlan {
    pub hero_rows: u16,
    pub hero_digits_full: bool,
    pub tier1: usize,
    pub tier2: usize,
    pub finals: usize,
    pub later: usize,
    pub band_rows: u16,
    pub scores_lane: bool,
}

pub open spec fn sat(a: int, b: int) -> int {
    if a > b { a - b } else { 0 }
}

pub open spec fn min(a: int, b: int) -> int {
    if a < b { a } else { b }
}

/// A section (MY GAMES / FINAL / LATER) shows `min(requested, budget - 1)`
/// rows and costs its rule row only when it shows at least one:
/// `(rows_shown, cost)`.
pub open spec fn section_spec(requested: int, budget: int) -> (int, int) {
    let content = min(requested, sat(budget, RULE_ROWS as int));
    if requested == 0 || budget == 0 || content == 0 {
        (0, 0)
    } else {
        (content, content + RULE_ROWS)
    }
}

/// The live list: tier 1 takes a quarter of what is left after the rule
/// (capped by width class and the live count), tier 2 as many single lines
/// as then fit; one shared rule, charged only when a row shows:
/// `(tier1, tier2, cost)`.
pub open spec fn live_spec(live: int, cap: int, budget: int) -> (int, int, int) {
    let avail = sat(budget, RULE_ROWS as int);
    let tier1 = min(min(avail / 4, cap), live);
    let tier2 = min(live - tier1, sat(avail, 3 * tier1));
    let content = 3 * tier1 + tier2;
    if live == 0 || budget == 0 || content == 0 {
        (0, 0, 0)
    } else {
        (tier1, tier2, content + RULE_ROWS)
    }
}

/// The hero by (width, height) bracket: `(rows, full digits)`.
pub open spec fn hero_spec(width: int, height: int) -> (int, bool) {
    if width < 40 || height < 12 {
        (0, false)
    } else if width < 60 {
        (2, false)
    } else if width >= 100 && height >= 32 {
        (12, true)
    } else {
        (6, false)
    }
}

/// How many live games may be promoted to tier 1 at this width.
pub open spec fn tier1_cap_spec(width: int) -> int {
    if width >= 120 {
        3
    } else if width >= 100 {
        2
    } else {
        0
    }
}

pub open spec fn band_spec(width: int, height: int, live: int) -> int {
    if live > 0 && sat(height, hero_spec(width, height).0) > BAND_ROWS as int {
        BAND_ROWS as int
    } else {
        0
    }
}

/// The cascade below the hero and the band, on `budget` rows:
/// `(tier1, tier2, finals, later, lane)`. The first pass reserves nothing
/// for the lane; if it cut anything short, the lane takes one row and the
/// cascade runs again — when there is a row to take: with no body row left
/// the lane stays off, since it would have nowhere to stand.
#[verifier::opaque]
pub open spec fn cascade_spec(
    cap: int,
    budget: int,
    live: int,
    finals: int,
    later: int,
) -> (int, int, int, int, bool) {
    let (t1_0, t2_0, live_cost_0) = live_spec(live, cap, budget);
    let live_left = sat(live, t1_0);
    let remaining_0 = sat(budget, live_cost_0);
    let finals_target = min(finals, 2);
    let (finals_0, finals_cost_0) = section_spec(finals_target, remaining_0);
    let remaining_1 = sat(remaining_0, finals_cost_0);
    let later_0 = section_spec(later, remaining_1).0;
    let truncate = t2_0 < live_left || finals_0 < finals_target || later_0 < later;
    if truncate && budget > 0 {
        let b = sat(budget, 1);
        let (t1, t2, live_cost) = live_spec(live, cap, b);
        let rem = sat(b, live_cost);
        let (f, f_cost) = section_spec(finals_target, rem);
        let rem2 = sat(rem, f_cost);
        let l = section_spec(later, rem2).0;
        (t1, t2, f, l, true)
    } else {
        (t1_0, t2_0, finals_0, later_0, false)
    }
}

/// The MY GAMES band's rows at this size.
pub open spec fn my_games_rows_spec(width: int, height: int, live: int, my_games: int) -> int {
    let budget = sat(sat(height, hero_spec(width, height).0), band_spec(width, height, live));
    section_spec(my_games, budget).0
}

/// The whole sizes ladder.
pub open spec fn plan_spec(
    width: int,
    height: int,
    live: int,
    finals: int,
    later: int,
    my_games: int,
) -> FullPlan {
    let (hero, full) = hero_spec(width, height);
    let band = band_spec(width, height, live);
    let budget0 = sat(sat(height, hero), band);
    let my_cost = section_spec(my_games, budget0).1;
    let budget = sat(budget0, my_cost);
    let (t1, t2, f, l, lane) = cascade_spec(tier1_cap_spec(width), budget, live, finals, later);
    FullPlan {
        hero_rows: hero as u16,
        hero_digits_full: full,
        tier1: t1 as usize,
        tier2: t2 as usize,
        finals: f as usize,
        later: l as usize,
        band_rows: band as u16,
        scores_lane: lane,
    }
}

proof fn lemma_section_bounds(requested: int, budget: int)
    requires
        requested >= 0,
        budget >= 0,
    ensures
        0 <= section_spec(requested, budget).0 <= requested,
        section_spec(requested, budget).1 <= budget,
        section_spec(requested, budget).1 == if section_spec(requested, budget).0 > 0 {
            section_spec(requested, budget).0 + 1
        } else {
            0
        },
{
}

proof fn lemma_live_bounds(live: int, cap: int, budget: int)
    requires
        live >= 0,
        cap >= 0,
        budget >= 0,
    ensures
        ({
            let (t1, t2, cost) = live_spec(live, cap, budget);
            &&& 0 <= t1 <= cap
            &&& t1 <= live
            &&& 0 <= t2
            &&& t1 + t2 <= live
            &&& cost <= budget
            &&& cost == if t1 + t2 > 0 { 3 * t1 + t2 + 1 } else { 0 }
            &&& (t2 < live - t1 && budget > 1 ==> cost == budget)
            &&& 3 * t1 <= sat(budget, 1)
        }),
{
    let avail = sat(budget, RULE_ROWS as int);
    assert(avail / 4 * 4 <= avail) by (nonlinear_arith)
        requires
            avail >= 0,
    ;
}

/// Section A: `(rows_shown, cost)` for a section, computed as `section_spec`.
fn section_alloc(requested: usize, budget: u16) -> (r: (usize, u16))
    ensures
        r.0 as int == section_spec(requested as int, budget as int).0,
        r.1 as int == section_spec(requested as int, budget as int).1,
{
    if requested == 0 || budget == 0 {
        return (0, 0);
    }
    let room: u16 = budget.saturating_sub(RULE_ROWS);
    let content: usize = if requested < room as usize { requested } else { room as usize };
    if content == 0 {
        (0, 0)
    } else {
        (content, content as u16 + RULE_ROWS)
    }
}

/// The live list's `(tier1, tier2, cost)`, computed as `live_spec`.
fn live_alloc(live: usize, tier1_cap: usize, budget: u16) -> (r: (usize, usize, u16))
    ensures
        r.0 as int == live_spec(live as int, tier1_cap as int, budget as int).0,
        r.1 as int == live_spec(live as int, tier1_cap as int, budget as int).1,
        r.2 as int == live_spec(live as int, tier1_cap as int, budget as int).2,
{
    if live == 0 || budget == 0 {
        return (0, 0, 0);
    }
    let avail: u16 = budget.saturating_sub(RULE_ROWS);
    let q: usize = (avail / 4) as usize;
    let a: usize = if q < tier1_cap { q } else { tier1_cap };
    let tier1: usize = if a < live { a } else { live };
    let after_tier1: u16 = avail.saturating_sub(3 * tier1 as u16);
    let live_left: usize = live - tier1;
    let tier2: usize = if live_left < after_tier1 as usize { live_left } else { after_tier1 as usize };
    let content: u16 = 3 * tier1 as u16 + tier2 as u16;
    if content == 0 {
        (0, 0, 0)
    } else {
        (tier1, tier2, content + RULE_ROWS)
    }
}

/// The cascade below the hero and the band, computed as `cascade_spec`.
fn cascade(tier1_cap: usize, budget: u16, live: usize, finals: usize, later: usize) -> (r: (usize, usize, usize, usize, bool))
    requires
        tier1_cap <= 3,
    ensures
        ({
            let c = cascade_spec(tier1_cap as int, budget as int, live as int, finals as int, later as int);
            &&& r.0 as int == c.0
            &&& r.1 as int == c.1
            &&& r.2 as int == c.2
            &&& r.3 as int == c.3
            &&& r.4 == c.4
        }),
{
    proof {
        reveal(cascade_spec);
    }
    let (tier1_0, tier2_0, live_cost_0) = live_alloc(live, tier1_cap, budget);
    proof {
        lemma_live_bounds(live as int, tier1_cap as int, budget as int);
    }
    let live_left: usize = live - tier1_0;
    let remaining_0: u16 = budget.saturating_sub(live_cost_0);
    let finals_target: usize = if finals < 2 { finals } else { 2 };
    let (finals_0, finals_cost_0) = section_alloc(finals_target, remaining_0);
    let remaining_1: u16 = remaining_0.saturating_sub(finals_cost_0);
    let (later_0, _) = section_alloc(later, remaining_1);
    let would_truncate = tier2_0 < live_left || finals_0 < finals_target || later_0 < later;
    if would_truncate && budget > 0 {
        let budget: u16 = budget.saturating_sub(1);
        let (tier1, tier2, live_cost) = live_alloc(live, tier1_cap, budget);
        let remaining: u16 = budget.saturating_sub(live_cost);
        let (finals_rows, finals_cost) = section_alloc(finals_target, remaining);
        let remaining: u16 = remaining.saturating_sub(finals_cost);
        let (later_rows, _) = section_alloc(later, remaining);
        (tier1, tier2, finals_rows, later_rows, true)
    } else {
        (tier1_0, tier2_0, finals_0, later_0, false)
    }
}

/// The sizes ladder as a top-down subtraction: hero first by the width and
/// height gates, the band's reservation, then MY GAMES, then rows run out
/// bottom-up — later first, then finals, then tier 2 truncates (the lane
/// comes on, paying for its own row), tier 1 demotes.
///
/// `my_games` is the MY GAMES band's row count, excluding the hero.
pub fn plan_detailed(
    width: u16,
    height: u16,
    live: usize,
    finals: usize,
    later: usize,
    my_games: usize,
) -> (p: FullPlan)
    ensures
        p == plan_spec(width as int, height as int, live as int, finals as int, later as int, my_games as int),
        rows_used(my_games_rows_spec(width as int, height as int, live as int, my_games as int), p) <= height,
{
    proof {
        lemma_budget_never_over_allocates(width, height, live, finals, later, my_games);
    }
    let (hero_rows, hero_digits_full): (u16, bool) = if width < 40 || height < 12 {
        (0, false)
    } else if width < 60 {
        (2, false)
    } else if width >= 100 && height >= 32 {
        (12, true)
    } else {
        (6, false)
    };
    let tier1_cap: usize = if width >= 120 {
        3
    } else if width >= 100 {
        2
    } else {
        0
    };
    let band_rows: u16 = if live > 0 && height.saturating_sub(hero_rows) > BAND_ROWS {
        BAND_ROWS
    } else {
        0
    };
    let budget: u16 = height.saturating_sub(hero_rows).saturating_sub(band_rows);
    let (_my_rows, my_cost) = section_alloc(my_games, budget);
    let budget: u16 = budget.saturating_sub(my_cost);

    let (tier1, tier2, finals_rows, later_rows, would_truncate) = cascade(tier1_cap, budget, live, finals, later);
    FullPlan {
        hero_rows,
        hero_digits_full,
        tier1,
        tier2,
        finals: finals_rows,
        later: later_rows,
        band_rows,
        scores_lane: would_truncate,
    }
}

/// The public projection of the ladder: the fields the board reads.
pub fn plan(width: u16, height: u16, live: usize, finals: usize, later: usize, my_games: usize) -> (p: TierPlan)
    ensures
        ({
            let full = plan_spec(width as int, height as int, live as int, finals as int, later as int, my_games as int);
            &&& p.hero_rows == full.hero_rows
            &&& p.hero_digits_full == full.hero_digits_full
            &&& p.tier1 == full.tier1
            &&& p.band_rows == full.band_rows
            &&& p.scores_lane == full.scores_lane
        }),
{
    let full = plan_detailed(width, height, live, finals, later, my_games);
    TierPlan {
        hero_rows: full.hero_rows,
        hero_digits_full: full.hero_digits_full,
        tier1: full.tier1,
        band_rows: full.band_rows,
        scores_lane: full.scores_lane,
    }
}

/// Rows left for the live list, FINAL and LATER once the hero, the band and
/// MY GAMES have been charged.
pub open spec fn body_budget_spec(width: int, height: int, live: int, my_games: int) -> int {
    let budget0 = sat(sat(height, hero_spec(width, height).0), band_spec(width, height, live));
    sat(budget0, section_spec(my_games, budget0).1)
}

/// How many section rules render: one per section that shows a row.
pub open spec fn rules_rendering(my_rows: int, p: FullPlan) -> int {
    (if my_rows > 0 { 1int } else { 0 }) + (if p.tier1 + p.tier2 > 0 { 1int } else { 0 }) + (if p.finals
        > 0 { 1int } else { 0 }) + (if p.later > 0 { 1int } else { 0 })
}

/// The rows a plan spends: hero, band, tier rows, MY GAMES rows, one rule per
/// section that shows content, and the lane's own row.
pub open spec fn rows_used(my_rows: int, p: FullPlan) -> int {
    p.hero_rows + p.band_rows + 3 * p.tier1 + p.tier2 + p.finals + p.later + my_rows + rules_rendering(
        my_rows,
        p,
    ) + (if p.scores_lane { 1int } else { 0 })
}

proof fn lemma_cascade_cost(cap: int, budget: int, live: int, finals: int, later: int)
    requires
        0 <= cap <= 3,
        budget >= 0,
        live >= 0,
        finals >= 0,
        later >= 0,
    ensures
        ({
            let (t1, t2, f, l, lane) = cascade_spec(cap, budget, live, finals, later);
            &&& 3 * t1 + t2 + f + l + (if t1 + t2 > 0 { 1int } else { 0 }) + (if f > 0 { 1int } else { 0 })
                + (if l > 0 { 1int } else { 0 }) + (if lane { 1int } else { 0 }) <= budget
            &&& 0 <= t1 && 0 <= t2 && 0 <= f && 0 <= l
            &&& t1 + t2 <= live
            &&& f <= finals
            &&& l <= later
        }),
{
    reveal(cascade_spec);
    lemma_live_bounds(live, cap, budget);
    lemma_live_bounds(live, cap, sat(budget, 1));
    let finals_target = min(finals, 2);
    let (t1_0, t2_0, c0) = live_spec(live, cap, budget);
    let r0 = sat(budget, c0);
    lemma_section_bounds(finals_target, r0);
    let r1 = sat(r0, section_spec(finals_target, r0).1);
    lemma_section_bounds(later, r1);
    let b = sat(budget, 1);
    let (t1, t2, c) = live_spec(live, cap, b);
    let rem = sat(b, c);
    lemma_section_bounds(finals_target, rem);
    let rem2 = sat(rem, section_spec(finals_target, rem).1);
    lemma_section_bounds(later, rem2);
}

/// The budget never over-allocates: hero + band + 3·tier1 + tier2 + finals +
/// later + MY GAMES rows + one rule per section that renders content + the
/// lane's own row fit in the height the plan was given, on every input.
pub proof fn lemma_budget_never_over_allocates(
    width: u16,
    height: u16,
    live: usize,
    finals: usize,
    later: usize,
    my_games: usize,
)
    ensures
        rows_used(
            my_games_rows_spec(width as int, height as int, live as int, my_games as int),
            plan_spec(width as int, height as int, live as int, finals as int, later as int, my_games as int),
        ) <= height,
{
    let (w, h) = (width as int, height as int);
    let hero = hero_spec(w, h).0;
    let band = band_spec(w, h, live as int);
    let budget0 = sat(sat(h, hero), band);
    lemma_section_bounds(my_games as int, budget0);
    let budget = sat(budget0, section_spec(my_games as int, budget0).1);
    lemma_cascade_cost(tier1_cap_spec(w), budget, live as int, finals as int, later as int);
    let c = cascade_spec(tier1_cap_spec(w), budget, live as int, finals as int, later as int);
    let p = plan_spec(w, h, live as int, finals as int, later as int, my_games as int);
    assert(p.tier1 == c.0 && p.tier2 == c.1 && p.finals == c.2 && p.later == c.3 && p.scores_lane == c.4);
    assert(hero + band <= h);
}

/// Rows run out bottom-up: the live list is cut short only after FINAL and
/// LATER have given up every row, and FINAL only after LATER has.
pub proof fn lemma_rows_run_out_bottom_up(
    width: u16,
    height: u16,
    live: usize,
    finals: usize,
    later: usize,
    my_games: usize,
)
    ensures
        ({
            let p = plan_spec(width as int, height as int, live as int, finals as int, later as int, my_games as int);
            &&& (p.tier1 + p.tier2 < live ==> p.finals == 0 && p.later == 0)
            &&& (p.finals < min(finals as int, 2) ==> p.later == 0)
        }),
{
    let (w, h) = (width as int, height as int);
    let budget = body_budget_spec(w, h, live as int, my_games as int);
    let cap = tier1_cap_spec(w);
    reveal(cascade_spec);
    lemma_live_bounds(live as int, cap, budget);
    lemma_live_bounds(live as int, cap, sat(budget, 1));
}

/// A board with nothing live reserves no band and promotes nothing; a live
/// board reserves exactly `BAND_ROWS` whenever more than that many rows are
/// left under the hero.
pub proof fn lemma_band_only_for_live_boards(
    width: u16,
    height: u16,
    live: usize,
    finals: usize,
    later: usize,
    my_games: usize,
)
    ensures
        ({
            let p = plan_spec(width as int, height as int, live as int, finals as int, later as int, my_games as int);
            &&& (live == 0 ==> p.band_rows == 0 && p.tier1 == 0 && p.tier2 == 0)
            &&& (live > 0 && height - p.hero_rows > BAND_ROWS ==> p.band_rows == BAND_ROWS)
        }),
{
    reveal(cascade_spec);
    let budget = body_budget_spec(width as int, height as int, live as int, my_games as int);
    let cap = tier1_cap_spec(width as int);
    lemma_live_bounds(live as int, cap, budget);
    lemma_live_bounds(live as int, cap, sat(budget, 1));
}

/// The hero is a pure function of the size bracket: no hero under 40×12,
/// two compact rows under 60 columns, twelve rows of full digits from
/// 100×32, six rows otherwise — never more rows than the height. Tier 1 is
/// capped at 3 from 120 columns, 2 from 100, and none below.
pub proof fn lemma_hero_bracket(
    width: u16,
    height: u16,
    live: usize,
    finals: usize,
    later: usize,
    my_games: usize,
)
    ensures
        ({
            let p = plan_spec(width as int, height as int, live as int, finals as int, later as int, my_games as int);
            &&& p.hero_rows == hero_spec(width as int, height as int).0
            &&& p.hero_rows <= height
            &&& (p.hero_digits_full <==> p.hero_rows == 12)
            &&& (width < 40 || height < 12 ==> p.hero_rows == 0)
            &&& p.tier1 <= tier1_cap_spec(width as int)
            &&& (width < 100 ==> p.tier1 == 0)
        }),
{
    let (w, h) = (width as int, height as int);
    let budget = body_budget_spec(w, h, live as int, my_games as int);
    let cap = tier1_cap_spec(w);
    reveal(cascade_spec);
    lemma_live_bounds(live as int, cap, budget);
    lemma_live_bounds(live as int, cap, sat(budget, 1));
}

} // verus!
