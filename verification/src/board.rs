//! The board: one ranked list cut into sections, laid out as a stack of
//! whole blocks — a section rule, the hero, or a tier-1/2/3 row — in
//! selection order.
//!
//! The view is a window onto the block list that scrolls by whole blocks,
//! so the hero is never drawn with rows missing; the window is a pure
//! function of the selection, so a board that shrinks between frames cannot
//! strand the selection off-screen.
use vstd::prelude::*;
use crate::derive::Sections;
use crate::domain::{Game, Status};
use crate::layout::{plan, plan_spec, TierPlan};
use crate::rank::SortKey;
use crate::text::{append, append_dec, dec, join, join_strings, string_views};

verus! {

broadcast use vstd::seq_lib::group_seq_properties;

/// Rows a tier-1 block occupies: nameplate, fragment, and a row of air.
pub const TIER1_ROWS: u16 = 3;

/// Which section a rule heads. MY GAMES counts the held pins it shows.
#[derive(Clone, Copy, Debug, PartialEq, Eq, Structural)]
pub enum RuleLabel {
    MyGames { pinned: usize },
    InPlay,
    Final,
    Later,
}

/// One drawable unit of the board: a whole number of rows, drawn or skipped
/// as a unit. Game blocks carry their index into the selection.
#[derive(Clone, Copy, Debug, PartialEq, Eq, Structural)]
pub enum Block {
    Rule { label: RuleLabel },
    Hero { sel: usize, rows: u16 },
    Tier1 { sel: usize },
    Tier2 { sel: usize },
    Tier3 { sel: usize },
}

impl Block {
    pub open spec fn rows_spec(self) -> u16 {
        match self {
            Block::Hero { rows, .. } => rows,
            Block::Tier1 { .. } => TIER1_ROWS,
            _ => 1,
        }
    }

    pub open spec fn sel_spec(self) -> Option<usize> {
        match self {
            Block::Rule { .. } => None,
            Block::Hero { sel, .. } => Some(sel),
            Block::Tier1 { sel } => Some(sel),
            Block::Tier2 { sel } => Some(sel),
            Block::Tier3 { sel } => Some(sel),
        }
    }

    /// Rows the block takes on screen.
    pub fn rows(&self) -> (r: u16)
        ensures
            r == self.rows_spec(),
    {
        match self {
            Block::Hero { rows, .. } => *rows,
            Block::Tier1 { .. } => TIER1_ROWS,
            _ => 1,
        }
    }

    /// Index into the selection, for the blocks j/k can land on.
    pub fn selection_index(&self) -> (r: Option<usize>)
        ensures
            r == self.sel_spec(),
    {
        match self {
            Block::Rule { .. } => None,
            Block::Hero { sel, .. } => Some(*sel),
            Block::Tier1 { sel } => Some(*sel),
            Block::Tier2 { sel } => Some(*sel),
            Block::Tier3 { sel } => Some(*sel),
        }
    }
}

/// The visible game at index `k` is the hero (matched by id).
pub open spec fn is_hero(vis: Seq<Game>, hero: Option<usize>, k: usize) -> bool {
    match hero {
        Some(h) => vis[h as int].id@ == vis[k as int].id@,
        None => false,
    }
}

/// The first of the first `n` entries of `sec` that is the hero.
pub open spec fn hero_upto(vis: Seq<Game>, hero: Option<usize>, sec: Seq<usize>, n: int) -> Option<int>
    decreases n,
{
    if n <= 0 {
        None
    } else {
        match hero_upto(vis, hero, sec, n - 1) {
            Some(i) => Some(i),
            None => if is_hero(vis, hero, sec[n - 1]) {
                Some(n - 1)
            } else {
                None
            },
        }
    }
}

proof fn lemma_hero_upto(vis: Seq<Game>, hero: Option<usize>, sec: Seq<usize>, a: int, b: int)
    requires
        0 <= a <= b <= sec.len(),
    ensures
        hero_upto(vis, hero, sec, a) is Some ==> hero_upto(vis, hero, sec, b) == hero_upto(vis, hero, sec, a),
        match hero_upto(vis, hero, sec, b) {
            Some(i) => 0 <= i < b && is_hero(vis, hero, sec[i]),
            None => forall|j: int| 0 <= j < b ==> !is_hero(vis, hero, #[trigger] sec[j]),
        },
    decreases b,
{
    if b > 0 {
        if a < b {
            lemma_hero_upto(vis, hero, sec, a, b - 1);
        } else {
            lemma_hero_upto(vis, hero, sec, b - 1, b - 1);
        }
    }
}

/// The band's own rows: the hero block for the hero when it is drawn, a
/// tier-2 row for a live game, a tier-3 row otherwise.
pub open spec fn band_blocks(vis: Seq<Game>, s: Sections, hero_rows: u16) -> Seq<Block> {
    Seq::new(
        s.my_games@.len(),
        |k: int|
            if hero_rows > 0 && is_hero(vis, s.hero, s.my_games@[k]) {
                Block::Hero { sel: k as usize, rows: hero_rows }
            } else if vis[s.my_games@[k] as int].status == Status::Live {
                Block::Tier2 { sel: k as usize }
            } else {
                Block::Tier3 { sel: k as usize }
            },
    )
}

/// Where IN PLAY's hero sits, when it is drawn above the IN PLAY rule: only
/// when the band holds no hero and a hero fits at all.
pub open spec fn in_play_hero(vis: Seq<Game>, s: Sections, hero_rows: u16) -> Option<int> {
    if hero_rows == 0 || hero_upto(vis, s.hero, s.my_games@, s.my_games@.len() as int) is Some {
        None
    } else {
        hero_upto(vis, s.hero, s.in_play@, s.in_play@.len() as int)
    }
}

/// IN PLAY's rows, the hero left out: the first `tier1` promoted to tier 1.
pub open spec fn in_play_blocks(vis: Seq<Game>, s: Sections, hero_rows: u16, tier1: usize) -> Seq<Block> {
    let base = s.my_games@.len();
    let at = in_play_hero(vis, s, hero_rows);
    let all = Seq::new(
        s.in_play@.len(),
        |i: int|
            {
                let rank = match at {
                    Some(a) => if a < i {
                        i - 1
                    } else {
                        i
                    },
                    None => i,
                };
                if rank < tier1 {
                    Block::Tier1 { sel: (base + i) as usize }
                } else {
                    Block::Tier2 { sel: (base + i) as usize }
                }
            },
    );
    match at {
        Some(a) => all.remove(a),
        None => all,
    }
}

/// A rule and tier-3 rows for FINAL or LATER, starting at selection index
/// `base`; nothing for an empty section.
pub open spec fn tail_blocks(label: RuleLabel, n: int, base: int) -> Seq<Block> {
    if n == 0 {
        Seq::empty()
    } else {
        seq![Block::Rule { label }] + Seq::new(n as nat, |i: int| Block::Tier3 { sel: (base + i) as usize })
    }
}

/// The whole block list, in selection order.
#[verifier::opaque]
pub open spec fn blocks_spec(vis: Seq<Game>, s: Sections, pinned: usize, hero_rows: u16, tier1: usize) -> Seq<Block> {
    let my = s.my_games@.len();
    let ip = s.in_play@.len();
    let fin = s.finals@.len();
    let head = if my > 0 {
        seq![Block::Rule { label: RuleLabel::MyGames { pinned } }]
    } else {
        Seq::empty()
    };
    let hero = match in_play_hero(vis, s, hero_rows) {
        Some(a) => seq![Block::Hero { sel: (my + a) as usize, rows: hero_rows }],
        None => Seq::empty(),
    };
    let ip_rule = if ip > 0 {
        seq![Block::Rule { label: RuleLabel::InPlay }]
    } else {
        Seq::empty()
    };
    head + band_blocks(vis, s, hero_rows) + hero + ip_rule + in_play_blocks(vis, s, hero_rows, tier1) + tail_blocks(
        RuleLabel::Final,
        fin as int,
        (my + ip) as int,
    ) + tail_blocks(RuleLabel::Later, s.later@.len() as int, (my + ip + fin) as int)
}

/// The sections index the visible games and their lengths add up within
/// `usize`.
pub open spec fn sections_ok(vis: Seq<Game>, s: Sections) -> bool {
    &&& crate::derive::in_bounds(s.my_games@, vis.len() as int)
    &&& crate::derive::in_bounds(s.in_play@, vis.len() as int)
    &&& match s.hero {
        Some(h) => h < vis.len(),
        None => true,
    }
    &&& s.my_games@.len() + s.in_play@.len() + s.finals@.len() + s.later@.len() + 8 <= usize::MAX
}

fn hero_index(vis: &Vec<Game>, hero: Option<usize>, sec: &Vec<usize>) -> (r: Option<usize>)
    requires
        crate::derive::in_bounds(sec@, vis@.len() as int),
        match hero {
            Some(h) => h < vis@.len(),
            None => true,
        },
    ensures
        match (r, hero_upto(vis@, hero, sec@, sec@.len() as int)) {
            (Some(i), Some(j)) => i == j,
            (None, None) => true,
            _ => false,
        },
{
    let h = match hero {
        Some(h) => h,
        None => {
            proof {
                lemma_hero_upto(vis@, hero, sec@, 0, sec@.len() as int);
                if hero_upto(vis@, hero, sec@, sec@.len() as int) is Some {
                    let i = hero_upto(vis@, hero, sec@, sec@.len() as int)->0;
                    assert(is_hero(vis@, hero, sec@[i]));
                }
            }
            return None;
        },
    };
    let mut i: usize = 0;
    while i < sec.len()
        invariant
            i <= sec@.len(),
            hero == Some(h),
            h < vis@.len(),
            crate::derive::in_bounds(sec@, vis@.len() as int),
            hero_upto(vis@, hero, sec@, i as int) is None,
        decreases sec@.len() - i,
    {
        if vis[h].id == vis[sec[i]].id {
            proof {
                lemma_hero_upto(vis@, hero, sec@, i + 1, sec@.len() as int);
            }
            return Some(i);
        }
        i += 1;
    }
    None
}

fn push_band(out: &mut Vec<Block>, vis: &Vec<Game>, s: &Sections, hero_rows: u16)
    requires
        sections_ok(vis@, *s),
    ensures
        final(out)@ == old(out)@ + band_blocks(vis@, *s, hero_rows),
{
    let ghost p0 = out@;
    let my = s.my_games.len();
    let mut k: usize = 0;
    while k < my
        invariant
            k <= my,
            my == s.my_games@.len(),
            sections_ok(vis@, *s),
            out@ == p0 + band_blocks(vis@, *s, hero_rows).take(k as int),
        decreases my - k,
    {
        let g = s.my_games[k];
        let hero_here = match s.hero {
            Some(h) => vis[h].id == vis[g].id,
            None => false,
        };
        let b = if hero_rows > 0 && hero_here {
            Block::Hero { sel: k, rows: hero_rows }
        } else if vis[g].status == Status::Live {
            Block::Tier2 { sel: k }
        } else {
            Block::Tier3 { sel: k }
        };
        out.push(b);
        assert(band_blocks(vis@, *s, hero_rows).take(k + 1) =~= band_blocks(vis@, *s, hero_rows).take(k as int).push(b));
        k += 1;
    }
    assert(band_blocks(vis@, *s, hero_rows).take(my as int) =~= band_blocks(vis@, *s, hero_rows));
}

/// IN PLAY's block for its `i`th game, `at` being where its hero sits.
pub open spec fn in_play_block(at: Option<int>, base: int, i: int, tier1: usize) -> Block {
    let rank = match at {
        Some(a) => if a < i {
            i - 1
        } else {
            i
        },
        None => i,
    };
    if rank < tier1 {
        Block::Tier1 { sel: (base + i) as usize }
    } else {
        Block::Tier2 { sel: (base + i) as usize }
    }
}

proof fn lemma_in_play_blocks(vis: Seq<Game>, s: Sections, hero_rows: u16, tier1: usize)
    ensures
        ({
            let at = in_play_hero(vis, s, hero_rows);
            let all = Seq::new(
                s.in_play@.len(),
                |i: int| in_play_block(at, s.my_games@.len() as int, i, tier1),
            );
            in_play_blocks(vis, s, hero_rows, tier1) == match at {
                Some(a) => all.remove(a),
                None => all,
            }
        }),
{
    let at = in_play_hero(vis, s, hero_rows);
    let all = Seq::new(s.in_play@.len(), |i: int| in_play_block(at, s.my_games@.len() as int, i, tier1));
    let base = s.my_games@.len();
    let all2 = Seq::new(
        s.in_play@.len(),
        |i: int|
            {
                let rank = match at {
                    Some(a) => if a < i {
                        i - 1
                    } else {
                        i
                    },
                    None => i,
                };
                if rank < tier1 {
                    Block::Tier1 { sel: (base + i) as usize }
                } else {
                    Block::Tier2 { sel: (base + i) as usize }
                }
            },
    );
    assert(all =~= all2);
}

fn push_in_play(out: &mut Vec<Block>, s: &Sections, tier1: usize, at: Option<usize>, ghost_at: Ghost<Option<int>>)
    requires
        match (at, ghost_at@) {
            (Some(x), Some(y)) => x == y && x < s.in_play@.len(),
            (None, None) => true,
            _ => false,
        },
        s.my_games@.len() + s.in_play@.len() + 8 <= usize::MAX,
    ensures
        ({
            let all = Seq::new(
                s.in_play@.len(),
                |i: int| in_play_block(ghost_at@, s.my_games@.len() as int, i, tier1),
            );
            final(out)@ == old(out)@ + match ghost_at@ {
                Some(a) => all.remove(a),
                None => all,
            }
        }),
{
    let my = s.my_games.len();
    let ip = s.in_play.len();
    let ghost p1 = out@;
    let ghost all = Seq::new(ip as nat, |i: int| in_play_block(ghost_at@, my as int, i, tier1));
    let mut promoted: usize = 0;
    let mut i: usize = 0;
    while i < ip
        invariant
            i <= ip,
            ip == s.in_play@.len(),
            my == s.my_games@.len(),
            my + ip + 8 <= usize::MAX,
            match (at, ghost_at@) {
                (Some(x), Some(y)) => x == y && x < ip,
                (None, None) => true,
                _ => false,
            },
            all == Seq::new(ip as nat, |i: int| in_play_block(ghost_at@, my as int, i, tier1)),
            promoted == match at {
                Some(a) => if a < i {
                    i - 1
                } else {
                    i as int
                },
                None => i as int,
            },
            out@ == p1 + match at {
                Some(a) => if a < i {
                    all.take(i as int).remove(a as int)
                } else {
                    all.take(i as int)
                },
                None => all.take(i as int),
            },
        decreases ip - i,
    {
        let skip = match at {
            Some(a) => a == i,
            None => false,
        };
        if !skip {
            let b = if promoted < tier1 {
                Block::Tier1 { sel: my + i }
            } else {
                Block::Tier2 { sel: my + i }
            };
            assert(b == all[i as int]);
            out.push(b);
            promoted += 1;
            proof {
                match at {
                    Some(a) => {
                        if a < i {
                            assert(all.take(i + 1).remove(a as int) =~= all.take(i as int).remove(a as int).push(
                                all[i as int],
                            ));
                        } else {
                            assert(all.take(i + 1) =~= all.take(i as int).push(all[i as int]));
                        }
                    },
                    None => {
                        assert(all.take(i + 1) =~= all.take(i as int).push(all[i as int]));
                    },
                }
            }
        } else {
            proof {
                assert(all.take(i + 1).remove(i as int) =~= all.take(i as int));
            }
        }
        i += 1;
    }
    assert(all.take(ip as int) =~= all);
}

fn push_tail(out: &mut Vec<Block>, label: RuleLabel, n: usize, base: usize)
    requires
        base + n + 1 <= usize::MAX,
    ensures
        final(out)@ == old(out)@ + tail_blocks(label, n as int, base as int),
{
    if n == 0 {
        assert(old(out)@ + tail_blocks(label, 0, base as int) =~= old(out)@);
        return;
    }
    let ghost p = out@;
    out.push(Block::Rule { label });
    let mut j: usize = 0;
    while j < n
        invariant
            j <= n,
            base + n + 1 <= usize::MAX,
            out@ == p.push(Block::Rule { label }) + Seq::new(j as nat, |x: int| Block::Tier3 { sel: (base + x) as usize }),
        decreases n - j,
    {
        out.push(Block::Tier3 { sel: base + j });
        assert(Seq::new((j + 1) as nat, |x: int| Block::Tier3 { sel: (base + x) as usize }) =~= Seq::new(
            j as nat,
            |x: int| Block::Tier3 { sel: (base + x) as usize },
        ).push(Block::Tier3 { sel: (base + j) as usize }));
        j += 1;
    }
    assert(out@ =~= p + tail_blocks(label, n as int, base as int));
}

/// Builds the board's block list: the MY GAMES rule and band rows, the
/// IN PLAY hero above its rule when the band holds none, IN PLAY's rows with
/// the first `tier1` promoted, then FINAL and LATER. Empty sections get no
/// rule.
pub fn build_blocks(vis: &Vec<Game>, s: &Sections, pinned: usize, hero_rows: u16, tier1: usize) -> (r: Vec<Block>)
    requires
        sections_ok(vis@, *s),
    ensures
        r@ == blocks_spec(vis@, *s, pinned, hero_rows, tier1),
{
    reveal(blocks_spec);
    let my = s.my_games.len();
    let ip = s.in_play.len();
    let fin = s.finals.len();
    let lat = s.later.len();
    let mut out: Vec<Block> = Vec::new();
    if my > 0 {
        out.push(Block::Rule { label: RuleLabel::MyGames { pinned } });
    }
    let ghost head = out@;
    push_band(&mut out, vis, s, hero_rows);
    let band_hero = hero_index(vis, s.hero, &s.my_games);
    let at = if hero_rows == 0 || band_hero.is_some() {
        None
    } else {
        hero_index(vis, s.hero, &s.in_play)
    };
    let ghost gat = in_play_hero(vis@, *s, hero_rows);
    proof {
        lemma_hero_upto(vis@, s.hero, s.in_play@, 0, s.in_play@.len() as int);
    }
    let ghost p_hero = out@;
    match at {
        Some(a) => {
            out.push(Block::Hero { sel: my + a, rows: hero_rows });
        },
        None => {},
    }
    let ghost p_rule = out@;
    if ip > 0 {
        out.push(Block::Rule { label: RuleLabel::InPlay });
    }
    let ghost p_ip = out@;
    push_in_play(&mut out, s, tier1, at, Ghost(gat));
    proof {
        lemma_in_play_blocks(vis@, *s, hero_rows, tier1);
    }
    let ghost p_fin = out@;
    push_tail(&mut out, RuleLabel::Final, fin, my + ip);
    let ghost p_lat = out@;
    push_tail(&mut out, RuleLabel::Later, lat, my + ip + fin);
    proof {
        let hero = match gat {
            Some(a) => seq![Block::Hero { sel: (my + a) as usize, rows: hero_rows }],
            None => Seq::empty(),
        };
        let ip_rule = if ip > 0 {
            seq![Block::Rule { label: RuleLabel::InPlay }]
        } else {
            Seq::empty()
        };
        assert(p_rule =~= p_hero + hero);
        assert(p_ip =~= p_rule + ip_rule);
    }
    assert(out@ =~= blocks_spec(vis@, *s, pinned, hero_rows, tier1));
    out
}

/// The block just past a greedy fill of `room` rows starting at block `f`:
/// blocks are taken in order until the next one does not fit.
pub open spec fn fit_end(blocks: Seq<Block>, f: int, room: int) -> int
    decreases blocks.len() - f,
{
    if f < 0 || f >= blocks.len() || blocks[f].rows_spec() > room {
        f
    } else {
        fit_end(blocks, f + 1, room - blocks[f].rows_spec())
    }
}

/// The first of the first `n` blocks that the selection index `selected`
/// lands on.
pub open spec fn target_upto(blocks: Seq<Block>, selected: usize, n: int) -> Option<int>
    decreases n,
{
    if n <= 0 {
        None
    } else {
        match target_upto(blocks, selected, n - 1) {
            Some(i) => Some(i),
            None => if blocks[n - 1].sel_spec() == Some(selected) {
                Some(n - 1)
            } else {
                None
            },
        }
    }
}

/// The block the selection lands on.
pub open spec fn target_of(blocks: Seq<Block>, selected: usize) -> Option<int> {
    target_upto(blocks, selected, blocks.len() as int)
}

proof fn lemma_target_upto(blocks: Seq<Block>, selected: usize, a: int, b: int)
    requires
        0 <= a <= b <= blocks.len(),
    ensures
        target_upto(blocks, selected, a) is Some ==> target_upto(blocks, selected, b) == target_upto(
            blocks,
            selected,
            a,
        ),
        match target_upto(blocks, selected, b) {
            Some(i) => 0 <= i < b && blocks[i].sel_spec() == Some(selected),
            None => forall|j: int| 0 <= j < b ==> (#[trigger] blocks[j]).sel_spec() != Some(selected),
        },
    decreases b,
{
    if b > 0 {
        if a < b {
            lemma_target_upto(blocks, selected, a, b - 1);
        } else {
            lemma_target_upto(blocks, selected, b - 1, b - 1);
        }
    }
}

/// A window starting at `f` is where the walk stops: nothing fits from
/// there, or the fill from there reaches past the target.
pub open spec fn stops_at(blocks: Seq<Block>, t: int, window: int, f: int) -> bool {
    fit_end(blocks, f, window) == f || t < fit_end(blocks, f, window)
}

/// The first `f` from `f0` on (and no further than `t`) where the walk stops.
pub open spec fn walk_from(blocks: Seq<Block>, t: int, window: int, f: int) -> int
    decreases t - f,
{
    if f >= t || stops_at(blocks, t, window, f) {
        f
    } else {
        walk_from(blocks, t, window, f + 1)
    }
}

/// The first block to draw so the selected block is inside a `window`-row
/// view: the least start whose greedy fill reaches the target; a start from
/// which nothing fits ends the walk; no target means the top.
pub open spec fn first_visible_spec(blocks: Seq<Block>, selected: usize, window: int) -> int {
    match target_of(blocks, selected) {
        Some(t) => walk_from(blocks, t, window, 0),
        None => 0,
    }
}

fn fill_end(blocks: &Vec<Block>, f: usize, window: u16) -> (e: usize)
    requires
        f <= blocks@.len(),
    ensures
        e == fit_end(blocks@, f as int, window as int),
        f <= e <= blocks@.len(),
{
    let mut used: u32 = 0;
    let mut i: usize = f;
    while i < blocks.len() && used + (blocks[i].rows() as u32) <= (window as u32)
        invariant
            f <= i <= blocks@.len(),
            used <= window,
            fit_end(blocks@, f as int, window as int) == fit_end(blocks@, i as int, window - used),
        decreases blocks@.len() - i,
    {
        used = used + blocks[i].rows() as u32;
        i += 1;
    }
    i
}

proof fn lemma_fit_end_bounds(blocks: Seq<Block>, f: int, room: int)
    requires
        0 <= f <= blocks.len(),
    ensures
        f <= fit_end(blocks, f, room) <= blocks.len(),
    decreases blocks.len() - f,
{
    if f < blocks.len() && blocks[f].rows_spec() <= room {
        lemma_fit_end_bounds(blocks, f + 1, room - blocks[f].rows_spec());
    }
}

/// The first block to draw so that the selected block is whole inside a
/// `window`-row view. Walks forward one start at a time; a start from which
/// not even one block fits ends the walk there.
pub fn first_visible(blocks: &Vec<Block>, selected: usize, window: u16) -> (f: usize)
    ensures
        f == first_visible_spec(blocks@, selected, window as int),
{
    let mut t: usize = 0;
    while t < blocks.len() && !(blocks[t].selection_index() == Some(selected))
        invariant
            t <= blocks@.len(),
            target_upto(blocks@, selected, t as int) is None,
        decreases blocks@.len() - t,
    {
        t += 1;
    }
    proof {
        lemma_target_upto(blocks@, selected, t as int, blocks@.len() as int);
        if t < blocks@.len() {
            lemma_target_upto(blocks@, selected, t + 1, blocks@.len() as int);
        }
    }
    if t == blocks.len() {
        return 0;
    }
    let mut first: usize = 0;
    while first < t
        invariant
            first <= t < blocks@.len(),
            target_of(blocks@, selected) == Some(t as int),
            walk_from(blocks@, t as int, window as int, 0) == walk_from(blocks@, t as int, window as int, first as int),
        decreases t - first,
    {
        let e = fill_end(blocks, first, window);
        if e == first || t < e {
            return first;
        }
        first += 1;
    }
    first
}

/// Selection is never stranded: when every block up to the selected one
/// fits the window on its own, the selected block is drawn whole — it lies
/// inside the greedy fill from the first visible block.
pub proof fn lemma_selection_visible(blocks: Seq<Block>, selected: usize, window: int)
    requires
        target_of(blocks, selected) is Some,
        forall|j: int| 0 <= j <= target_of(blocks, selected)->0 ==> (#[trigger] blocks[j]).rows_spec() <= window,
    ensures
        ({
            let t = target_of(blocks, selected)->0;
            let f = first_visible_spec(blocks, selected, window);
            0 <= f <= t < fit_end(blocks, f, window)
        }),
{
    let t = target_of(blocks, selected)->0;
    lemma_target_upto(blocks, selected, 0, blocks.len() as int);
    lemma_walk(blocks, t, window, 0);
}

proof fn lemma_walk(blocks: Seq<Block>, t: int, window: int, f: int)
    requires
        0 <= f <= t < blocks.len(),
        forall|j: int| 0 <= j <= t ==> (#[trigger] blocks[j]).rows_spec() <= window,
    ensures
        f <= walk_from(blocks, t, window, f) <= t < fit_end(blocks, walk_from(blocks, t, window, f), window),
    decreases t - f,
{
    let w = walk_from(blocks, t, window, f);
    if f >= t || stops_at(blocks, t, window, f) {
        assert(blocks[f].rows_spec() <= window);
        lemma_fit_end_bounds(blocks, f + 1, window - blocks[f].rows_spec());
        if f == t {
            assert(fit_end(blocks, f, window) > f);
        }
    } else {
        lemma_walk(blocks, t, window, f + 1);
    }
}

/// A rule is orphaned when the block after it is content that does not
/// fit below it.
pub open spec fn orphan_rule(blocks: Seq<Block>, i: int, room: int) -> bool {
    &&& blocks[i] is Rule
    &&& i + 1 < blocks.len()
    &&& !(blocks[i + 1] is Rule)
    &&& blocks[i].rows_spec() + blocks[i + 1].rows_spec() > room
}

/// The block past the last one drawn from `i` with `room` rows left: a block
/// that does not fit stops the draw, and so does a rule whose content would
/// not fit under it.
pub open spec fn draw_end(blocks: Seq<Block>, i: int, room: int) -> int
    decreases blocks.len() - i,
{
    if i < 0 || i >= blocks.len() || blocks[i].rows_spec() > room || orphan_rule(blocks, i, room) {
        i
    } else {
        draw_end(blocks, i + 1, room - blocks[i].rows_spec())
    }
}

/// Where the drawing of a window that starts at `first` stops.
pub fn drawn_end(blocks: &Vec<Block>, first: usize, window: u16) -> (e: usize)
    requires
        first <= blocks@.len(),
    ensures
        e == draw_end(blocks@, first as int, window as int),
        first <= e <= blocks@.len(),
{
    let mut y: u32 = 0;
    let mut i: usize = first;
    while i < blocks.len()
        invariant
            first <= i <= blocks@.len(),
            y <= window,
            draw_end(blocks@, first as int, window as int) == draw_end(blocks@, i as int, window - y),
        ensures
            first <= i <= blocks@.len(),
            i == draw_end(blocks@, first as int, window as int),
        decreases blocks@.len() - i,
    {
        let rows = blocks[i].rows() as u32;
        if y + rows > window as u32 {
            break;
        }
        let is_rule = match blocks[i] {
            Block::Rule { .. } => true,
            _ => false,
        };
        if is_rule && i + 1 < blocks.len() {
            let next_rule = match blocks[i + 1] {
                Block::Rule { .. } => true,
                _ => false,
            };
            if !next_rule && y + rows + blocks[i + 1].rows() as u32 > window as u32 {
                break;
            }
        }
        y = y + rows;
        i += 1;
    }
    i
}

/// Total rows of a run of blocks.
pub open spec fn rows_total(blocks: Seq<Block>) -> int
    decreases blocks.len(),
{
    if blocks.len() == 0 {
        0
    } else {
        rows_total(blocks.drop_last()) + blocks.last().rows_spec()
    }
}

/// The band's reservation leaves at least one row of body.
proof fn lemma_band_below(width: int, height: int, live: int, finals: int, later: int, my: int)
    requires
        height > 0,
    ensures
        plan_spec(width, height, live, finals, later, my).band_rows < height,
{
}

/// Whether the blocks need more than `body` rows.
fn more_rows_than(blocks: &Vec<Block>, body: u16) -> (r: bool)
    ensures
        r == (rows_total(blocks@) > body),
{
    let mut total: u64 = 0;
    let mut i: usize = 0;
    while i < blocks.len()
        invariant
            i <= blocks@.len(),
            total == if rows_total(blocks@.take(i as int)) > u64::MAX {
                u64::MAX as int
            } else {
                rows_total(blocks@.take(i as int))
            },
        decreases blocks@.len() - i,
    {
        assert(blocks@.take(i + 1).drop_last() =~= blocks@.take(i as int));
        total = total.saturating_add(blocks[i].rows() as u64);
        i += 1;
    }
    assert(blocks@.take(blocks@.len() as int) =~= blocks@);
    total > body as u64
}

/// The board laid out for one frame.
pub struct BoardView {
    /// The tier budget at this size.
    pub plan: TierPlan,
    /// The block list, minus a rule hoisted into the band's reservation.
    pub blocks: Vec<Block>,
    /// The top rule, moved up into the band's reservation; drawn only while
    /// the list's top is on screen.
    pub hoisted: Option<Block>,
    /// Something did not fit: the SCORES lane takes the body's last row.
    pub lane: bool,
    /// Rows the list may use.
    pub window: u16,
    /// The first block drawn.
    pub first: usize,
    /// The block just past the last one drawn.
    pub end: usize,
}

/// The band's row cost for the tier budget: the hero is counted on its own,
/// never twice.
pub open spec fn band_cost(vis: Seq<Game>, s: Sections) -> int {
    s.my_games@.len() - if hero_upto(vis, s.hero, s.my_games@, s.my_games@.len() as int) is Some {
        1int
    } else {
        0int
    }
}

/// Lays out the board for a `width` x `height` body with `selected` the
/// selection index: the tier plan, the blocks, the hoisted rule, the lane,
/// and the window's first and past-last blocks.
pub fn board_view(vis: &Vec<Game>, s: &Sections, pinned: usize, width: u16, height: u16, selected: usize) -> (v:
    BoardView)
    requires
        sections_ok(vis@, *s),
        height > 0,
    ensures
        ({
            let full = plan_spec(
                width as int,
                height as int,
                s.in_play@.len() as int,
                s.finals@.len() as int,
                s.later@.len() as int,
                band_cost(vis@, *s),
            );
            let all = blocks_spec(vis@, *s, pinned, full.hero_rows, full.tier1);
            let hoist = full.band_rows > 0 && all.len() > 0 && all[0] is Rule;
            let body = height - full.band_rows;
            &&& v.plan.hero_rows == full.hero_rows
            &&& v.plan.hero_digits_full == full.hero_digits_full
            &&& v.plan.tier1 == full.tier1
            &&& v.plan.band_rows == full.band_rows
            &&& v.plan.scores_lane == full.scores_lane
            &&& v.hoisted == if hoist {
                Some(all[0])
            } else {
                None
            }
            &&& v.blocks@ == if hoist {
                all.drop_first()
            } else {
                all
            }
            &&& v.lane == (rows_total(v.blocks@) > body)
            &&& v.window == body - if v.lane {
                1int
            } else {
                0int
            }
            &&& v.first == first_visible_spec(v.blocks@, selected, v.window as int)
            &&& v.end == draw_end(v.blocks@, v.first as int, v.window as int)
        }),
{
    let band_hero = hero_index(vis, s.hero, &s.my_games);
    let cost = if band_hero.is_some() {
        s.my_games.len() - 1
    } else {
        s.my_games.len()
    };
    proof {
        lemma_hero_upto(vis@, s.hero, s.my_games@, 0, s.my_games@.len() as int);
    }
    let plan = plan(width, height, s.in_play.len(), s.finals.len(), s.later.len(), cost);
    let mut blocks = build_blocks(vis, s, pinned, plan.hero_rows, plan.tier1);
    let ghost all = blocks@;
    let hoist = plan.band_rows > 0 && blocks.len() > 0 && match blocks[0] {
        Block::Rule { .. } => true,
        _ => false,
    };
    let hoisted = if hoist {
        Some(blocks.remove(0))
    } else {
        None
    };
    assert(hoist ==> blocks@ =~= all.drop_first());
    proof {
        lemma_band_below(width as int, height as int, s.in_play@.len() as int, s.finals@.len() as int, s.later@.len() as int, cost as int);
    }
    let body: u16 = height - plan.band_rows;
    let lane = more_rows_than(&blocks, body);
    let window: u16 = if lane {
        body - 1
    } else {
        body
    };
    let first = first_visible(&blocks, selected, window);
    proof {
        lemma_first_in_range(blocks@, selected, window as int);
    }
    let end = drawn_end(&blocks, first, window);
    BoardView { plan, blocks, hoisted, lane, window, first, end }
}

proof fn lemma_first_in_range(blocks: Seq<Block>, selected: usize, window: int)
    ensures
        0 <= first_visible_spec(blocks, selected, window) <= blocks.len(),
{
    lemma_target_upto(blocks, selected, 0, blocks.len() as int);
    if target_of(blocks, selected) is Some {
        lemma_walk_bounds(blocks, target_of(blocks, selected)->0, window, 0);
    }
}

proof fn lemma_walk_bounds(blocks: Seq<Block>, t: int, window: int, f: int)
    requires
        0 <= f <= t,
    ensures
        f <= walk_from(blocks, t, window, f) <= t,
    decreases t - f,
{
    if !(f >= t || stops_at(blocks, t, window, f)) {
        lemma_walk_bounds(blocks, t, window, f + 1);
    }
}

/// The section label a rule prints.
pub open spec fn rule_label_spec(label: RuleLabel) -> Seq<char> {
    match label {
        RuleLabel::MyGames { .. } => "MY GAMES"@,
        RuleLabel::InPlay => "IN PLAY"@,
        RuleLabel::Final => "FINAL"@,
        RuleLabel::Later => "LATER"@,
    }
}

/// The label a section rule prints.
pub fn rule_label(label: RuleLabel) -> (s: &'static str)
    ensures
        s@ == rule_label_spec(label),
{
    proof {
        reveal_strlit("MY GAMES");
        reveal_strlit("IN PLAY");
        reveal_strlit("FINAL");
        reveal_strlit("LATER");
    }
    match label {
        RuleLabel::MyGames { .. } => "MY GAMES",
        RuleLabel::InPlay => "IN PLAY",
        RuleLabel::Final => "FINAL",
        RuleLabel::Later => "LATER",
    }
}

/// A rule's right-hand caption: how many band games are pinned (the band
/// never re-sorts), how IN PLAY is sorted, nothing for FINAL and LATER.
pub open spec fn rule_caption_spec(label: RuleLabel, phrase: Seq<char>) -> Seq<char> {
    match label {
        RuleLabel::MyGames { pinned } => if pinned > 0 {
            dec(pinned as nat) + " PINNED · NEVER RE-SORTS"@
        } else {
            "NEVER RE-SORTS"@
        },
        RuleLabel::InPlay => "SORTED BY "@ + phrase,
        _ => Seq::empty(),
    }
}

/// A rule's right-hand caption; `phrase` is the IN PLAY sort phrase.
pub fn rule_caption(label: RuleLabel, phrase: &str) -> (s: String)
    ensures
        s@ == rule_caption_spec(label, phrase@),
{
    let mut s = String::new();
    match label {
        RuleLabel::MyGames { pinned } => {
            if pinned > 0 {
                append_dec(&mut s, pinned as u64);
                append(&mut s, " PINNED · NEVER RE-SORTS");
            } else {
                append(&mut s, "NEVER RE-SORTS");
            }
        },
        RuleLabel::InPlay => {
            append(&mut s, "SORTED BY ");
            append(&mut s, phrase);
        },
        _ => {},
    }
    s
}

/// The IN PLAY sort phrase: the long form for watchability, else the sort
/// key's own short label.
pub fn sort_phrase<'a>(key: SortKey, label: &'a str) -> (s: &'a str)
    ensures
        key == SortKey::Watch ==> s@ == "WATCHABILITY"@,
        key != SortKey::Watch ==> s@ == label@,
{
    proof {
        reveal_strlit("WATCHABILITY");
    }
    match key {
        SortKey::Watch => "WATCHABILITY",
        _ => label,
    }
}

/// Some block in `[first, end)` lands on selection index `i`.
pub open spec fn drawn_sel(blocks: Seq<Block>, first: int, end: int, i: usize) -> bool {
    exists|j: int| first <= j < end && (#[trigger] blocks[j]).sel_spec() == Some(i)
}

/// The selection indices below `n` that no drawn block shows, in order.
pub open spec fn off_upto(blocks: Seq<Block>, first: int, end: int, n: int) -> Seq<usize>
    decreases n,
{
    if n <= 0 {
        Seq::empty()
    } else if drawn_sel(blocks, first, end, (n - 1) as usize) {
        off_upto(blocks, first, end, n - 1)
    } else {
        off_upto(blocks, first, end, n - 1).push((n - 1) as usize)
    }
}

/// The selection indices (of `n`) the window did not draw: what the lane
/// reports.
pub fn off_screen(v: &BoardView, n: usize) -> (r: Vec<usize>)
    requires
        v.first <= v.end <= v.blocks@.len(),
    ensures
        r@ == off_upto(v.blocks@, v.first as int, v.end as int, n as int),
{
    let mut out: Vec<usize> = Vec::new();
    let mut i: usize = 0;
    while i < n
        invariant
            i <= n,
            v.first <= v.end <= v.blocks@.len(),
            out@ == off_upto(v.blocks@, v.first as int, v.end as int, i as int),
        decreases n - i,
    {
        let mut j: usize = v.first;
        let mut hit = false;
        while j < v.end
            invariant
                v.first <= j <= v.end,
                v.end <= v.blocks@.len(),
                hit <==> exists|m: int| v.first <= m < j && (#[trigger] v.blocks@[m]).sel_spec() == Some(i),
            decreases v.end - j,
        {
            if v.blocks[j].selection_index() == Some(i) {
                hit = true;
            }
            j += 1;
        }
        if !hit {
            out.push(i);
        }
        i += 1;
    }
    out
}

/// How many of the first `n` games have status `st`.
pub open spec fn count_status(games: Seq<Game>, st: Status, n: int) -> nat
    decreases n,
{
    if n <= 0 {
        0
    } else {
        count_status(games, st, n - 1) + if games[n - 1].status == st {
            1nat
        } else {
            0nat
        }
    }
}

/// `AWAY 21 HOME 17` for each live game among the first `n`.
pub open spec fn live_lines(games: Seq<Game>, n: int) -> Seq<Seq<char>>
    decreases n,
{
    if n <= 0 {
        Seq::empty()
    } else if games[n - 1].status == Status::Live {
        live_lines(games, n - 1).push(score_line(games[n - 1]))
    } else {
        live_lines(games, n - 1)
    }
}

/// A game's lane entry: abbrs and scores.
pub open spec fn score_line(g: Game) -> Seq<char> {
    g.away.abbr@ + " "@ + dec(g.away_score as nat) + " "@ + g.home.abbr@ + " "@ + dec(g.home_score as nat)
}

/// What the off-screen lane says of `off`: the live games by name and
/// score, or, with nothing live off-screen, the counts.
pub open spec fn lane_spec(off: Seq<Game>) -> Seq<char> {
    let live = live_lines(off, off.len() as int);
    if live.len() == 0 {
        dec(off.len()) + " OFF-SCREEN · "@ + dec(count_status(off, Status::Final, off.len() as int)) + " FINAL · "@
            + dec(count_status(off, Status::Pre, off.len() as int)) + " LATER"@
    } else {
        join(live, "  ·  "@)
    }
}

/// The lane's text for the off-screen games (the caller prints it after
/// the `SCORES` label, cut to the row).
pub fn lane_text(off: &Vec<Game>) -> (s: String)
    ensures
        s@ == lane_spec(off@),
{
    let mut lines: Vec<String> = Vec::new();
    let mut finals: u64 = 0;
    let mut later: u64 = 0;
    let mut i: usize = 0;
    while i < off.len()
        invariant
            i <= off@.len(),
            string_views(lines@) == live_lines(off@, i as int),
            finals == count_status(off@, Status::Final, i as int),
            later == count_status(off@, Status::Pre, i as int),
            finals <= i && later <= i,
        decreases off@.len() - i,
    {
        let g = &off[i];
        if g.status == Status::Live {
            let mut line = String::new();
            append(&mut line, g.away.abbr.as_str());
            append(&mut line, " ");
            append_dec(&mut line, g.away_score as u64);
            append(&mut line, " ");
            append(&mut line, g.home.abbr.as_str());
            append(&mut line, " ");
            append_dec(&mut line, g.home_score as u64);
            let ghost before = lines@;
            lines.push(line);
            assert(string_views(lines@) =~= string_views(before).push(score_line(off@[i as int])));
        } else if g.status == Status::Final {
            finals += 1;
        } else {
            later += 1;
        }
        i += 1;
    }
    if lines.len() == 0 {
        let mut s = String::new();
        append_dec(&mut s, off.len() as u64);
        append(&mut s, " OFF-SCREEN · ");
        append_dec(&mut s, finals);
        append(&mut s, " FINAL · ");
        append_dec(&mut s, later);
        append(&mut s, " LATER");
        s
    } else {
        join_strings(&lines, "  ·  ")
    }
}

} // verus!
