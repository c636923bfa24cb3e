//! The row tiers' text and grid: what a board row prints in its clock
//! column and its prose, and where every column sits.
use vstd::prelude::*;
use crate::domain::{Game, GameStats, League, Status};
use crate::domain::slug_of;
use crate::text::{
    all_ascii, append, append_dec, chars_of, chars_eq, debug_quoted, debug_str, dec, join, join_strings, owned,
    push_char, slice_chars, str_to_uppercase, string_of, string_views, trim, trim_bounds, upper, upper_ascii_seq,
};

verus! {

broadcast use vstd::seq_lib::group_seq_properties;

/// Column pitch of a team abbreviation: four cells of text and one of air.
pub const ABBR_W: u16 = 5;
/// Score field width: three cells for a college basketball 100+.
pub const SCORE_W: u16 = 3;
/// Air between two fields whose pitch does not already carry it.
pub const GAP: u16 = 1;
/// The hot mark and its air.
pub const MARK_W: u16 = 2;
/// The nudge: `↑9` plus one cell of air before the abbr.
pub const NUDGE_W: u16 = 3;
/// The two fixed gutters every tier-1/2 row reserves.
pub const GUTTER: u16 = MARK_W + NUDGE_W;
pub const NUDGE_X: u16 = MARK_W;
/// Largest climb two glyphs can say truthfully: `↑9` means "rose 9 or more".
pub const NUDGE_MAX: usize = 9;
pub const AWAY_ABBR_X: u16 = GUTTER;
pub const AWAY_SCORE_X: u16 = AWAY_ABBR_X + ABBR_W;
pub const HOME_ABBR_X: u16 = AWAY_SCORE_X + SCORE_W + GAP;
pub const HOME_SCORE_X: u16 = HOME_ABBR_X + ABBR_W;
pub const CLOCK_X: u16 = HOME_SCORE_X + SCORE_W + GAP;
/// The longest state a row prints is a start more than six days out,
/// `SEP 21 8:20 PM`: fourteen cells.
pub const CLOCK_W: u16 = 14;
pub const LEAGUE_X: u16 = CLOCK_X + CLOCK_W + GAP;
pub const LEAGUE_W: u16 = 4;
/// Where a row's prose starts.
pub const TEXT_X: u16 = LEAGUE_X + LEAGUE_W + GAP;
/// Broadcast field on a LATER row: `NETFLIX` is the longest at seven.
pub const BCAST_W: u16 = 7;
/// The odds after the broadcast, with air between.
pub const ODDS_X: u16 = TEXT_X + BCAST_W + GAP;
/// The clause cap never cuts inside the first 48 cells of prose.
pub const CLAUSE_MIN: usize = 48;
/// The fragment field on a wide tier-2 row.
pub const FRAGMENT_W: u16 = 40;
/// Where a wide tier-2 row's last play starts.
pub const PLAY_X: u16 = TEXT_X + FRAGMENT_W;
/// The width past which a tier-2 row carries its last play.
pub const WIDE_TIER_MIN: u16 = 160;
/// The tier-1 state chip's field: the whole gap between clock and prose.
pub const T1_CHIP_W: u16 = TEXT_X - CLOCK_X;

/// Design-time switches. Default off.
#[derive(Clone, Copy, Debug, Default, PartialEq, Eq, Structural)]
pub struct DesignOpts {
    pub tint_rows: bool,
    pub clause_cap: bool,
    pub wide_tier: bool,
}

/// The pieces `str::split(',')` yields, empty ones included.
pub open spec fn comma_state(s: Seq<char>) -> (Seq<Seq<char>>, Seq<char>)
    decreases s.len(),
{
    if s.len() == 0 {
        (Seq::empty(), Seq::empty())
    } else {
        let (done, cur) = comma_state(s.drop_last());
        if s.last() == ',' {
            (done.push(cur), Seq::empty())
        } else {
            (done, cur.push(s.last()))
        }
    }
}

pub open spec fn comma_pieces(s: Seq<char>) -> Seq<Seq<char>> {
    comma_state(s).0.push(comma_state(s).1)
}

/// The switch names, in the order errors list them.
pub open spec fn opt_names() -> Seq<Seq<char>> {
    seq!["tint-rows"@, "clause-cap"@, "wide-tier"@]
}

/// A piece names no switch.
pub open spec fn unknown_opt(p: Seq<char>) -> bool {
    trim(p).len() > 0 && trim(p) != "tint-rows"@ && trim(p) != "clause-cap"@ && trim(p) != "wide-tier"@
}

/// Some piece (trimmed) is exactly `name`.
pub open spec fn names_opt(ps: Seq<Seq<char>>, name: Seq<char>, upto: int) -> bool {
    exists|i: int| 0 <= i < upto && trim(#[trigger] ps[i]) == name
}

/// `"tint-rows,wide-tier"` → opts; an unknown name errors naming the
/// first one and the valid set; empty pieces are skipped.
pub open spec fn design_parse_spec(list: Seq<char>) -> Result<DesignOpts, Seq<char>> {
    let ps = comma_pieces(list);
    if exists|i: int| 0 <= i < ps.len() && unknown_opt(#[trigger] ps[i]) {
        let i = choose|i: int|
            0 <= i < ps.len() && unknown_opt(#[trigger] ps[i]) && forall|j: int| 0 <= j < i ==> !unknown_opt(#[trigger] ps[j]);
        Err("unknown --opt "@ + debug_quoted(trim(ps[i])) + ", valid: "@ + join(opt_names(), "|"@))
    } else {
        Ok(DesignOpts {
            tint_rows: names_opt(ps, "tint-rows"@, ps.len() as int),
            clause_cap: names_opt(ps, "clause-cap"@, ps.len() as int),
            wide_tier: names_opt(ps, "wide-tier"@, ps.len() as int),
        })
    }
}

/// Splits on `,`, empty pieces included.
fn split_commas(v: &Vec<char>) -> (r: Vec<Vec<char>>)
    ensures
        crate::text::views(r@) == comma_pieces(v@),
{
    let mut out: Vec<Vec<char>> = Vec::new();
    let mut cur: Vec<char> = Vec::new();
    let mut i: usize = 0;
    while i < v.len()
        invariant
            i <= v.len(),
            (crate::text::views(out@), cur@) == comma_state(v@.take(i as int)),
        decreases v.len() - i,
    {
        assert(v@.take(i + 1).drop_last() =~= v@.take(i as int));
        if v[i] == ',' {
            let w = cur;
            cur = Vec::new();
            out.push(w);
            assert(crate::text::views(out@) =~= comma_state(v@.take(i as int)).0.push(w@));
        } else {
            cur.push(v[i]);
        }
        i += 1;
    }
    assert(v@.take(v.len() as int) =~= v@);
    let ghost prev = out@;
    let last = cur;
    out.push(last);
    assert(crate::text::views(out@) =~= crate::text::views(prev).push(last@));
    out
}

impl DesignOpts {
    pub const NAMES: [&'static str; 3] = ["tint-rows", "clause-cap", "wide-tier"];

    /// `"tint-rows,wide-tier"` → opts; an unknown name errors naming the
    /// valid set. An empty string is every switch off.
    pub fn parse(list: &str) -> (r: Result<DesignOpts, String>)
        ensures
            match (r, design_parse_spec(list@)) {
                (Ok(o), Ok(p)) => o == p,
                (Err(e), Err(m)) => e@ == m,
                _ => false,
            },
    {
        let v = chars_of(list);
        let pieces = split_commas(&v);
        let ghost ps = comma_pieces(v@);
        proof {
            assert(crate::text::views(pieces@).len() == pieces@.len());
        }
        let mut opts = DesignOpts { tint_rows: false, clause_cap: false, wide_tier: false };
        let mut k: usize = 0;
        while k < pieces.len()
            invariant
                k <= pieces.len(),
                v@ == list@,
                ps == comma_pieces(v@),
                crate::text::views(pieces@) == ps,
                forall|j: int| 0 <= j < k ==> !unknown_opt(#[trigger] ps[j]),
                opts.tint_rows == names_opt(ps, "tint-rows"@, k as int),
                opts.clause_cap == names_opt(ps, "clause-cap"@, k as int),
                opts.wide_tier == names_opt(ps, "wide-tier"@, k as int),
            decreases pieces.len() - k,
        {
            let pc = &pieces[k];
            assert(pc@ == ps[k as int]);
            let (ta, tb) = trim_bounds(pc, 0, pc.len());
            assert(pc@.subrange(0, pc@.len() as int) =~= pc@);
            let name = slice_chars(pc, ta, tb);
            let ghost t = trim(ps[k as int]);
            assert(name@ == t);
            let is_tint = chars_eq(&name, &chars_of("tint-rows"));
            let is_clause = chars_eq(&name, &chars_of("clause-cap"));
            let is_wide = chars_eq(&name, &chars_of("wide-tier"));
            if name.len() > 0 && !is_tint && !is_clause && !is_wide {
                let mut e = owned("unknown --opt ");
                append(&mut e, debug_str(string_of(&name).as_str()).as_str());
                append(&mut e, ", valid: ");
                let nv = vec![owned("tint-rows"), owned("clause-cap"), owned("wide-tier")];
                assert(string_views(nv@) =~= opt_names());
                append(&mut e, join_strings(&nv, "|").as_str());
                proof {
                    let i = choose|i: int|
                        0 <= i < ps.len() && unknown_opt(#[trigger] ps[i]) && forall|j: int|
                            0 <= j < i ==> !unknown_opt(#[trigger] ps[j]);
                    if i < k {
                        assert(!unknown_opt(ps[i]));
                    } else if i > k {
                        assert(!unknown_opt(ps[k as int]));
                    }
                }
                return Err(e);
            }
            proof {
                assert(names_opt(ps, "tint-rows"@, k + 1) == (names_opt(ps, "tint-rows"@, k as int) || t
                    == "tint-rows"@));
                assert(names_opt(ps, "clause-cap"@, k + 1) == (names_opt(ps, "clause-cap"@, k as int) || t
                    == "clause-cap"@));
                assert(names_opt(ps, "wide-tier"@, k + 1) == (names_opt(ps, "wide-tier"@, k as int) || t
                    == "wide-tier"@));
            }
            if is_tint {
                opts.tint_rows = true;
            }
            if is_clause {
                opts.clause_cap = true;
            }
            if is_wide {
                opts.wide_tier = true;
            }
            k += 1;
        }
        Ok(opts)
    }
}

/// The box score's first leader, `TEAM LABEL: text`.
pub fn leaders_line(stats: &GameStats) -> (r: Option<String>)
    ensures
        stats.leaders@.len() == 0 ==> r.is_none(),
        stats.leaders@.len() > 0 ==> r.is_some() && r.unwrap()@ == stats.leaders@[0].team@ + " "@
            + stats.leaders@[0].label@ + ": "@ + stats.leaders@[0].text@,
{
    if stats.leaders.len() == 0 {
        return None;
    }
    let l = &stats.leaders[0];
    let mut out = owned(l.team.as_str());
    append(&mut out, " ");
    append(&mut out, l.label.as_str());
    append(&mut out, ": ");
    append(&mut out, l.text.as_str());
    Some(out)
}

/// A clause boundary: `, ` or `. ` starting at `i`.
pub open spec fn boundary_at(cs: Seq<char>, i: int) -> bool {
    0 <= i && i + 1 < cs.len() && (cs[i] == ',' || cs[i] == '.') && cs[i + 1] == ' '
}

/// The first clause boundary at or past `i`, if any.
pub open spec fn first_boundary(cs: Seq<char>, i: int) -> Option<int>
    decreases cs.len() - i,
{
    if i < 0 || i + 1 >= cs.len() {
        None
    } else if boundary_at(cs, i) {
        Some(i)
    } else {
        first_boundary(cs, i + 1)
    }
}

/// Prose cut at the first clause boundary (`, ` or `. `) at or past
/// `min_cells`, the separator dropped and `…` closing; untouched when it is
/// no longer than `min_cells` or has no such boundary.
pub open spec fn clause_cap_spec(text: Seq<char>, min_cells: int) -> Seq<char> {
    if text.len() <= min_cells {
        text
    } else {
        match first_boundary(text, min_cells) {
            Some(i) => text.take(i) + "…"@,
            None => text,
        }
    }
}

pub fn clause_cap(text: &str, min_cells: usize) -> (r: String)
    ensures
        r@ == clause_cap_spec(text@, min_cells as int),
{
    let cs = chars_of(text);
    if cs.len() <= min_cells {
        return owned(text);
    }
    let mut i = min_cells;
    while i < cs.len() - 1
        invariant
            min_cells <= i,
            min_cells < cs.len(),
            cs@ == text@,
            first_boundary(cs@, min_cells as int) == first_boundary(cs@, i as int),
        decreases cs.len() - i,
    {
        if (cs[i] == ',' || cs[i] == '.') && cs[i + 1] == ' ' {
            let mut out = string_of(&slice_chars(&cs, 0, i));
            append(&mut out, "…");
            proof {
                assert(cs@.subrange(0, i as int) =~= cs@.take(i as int));
            }
            return out;
        }
        i += 1;
    }
    owned(text)
}

/// A final's story, in one fixed ladder: the scoreboard's own headline
/// (trimmed, when not blank), else the leaders line, else the newest
/// scoring play.
pub open spec fn final_story_spec(game: Game, leaders: Option<Seq<char>>) -> Option<Seq<char>> {
    match game.headline {
        Some(h) if trim(h@).len() > 0 => Some(trim(h@)),
        _ => match leaders {
            Some(l) => Some(l),
            None => if game.scoring_plays@.len() > 0 {
                Some(game.scoring_plays@.last().text@)
            } else {
                None
            },
        },
    }
}

pub fn final_story(game: &Game, leaders_line: Option<&str>) -> (r: Option<String>)
    ensures
        r.is_some() == final_story_spec(*game, match leaders_line {
            Some(l) => Some(l@),
            None => None,
        }).is_some(),
        r.is_some() ==> r.unwrap()@ == final_story_spec(*game, match leaders_line {
            Some(l) => Some(l@),
            None => None,
        }).unwrap(),
{
    if let Some(h) = &game.headline {
        let hv = chars_of(h.as_str());
        let (a, b) = trim_bounds(&hv, 0, hv.len());
        proof {
            assert(hv@.subrange(0, hv@.len() as int) =~= hv@);
        }
        if b > a {
            return Some(string_of(&slice_chars(&hv, a, b)));
        }
    }
    match leaders_line {
        Some(l) => Some(owned(l)),
        None => if game.scoring_plays.len() > 0 {
            Some(game.scoring_plays[game.scoring_plays.len() - 1].text.clone())
        } else {
            None
        },
    }
}

/// The situation fragment beside a promoted row: `PHI 3RD & 6 AT DAL 38`.
pub open spec fn situation_parts(game: Game) -> Seq<Seq<char>> {
    match game.situation {
        None => Seq::empty(),
        Some(sit) => {
            let a = match sit.possession {
                Some(p) if p@.len() > 0 => seq![upper(p@)],
                _ => Seq::<Seq<char>>::empty(),
            };
            let b = if sit.down_distance@.len() > 0 {
                seq![upper(sit.down_distance@)]
            } else {
                Seq::<Seq<char>>::empty()
            };
            let c = match sit.ball_on {
                Some(o) if o@.len() > 0 => seq!["AT "@ + upper(o@)],
                _ => Seq::<Seq<char>>::empty(),
            };
            a + b + c
        },
    }
}

pub fn situation_summary(game: &Game) -> (r: Option<String>)
    ensures
        situation_parts(*game).len() == 0 ==> r.is_none(),
        situation_parts(*game).len() > 0 ==> r.is_some() && r.unwrap()@ == join(situation_parts(*game), " "@),
{
    let sit = match &game.situation {
        Some(s) => s,
        None => return None,
    };
    let mut parts: Vec<String> = Vec::new();
    let ghost mut pv: Seq<Seq<char>> = Seq::empty();
    if let Some(p) = &sit.possession {
        if !p.as_str().is_empty() {
            parts.push(str_to_uppercase(p.as_str()));
        }
    }
    if !sit.down_distance.as_str().is_empty() {
        parts.push(str_to_uppercase(sit.down_distance.as_str()));
    }
    if let Some(o) = &sit.ball_on {
        if !o.as_str().is_empty() {
            let mut s = owned("AT ");
            let u = str_to_uppercase(o.as_str());
            append(&mut s, u.as_str());
            parts.push(s);
        }
    }
    assert(string_views(parts@) =~= situation_parts(*game));
    if parts.len() == 0 {
        None
    } else {
        Some(join_strings(&parts, " "))
    }
}

/// `Q4 0:48` / `FT` / `FINAL` / a start time: the clock column's text.
/// Soccer says FT where the American leagues say FINAL; a pre-game row
/// prints `start`, the caller's rendering of the scheduled start.
pub open spec fn state_text_spec(game: Game, start: Seq<char>) -> Seq<char> {
    match game.status {
        Status::Live => trim(game.period@ + " "@ + game.clock@),
        Status::Final => if game.league == League::Epl || game.league == League::Mls {
            "FT"@
        } else {
            "FINAL"@
        },
        Status::Pre => start,
    }
}

pub fn state_text_raw(game: &Game, start: &str) -> (s: String)
    ensures
        s@ == state_text_spec(*game, start@),
{
    match game.status {
        Status::Live => {
            let mut raw = owned(game.period.as_str());
            append(&mut raw, " ");
            append(&mut raw, game.clock.as_str());
            let v = chars_of(raw.as_str());
            let (a, b) = trim_bounds(&v, 0, v.len());
            proof {
                assert(v@.subrange(0, v@.len() as int) =~= v@);
            }
            string_of(&slice_chars(&v, a, b))
        },
        Status::Final => match game.league {
            League::Epl | League::Mls => owned("FT"),
            _ => owned("FINAL"),
        },
        Status::Pre => owned(start),
    }
}

/// The grid derives from its widths: every offset is the one before it
/// plus that field's width and its air, so no field ends where the next
/// starts.
pub proof fn lemma_grid_derives_from_widths()
    ensures
        GUTTER == MARK_W + NUDGE_W,
        AWAY_SCORE_X == AWAY_ABBR_X + ABBR_W,
        HOME_ABBR_X == AWAY_SCORE_X + SCORE_W + GAP,
        HOME_SCORE_X == HOME_ABBR_X + ABBR_W,
        CLOCK_X == HOME_SCORE_X + SCORE_W + GAP,
        LEAGUE_X == CLOCK_X + CLOCK_W + GAP,
        TEXT_X == LEAGUE_X + LEAGUE_W + GAP,
        ODDS_X == TEXT_X + BCAST_W + GAP,
        AWAY_ABBR_X < AWAY_SCORE_X < HOME_ABBR_X < HOME_SCORE_X < CLOCK_X < LEAGUE_X < TEXT_X < ODDS_X,
{
}

proof fn lemma_first_boundary_range(cs: Seq<char>, i: int)
    ensures
        match first_boundary(cs, i) {
            Some(k) => i <= k && boundary_at(cs, k),
            None => true,
        },
    decreases cs.len() - i,
{
    if !(i < 0 || i + 1 >= cs.len()) && !boundary_at(cs, i) {
        lemma_first_boundary_range(cs, i + 1);
    }
}

/// A clause cap never lengthens prose, and a cut keeps at least
/// `min_cells` chars of it before the `…` (which stands where the boundary's
/// separator was).
pub proof fn lemma_clause_cap_keeps_the_head(text: Seq<char>, min_cells: int)
    requires
        min_cells >= 0,
    ensures
        clause_cap_spec(text, min_cells).len() <= text.len(),
        clause_cap_spec(text, min_cells) != text ==> ({
            let r = clause_cap_spec(text, min_cells);
            &&& r.len() >= min_cells + 1
            &&& r.last() == '…'
            &&& r.drop_last() == text.take(r.len() - 1)
        }),
{
    reveal_strlit("…");
    if text.len() > min_cells {
        lemma_first_boundary_range(text, min_cells);
        match first_boundary(text, min_cells) {
            Some(k) => {
                let r = text.take(k) + "…"@;
                assert(r.drop_last() =~= text.take(k));
            },
            None => {},
        }
    }
}

/// An abbreviation's text field: its pitch without the air.
pub const ABBR_TEXT_W: u16 = ABBR_W - 1;

/// How a cell's text sits in its field.
#[derive(Clone, Copy, Debug, PartialEq, Eq, Structural)]
pub enum Align {
    Left,
    Center,
    Right,
}

/// One field of a row: `width` cells at column `x` of row `row`, holding
/// `text` placed by `align`.
#[derive(Clone, Debug)]
pub struct RowCell {
    pub x: u16,
    pub row: u16,
    pub width: u16,
    pub align: Align,
    pub text: String,
}

pub open spec fn cell_view(c: RowCell) -> (u16, u16, u16, Align, Seq<char>) {
    (c.x, c.row, c.width, c.align, c.text@)
}

pub open spec fn cells_view(v: Seq<RowCell>) -> Seq<(u16, u16, u16, Align, Seq<char>)> {
    v.map_values(|c: RowCell| cell_view(c))
}

/// A field `w` wide at `x` in a row `area_w` wide: nothing when it starts
/// past the row or has no width, else cut at the row's right edge.
pub open spec fn col_spec(area_w: u16, x: u16, w: u16, row: u16, align: Align, text: Seq<char>) -> Seq<
    (u16, u16, u16, Align, Seq<char>),
> {
    if x >= area_w || w == 0 {
        Seq::empty()
    } else {
        seq![(x, row, if w <= area_w - x { w } else { (area_w - x) as u16 }, align, text)]
    }
}

fn push_col(out: &mut Vec<RowCell>, area_w: u16, x: u16, w: u16, row: u16, align: Align, text: String)
    ensures
        cells_view(final(out)@) == cells_view(old(out)@) + col_spec(area_w, x, w, row, align, text@),
{
    let ghost before = out@;
    if x >= area_w || w == 0 {
        assert(cells_view(out@) =~= cells_view(before) + col_spec(area_w, x, w, row, align, text@));
        return;
    }
    let width = if w <= area_w - x {
        w
    } else {
        area_w - x
    };
    out.push(RowCell { x, row, width, align, text });
    assert(cells_view(out@) =~= cells_view(before) + col_spec(area_w, x, w, row, align, out@.last().text@));
}

/// Text fit to `max` cells: untouched when it fits, else its first
/// `max - 1` chars and `…` (nothing at all in no room).
pub open spec fn truncate_spec(s: Seq<char>, max: int) -> Seq<char> {
    if s.len() <= max {
        s
    } else if max <= 0 {
        Seq::empty()
    } else {
        s.take(max - 1) + "…"@
    }
}

pub fn truncate(s: &str, max: usize) -> (r: String)
    ensures
        r@ == truncate_spec(s@, max as int),
{
    let v = chars_of(s);
    if v.len() <= max {
        return owned(s);
    }
    if max == 0 {
        return String::new();
    }
    let mut out = string_of(&slice_chars(&v, 0, max - 1));
    append(&mut out, "…");
    proof {
        assert(v@.subrange(0, max - 1) =~= v@.take(max - 1));
    }
    out
}

/// `{:<3}`: the text padded with spaces to three chars.
pub open spec fn pad3(s: Seq<char>) -> Seq<char> {
    if s.len() >= 3 {
        s
    } else {
        s + Seq::new((3 - s.len()) as nat, |i: int| ' ')
    }
}

fn padded3(s: &str) -> (r: String)
    ensures
        r@ == pad3(s@),
{
    let mut out = owned(s);
    let n = chars_of(s).len();
    let mut k: usize = n;
    while k < 3
        invariant
            n == s@.len(),
            n <= k <= 3 || (n > 3 && k == n),
            out@ == s@ + Seq::new((k - n) as nat, |i: int| ' '),
        decreases 3 - k,
    {
        push_char(&mut out, ' ');
        assert(s@ + Seq::new((k + 1 - n) as nat, |i: int| ' ') =~= (s@ + Seq::new((k - n) as nat, |i: int| ' ')).push(
            ' ',
        ));
        k += 1;
    }
    assert(s@ + Seq::new(0, |i: int| ' ') =~= s@);
    out
}

fn dec_string(n: u16) -> (r: String)
    ensures
        r@ == dec(n as nat),
{
    let mut out = String::new();
    append_dec(&mut out, n as u64);
    assert(Seq::<char>::empty() + dec(n as nat) =~= dec(n as nat));
    out
}

/// The cells `x` leaves for prose: the row past column `x`.
pub open spec fn room(area_w: u16, x: u16) -> int {
    if area_w > x {
        area_w - x
    } else {
        0
    }
}

/// The away abbreviation, its score, the home abbreviation and its score
/// on the shared columns.
pub open spec fn pair_spec(game: Game, w: u16) -> Seq<(u16, u16, u16, Align, Seq<char>)> {
    col_spec(w, AWAY_ABBR_X, ABBR_TEXT_W, 0, Align::Right, pad3(game.away.abbr@)) + col_spec(
        w,
        AWAY_SCORE_X,
        SCORE_W,
        0,
        Align::Right,
        dec(game.away_score as nat),
    ) + col_spec(w, HOME_ABBR_X, ABBR_TEXT_W, 0, Align::Left, pad3(game.home.abbr@)) + col_spec(
        w,
        HOME_SCORE_X,
        SCORE_W,
        0,
        Align::Right,
        dec(game.home_score as nat),
    )
}

/// The clock column: the state fit to `CLOCK_W`, when there is one.
pub open spec fn state_cell_spec(game: Game, start: Seq<char>, w: u16) -> Seq<(u16, u16, u16, Align, Seq<char>)> {
    let st = truncate_spec(state_text_spec(game, start), CLOCK_W as int);
    if st.len() == 0 {
        Seq::empty()
    } else {
        col_spec(w, CLOCK_X, CLOCK_W, 0, Align::Left, st)
    }
}

/// The situation fragment, when the game has one.
pub open spec fn fragment_spec(game: Game) -> Option<Seq<char>> {
    if situation_parts(game).len() == 0 {
        None
    } else {
        Some(join(situation_parts(game), " "@))
    }
}

/// The play a promoted row shows: the newest, clause-capped when that
/// design option is on.
pub open spec fn shown_play(game: Game, clause_cap_on: bool) -> Seq<char> {
    let t = game.last_plays@[0].text@;
    if clause_cap_on {
        clause_cap_spec(t, CLAUSE_MIN as int)
    } else {
        t
    }
}

/// A tier-1 row `w` wide: the pair line; under the away abbreviation the
/// league tag in capitals when the board is mixed; the state in the clock
/// column with the chip under it; the situation fragment beside them, and
/// under it `▸ ` and the newest play, each cut to the room left.
pub open spec fn tier1_spec(
    game: Game,
    league_tag: bool,
    chip: Option<Seq<char>>,
    clause_cap_on: bool,
    start: Seq<char>,
    w: u16,
) -> Seq<(u16, u16, u16, Align, Seq<char>)> {
    let rm = room(w, TEXT_X);
    pair_spec(game, w) + (if league_tag {
        col_spec(w, AWAY_ABBR_X, ABBR_TEXT_W, 1, Align::Right, upper_ascii_seq(slug_of(game.league)))
    } else {
        Seq::empty()
    }) + state_cell_spec(game, start, w) + (match chip {
        Some(c) => col_spec(w, CLOCK_X, T1_CHIP_W, 1, Align::Left, c),
        None => Seq::empty(),
    }) + (match fragment_spec(game) {
        Some(f) => col_spec(w, TEXT_X, w, 0, Align::Left, truncate_spec(f, rm)),
        None => Seq::empty(),
    }) + (if game.last_plays@.len() > 0 {
        col_spec(
            w,
            TEXT_X,
            w,
            1,
            Align::Left,
            "▸ "@ + truncate_spec(shown_play(game, clause_cap_on), if rm >= 2 { rm - 2 } else { 0 }),
        )
    } else {
        Seq::empty()
    })
}

/// A league's tag: its slug in capitals.
pub fn league_tag_text(l: League) -> (r: String)
    ensures
        r@ == upper_ascii_seq(slug_of(l)),
{
    proof {
        reveal_strlit("nfl");
        reveal_strlit("cfb");
        reveal_strlit("cbb");
        reveal_strlit("nba");
        reveal_strlit("wnba");
        reveal_strlit("nhl");
        reveal_strlit("mlb");
        reveal_strlit("epl");
        reveal_strlit("mls");
    }
    let slug = l.slug();
    assert(all_ascii(slug@));
    str_to_uppercase(slug)
}

fn push_pair(out: &mut Vec<RowCell>, game: &Game, w: u16)
    ensures
        cells_view(final(out)@) == cells_view(old(out)@) + pair_spec(*game, w),
{
    let ghost before = cells_view(out@);
    push_col(out, w, AWAY_ABBR_X, ABBR_TEXT_W, 0, Align::Right, padded3(game.away.abbr.as_str()));
    push_col(out, w, AWAY_SCORE_X, SCORE_W, 0, Align::Right, dec_string(game.away_score));
    push_col(out, w, HOME_ABBR_X, ABBR_TEXT_W, 0, Align::Left, padded3(game.home.abbr.as_str()));
    push_col(out, w, HOME_SCORE_X, SCORE_W, 0, Align::Right, dec_string(game.home_score));
    assert(cells_view(out@) =~= before + pair_spec(*game, w));
}

fn push_state(out: &mut Vec<RowCell>, game: &Game, start: &str, w: u16)
    ensures
        cells_view(final(out)@) == cells_view(old(out)@) + state_cell_spec(*game, start@, w),
{
    let raw = state_text_raw(game, start);
    let st = truncate(raw.as_str(), CLOCK_W as usize);
    if chars_of(st.as_str()).len() == 0 {
        assert(cells_view(out@) =~= cells_view(out@) + Seq::<(u16, u16, u16, Align, Seq<char>)>::empty());
        return;
    }
    push_col(out, w, CLOCK_X, CLOCK_W, 0, Align::Left, st);
}

/// Puts a tier-1 row together.
pub fn tier1_cells(
    game: &Game,
    league_tag: bool,
    chip: Option<&str>,
    clause_cap_on: bool,
    start: &str,
    width: u16,
) -> (r: Vec<RowCell>)
    ensures
        cells_view(r@) == tier1_spec(
            *game,
            league_tag,
            match chip {
                Some(c) => Some(c@),
                None => None,
            },
            clause_cap_on,
            start@,
            width,
        ),
{
    let mut out: Vec<RowCell> = Vec::new();
    let ghost e = Seq::<(u16, u16, u16, Align, Seq<char>)>::empty();
    push_pair(&mut out, game, width);
    let ghost a = cells_view(out@);
    if league_tag {
        push_col(&mut out, width, AWAY_ABBR_X, ABBR_TEXT_W, 1, Align::Right, league_tag_text(game.league));
    } else {
        assert(cells_view(out@) =~= a + e);
    }
    let ghost b = cells_view(out@);
    push_state(&mut out, game, start, width);
    let ghost c = cells_view(out@);
    match chip {
        Some(t) => push_col(&mut out, width, CLOCK_X, T1_CHIP_W, 1, Align::Left, owned(t)),
        None => {
            assert(cells_view(out@) =~= c + e);
        },
    }
    let ghost d = cells_view(out@);
    let rm: usize = if width > TEXT_X {
        (width - TEXT_X) as usize
    } else {
        0
    };
    match situation_summary(game) {
        Some(f) => push_col(&mut out, width, TEXT_X, width, 0, Align::Left, truncate(f.as_str(), rm)),
        None => {
            assert(cells_view(out@) =~= d + e);
        },
    }
    let ghost f = cells_view(out@);
    if game.last_plays.len() > 0 {
        let text = game.last_plays[0].text.as_str();
        let shown = if clause_cap_on {
            clause_cap(text, CLAUSE_MIN)
        } else {
            owned(text)
        };
        let mut line = owned("▸ ");
        let cut = truncate(shown.as_str(), if rm >= 2 {
            rm - 2
        } else {
            0
        });
        append(&mut line, cut.as_str());
        push_col(&mut out, width, TEXT_X, width, 1, Align::Left, line);
    } else {
        assert(cells_view(out@) =~= f + e);
    }
    out
}

/// What a FINAL row says: its story, else its situation, else nothing.
pub open spec fn final_line(game: Game, leaders: Option<Seq<char>>) -> Seq<char> {
    match final_story_spec(game, leaders) {
        Some(s) => s,
        None => match fragment_spec(game) {
            Some(f) => f,
            None => Seq::empty(),
        },
    }
}

/// A tier-3 row `w` wide. A LATER row: the away abbreviation, `@` in the
/// away score's column, the home abbreviation, the start, the league tag,
/// the network in capitals and the line cut to the room after it. A FINAL
/// row: the pair line, the state, the league tag and its story cut to the
/// room.
pub open spec fn tier3_spec(
    game: Game,
    league_tag: bool,
    leaders: Option<Seq<char>>,
    start: Seq<char>,
    w: u16,
) -> Seq<(u16, u16, u16, Align, Seq<char>)> {
    let later = game.status == Status::Pre;
    let head = if later {
        col_spec(w, AWAY_ABBR_X, ABBR_TEXT_W, 0, Align::Right, pad3(game.away.abbr@)) + col_spec(
            w,
            AWAY_SCORE_X,
            SCORE_W,
            0,
            Align::Center,
            "@"@,
        ) + col_spec(w, HOME_ABBR_X, ABBR_TEXT_W, 0, Align::Left, pad3(game.home.abbr@))
    } else {
        pair_spec(game, w)
    };
    let tag = if league_tag {
        col_spec(w, LEAGUE_X, LEAGUE_W, 0, Align::Left, upper_ascii_seq(slug_of(game.league)))
    } else {
        Seq::empty()
    };
    let tail = if later {
        (match game.broadcast {
            Some(n) if n@.len() > 0 => col_spec(w, TEXT_X, BCAST_W, 0, Align::Left, upper(n@)),
            _ => Seq::empty(),
        }) + (match game.odds {
            Some(o) if o@.len() > 0 => col_spec(w, ODDS_X, w, 0, Align::Left, truncate_spec(o@, room(w, ODDS_X))),
            _ => Seq::empty(),
        })
    } else {
        let line = final_line(game, leaders);
        if line.len() > 0 {
            col_spec(w, TEXT_X, w, 0, Align::Left, truncate_spec(line, room(w, TEXT_X)))
        } else {
            Seq::empty()
        }
    };
    head + state_cell_spec(game, start, w) + tag + tail
}

/// Puts a tier-3 row together.
pub fn tier3_cells(game: &Game, league_tag: bool, leaders: Option<&str>, start: &str, width: u16) -> (r: Vec<RowCell>)
    ensures
        cells_view(r@) == tier3_spec(
            *game,
            league_tag,
            match leaders {
                Some(l) => Some(l@),
                None => None,
            },
            start@,
            width,
        ),
{
    let ghost lv = match leaders {
        Some(l) => Some(l@),
        None => None,
    };
    let ghost e = Seq::<(u16, u16, u16, Align, Seq<char>)>::empty();
    let later = game.status == Status::Pre;
    let mut out: Vec<RowCell> = Vec::new();
    if later {
        push_col(&mut out, width, AWAY_ABBR_X, ABBR_TEXT_W, 0, Align::Right, padded3(game.away.abbr.as_str()));
        push_col(&mut out, width, AWAY_SCORE_X, SCORE_W, 0, Align::Center, owned("@"));
        push_col(&mut out, width, HOME_ABBR_X, ABBR_TEXT_W, 0, Align::Left, padded3(game.home.abbr.as_str()));
    } else {
        push_pair(&mut out, game, width);
    }
    push_state(&mut out, game, start, width);
    let ghost b = cells_view(out@);
    if league_tag {
        push_col(&mut out, width, LEAGUE_X, LEAGUE_W, 0, Align::Left, league_tag_text(game.league));
    } else {
        assert(cells_view(out@) =~= b + e);
    }
    let ghost c = cells_view(out@);
    if later {
        match &game.broadcast {
            Some(n) => {
                if chars_of(n.as_str()).len() > 0 {
                    push_col(&mut out, width, TEXT_X, BCAST_W, 0, Align::Left, str_to_uppercase(n.as_str()));
                } else {
                    assert(cells_view(out@) =~= c + e);
                }
            },
            None => {
                assert(cells_view(out@) =~= c + e);
            },
        }
        let ghost d = cells_view(out@);
        match &game.odds {
            Some(o) => {
                if chars_of(o.as_str()).len() > 0 {
                    let rm: usize = if width > ODDS_X {
                        (width - ODDS_X) as usize
                    } else {
                        0
                    };
                    push_col(&mut out, width, ODDS_X, width, 0, Align::Left, truncate(o.as_str(), rm));
                } else {
                    assert(cells_view(out@) =~= d + e);
                }
            },
            None => {
                assert(cells_view(out@) =~= d + e);
            },
        }
        assert(cells_view(out@) =~= tier3_spec(*game, league_tag, lv, start@, width));
        return out;
    }
    let line = match final_story(game, leaders) {
        Some(s) => s,
        None => match situation_summary(game) {
            Some(f) => f,
            None => String::new(),
        },
    };
    if chars_of(line.as_str()).len() > 0 {
        let rm: usize = if width > TEXT_X {
            (width - TEXT_X) as usize
        } else {
            0
        };
        push_col(&mut out, width, TEXT_X, width, 0, Align::Left, truncate(line.as_str(), rm));
    } else {
        assert(cells_view(out@) =~= c + e);
    }
    assert(cells_view(out@) =~= tier3_spec(*game, league_tag, lv, start@, width));
    out
}

/// The first and last second the `time` crate holds: the start of
/// -9999-01-01 and the end of 9999-12-31, UTC.
pub const MIN_TIMESTAMP: i64 = -377705116800;

pub const MAX_TIMESTAMP: i64 = 253402300799;

/// The widest UTC offset, 25:59:59, in seconds.
pub const MAX_OFFSET: i32 = 93599;

pub open spec fn in_calendar(t: int) -> bool {
    MIN_TIMESTAMP <= t <= MAX_TIMESTAMP
}

/// Two digits, zero-padded.
pub open spec fn two_digits(n: int) -> Seq<char> {
    if n < 10 {
        "0"@ + dec(n as nat)
    } else {
        dec(n as nat)
    }
}

/// The wall-clock time of local second `local` (seconds since the epoch,
/// offset applied) on a 12-hour clock: `8:20 PM`, `12:05 AM`.
pub open spec fn clock12_spec(local: int) -> Seq<char> {
    let secs = local % 86400;
    let hour = secs / 3600;
    let minute = (secs % 3600) / 60;
    let h12 = if hour % 12 == 0 {
        12
    } else {
        hour % 12
    };
    dec(h12 as nat) + ":"@ + two_digits(minute) + if hour < 12 {
        " AM"@
    } else {
        " PM"@
    }
}

/// `OffsetDateTime::from_unix_timestamp`, `UtcOffset::from_whole_seconds`,
/// `to_offset` and `format` with `[hour repr:12 padding:none]:[minute]
/// [period]`. Claimed: the 12-hour wall-clock time at `offset_seconds` from
/// UTC. The requires keep the timestamp and its local time inside the
/// crate's calendar and the offset inside its range, where none of the
/// unwraps can fail and `to_offset` does not panic.
#[verifier::external_body]
fn clock_at(timestamp: i64, offset_seconds: i32) -> (r: String)
    requires
        -MAX_OFFSET <= offset_seconds <= MAX_OFFSET,
        in_calendar(timestamp as int),
        in_calendar(timestamp + offset_seconds),
    ensures
        r@ == clock12_spec(timestamp + offset_seconds),
{
    let fmt = time::format_description::parse_borrowed::<1>("[hour repr:12 padding:none]:[minute] [period]").unwrap();
    let offset = time::UtcOffset::from_whole_seconds(offset_seconds).unwrap();
    time::OffsetDateTime::from_unix_timestamp(timestamp).unwrap().to_offset(offset).format(&fmt).unwrap()
}

/// A scheduled start's time of day at `offset_seconds` from UTC, `8:20 PM`;
/// nothing without a start or for one outside the calendar. The caller
/// keeps the offset inside ±25:59:59 and a start near the calendar's ends
/// from crossing them.
pub fn start_clock(start: Option<i64>, offset_seconds: i32) -> (s: String)
    requires
        -MAX_OFFSET <= offset_seconds <= MAX_OFFSET,
        match start {
            Some(t) => in_calendar(t as int) ==> in_calendar(t + offset_seconds),
            None => true,
        },
    ensures
        s@ == match start {
            Some(t) if in_calendar(t as int) => clock12_spec(t + offset_seconds),
            _ => Seq::empty(),
        },
{
    match start {
        Some(t) => {
            if MIN_TIMESTAMP <= t && t <= MAX_TIMESTAMP {
                clock_at(t, offset_seconds)
            } else {
                String::new()
            }
        },
        None => String::new(),
    }
}

} // verus!
