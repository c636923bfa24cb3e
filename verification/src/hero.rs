//! The hero block: the score ladder's row costs, how a hero area splits
//! between the digits and the rows under them, and the hero's words.
use vstd::prelude::*;
use crate::domain::{Game, League, Status};
use crate::text::{append, str_to_uppercase, trim, upper};

verus! {

/// Rows of one full-size glyph (the 8×8 block form).
pub const GLYPH_ROWS: u16 = 8;

/// Columns of one full-size glyph.
pub const GLYPH_COLS: u16 = 8;

/// Rows of one quadrant digit, the mid form.
pub const QUAD_ROWS: u16 = 4;

/// Rows the score costs at each rung of the ladder: the one place the two
/// numbers are written down. The hero reserves them and the takeover sizes
/// its own score band off the same answer.
pub fn digit_rows(full: bool) -> (r: u16)
    ensures
        r == if full { GLYPH_ROWS } else { QUAD_ROWS },
{
    if full {
        GLYPH_ROWS
    } else {
        QUAD_ROWS
    }
}

/// How a hero of `height` rows splits: the digit band's rows, then which of
/// fragment / meter / play (those the game `have`s) survive under it. The
/// digits are charged first — the form the bracket asked for, else the
/// quadrant floor, else one text row — and the options keep, in order,
/// whatever rows are left; rows they decline stay with the band.
pub open spec fn row_plan_spec(height: int, have: [bool; 3], digits_full: bool) -> (int, [bool; 3]) {
    let under = if height > 1 { height - 1 } else { 0 };
    let band = if digits_full && under >= GLYPH_ROWS {
        GLYPH_ROWS as int
    } else if under >= QUAD_ROWS {
        QUAD_ROWS as int
    } else if under < 1 {
        under
    } else {
        1
    };
    let spare = under - band;
    let k0 = have[0] && spare > 0;
    let spare1 = if k0 { spare - 1 } else { spare };
    let k1 = have[1] && spare1 > 0;
    let spare2 = if k1 { spare1 - 1 } else { spare1 };
    let k2 = have[2] && spare2 > 0;
    let kept = (if k0 { 1int } else { 0 }) + (if k1 { 1int } else { 0 }) + (if k2 { 1int } else { 0 });
    (under - kept, [k0, k1, k2])
}

/// The split of a hero `height` rows tall; see [`row_plan_spec`].
pub fn row_plan(height: u16, have: [bool; 3], digits_full: bool) -> (r: (u16, [bool; 3]))
    ensures
        r.0 == row_plan_spec(height as int, have, digits_full).0,
        r.1 == row_plan_spec(height as int, have, digits_full).1,
{
    let under: u16 = if height > 1 { height - 1 } else { 0 };
    let band: u16 = if digits_full && under >= GLYPH_ROWS {
        GLYPH_ROWS
    } else if under >= QUAD_ROWS {
        QUAD_ROWS
    } else if under < 1 {
        under
    } else {
        1
    };
    let mut spare: u16 = under - band;
    let k0 = have[0] && spare > 0;
    if k0 {
        spare -= 1;
    }
    let k1 = have[1] && spare > 0;
    if k1 {
        spare -= 1;
    }
    let k2 = have[2] && spare > 0;
    let kept: u16 = (if k0 { 1 } else { 0 }) + (if k1 { 1 } else { 0 }) + (if k2 { 1 } else { 0 });
    let r = [k0, k1, k2];
    assert(r =~= row_plan_spec(height as int, have, digits_full).1);
    (under - kept, r)
}

/// The hero's fragment line, football only: `2ND & GOAL · BALL ON 4 · KC BALL`.
pub open spec fn fragment_parts(g: Game) -> Seq<Seq<char>> {
    match g.situation {
        Some(sit) => {
            let a = if sit.down_distance@.len() > 0 {
                seq![upper(sit.down_distance@)]
            } else {
                Seq::<Seq<char>>::empty()
            };
            let b = match sit.ball_on {
                Some(o) if o@.len() > 0 => seq!["BALL ON "@ + upper(o@)],
                _ => Seq::<Seq<char>>::empty(),
            };
            let c = match sit.possession {
                Some(p) if p@.len() > 0 => seq![upper(p@) + " BALL"@],
                _ => Seq::<Seq<char>>::empty(),
            };
            a + b + c
        },
        None => Seq::empty(),
    }
}

/// The fragment line's text; none outside football or with nothing to say.
pub open spec fn fragment_spec(g: Game) -> Option<Seq<char>> {
    if !(g.league == League::Nfl || g.league == League::Cfb) || fragment_parts(g).len() == 0 {
        None
    } else {
        Some(crate::text::join(fragment_parts(g), " · "@))
    }
}

/// The fragment line under the hero's digits, as text.
pub fn fragment_line(g: &Game) -> (r: Option<String>)
    ensures
        match (r, fragment_spec(*g)) {
            (Some(s), Some(t)) => s@ == t,
            (None, None) => true,
            _ => false,
        },
{
    let football = match g.league {
        League::Nfl => true,
        League::Cfb => true,
        _ => false,
    };
    if !football {
        return None;
    }
    let sit = match &g.situation {
        Some(s) => s,
        None => return None,
    };
    let mut parts: Vec<String> = Vec::new();
    if !sit.down_distance.as_str().is_empty() {
        parts.push(str_to_uppercase(sit.down_distance.as_str()));
    }
    let ghost pa = crate::text::string_views(parts@);
    match &sit.ball_on {
        Some(o) => {
            if !o.as_str().is_empty() {
                let mut s = String::new();
                append(&mut s, "BALL ON ");
                let u = str_to_uppercase(o.as_str());
                append(&mut s, u.as_str());
                parts.push(s);
            }
        },
        None => {},
    }
    let ghost pb = crate::text::string_views(parts@);
    match &sit.possession {
        Some(p) => {
            if !p.as_str().is_empty() {
                let mut s = str_to_uppercase(p.as_str());
                append(&mut s, " BALL");
                parts.push(s);
            }
        },
        None => {},
    }
    proof {
        assert(crate::text::string_views(parts@) =~= fragment_parts(*g));
    }
    if parts.len() == 0 {
        return None;
    }
    Some(crate::text::join_strings(&parts, " · "))
}

/// The center column's first line: `Q4 1:52` live, `FINAL`, or the start
/// (given already formatted) before the game.
pub open spec fn clock_spec(g: Game, start: Seq<char>) -> Seq<char> {
    match g.status {
        Status::Live => trim(g.period@ + " "@ + g.clock@),
        Status::Final => "FINAL"@,
        Status::Pre => start,
    }
}

pub fn clock_text(g: &Game, start: &str) -> (s: String)
    ensures
        s@ == clock_spec(*g, start@),
{
    match g.status {
        Status::Live => {
            let mut raw = String::new();
            append(&mut raw, g.period.as_str());
            append(&mut raw, " ");
            append(&mut raw, g.clock.as_str());
            let v = crate::text::chars_of(raw.as_str());
            let (a, b) = crate::text::trim_bounds(&v, 0, v.len());
            proof {
                assert(v@.subrange(0, v@.len() as int) =~= v@);
            }
            crate::text::string_of(&crate::text::slice_chars(&v, a, b))
        },
        Status::Final => crate::text::owned("FINAL"),
        Status::Pre => crate::text::owned(start),
    }
}

/// One nameplate, mirror images of each other: away reads
/// `▸ ⚑ ★ KC 2-0`, home reads `74-63 ▌BOS ★ ⚑ ▸` — the caret while selected,
/// the pin and favorite marks on the outside edge, the record after (away) or
/// before (home) the abbr, and the home side's `▌` when its color fell to
/// the lookalike rule.
pub open spec fn nameplate_spec(
    abbr: Seq<char>,
    record: Seq<char>,
    away: bool,
    pinned: bool,
    favorite: bool,
    selected: bool,
    fell: bool,
) -> Seq<char> {
    if away {
        (if selected { "▸ "@ } else { Seq::empty() }) + (if pinned { "⚑ "@ } else { Seq::empty() }) + (if favorite {
            "★ "@
        } else {
            Seq::empty()
        }) + abbr + (if record.len() > 0 { " "@ + record } else { Seq::empty() })
    } else {
        (if record.len() > 0 { record + " "@ } else { Seq::empty() }) + (if fell { "▌"@ } else { Seq::empty() }) + abbr
            + (if favorite { " ★"@ } else { Seq::empty() }) + (if pinned { " ⚑"@ } else { Seq::empty() }) + (if selected {
            " ▸"@
        } else {
            Seq::empty()
        })
    }
}

/// A nameplate's text; see [`nameplate_spec`].
pub fn nameplate_text(g: &Game, away: bool, pinned: bool, favorite: bool, selected: bool, fell: bool) -> (s: String)
    ensures
        s@ == if away {
            nameplate_spec(g.away.abbr@, g.away.record@, true, pinned, favorite, selected, fell)
        } else {
            nameplate_spec(g.home.abbr@, g.home.record@, false, pinned, favorite, selected, fell)
        },
{
    let team = if away {
        &g.away
    } else {
        &g.home
    };
    let has_record = !team.record.as_str().is_empty();
    let mut s = String::new();
    if away {
        if selected {
            append(&mut s, "▸ ");
        }
        if pinned {
            append(&mut s, "⚑ ");
        }
        if favorite {
            append(&mut s, "★ ");
        }
        append(&mut s, team.abbr.as_str());
        if has_record {
            append(&mut s, " ");
            append(&mut s, team.record.as_str());
        }
    } else {
        if has_record {
            append(&mut s, team.record.as_str());
            append(&mut s, " ");
        }
        if fell {
            append(&mut s, "▌");
        }
        append(&mut s, team.abbr.as_str());
        if favorite {
            append(&mut s, " ★");
        }
        if pinned {
            append(&mut s, " ⚑");
        }
        if selected {
            append(&mut s, " ▸");
        }
    }
    proof {
        let t = if away { g.away } else { g.home };
        assert(s@ =~= nameplate_spec(t.abbr@, t.record@, away, pinned, favorite, selected, fell));
    }
    s
}

/// `s` when `b`, else nothing: an optional nameplate piece.
pub open spec fn piece(b: bool, s: Seq<char>) -> Seq<Seq<char>> {
    if b {
        seq![s]
    } else {
        Seq::empty()
    }
}

/// The away nameplate's pieces, outside edge first: caret, pin, favorite,
/// abbr (with the home side's color block), record.
pub open spec fn plate_pieces(abbr: Seq<char>, record: Seq<char>, pinned: bool, favorite: bool, selected: bool) -> Seq<
    Seq<char>,
> {
    piece(selected, "▸"@) + piece(pinned, "⚑"@) + piece(favorite, "★"@) + seq![abbr] + piece(record.len() > 0, record)
}

proof fn lemma_join_push(a: Seq<Seq<char>>, x: Seq<char>, sep: Seq<char>)
    ensures
        crate::text::join(a.push(x), sep) == if a.len() == 0 {
            x
        } else {
            crate::text::join(a, sep) + sep + x
        },
{
    assert(a.push(x).drop_last() =~= a);
    assert(a.push(x).last() == x);
    if a.len() == 0 {
        assert(a.push(x) =~= seq![x]);
    }
}

/// The home plate's pieces, outside edge last: record, abbr (with its color
/// block), favorite, pin, caret — the away plate's in reverse.
pub open spec fn home_pieces(abbr: Seq<char>, record: Seq<char>, pinned: bool, favorite: bool, selected: bool) -> Seq<
    Seq<char>,
> {
    piece(record.len() > 0, record) + seq![abbr] + piece(favorite, "★"@) + piece(pinned, "⚑"@) + piece(selected, "▸"@)
}

proof fn lemma_away_plate(abbr: Seq<char>, record: Seq<char>, pinned: bool, favorite: bool, selected: bool, fell: bool)
    ensures
        nameplate_spec(abbr, record, true, pinned, favorite, selected, fell) == crate::text::join(
            plate_pieces(abbr, record, pinned, favorite, selected),
            " "@,
        ),
{

    let sp = " "@;
    reveal_strlit("▸ ");
    reveal_strlit("⚑ ");
    reveal_strlit("★ ");
    reveal_strlit(" ▸");
    reveal_strlit(" ⚑");
    reveal_strlit(" ★");
    reveal_strlit("▸");
    reveal_strlit("⚑");
    reveal_strlit("★");
    reveal_strlit(" ");
    // away: build the pieces one push at a time
    let p0 = piece(selected, "▸"@);
    let p1 = p0 + piece(pinned, "⚑"@);
    let p2 = p1 + piece(favorite, "★"@);
    let p3 = p2.push(abbr);
    let p4 = p3 + piece(record.len() > 0, record);
    let j = |q: Seq<Seq<char>>| crate::text::join(q, sp);
    let pre0 = if selected { "▸ "@ } else { Seq::<char>::empty() };
    let pre1 = pre0 + if pinned { "⚑ "@ } else { Seq::<char>::empty() };
    let pre2 = pre1 + if favorite { "★ "@ } else { Seq::<char>::empty() };
    // join(p_k) + " " == pre_k whenever p_k is non-empty
    if selected {
        lemma_join_push(Seq::empty(), "▸"@, sp);
        assert(p0 =~= Seq::<Seq<char>>::empty().push("▸"@));
    }
    assert(p0.len() > 0 ==> j(p0) + sp =~= pre0);
    if pinned {
        assert(p1 =~= p0.push("⚑"@));
        lemma_join_push(p0, "⚑"@, sp);
    } else {
        assert(p1 =~= p0);
    }
    assert(p1.len() > 0 ==> j(p1) + sp =~= pre1);
    assert(p1.len() == 0 ==> pre1 =~= Seq::<char>::empty());
    if favorite {
        assert(p2 =~= p1.push("★"@));
        lemma_join_push(p1, "★"@, sp);
    } else {
        assert(p2 =~= p1);
    }
    assert(p2.len() > 0 ==> j(p2) + sp =~= pre2);
    assert(p2.len() == 0 ==> pre2 =~= Seq::<char>::empty());
    lemma_join_push(p2, abbr, sp);
    assert(j(p3) =~= pre2 + abbr);
    if record.len() > 0 {
        assert(p4 =~= p3.push(record));
        lemma_join_push(p3, record, sp);
    } else {
        assert(p4 =~= p3);
    }
    assert(plate_pieces(abbr, record, pinned, favorite, selected) =~= p4);
    assert(nameplate_spec(abbr, record, true, pinned, favorite, selected, fell) =~= j(p4));
}

#[verifier::rlimit(40)]
proof fn lemma_home_plate(abbr: Seq<char>, record: Seq<char>, pinned: bool, favorite: bool, selected: bool, fell: bool)
    ensures
        nameplate_spec(abbr, record, false, pinned, favorite, selected, fell) == crate::text::join(
            home_pieces((if fell { "▌"@ } else { Seq::empty() }) + abbr, record, pinned, favorite, selected),
            " "@,
        ),
{

    let sp = " "@;
    reveal_strlit("▸ ");
    reveal_strlit("⚑ ");
    reveal_strlit("★ ");
    reveal_strlit(" ▸");
    reveal_strlit(" ⚑");
    reveal_strlit(" ★");
    reveal_strlit("▸");
    reveal_strlit("⚑");
    reveal_strlit("★");
    reveal_strlit(" ");
    let j = |q: Seq<Seq<char>>| crate::text::join(q, sp);
    // home
    let abbr2 = (if fell { "▌"@ } else { Seq::<char>::empty() }) + abbr;
    let h0 = piece(record.len() > 0, record);
    let h1 = h0.push(abbr2);
    let h2 = h1 + piece(favorite, "★"@);
    let h3 = h2 + piece(pinned, "⚑"@);
    let h4 = h3 + piece(selected, "▸"@);
    let rec = if record.len() > 0 { record + sp } else { Seq::<char>::empty() };
    if record.len() > 0 {
        lemma_join_push(Seq::empty(), record, sp);
        assert(h0 =~= Seq::<Seq<char>>::empty().push(record));
    }
    lemma_join_push(h0, abbr2, sp);
    assert(j(h1) =~= rec + abbr2);
    if favorite {
        assert(h2 =~= h1.push("★"@));
        lemma_join_push(h1, "★"@, sp);
    } else {
        assert(h2 =~= h1);
    }
    assert(j(h2) =~= rec + abbr2 + if favorite { " ★"@ } else { Seq::<char>::empty() });
    let s2 = rec + abbr2 + if favorite { " ★"@ } else { Seq::<char>::empty() };
    if pinned {
        assert(h3 =~= h2.push("⚑"@));
        lemma_join_push(h2, "⚑"@, sp);
    } else {
        assert(h3 =~= h2);
    }
    let s3 = s2 + if pinned { " ⚑"@ } else { Seq::<char>::empty() };
    assert(j(h3) =~= s3);
    if selected {
        assert(h4 =~= h3.push("▸"@));
        lemma_join_push(h3, "▸"@, sp);
    } else {
        assert(h4 =~= h3);
    }
    let s4 = s3 + if selected { " ▸"@ } else { Seq::<char>::empty() };
    assert(j(h4) =~= s4);
    assert(home_pieces(abbr2, record, pinned, favorite, selected) =~= h4);
    assert(nameplate_spec(abbr, record, false, pinned, favorite, selected, fell) =~= s4);
}


proof fn lemma_home_is_reverse(abbr: Seq<char>, record: Seq<char>, pinned: bool, favorite: bool, selected: bool)
    ensures
        home_pieces(abbr, record, pinned, favorite, selected) == plate_pieces(abbr, record, pinned, favorite, selected).reverse(),
{
    assert(home_pieces(abbr, record, pinned, favorite, selected) =~= plate_pieces(abbr, record, pinned, favorite, selected).reverse());
}

/// The nameplates are mirror images: the away plate is its pieces — caret,
/// pin, favorite, abbr, record — joined by spaces from the outside edge in;
/// the home plate joins the same pieces in the reverse order.
pub proof fn lemma_nameplates_mirror(abbr: Seq<char>, record: Seq<char>, pinned: bool, favorite: bool, selected: bool, fell: bool)
    ensures
        nameplate_spec(abbr, record, true, pinned, favorite, selected, fell) == crate::text::join(
            plate_pieces(abbr, record, pinned, favorite, selected),
            " "@,
        ),
        nameplate_spec(abbr, record, false, pinned, favorite, selected, fell) == crate::text::join(
            home_pieces((if fell { "▌"@ } else { Seq::empty() }) + abbr, record, pinned, favorite, selected),
            " "@,
        ),
        home_pieces(abbr, record, pinned, favorite, selected) == plate_pieces(abbr, record, pinned, favorite, selected).reverse(),
{
    lemma_away_plate(abbr, record, pinned, favorite, selected, fell);
    lemma_home_plate(abbr, record, pinned, favorite, selected, fell);
    lemma_home_is_reverse(abbr, record, pinned, favorite, selected);
}

} // verus!
