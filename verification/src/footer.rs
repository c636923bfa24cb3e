//! The footer row as text: an open prompt owns it, then a status line;
//! otherwise the active filter, the NAV chords the width can hold, and the
//! right-hand status (GAME / PAGE / UPD), shed from the left when the row
//! runs out of columns.
use vstd::prelude::*;
use crate::linescore::spaces;
use crate::tv::opt_id;
use crate::text::{append, append_dec, chars_of, dec, join, join_strings, push_char, str_eq, string_views};

verus! {

broadcast use {vstd::seq_lib::group_seq_properties, vstd::seq_lib::group_filter_ensures};

/// A chord as text: `(key, action)`.
pub open spec fn pair_views(v: Seq<(String, String)>) -> Seq<(Seq<char>, Seq<char>)> {
    v.map_values(|p: (String, String)| (p.0@, p.1@))
}

/// The cells one chord takes: ` [key] action`.
pub open spec fn chord_cost(c: (Seq<char>, Seq<char>)) -> int {
    (4 + c.0.len() + c.1.len()) as int
}

/// The cells the chords take.
pub open spec fn chords_cost(cs: Seq<(Seq<char>, Seq<char>)>) -> int
    decreases cs.len(),
{
    if cs.len() == 0 {
        0
    } else {
        chords_cost(cs.drop_last()) + chord_cost(cs.last())
    }
}

/// Chords other than those doing `action`.
pub open spec fn without(action: Seq<char>) -> spec_fn((Seq<char>, Seq<char>)) -> bool {
    |c: (Seq<char>, Seq<char>)| c.1 != action
}

/// The chords left after the first `n` rounds of shedding: each round, while
/// the row (the filter's cells, ` NAV:`, the chords) does not fit `width`,
/// drops the chords doing the next action of the drop order.
pub open spec fn shed_upto(
    cs: Seq<(Seq<char>, Seq<char>)>,
    drops: Seq<Seq<char>>,
    filter_width: int,
    width: int,
    n: int,
) -> Seq<(Seq<char>, Seq<char>)>
    decreases n,
{
    if n <= 0 {
        cs
    } else {
        let prev = shed_upto(cs, drops, filter_width, width, n - 1);
        if filter_width + 5 + chords_cost(prev) < width {
            prev
        } else {
            prev.filter(without(drops[n - 1]))
        }
    }
}

proof fn lemma_cost_push(s: Seq<(Seq<char>, Seq<char>)>, x: (Seq<char>, Seq<char>))
    ensures
        chords_cost(s.push(x)) == chords_cost(s) + chord_cost(x),
{
    assert(s.push(x).drop_last() =~= s);
}

proof fn lemma_cost_filter(s: Seq<(Seq<char>, Seq<char>)>, p: spec_fn((Seq<char>, Seq<char>)) -> bool)
    ensures
        0 <= chords_cost(s.filter(p)) <= chords_cost(s),
    decreases s.len(),
{
    reveal_with_fuel(Seq::<_>::filter, 1);
    if s.len() > 0 {
        lemma_cost_filter(s.drop_last(), p);
        if p(s.last()) {
            lemma_cost_push(s.drop_last().filter(p), s.last());
        }
    }
}

proof fn lemma_shed_cost(cs: Seq<(Seq<char>, Seq<char>)>, drops: Seq<Seq<char>>, fw: int, w: int, n: int)
    requires
        0 <= n <= drops.len(),
    ensures
        chords_cost(shed_upto(cs, drops, fw, w, n)) <= chords_cost(cs),
    decreases n,
{
    if n > 0 {
        lemma_shed_cost(cs, drops, fw, w, n - 1);
        lemma_cost_filter(shed_upto(cs, drops, fw, w, n - 1), without(drops[n - 1]));
    }
}

fn cost_of(v: &Vec<(String, String)>, cap: Ghost<int>) -> (r: usize)
    requires
        chords_cost(pair_views(v@)) <= cap@ <= usize::MAX,
    ensures
        r == chords_cost(pair_views(v@)),
{
    let ghost pv = pair_views(v@);
    let mut total: usize = 0;
    let mut i: usize = 0;
    while i < v.len()
        invariant
            i <= v@.len(),
            pv == pair_views(v@),
            total == chords_cost(pv.take(i as int)),
            chords_cost(pv) <= cap@ <= usize::MAX,
        decreases v@.len() - i,
    {
        proof {
            assert(pv.take(i + 1) =~= pv.take(i as int).push(pv[i as int]));
            lemma_cost_push(pv.take(i as int), pv[i as int]);
            lemma_prefix_cost(pv, i + 1);
        }
        let k = chars_of(v[i].0.as_str()).len();
        let a = chars_of(v[i].1.as_str()).len();
        total = total + 4 + k + a;
        i += 1;
    }
    assert(pv.take(v@.len() as int) =~= pv);
    total
}

proof fn lemma_prefix_cost(s: Seq<(Seq<char>, Seq<char>)>, k: int)
    requires
        0 <= k <= s.len(),
    ensures
        chords_cost(s.take(k)) <= chords_cost(s),
    decreases s.len(),
{
    if k < s.len() {
        assert(s.drop_last().take(k) =~= s.take(k));
        lemma_prefix_cost(s.drop_last(), k);
    } else {
        assert(s.take(k) =~= s);
    }
}

/// Sheds footer chords for a row `width` cells wide: chords doing the
/// actions of `drops` go, in that order, until the row fits; `filter_width`
/// is the cells the active filter's ` /text` takes. Chords whose action is
/// not in `drops` always stay.
pub fn shed_chords(chords: &Vec<(String, String)>, drops: &Vec<String>, filter_width: usize, width: usize) -> (r: Vec<
    (String, String),
>)
    requires
        filter_width + 5 + chords_cost(pair_views(chords@)) <= usize::MAX,
    ensures
        pair_views(r@) == shed_upto(
            pair_views(chords@),
            string_views(drops@),
            filter_width as int,
            width as int,
            drops@.len() as int,
        ),
        forall|c: (Seq<char>, Seq<char>)|
            pair_views(chords@).contains(c) && !string_views(drops@).contains(c.1) ==> #[trigger] pair_views(
                r@,
            ).contains(c),
{
    let ghost cs = pair_views(chords@);
    let ghost dv = string_views(drops@);
    let ghost cap: int = chords_cost(cs);
    let mut cur: Vec<(String, String)> = Vec::new();
    let mut i: usize = 0;
    while i < chords.len()
        invariant
            i <= chords@.len(),
            pair_views(cur@) == cs.take(i as int),
            cs == pair_views(chords@),
        decreases chords@.len() - i,
    {
        let k = chords[i].0.clone();
        let a = chords[i].1.clone();
        let ghost before = cur@;
        cur.push((k, a));
        proof {
            assert(cur@ == before.push((k, a)));
            assert(pair_views(cur@) =~= pair_views(before).push((k@, a@)));
            assert(cs[i as int] == (chords@[i as int].0@, chords@[i as int].1@));
            assert(pair_views(cur@) =~= cs.take(i + 1));
        }
        i += 1;
    }
    assert(cs.take(chords@.len() as int) =~= cs);
    let mut d: usize = 0;
    while d < drops.len()
        invariant
            d <= drops@.len(),
            dv == string_views(drops@),
            pair_views(cur@) == shed_upto(cs, dv, filter_width as int, width as int, d as int),
            filter_width + 5 + cap <= usize::MAX,
            cap == chords_cost(cs),
            forall|c: (Seq<char>, Seq<char>)|
                cs.contains(c) && !dv.contains(c.1) ==> #[trigger] pair_views(cur@).contains(c),
        decreases drops@.len() - d,
    {
        proof {
            lemma_shed_cost(cs, dv, filter_width as int, width as int, d as int);
        }
        let cost = cost_of(&cur, Ghost(cap));
        if filter_width + 5 + cost < width {
            // It fits: the rest of the drop order is never reached.
            proof {
                assert(pair_views(cur@) == shed_upto(cs, dv, filter_width as int, width as int, d + 1));
            }
        } else {
            let ghost prev = pair_views(cur@);
            let ghost p = without(dv[d as int]);
            let mut next: Vec<(String, String)> = Vec::new();
            let mut j: usize = 0;
            while j < cur.len()
                invariant
                    j <= cur@.len(),
                    d < drops@.len(),
                    dv == string_views(drops@),
                    pair_views(next@) == prev.take(j as int).filter(p),
                    prev == pair_views(cur@),
                    p == without(dv[d as int]),
                    dv[d as int] == drops@[d as int]@,
                decreases cur@.len() - j,
            {
                proof {
                    reveal_with_fuel(Seq::<_>::filter, 1);
                    assert(prev.take(j + 1).drop_last() =~= prev.take(j as int));
                    assert(prev.take(j + 1).last() == prev[j as int]);
                }
                if !str_eq(cur[j].1.as_str(), drops[d].as_str()) {
                    next.push((cur[j].0.clone(), cur[j].1.clone()));
                    assert(pair_views(next@) =~= pair_views(next@).drop_last().push(prev[j as int]));
                }
                j += 1;
            }
            assert(prev.take(cur@.len() as int) =~= prev);
            proof {
                assert forall|c: (Seq<char>, Seq<char>)| cs.contains(c) && !dv.contains(c.1) implies #[trigger] pair_views(
                    next@,
                ).contains(c) by {
                    assert(prev.contains(c));
                    assert(c.1 != dv[d as int]);
                    let k = choose|k: int| 0 <= k < prev.len() && prev[k] == c;
                    assert(prev.filter(p).contains(prev[k]));
                }
            }
            cur = next;
        }
        d += 1;
    }
    cur
}

/// The right-hand pieces that fit beside `left` cells: pieces go from the
/// left (GAME first) until the rest, two spaces apart with two cells of
/// air, fits `width`.
pub open spec fn fit_right_spec(left: int, right: Seq<Seq<char>>, width: int) -> Seq<Seq<char>>
    decreases right.len(),
{
    if right.len() == 0 || left + join(right, "  "@).len() + 2 <= width {
        right
    } else {
        fit_right_spec(left, right.drop_first(), width)
    }
}

fn fit_right(left: usize, right: &Vec<String>, width: usize) -> (r: Vec<String>)
    ensures
        string_views(r@) == fit_right_spec(left as int, string_views(right@), width as int),
{
    let mut rest: Vec<String> = Vec::new();
    let mut i: usize = 0;
    while i < right.len()
        invariant
            i <= right@.len(),
            rest@ == right@.take(i as int),
        decreases right@.len() - i,
    {
        rest.push(right[i].clone());
        assert(rest@ =~= right@.take(i + 1));
        i += 1;
    }
    assert(right@.take(right@.len() as int) =~= right@);
    while rest.len() > 0
        invariant
            fit_right_spec(left as int, string_views(rest@), width as int) == fit_right_spec(
                left as int,
                string_views(right@),
                width as int,
            ),
        ensures
            string_views(rest@) == fit_right_spec(left as int, string_views(right@), width as int),
        decreases rest@.len(),
    {
        let joined = join_strings(&rest, "  ");
        let n = chars_of(joined.as_str()).len();
        if (left as u128) + (n as u128) + 2 <= (width as u128) {
            assert(left + join(string_views(rest@), "  "@).len() + 2 <= width);
            break;
        }
        let ghost before = rest@;
        rest.remove(0);
        assert(string_views(rest@) =~= string_views(before).drop_first());
    }
    rest
}

/// The footer row's text when no prompt or status line owns it: the
/// active filter, ` NAV:` and each chord, then — right-aligned in a row
/// `width` cells wide, one cell short of the edge — what fits of `right`.
pub open spec fn footer_spec(
    filter: Option<Seq<char>>,
    chords: Seq<(Seq<char>, Seq<char>)>,
    right: Seq<Seq<char>>,
    width: int,
) -> Seq<char> {
    let left = footer_left(filter, chords);
    let kept = fit_right_spec(left.len() as int, right, width);
    if kept.len() == 0 {
        left
    } else {
        let text = join(kept, "  "@);
        left + spaces(width - (left.len() + text.len() + 1)) + text
    }
}

/// ` /filter NAV: [key] action …`.
pub open spec fn footer_left(filter: Option<Seq<char>>, chords: Seq<(Seq<char>, Seq<char>)>) -> Seq<char> {
    (match filter {
        Some(f) => " /"@ + f,
        None => Seq::empty(),
    }) + " NAV:"@ + chord_text(chords)
}

/// Each chord as ` [key] action`.
pub open spec fn chord_text(cs: Seq<(Seq<char>, Seq<char>)>) -> Seq<char>
    decreases cs.len(),
{
    if cs.len() == 0 {
        Seq::empty()
    } else {
        chord_text(cs.drop_last()) + " ["@ + cs.last().0 + "] "@ + cs.last().1
    }
}

/// The footer row's text; see [`footer_spec`].
pub fn footer_line(filter: Option<&str>, chords: &Vec<(String, String)>, right: &Vec<String>, width: usize) -> (s:
    String)
    ensures
        s@ == footer_spec(
            match filter {
                Some(f) => Some(f@),
                None => None,
            },
            pair_views(chords@),
            string_views(right@),
            width as int,
        ),
{
    let ghost fv = match filter {
        Some(f) => Some(f@),
        None => None,
    };
    let mut s = String::new();
    if let Some(f) = filter {
        append(&mut s, " /");
        append(&mut s, f);
    }
    append(&mut s, " NAV:");
    let ghost head = s@;
    let ghost pv = pair_views(chords@);
    let mut i: usize = 0;
    while i < chords.len()
        invariant
            i <= chords@.len(),
            pv == pair_views(chords@),
            s@ == head + chord_text(pv.take(i as int)),
        decreases chords@.len() - i,
    {
        proof {
            assert(pv.take(i + 1).drop_last() =~= pv.take(i as int));
        }
        append(&mut s, " [");
        append(&mut s, chords[i].0.as_str());
        append(&mut s, "] ");
        append(&mut s, chords[i].1.as_str());
        i += 1;
    }
    assert(pv.take(chords@.len() as int) =~= pv);
    assert(s@ == footer_left(fv, pv));
    let left = chars_of(s.as_str()).len();
    let kept = fit_right(left, right, width);
    if kept.len() > 0 {
        let text = join_strings(&kept, "  ");
        let tl = chars_of(text.as_str()).len();
        let used: u128 = (left as u128) + (tl as u128) + 1;
        let gap: usize = if used < (width as u128) {
            (width as u128 - used) as usize
        } else {
            0
        };
        let ghost base = s@;
        let mut k: usize = 0;
        while k < gap
            invariant
                k <= gap,
                s@ == base + spaces(k as int),
            decreases gap - k,
        {
            push_char(&mut s, ' ');
            assert(base + spaces(k + 1) =~= (base + spaces(k as int)).push(' '));
            k += 1;
        }
        proof {
            if used >= width as u128 {
                assert(spaces(width - (left + tl + 1)) =~= spaces(0));
            }
        }
        append(&mut s, text.as_str());
    }
    s
}

/// The footer's right-hand status: `FOCUS AWAY@HOME` while zoomed, else
/// `GAME n/total` when there is more than one row to choose; `PAGE p/pages`
/// on a paged board; then the UPD age when the net has one.
pub open spec fn right_spec(
    zoomed: bool,
    focus: Option<(Seq<char>, Seq<char>)>,
    selected: nat,
    sel_len: nat,
    page: nat,
    pages: nat,
    upd: Option<Seq<char>>,
) -> Seq<Seq<char>> {
    let a = if zoomed {
        match focus {
            Some((x, y)) => seq!["FOCUS "@ + x + "@"@ + y],
            None => Seq::empty(),
        }
    } else if sel_len > 1 {
        seq!["GAME "@ + dec(selected + 1) + "/"@ + dec(sel_len)]
    } else {
        Seq::empty()
    };
    let b = if pages > 1 && !zoomed {
        seq!["PAGE "@ + dec((if page < pages - 1 { page } else { (pages - 1) as nat }) + 1) + "/"@ + dec(pages)]
    } else {
        Seq::empty()
    };
    let c = match upd {
        Some(u) => seq![u],
        None => Seq::empty(),
    };
    a + b + c
}

/// The right-hand status pieces; see [`right_spec`].
pub fn footer_right(
    zoomed: bool,
    focus: Option<(&str, &str)>,
    selected: u64,
    sel_len: u64,
    page: u64,
    pages: u64,
    upd: Option<String>,
) -> (r: Vec<String>)
    requires
        selected < u64::MAX,
    ensures
        string_views(r@) == right_spec(
            zoomed,
            match focus {
                Some((x, y)) => Some((x@, y@)),
                None => None,
            },
            selected as nat,
            sel_len as nat,
            page as nat,
            pages as nat,
            opt_id(upd),
        ),
{
    let ghost uv = opt_id(upd);
    let mut r: Vec<String> = Vec::new();
    if zoomed {
        if let Some((x, y)) = focus {
            let mut s = String::new();
            append(&mut s, "FOCUS ");
            append(&mut s, x);
            append(&mut s, "@");
            append(&mut s, y);
            r.push(s);
        }
    } else if sel_len > 1 {
        let mut s = String::new();
        append(&mut s, "GAME ");
        append_dec(&mut s, selected + 1);
        append(&mut s, "/");
        append_dec(&mut s, sel_len);
        r.push(s);
    }
    if pages > 1 && !zoomed {
        let p = if page < pages - 1 {
            page
        } else {
            pages - 1
        };
        let mut s = String::new();
        append(&mut s, "PAGE ");
        append_dec(&mut s, p + 1);
        append(&mut s, "/");
        append_dec(&mut s, pages);
        r.push(s);
    }
    if let Some(u) = upd {
        r.push(u);
    }
    proof {
        let fv = match focus {
            Some((x, y)) => Some((x@, y@)),
            None => None,
        };
        assert(string_views(r@) =~= right_spec(zoomed, fv, selected as nat, sel_len as nat, page as nat, pages as nat, uv));
    }
    r
}

/// An open prompt's footer text: ` :buf▌`, then for the command prompt the
/// completions Tab cycles through, ` ▸ a  b  c `.
pub open spec fn prompt_spec(sigil: char, buf: Seq<char>, matches: Seq<Seq<char>>) -> Seq<char> {
    " "@.push(sigil) + buf + "▌"@ + if matches.len() == 0 {
        Seq::empty()
    } else {
        "  ▸"@ + match_text(matches)
    }
}

/// Each completion as ` name `.
pub open spec fn match_text(ms: Seq<Seq<char>>) -> Seq<char>
    decreases ms.len(),
{
    if ms.len() == 0 {
        Seq::empty()
    } else {
        match_text(ms.drop_last()) + " "@ + ms.last() + " "@
    }
}

/// The prompt's footer text; see [`prompt_spec`].
pub fn prompt_line(sigil: char, buf: &str, matches: &Vec<String>) -> (s: String)
    ensures
        s@ == prompt_spec(sigil, buf@, string_views(matches@)),
{
    let mut s = String::new();
    append(&mut s, " ");
    push_char(&mut s, sigil);
    append(&mut s, buf);
    append(&mut s, "▌");
    let ghost start = s@;
    assert(start == " "@.push(sigil) + buf@ + "▌"@);
    if matches.len() > 0 {
        append(&mut s, "  ▸");
        let ghost head = s@;
        let ghost mv = string_views(matches@);
        let mut i: usize = 0;
        while i < matches.len()
            invariant
                i <= matches@.len(),
                mv == string_views(matches@),
                s@ == head + match_text(mv.take(i as int)),
            decreases matches@.len() - i,
        {
            proof {
                assert(mv.take(i + 1).drop_last() =~= mv.take(i as int));
            }
            append(&mut s, " ");
            append(&mut s, matches[i].as_str());
            append(&mut s, " ");
            i += 1;
        }
        assert(mv.take(matches@.len() as int) =~= mv);
        assert(s@ == start + ("  ▸"@ + match_text(mv)));
    }
    s
}

/// The right-hand status sheds from the left and what stays fits: it is
/// the last pieces of `right`, and when any stay they fit beside `left`
/// with their two cells of air.
pub proof fn lemma_right_sheds_from_the_left(left: int, right: Seq<Seq<char>>, width: int)
    ensures
        exists|k: int| 0 <= k <= right.len() && #[trigger] right.skip(k) == fit_right_spec(left, right, width),
        fit_right_spec(left, right, width).len() > 0 ==> left + join(fit_right_spec(left, right, width), "  "@).len()
            + 2 <= width,
    decreases right.len(),
{
    if right.len() == 0 || left + join(right, "  "@).len() + 2 <= width {
        assert(right.skip(0) =~= right);
    } else {
        lemma_right_sheds_from_the_left(left, right.drop_first(), width);
        let k = choose|k: int| 0 <= k <= right.drop_first().len() && #[trigger] right.drop_first().skip(k) == fit_right_spec(
            left,
            right.drop_first(),
            width,
        );
        assert(right.skip(k + 1) =~= right.drop_first().skip(k));
    }
}

} // verus!
