//! The per-period box-score rows every scoreboard owes you: `1 2 3 … R`,
//! then a row per side, with baseball's `H E`. The totals are the game's own
//! score, never a sum of the periods: a partial linescore leaves the score
//! the truth.
use vstd::prelude::*;
use crate::domain::{Extras, Game};
use crate::text::{append, dec, push_char};

verus! {

broadcast use vstd::seq_lib::group_seq_properties;

/// Height of the block: the period header plus one row per side.
pub const ROWS: u16 = 3;

/// `n` spaces.
pub open spec fn spaces(n: int) -> Seq<char>
    decreases n,
{
    if n <= 0 {
        Seq::empty()
    } else {
        spaces(n - 1).push(' ')
    }
}

/// `s` right-aligned in `w` cells (`{:>w}`).
pub open spec fn pad_left(s: Seq<char>, w: int) -> Seq<char> {
    spaces(w - s.len()) + s
}

/// `s` left-aligned in `w` cells (`{:<w}`).
pub open spec fn pad_right(s: Seq<char>, w: int) -> Seq<char> {
    s + spaces(w - s.len())
}

/// The three rows' text after the first `n` periods.
pub open spec fn periods_upto(ls: Seq<(u16, u16)>, n: int) -> (Seq<char>, Seq<char>, Seq<char>)
    decreases n,
{
    if n <= 0 {
        (Seq::empty(), Seq::empty(), Seq::empty())
    } else {
        let (h, a, m) = periods_upto(ls, n - 1);
        (
            h + pad_left(dec(n as nat), 3),
            a + pad_left(dec(ls[n - 1].0 as nat), 3),
            m + pad_left(dec(ls[n - 1].1 as nat), 3),
        )
    }
}

/// One labelled pair column (`H`, `E`) when the feed has it.
pub open spec fn pair_cells(label: Seq<char>, pair: Option<(u16, u16)>) -> (Seq<char>, Seq<char>, Seq<char>) {
    match pair {
        Some((a, h)) => (pad_left(label, 3), pad_left(dec(a as nat), 3), pad_left(dec(h as nat), 3)),
        None => (Seq::empty(), Seq::empty(), Seq::empty()),
    }
}

/// The linescore's rows: header, away, home. None without a linescore.
pub open spec fn linescore_spec(g: Game) -> Option<(Seq<char>, Seq<char>, Seq<char>)> {
    if g.linescore@.len() == 0 {
        None
    } else {
        let (hits, errors) = match g.extras {
            Extras::Baseball { hits, errors } => (hits, errors),
            _ => (None, None),
        };
        let (ph, pa, pm) = periods_upto(g.linescore@, g.linescore@.len() as int);
        let (hh, ha, hm) = pair_cells("H"@, hits);
        let (eh, ea, em) = pair_cells("E"@, errors);
        Some(
            (
                spaces(5) + ph + pad_left("R"@, 4) + hh + eh,
                pad_right(g.away.abbr@, 5) + pa + pad_left(dec(g.away_score as nat), 4) + ha + ea,
                pad_right(g.home.abbr@, 5) + pm + pad_left(dec(g.home_score as nat), 4) + hm + em,
            ),
        )
    }
}

fn push_spaces(s: &mut String, n: usize)
    ensures
        final(s)@ == old(s)@ + spaces(n as int),
{
    let mut i: usize = 0;
    while i < n
        invariant
            i <= n,
            s@ == old(s)@ + spaces(i as int),
        decreases n - i,
    {
        push_char(s, ' ');
        assert(old(s)@ + spaces(i + 1) =~= (old(s)@ + spaces(i as int)).push(' '));
        i += 1;
    }
}

fn append_left(s: &mut String, t: &str, w: usize)
    ensures
        final(s)@ == old(s)@ + pad_left(t@, w as int),
{
    let n = crate::text::chars_of(t).len();
    if n < w {
        push_spaces(s, w - n);
    } else {
        assert(spaces(w - n) =~= Seq::<char>::empty());
        assert(old(s)@ =~= old(s)@ + spaces(w - n));
    }
    append(s, t);
    assert(old(s)@ + spaces(w - n) + t@ =~= old(s)@ + pad_left(t@, w as int));
}

fn append_right(s: &mut String, t: &str, w: usize)
    ensures
        final(s)@ == old(s)@ + pad_right(t@, w as int),
{
    let n = crate::text::chars_of(t).len();
    append(s, t);
    if n < w {
        push_spaces(s, w - n);
    } else {
        assert(spaces(w - n) =~= Seq::<char>::empty());
    }
    assert(old(s)@ + t@ + spaces(w - n) =~= old(s)@ + pad_right(t@, w as int));
}

fn append_num(s: &mut String, n: u64, w: usize)
    ensures
        final(s)@ == old(s)@ + pad_left(dec(n as nat), w as int),
{
    let d = crate::text::dec_string(n);
    append_left(s, d.as_str(), w);
}

/// The linescore's three rows of text — header, away, home — each period a
/// right-aligned 3-cell column, then `R` and the game's own score, then
/// baseball's hits and errors when the feed has them. None when the feed
/// carried no linescore.
pub fn linescore_lines(g: &Game) -> (r: Option<(String, String, String)>)
    ensures
        match (r, linescore_spec(*g)) {
            (Some((h, a, m)), Some((sh, sa, sm))) => h@ == sh && a@ == sa && m@ == sm,
            (None, None) => true,
            _ => false,
        },
{
    if g.linescore.len() == 0 {
        return None;
    }
    let mut head = String::new();
    let mut away = String::new();
    let mut home = String::new();
    push_spaces(&mut head, 5);
    append_right(&mut away, g.away.abbr.as_str(), 5);
    append_right(&mut home, g.home.abbr.as_str(), 5);
    let ghost h0 = head@;
    let ghost a0 = away@;
    let ghost m0 = home@;
    let mut i: usize = 0;
    while i < g.linescore.len()
        invariant
            i <= g.linescore@.len(),
            ({
                let (ph, pa, pm) = periods_upto(g.linescore@, i as int);
                head@ == h0 + ph && away@ == a0 + pa && home@ == m0 + pm
            }),
        decreases g.linescore@.len() - i,
    {
        let (a, h) = g.linescore[i];
        let ghost (ph, pa, pm) = periods_upto(g.linescore@, i as int);
        append_num(&mut head, (i + 1) as u64, 3);
        append_num(&mut away, a as u64, 3);
        append_num(&mut home, h as u64, 3);
        assert(head@ =~= h0 + (ph + pad_left(dec((i + 1) as nat), 3)));
        assert(away@ =~= a0 + (pa + pad_left(dec(a as nat), 3)));
        assert(home@ =~= m0 + (pm + pad_left(dec(h as nat), 3)));
        i += 1;
    }
    append_left(&mut head, "R", 4);
    append_num(&mut away, g.away_score as u64, 4);
    append_num(&mut home, g.home_score as u64, 4);
    let (hits, errors) = match &g.extras {
        Extras::Baseball { hits, errors } => (*hits, *errors),
        _ => (None, None),
    };
    match hits {
        Some((a, h)) => {
            append_left(&mut head, "H", 3);
            append_num(&mut away, a as u64, 3);
            append_num(&mut home, h as u64, 3);
        },
        None => {},
    }
    match errors {
        Some((a, h)) => {
            append_left(&mut head, "E", 3);
            append_num(&mut away, a as u64, 3);
            append_num(&mut home, h as u64, 3);
        },
        None => {},
    }
    proof {
        let (ph, pa, pm) = periods_upto(g.linescore@, g.linescore@.len() as int);
        let (hh, ha, hm) = pair_cells("H"@, hits);
        let (eh, ea, em) = pair_cells("E"@, errors);
        assert(head@ =~= spaces(5) + ph + pad_left("R"@, 4) + hh + eh);
        assert(away@ =~= pad_right(g.away.abbr@, 5) + pa + pad_left(dec(g.away_score as nat), 4) + ha + ea);
        assert(home@ =~= pad_right(g.home.abbr@, 5) + pm + pad_left(dec(g.home_score as nat), 4) + hm + em);
    }
    Some((head, away, home))
}

} // verus!
