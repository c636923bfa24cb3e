//! The board's sections — MY GAMES, IN PLAY, FINAL, LATER — cut from one
//! walk of the visible games, and the selection they concatenate into.
//!
//! Sections hold indices into the visible list, so every section is a view
//! of the same games and the partition can be stated exactly.
use vstd::prelude::*;
use crate::config::{prune_pins, Favorite, Pin};
use crate::domain::{Game, Status};
use crate::text::{chars_eq, chars_of, lower_ascii_chars, lower_ascii_seq, string_views};

verus! {

broadcast use vstd::seq_lib::group_seq_properties;

/// The board's four sections as indices into the visible games, and what
/// the frame derives from them.
#[derive(Clone, Debug, PartialEq, Eq)]
pub struct Sections {
    /// Pins first (pin order), then favorited-team games (board order),
    /// deduped by id. Never re-sorted.
    pub my_games: Vec<usize>,
    /// Live games not in the band, in the frozen ranking's order; games the
    /// ranking has not seen yet follow in board order.
    pub in_play: Vec<usize>,
    pub finals: Vec<usize>,
    pub later: Vec<usize>,
    /// What j/k walks: `my_games ++ in_play ++ finals ++ later`.
    pub selection: Vec<usize>,
    /// The hero: the top of MY GAMES when it is live, else the first live
    /// game in play; none when nothing is live.
    pub hero: Option<usize>,
    /// More than one league on the board.
    pub mixed: bool,
}

/// Team abbrs compare ignoring ASCII case.
pub open spec fn abbr_eq(a: Seq<char>, b: Seq<char>) -> bool {
    lower_ascii_seq(a) == lower_ascii_seq(b)
}

/// The game is one of a favorited team's, in that team's league.
pub open spec fn favorited_spec(g: Game, favs: Seq<Favorite>) -> bool {
    exists|i: int|
        0 <= i < favs.len() && (#[trigger] favs[i]).league == g.league && (abbr_eq(g.away.abbr@, favs[i].team_abbr@)
            || abbr_eq(g.home.abbr@, favs[i].team_abbr@))
}

pub fn abbr_matches(a: &String, b: &String) -> (r: bool)
    ensures
        r == abbr_eq(a@, b@),
{
    chars_eq(&lower_ascii_chars(&chars_of(a.as_str())), &lower_ascii_chars(&chars_of(b.as_str())))
}

/// Whether a favorited team plays in `g`.
pub fn favorited(g: &Game, favs: &Vec<Favorite>) -> (r: bool)
    ensures
        r == favorited_spec(*g, favs@),
{
    let mut i: usize = 0;
    while i < favs.len()
        invariant
            i <= favs.len(),
            forall|j: int|
                0 <= j < i ==> !((#[trigger] favs@[j]).league == g.league && (abbr_eq(g.away.abbr@, favs@[j].team_abbr@)
                    || abbr_eq(g.home.abbr@, favs@[j].team_abbr@))),
        decreases favs.len() - i,
    {
        let f = &favs[i];
        if f.league == g.league && (abbr_matches(&g.away.abbr, &f.team_abbr) || abbr_matches(&g.home.abbr, &f.team_abbr)) {
            return true;
        }
        i += 1;
    }
    false
}

/// The first of the first `n` visible games that carries `id`.
pub open spec fn first_with_id_upto(vis: Seq<Game>, id: Seq<char>, n: int) -> Option<int>
    decreases n,
{
    if n <= 0 {
        None
    } else {
        match first_with_id_upto(vis, id, n - 1) {
            Some(k) => Some(k),
            None => if vis[n - 1].id@ == id {
                Some(n - 1)
            } else {
                None
            },
        }
    }
}

/// The first visible game carrying `id`.
pub open spec fn first_with_id(vis: Seq<Game>, id: Seq<char>) -> Option<int> {
    first_with_id_upto(vis, id, vis.len() as int)
}

pub(crate) proof fn lemma_first_upto(vis: Seq<Game>, id: Seq<char>, a: int, b: int)
    requires
        0 <= a <= b <= vis.len(),
    ensures
        first_with_id_upto(vis, id, a) is Some ==> first_with_id_upto(vis, id, b) == first_with_id_upto(vis, id, a),
        match first_with_id_upto(vis, id, b) {
            Some(k) => 0 <= k < b && vis[k].id@ == id,
            None => forall|j: int| 0 <= j < b ==> vis[j].id@ != id,
        },
    decreases b,
{
    if b > 0 {
        if a < b {
            lemma_first_upto(vis, id, a, b - 1);
        } else {
            lemma_first_upto(vis, id, b - 1, b - 1);
        }
    }
}

/// Some game already in the band carries this id.
pub open spec fn id_taken(vis: Seq<Game>, band: Seq<usize>, id: Seq<char>) -> bool {
    exists|j: int| 0 <= j < band.len() && vis[band[j] as int].id@ == id
}

/// The band after the first `n` pins.
pub open spec fn band_pins(vis: Seq<Game>, pins: Seq<Pin>, n: int) -> Seq<usize>
    decreases n,
{
    if n <= 0 {
        Seq::empty()
    } else {
        let acc = band_pins(vis, pins, n - 1);
        match first_with_id(vis, pins[n - 1].game_id@) {
            Some(k) if !id_taken(vis, acc, vis[k].id@) => acc.push(k as usize),
            _ => acc,
        }
    }
}

/// The band after the pins and the first `n` visible games' favorites.
pub open spec fn band_favs(vis: Seq<Game>, pins: Seq<Pin>, favs: Seq<Favorite>, n: int) -> Seq<usize>
    decreases n,
{
    if n <= 0 {
        band_pins(vis, pins, pins.len() as int)
    } else {
        let acc = band_favs(vis, pins, favs, n - 1);
        if favorited_spec(vis[n - 1], favs) && !id_taken(vis, acc, vis[n - 1].id@) {
            acc.push((n - 1) as usize)
        } else {
            acc
        }
    }
}

/// The MY GAMES band: held pins in pin order, then favorited games in board
/// order, one entry per id.
pub open spec fn my_games_spec(vis: Seq<Game>, pins: Seq<Pin>, favs: Seq<Favorite>) -> Seq<usize> {
    band_favs(vis, pins, favs, vis.len() as int)
}

/// Visible indices of one status whose id is not in the band, in order.
pub open spec fn rest_with(vis: Seq<Game>, band: Seq<usize>, st: Status, n: int) -> Seq<usize>
    decreases n,
{
    if n <= 0 {
        Seq::empty()
    } else {
        let acc = rest_with(vis, band, st, n - 1);
        if vis[n - 1].status == st && !id_taken(vis, band, vis[n - 1].id@) {
            acc.push((n - 1) as usize)
        } else {
            acc
        }
    }
}

pub(crate) fn index_of_id(vis: &Vec<Game>, id: &String) -> (r: Option<usize>)
    ensures
        match (r, first_with_id(vis@, id@)) {
            (Some(k), Some(j)) => k == j && k < vis@.len(),
            (None, None) => true,
            _ => false,
        },
{
    let mut k: usize = 0;
    while k < vis.len()
        invariant
            k <= vis.len(),
            first_with_id_upto(vis@, id@, k as int) is None,
        decreases vis.len() - k,
    {
        if vis[k].id == *id {
            proof {
                lemma_first_upto(vis@, id@, k + 1, vis@.len() as int);
            }
            return Some(k);
        }
        k += 1;
    }
    None
}

fn taken(vis: &Vec<Game>, band: &Vec<usize>, id: &String) -> (r: bool)
    requires
        forall|j: int| 0 <= j < band@.len() ==> band@[j] < vis@.len(),
    ensures
        r == id_taken(vis@, band@, id@),
{
    let mut j: usize = 0;
    while j < band.len()
        invariant
            j <= band.len(),
            forall|m: int| 0 <= m < band@.len() ==> band@[m] < vis@.len(),
            forall|m: int| 0 <= m < j ==> vis@[band@[m] as int].id@ != id@,
        decreases band.len() - j,
    {
        if vis[band[j]].id == *id {
            return true;
        }
        j += 1;
    }
    false
}

/// Every entry of `s` indexes into a list of length `n`.
pub open spec fn in_bounds(s: Seq<usize>, n: int) -> bool {
    forall|j: int| 0 <= j < s.len() ==> s[j] < n
}

fn band_of(vis: &Vec<Game>, pins: &Vec<Pin>, favs: &Vec<Favorite>) -> (r: Vec<usize>)
    ensures
        r@ == my_games_spec(vis@, pins@, favs@),
        in_bounds(r@, vis@.len() as int),
{
    let mut band: Vec<usize> = Vec::new();
    let mut i: usize = 0;
    while i < pins.len()
        invariant
            i <= pins.len(),
            band@ == band_pins(vis@, pins@, i as int),
            in_bounds(band@, vis@.len() as int),
        decreases pins.len() - i,
    {
        if let Some(k) = index_of_id(vis, &pins[i].game_id) {
            if !taken(vis, &band, &vis[k].id) {
                band.push(k);
            }
        }
        i += 1;
    }
    let mut n: usize = 0;
    while n < vis.len()
        invariant
            n <= vis.len(),
            band@ == band_favs(vis@, pins@, favs@, n as int),
            in_bounds(band@, vis@.len() as int),
        decreases vis.len() - n,
    {
        if favorited(&vis[n], favs) && !taken(vis, &band, &vis[n].id) {
            band.push(n);
        }
        n += 1;
    }
    band
}

fn rest_of(vis: &Vec<Game>, band: &Vec<usize>, st: Status) -> (r: Vec<usize>)
    requires
        in_bounds(band@, vis@.len() as int),
    ensures
        r@ == rest_with(vis@, band@, st, vis@.len() as int),
        in_bounds(r@, vis@.len() as int),
{
    let mut out: Vec<usize> = Vec::new();
    let mut n: usize = 0;
    while n < vis.len()
        invariant
            n <= vis.len(),
            in_bounds(band@, vis@.len() as int),
            out@ == rest_with(vis@, band@, st, n as int),
            in_bounds(out@, vis@.len() as int),
        decreases vis.len() - n,
    {
        if vis[n].status == st && !taken(vis, band, &vis[n].id) {
            out.push(n);
        }
        n += 1;
    }
    out
}

/// The position among the first `n` of `live` whose game carries `id`.
pub open spec fn live_pos_upto(vis: Seq<Game>, live: Seq<usize>, id: Seq<char>, n: int) -> Option<int>
    decreases n,
{
    if n <= 0 {
        None
    } else {
        match live_pos_upto(vis, live, id, n - 1) {
            Some(j) => Some(j),
            None => if vis[live[n - 1] as int].id@ == id {
                Some(n - 1)
            } else {
                None
            },
        }
    }
}

/// The live games the frozen ranking names, in ranking order: each of the
/// first `n` ranked ids picks the first live game carrying it, once.
pub open spec fn ranked_upto(vis: Seq<Game>, live: Seq<usize>, order: Seq<Seq<char>>, n: int) -> Seq<usize>
    decreases n,
{
    if n <= 0 {
        Seq::empty()
    } else {
        let acc = ranked_upto(vis, live, order, n - 1);
        match live_pos_upto(vis, live, order[n - 1], live.len() as int) {
            Some(j) if !acc.contains(live[j]) => acc.push(live[j]),
            _ => acc,
        }
    }
}

/// The first `n` live games the ranking did not place, in board order.
pub open spec fn unseen_upto(live: Seq<usize>, ranked: Seq<usize>, n: int) -> Seq<usize>
    decreases n,
{
    if n <= 0 {
        Seq::empty()
    } else {
        let acc = unseen_upto(live, ranked, n - 1);
        if ranked.contains(live[n - 1]) {
            acc
        } else {
            acc.push(live[n - 1])
        }
    }
}

/// IN PLAY in the frozen order: the live games the ranking `order` (game
/// ids, best first) names, in its order, then the ones it has not seen yet,
/// appended in board order.
pub open spec fn in_play_spec(vis: Seq<Game>, live: Seq<usize>, order: Seq<Seq<char>>) -> Seq<usize> {
    let ranked = ranked_upto(vis, live, order, order.len() as int);
    ranked + unseen_upto(live, ranked, live.len() as int)
}

proof fn lemma_live_pos(vis: Seq<Game>, live: Seq<usize>, id: Seq<char>, n: int)
    requires
        0 <= n <= live.len(),
    ensures
        match live_pos_upto(vis, live, id, n) {
            Some(j) => 0 <= j < n,
            None => true,
        },
    decreases n,
{
    if n > 0 {
        lemma_live_pos(vis, live, id, n - 1);
    }
}

proof fn lemma_ranked(vis: Seq<Game>, live: Seq<usize>, order: Seq<Seq<char>>, n: int)
    requires
        0 <= n <= order.len(),
    ensures
        ranked_upto(vis, live, order, n).no_duplicates(),
        forall|i: int|
            0 <= i < ranked_upto(vis, live, order, n).len() ==> live.contains(
                #[trigger] ranked_upto(vis, live, order, n)[i],
            ),
    decreases n,
{
    if n > 0 {
        lemma_ranked(vis, live, order, n - 1);
        lemma_live_pos(vis, live, order[n - 1], live.len() as int);
        let acc = ranked_upto(vis, live, order, n - 1);
        match live_pos_upto(vis, live, order[n - 1], live.len() as int) {
            Some(j) => {
                if !acc.contains(live[j]) {
                    let r = acc.push(live[j]);
                    assert(r.no_duplicates()) by {
                        assert forall|a: int, b: int| 0 <= a < r.len() && 0 <= b < r.len() && a != b implies r[a]
                            != r[b] by {
                            if a == acc.len() {
                                assert(acc.contains(acc[b]));
                            } else if b == acc.len() {
                                assert(acc.contains(acc[a]));
                            }
                        }
                    }
                    assert forall|i: int| 0 <= i < r.len() implies live.contains(#[trigger] r[i]) by {
                        if i == acc.len() {
                            assert(live[j] == r[i]);
                        } else {
                            assert(r[i] == acc[i]);
                        }
                    }
                }
            },
            None => {},
        }
    }
}

proof fn lemma_unseen(live: Seq<usize>, ranked: Seq<usize>, n: int)
    requires
        0 <= n <= live.len(),
        live.no_duplicates(),
    ensures
        unseen_upto(live, ranked, n).no_duplicates(),
        forall|k: usize|
            #[trigger] unseen_upto(live, ranked, n).contains(k) <==> (live.take(n).contains(k) && !ranked.contains(k)),
    decreases n,
{
    if n > 0 {
        lemma_unseen(live, ranked, n - 1);
        let acc = unseen_upto(live, ranked, n - 1);
        let x = live[n - 1];
        assert(live.take(n) =~= live.take(n - 1).push(x));
        assert(!live.take(n - 1).contains(x)) by {
            if live.take(n - 1).contains(x) {
                let i = choose|i: int| 0 <= i < n - 1 && #[trigger] live.take(n - 1)[i] == x;
                assert(live[i] == live[n - 1]);
            }
        }
        let r = unseen_upto(live, ranked, n);
        if !ranked.contains(x) {
            assert(!acc.contains(x));
            assert(r.no_duplicates()) by {
                assert forall|a: int, b: int| 0 <= a < r.len() && 0 <= b < r.len() && a != b implies r[a] != r[b] by {
                    if a == acc.len() {
                        assert(acc.contains(acc[b]));
                    } else if b == acc.len() {
                        assert(acc.contains(acc[a]));
                    }
                }
            }
            assert forall|k: usize| #[trigger] r.contains(k) <==> (live.take(n).contains(k) && !ranked.contains(k)) by {
                if r.contains(k) && k != x {
                    let i = choose|i: int| 0 <= i < r.len() && r[i] == k;
                    assert(acc.contains(acc[i]));
                }
                if acc.contains(k) {
                    let i = choose|i: int| 0 <= i < acc.len() && acc[i] == k;
                    assert(r[i] == k);
                }
                if k == x {
                    assert(r[acc.len() as int] == x);
                }
            }
        }
        assert(live.take(n).contains(x));
    } else {
        assert forall|k: usize| #[trigger] unseen_upto(live, ranked, n).contains(k) <==> (live.take(n).contains(k)
            && !ranked.contains(k)) by {
            assert(live.take(n).len() == 0);
        }
    }
}

/// IN PLAY holds exactly the live games, each once, whatever the ranking.
proof fn lemma_in_play_permutes(vis: Seq<Game>, live: Seq<usize>, order: Seq<Seq<char>>)
    requires
        live.no_duplicates(),
    ensures
        in_play_spec(vis, live, order).no_duplicates(),
        forall|k: usize| #[trigger] in_play_spec(vis, live, order).contains(k) <==> live.contains(k),
{
    let ranked = ranked_upto(vis, live, order, order.len() as int);
    let un = unseen_upto(live, ranked, live.len() as int);
    lemma_ranked(vis, live, order, order.len() as int);
    lemma_unseen(live, ranked, live.len() as int);
    assert(live.take(live.len() as int) =~= live);
    let r = ranked + un;
    assert(r.no_duplicates()) by {
        assert forall|a: int, b: int| 0 <= a < r.len() && 0 <= b < r.len() && a != b implies r[a] != r[b] by {
            if a < ranked.len() && b >= ranked.len() {
                assert(un.contains(un[b - ranked.len()]));
                assert(ranked.contains(ranked[a]));
            } else if b < ranked.len() && a >= ranked.len() {
                assert(un.contains(un[a - ranked.len()]));
                assert(ranked.contains(ranked[b]));
            } else if a >= ranked.len() {
                assert(r[a] == un[a - ranked.len()] && r[b] == un[b - ranked.len()]);
            }
        }
    }
    assert forall|k: usize| #[trigger] r.contains(k) <==> live.contains(k) by {
        if r.contains(k) {
            let i = choose|i: int| 0 <= i < r.len() && r[i] == k;
            if i < ranked.len() {
                assert(live.contains(ranked[i]));
            } else {
                assert(un.contains(un[i - ranked.len()]));
            }
        }
        if live.contains(k) {
            if ranked.contains(k) {
                let i = choose|i: int| 0 <= i < ranked.len() && ranked[i] == k;
                assert(r[i] == k);
            } else {
                assert(un.contains(k));
                let i = choose|i: int| 0 <= i < un.len() && un[i] == k;
                assert(r[ranked.len() + i] == k);
            }
        }
    }
}

fn has_index(v: &Vec<usize>, k: usize) -> (r: bool)
    ensures
        r == v@.contains(k),
{
    let mut i: usize = 0;
    while i < v.len()
        invariant
            i <= v.len(),
            forall|j: int| 0 <= j < i ==> v@[j] != k,
        decreases v.len() - i,
    {
        if v[i] == k {
            return true;
        }
        i += 1;
    }
    false
}

fn live_pos(vis: &Vec<Game>, live: &Vec<usize>, id: &String) -> (r: Option<usize>)
    requires
        in_bounds(live@, vis@.len() as int),
    ensures
        match (r, live_pos_upto(vis@, live@, id@, live@.len() as int)) {
            (Some(a), Some(b)) => a == b && a < live@.len(),
            (None, None) => true,
            _ => false,
        },
{
    let mut j: usize = 0;
    while j < live.len()
        invariant
            j <= live.len(),
            in_bounds(live@, vis@.len() as int),
            live_pos_upto(vis@, live@, id@, j as int) is None,
        decreases live.len() - j,
    {
        if vis[live[j]].id == *id {
            proof {
                lemma_live_pos_stable(vis@, live@, id@, j + 1, live@.len() as int);
            }
            return Some(j);
        }
        j += 1;
    }
    None
}

proof fn lemma_live_pos_stable(vis: Seq<Game>, live: Seq<usize>, id: Seq<char>, a: int, b: int)
    requires
        0 <= a <= b,
        live_pos_upto(vis, live, id, a) is Some,
    ensures
        live_pos_upto(vis, live, id, b) == live_pos_upto(vis, live, id, a),
    decreases b,
{
    if b > a {
        lemma_live_pos_stable(vis, live, id, a, b - 1);
    }
}

/// Orders the live rest by the frozen ranking `order`.
fn order_in_play(vis: &Vec<Game>, live: &Vec<usize>, order: &Vec<String>) -> (r: Vec<usize>)
    requires
        in_bounds(live@, vis@.len() as int),
    ensures
        r@ == in_play_spec(vis@, live@, string_views(order@)),
        in_bounds(r@, vis@.len() as int),
{
    let ghost ov = string_views(order@);
    let mut ranked: Vec<usize> = Vec::new();
    let mut i: usize = 0;
    while i < order.len()
        invariant
            i <= order.len(),
            ov == string_views(order@),
            in_bounds(live@, vis@.len() as int),
            ranked@ == ranked_upto(vis@, live@, ov, i as int),
            in_bounds(ranked@, vis@.len() as int),
        decreases order.len() - i,
    {
        assert(ov[i as int] == order@[i as int]@);
        match live_pos(vis, live, &order[i]) {
            Some(j) => {
                if !has_index(&ranked, live[j]) {
                    ranked.push(live[j]);
                }
            },
            None => {},
        }
        i += 1;
    }
    let ghost rk = ranked@;
    let mut out: Vec<usize> = Vec::new();
    let mut k: usize = 0;
    while k < ranked.len()
        invariant
            k <= ranked.len(),
            out@ == ranked@.take(k as int),
            in_bounds(ranked@, vis@.len() as int),
            in_bounds(out@, vis@.len() as int),
        decreases ranked.len() - k,
    {
        out.push(ranked[k]);
        assert(ranked@.take(k + 1) =~= ranked@.take(k as int).push(ranked@[k as int]));
        k += 1;
    }
    assert(ranked@.take(ranked.len() as int) =~= ranked@);
    let mut n: usize = 0;
    while n < live.len()
        invariant
            n <= live.len(),
            rk == ranked@,
            out@ == rk + unseen_upto(live@, rk, n as int),
            in_bounds(live@, vis@.len() as int),
            in_bounds(out@, vis@.len() as int),
        decreases live.len() - n,
    {
        if !has_index(&ranked, live[n]) {
            out.push(live[n]);
            assert(rk + unseen_upto(live@, rk, n + 1) =~= (rk + unseen_upto(live@, rk, n as int)).push(live@[n as int]));
        }
        n += 1;
    }
    out
}

/// No two visible games share an id.
pub open spec fn ids_distinct(vis: Seq<Game>) -> bool {
    forall|i: int, j: int| 0 <= i < vis.len() && 0 <= j < vis.len() && i != j ==> vis[i].id@ != vis[j].id@
}

/// No two band entries name games with the same id.
pub open spec fn band_ids_distinct(vis: Seq<Game>, band: Seq<usize>) -> bool {
    forall|i: int, j: int|
        0 <= i < band.len() && 0 <= j < band.len() && i != j ==> vis[band[i] as int].id@ != vis[band[j] as int].id@
}

/// `k` sits in exactly one of the four sections.
pub open spec fn in_exactly_one(k: usize, a: Seq<usize>, b: Seq<usize>, c: Seq<usize>, d: Seq<usize>) -> bool {
    (if a.contains(k) { 1int } else { 0 }) + (if b.contains(k) { 1int } else { 0 }) + (if c.contains(k) { 1int } else {
        0
    }) + (if d.contains(k) { 1int } else { 0 }) == 1
}

proof fn lemma_push_distinct(vis: Seq<Game>, acc: Seq<usize>, k: usize)
    requires
        k < vis.len(),
        in_bounds(acc, vis.len() as int),
        band_ids_distinct(vis, acc),
        !id_taken(vis, acc, vis[k as int].id@),
    ensures
        in_bounds(acc.push(k), vis.len() as int),
        band_ids_distinct(vis, acc.push(k)),
{
    let r = acc.push(k);
    assert forall|i: int, j: int| 0 <= i < r.len() && 0 <= j < r.len() && i != j implies vis[r[i] as int].id@
        != vis[r[j] as int].id@ by {
        if i == acc.len() {
            assert(vis[acc[j] as int].id@ != vis[k as int].id@);
        } else if j == acc.len() {
            assert(vis[acc[i] as int].id@ != vis[k as int].id@);
        } else {
            assert(r[i] == acc[i] && r[j] == acc[j]);
        }
    }
}

proof fn lemma_band_pins(vis: Seq<Game>, pins: Seq<Pin>, n: int)
    requires
        vis.len() <= usize::MAX,
    ensures
        in_bounds(band_pins(vis, pins, n), vis.len() as int),
        band_ids_distinct(vis, band_pins(vis, pins, n)),
    decreases n,
{
    if n > 0 {
        lemma_band_pins(vis, pins, n - 1);
        let acc = band_pins(vis, pins, n - 1);
        lemma_first_upto(vis, pins[n - 1].game_id@, 0, vis.len() as int);
        match first_with_id(vis, pins[n - 1].game_id@) {
            Some(k) => {
                if !id_taken(vis, acc, vis[k].id@) {
                    lemma_push_distinct(vis, acc, k as usize);
                }
            },
            None => {},
        }
    }
}

proof fn lemma_band_favs(vis: Seq<Game>, pins: Seq<Pin>, favs: Seq<Favorite>, n: int)
    requires
        n <= vis.len() <= usize::MAX,
    ensures
        in_bounds(band_favs(vis, pins, favs, n), vis.len() as int),
        band_ids_distinct(vis, band_favs(vis, pins, favs, n)),
    decreases n,
{
    if n <= 0 {
        lemma_band_pins(vis, pins, pins.len() as int);
    } else {
        lemma_band_favs(vis, pins, favs, n - 1);
        let acc = band_favs(vis, pins, favs, n - 1);
        if favorited_spec(vis[n - 1], favs) && !id_taken(vis, acc, vis[n - 1].id@) {
            lemma_push_distinct(vis, acc, (n - 1) as usize);
        }
    }
}

proof fn lemma_rest(vis: Seq<Game>, band: Seq<usize>, st: Status, n: int)
    requires
        0 <= n <= vis.len() <= usize::MAX,
    ensures
        ({
            let r = rest_with(vis, band, st, n);
            &&& forall|i: int, j: int| 0 <= i < j < r.len() ==> r[i] < r[j]
            &&& forall|i: int| 0 <= i < r.len() ==> r[i] < n
            &&& forall|k: int|
                0 <= k < n ==> (r.contains(k as usize) <==> (vis[k].status == st && !id_taken(vis, band, vis[k].id@)))
        }),
    decreases n,
{
    if n > 0 {
        lemma_rest(vis, band, st, n - 1);
        let prev = rest_with(vis, band, st, n - 1);
        let m = (n - 1) as usize;
        if prev.contains(m) {
            let i = choose|i: int| 0 <= i < prev.len() && prev[i] == m;
            assert(prev[i] < n - 1);
        }
        let r = rest_with(vis, band, st, n);
        assert forall|k: int| 0 <= k < n implies (r.contains(k as usize) <==> (vis[k].status == st && !id_taken(
            vis,
            band,
            vis[k].id@,
        ))) by {
            if k < n - 1 {
                assert((k as usize) != m);
            }
        }
    }
}

proof fn lemma_taken_is_member(vis: Seq<Game>, band: Seq<usize>, k: int)
    requires
        ids_distinct(vis),
        in_bounds(band, vis.len() as int),
        0 <= k < vis.len() <= usize::MAX,
    ensures
        id_taken(vis, band, vis[k].id@) <==> band.contains(k as usize),
{
    if band.contains(k as usize) {
        let j = choose|j: int| 0 <= j < band.len() && band[j] == k as usize;
        assert(band[j] as int == k);
        assert(vis[band[j] as int].id@ == vis[k].id@);
    }
    if id_taken(vis, band, vis[k].id@) {
        let j = choose|j: int| 0 <= j < band.len() && vis[band[j] as int].id@ == vis[k].id@;
        assert(band[j] as int == k);
    }
}

/// The four sections partition the visible board: when no two visible games
/// share an id, every visible game lands in exactly one of MY GAMES, IN
/// PLAY, FINAL and LATER, and no section lists a game twice — so the
/// selection walks each visible game once.
pub proof fn lemma_sections_partition(vis: Seq<Game>, held: Seq<Pin>, favs: Seq<Favorite>, order: Seq<Seq<char>>)
    requires
        ids_distinct(vis),
        vis.len() <= usize::MAX,
    ensures
        ({
            let my = my_games_spec(vis, held, favs);
            let a = in_play_spec(vis, rest_with(vis, my, Status::Live, vis.len() as int), order);
            let b = rest_with(vis, my, Status::Final, vis.len() as int);
            let c = rest_with(vis, my, Status::Pre, vis.len() as int);
            &&& my.no_duplicates() && a.no_duplicates() && b.no_duplicates() && c.no_duplicates()
            &&& in_bounds(my + a + b + c, vis.len() as int)
            &&& forall|k: usize| k < vis.len() ==> #[trigger] in_exactly_one(k, my, a, b, c)
        }),
{
    let n = vis.len() as int;
    let my = my_games_spec(vis, held, favs);
    let live = rest_with(vis, my, Status::Live, n);
    let a = in_play_spec(vis, live, order);
    let b = rest_with(vis, my, Status::Final, n);
    let c = rest_with(vis, my, Status::Pre, n);
    lemma_band_favs(vis, held, favs, n);
    lemma_rest(vis, my, Status::Live, n);
    lemma_rest(vis, my, Status::Final, n);
    lemma_rest(vis, my, Status::Pre, n);
    assert(my.no_duplicates()) by {
        assert forall|i: int, j: int| 0 <= i < my.len() && 0 <= j < my.len() && i != j implies my[i] != my[j] by {
            assert(vis[my[i] as int].id@ != vis[my[j] as int].id@);
        }
    }
    assert(live.no_duplicates()) by {
        assert forall|i: int, j: int| 0 <= i < live.len() && 0 <= j < live.len() && i != j implies live[i]
            != live[j] by {
            if i < j {
                assert(live[i] < live[j]);
            } else {
                assert(live[j] < live[i]);
            }
        }
    }
    lemma_in_play_permutes(vis, live, order);
    assert(b.no_duplicates()) by {
        assert forall|i: int, j: int| 0 <= i < b.len() && 0 <= j < b.len() && i != j implies b[i] != b[j] by {
            if i < j {
                assert(b[i] < b[j]);
            } else {
                assert(b[j] < b[i]);
            }
        }
    }
    assert(c.no_duplicates()) by {
        assert forall|i: int, j: int| 0 <= i < c.len() && 0 <= j < c.len() && i != j implies c[i] != c[j] by {
            if i < j {
                assert(c[i] < c[j]);
            } else {
                assert(c[j] < c[i]);
            }
        }
    }
    assert(in_bounds(my + a + b + c, n)) by {
        let all = my + a + b + c;
        assert forall|j: int| 0 <= j < all.len() implies all[j] < n by {
            if j < my.len() {
            } else if j < my.len() + a.len() {
                assert(all[j] == a[j - my.len()]);
                assert(a.contains(a[j - my.len()]));
                let m = choose|m: int| 0 <= m < live.len() && live[m] == a[j - my.len()];
                assert(live[m] < n);
            } else if j < my.len() + a.len() + b.len() {
                assert(all[j] == b[j - my.len() - a.len()]);
            } else {
                assert(all[j] == c[j - my.len() - a.len() - b.len()]);
            }
        }
    }
    assert forall|k: usize| k < vis.len() implies #[trigger] in_exactly_one(k, my, a, b, c) by {
        lemma_taken_is_member(vis, my, k as int);
        assert(a.contains(k) == live.contains(k));
    }
}

/// How many distinct leagues the games span, capped at two.
pub open spec fn mixed_spec(vis: Seq<Game>) -> bool {
    exists|i: int, j: int| 0 <= i < vis.len() && 0 <= j < vis.len() && vis[i].league != vis[j].league
}

fn any_other_league(vis: &Vec<Game>) -> (r: bool)
    ensures
        r == mixed_spec(vis@),
{
    if vis.len() == 0 {
        return false;
    }
    let first = vis[0].league;
    let mut i: usize = 1;
    while i < vis.len()
        invariant
            1 <= i <= vis.len(),
            first == vis@[0].league,
            forall|j: int| 0 <= j < i ==> vis@[j].league == first,
        decreases vis.len() - i,
    {
        if vis[i].league != first {
            return true;
        }
        i += 1;
    }
    false
}

pub open spec fn hero_spec(vis: Seq<Game>, my: Seq<usize>, in_play: Seq<usize>) -> Option<usize> {
    if my.len() > 0 && vis[my[0] as int].status == Status::Live {
        Some(my[0])
    } else if in_play.len() > 0 {
        Some(in_play[0])
    } else {
        None
    }
}

/// Cuts the visible games into the board's sections. `pins` are pruned at
/// `now` first, so a pin six hours past its final no longer holds a game in
/// the band. `order` is the ranking IN PLAY last froze (game ids, best
/// first): the live games keep that order, and the ones it has not seen are
/// appended in board order.
pub fn derive_sections(vis: &Vec<Game>, pins: &Vec<Pin>, favs: &Vec<Favorite>, order: &Vec<String>, now: i64) -> (s: Sections)
    ensures
        ({
            let held = pins@.filter(|p: Pin| crate::config::pin_holds(p, now));
            &&& s.my_games@ == my_games_spec(vis@, held, favs@)
            &&& s.in_play@ == in_play_spec(
                vis@,
                rest_with(vis@, s.my_games@, Status::Live, vis@.len() as int),
                string_views(order@),
            )
            &&& s.finals@ == rest_with(vis@, s.my_games@, Status::Final, vis@.len() as int)
            &&& s.later@ == rest_with(vis@, s.my_games@, Status::Pre, vis@.len() as int)
            &&& s.selection@ == s.my_games@ + s.in_play@ + s.finals@ + s.later@
            &&& s.hero == hero_spec(vis@, s.my_games@, s.in_play@)
            &&& s.mixed == mixed_spec(vis@)
            &&& in_bounds(s.selection@, vis@.len() as int)
        }),
{
    let mut held: Vec<Pin> = Vec::new();
    let mut i: usize = 0;
    while i < pins.len()
        invariant
            i <= pins.len(),
            held@ == pins@.take(i as int),
        decreases pins.len() - i,
    {
        held.push(crate::config::copy_pin(&pins[i]));
        assert(pins@.take(i + 1) =~= pins@.take(i as int).push(pins@[i as int]));
        i += 1;
    }
    assert(pins@.take(pins.len() as int) =~= pins@);
    let held = prune_pins(held, now);
    let my_games = band_of(vis, &held, favs);
    let live = rest_of(vis, &my_games, Status::Live);
    let in_play = order_in_play(vis, &live, order);
    let finals = rest_of(vis, &my_games, Status::Final);
    let later = rest_of(vis, &my_games, Status::Pre);
    let mut selection: Vec<usize> = Vec::new();
    let mut k: usize = 0;
    while k < my_games.len()
        invariant
            k <= my_games.len(),
            selection@ == my_games@.take(k as int),
        decreases my_games.len() - k,
    {
        selection.push(my_games[k]);
        assert(my_games@.take(k + 1) =~= my_games@.take(k as int).push(my_games@[k as int]));
        k += 1;
    }
    assert(my_games@.take(my_games.len() as int) =~= my_games@);
    let ghost base1 = selection@;
    k = 0;
    while k < in_play.len()
        invariant
            k <= in_play.len(),
            selection@ == base1 + in_play@.take(k as int),
        decreases in_play.len() - k,
    {
        selection.push(in_play[k]);
        assert(in_play@.take(k + 1) =~= in_play@.take(k as int).push(in_play@[k as int]));
        k += 1;
    }
    assert(in_play@.take(in_play.len() as int) =~= in_play@);
    let ghost base2 = selection@;
    k = 0;
    while k < finals.len()
        invariant
            k <= finals.len(),
            selection@ == base2 + finals@.take(k as int),
        decreases finals.len() - k,
    {
        selection.push(finals[k]);
        assert(finals@.take(k + 1) =~= finals@.take(k as int).push(finals@[k as int]));
        k += 1;
    }
    assert(finals@.take(finals.len() as int) =~= finals@);
    let ghost base3 = selection@;
    k = 0;
    while k < later.len()
        invariant
            k <= later.len(),
            selection@ == base3 + later@.take(k as int),
        decreases later.len() - k,
    {
        selection.push(later[k]);
        assert(later@.take(k + 1) =~= later@.take(k as int).push(later@[k as int]));
        k += 1;
    }
    assert(later@.take(later.len() as int) =~= later@);
    let hero = if my_games.len() > 0 && vis[my_games[0]].status == Status::Live {
        Some(my_games[0])
    } else if in_play.len() > 0 {
        Some(in_play[0])
    } else {
        None
    };
    let mixed = any_other_league(vis);
    proof {
        assert(in_bounds(selection@, vis@.len() as int));
    }
    Sections { my_games, in_play, finals, later, selection, hero, mixed }
}

} // verus!
