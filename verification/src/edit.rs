//! What the viewer's keys change in the configuration: pins, favorites and
//! the enabled tabs, each with the footer line that reports it.
use vstd::prelude::*;
use crate::app::Tab;
use crate::command::{league_slugs, league_slugs_spec};
use crate::config::{Favorite, Pin};
use crate::derive::{abbr_eq, abbr_matches};
use crate::domain::{all_leagues, league_of_slug, slug_of, Game, League};
use crate::text::{
    append, chars_of, debug_quoted, debug_str, lower, split_ws, str_to_lowercase, str_to_uppercase, string_of,
    upper, words,
};

verus! {

broadcast use vstd::seq_lib::group_seq_properties;

/// The first of the first `n` pins holding game `id`.
pub open spec fn pin_upto(pins: Seq<Pin>, id: Seq<char>, n: int) -> Option<int>
    decreases n,
{
    if n <= 0 {
        None
    } else {
        match pin_upto(pins, id, n - 1) {
            Some(i) => Some(i),
            None => if pins[n - 1].game_id@ == id {
                Some(n - 1)
            } else {
                None
            },
        }
    }
}

proof fn lemma_pin_upto(pins: Seq<Pin>, id: Seq<char>, a: int, b: int)
    requires
        0 <= a <= b <= pins.len(),
    ensures
        pin_upto(pins, id, a) is Some ==> pin_upto(pins, id, b) == pin_upto(pins, id, a),
        match pin_upto(pins, id, b) {
            Some(i) => 0 <= i < b,
            None => true,
        },
    decreases b,
{
    if b > 0 {
        if a < b {
            lemma_pin_upto(pins, id, a, b - 1);
        } else {
            lemma_pin_upto(pins, id, b - 1, b - 1);
        }
    }
}

/// `AWAY@HOME`.
pub open spec fn matchup(g: Game) -> Seq<char> {
    g.away.abbr@ + "@"@ + g.home.abbr@
}

/// Space on the board: unpins the selected game when a pin holds it, else
/// pins it (not yet final). Returns the footer line.
pub fn toggle_pin(pins: &mut Vec<Pin>, game: &Game) -> (msg: String)
    ensures
        match pin_upto(old(pins)@, game.id@, old(pins)@.len() as int) {
            Some(i) => final(pins)@ == old(pins)@.remove(i) && msg@ == "unpinned "@ + matchup(*game),
            None => final(pins)@ == old(pins)@.push(Pin { game_id: game.id, league: game.league, final_at: None })
                && msg@ == "pinned "@ + matchup(*game),
        },
{
    let mut i: usize = 0;
    while i < pins.len()
        invariant
            i <= pins@.len(),
            pins@ == old(pins)@,
            pin_upto(pins@, game.id@, i as int) is None,
        decreases pins@.len() - i,
    {
        if pins[i].game_id == game.id {
            proof {
                lemma_pin_upto(pins@, game.id@, i + 1, pins@.len() as int);
            }
            pins.remove(i);
            let mut m = String::new();
            append(&mut m, "unpinned ");
            append(&mut m, game.away.abbr.as_str());
            append(&mut m, "@");
            append(&mut m, game.home.abbr.as_str());
            return m;
        }
        i += 1;
    }
    pins.push(Pin { game_id: game.id.clone(), league: game.league, final_at: None });
    let mut m = String::new();
    append(&mut m, "pinned ");
    append(&mut m, game.away.abbr.as_str());
    append(&mut m, "@");
    append(&mut m, game.home.abbr.as_str());
    m
}

/// The first of the first `n` favorites naming `abbr` in `league`.
pub open spec fn fav_upto(favs: Seq<Favorite>, league: League, abbr: Seq<char>, n: int) -> Option<int>
    decreases n,
{
    if n <= 0 {
        None
    } else {
        match fav_upto(favs, league, abbr, n - 1) {
            Some(i) => Some(i),
            None => if favs[n - 1].league == league && abbr_eq(favs[n - 1].team_abbr@, abbr) {
                Some(n - 1)
            } else {
                None
            },
        }
    }
}

proof fn lemma_fav_upto(favs: Seq<Favorite>, league: League, abbr: Seq<char>, a: int, b: int)
    requires
        0 <= a <= b <= favs.len(),
    ensures
        fav_upto(favs, league, abbr, a) is Some ==> fav_upto(favs, league, abbr, b) == fav_upto(
            favs,
            league,
            abbr,
            a,
        ),
        match fav_upto(favs, league, abbr, b) {
            Some(i) => 0 <= i < b,
            None => true,
        },
    decreases b,
{
    if b > 0 {
        if a < b {
            lemma_fav_upto(favs, league, abbr, a, b - 1);
        } else {
            lemma_fav_upto(favs, league, abbr, b - 1, b - 1);
        }
    }
}

fn fav_index(favs: &Vec<Favorite>, league: League, abbr: &String) -> (r: Option<usize>)
    ensures
        match (r, fav_upto(favs@, league, abbr@, favs@.len() as int)) {
            (Some(i), Some(j)) => i == j,
            (None, None) => true,
            _ => false,
        },
{
    let mut i: usize = 0;
    while i < favs.len()
        invariant
            i <= favs@.len(),
            fav_upto(favs@, league, abbr@, i as int) is None,
        decreases favs@.len() - i,
    {
        if favs[i].league == league && abbr_matches(&favs[i].team_abbr, abbr) {
            proof {
                lemma_fav_upto(favs@, league, abbr@, i + 1, favs@.len() as int);
            }
            return Some(i);
        }
        i += 1;
    }
    None
}

/// `NFL KC`: the league's slug uppercased, then the abbr.
pub open spec fn league_team(league: League, abbr: Seq<char>) -> Seq<char> {
    upper(slug_of(league)) + " "@ + abbr
}

fn league_team_text(league: League, abbr: &str) -> (s: String)
    ensures
        s@ == league_team(league, abbr@),
{
    let mut s = str_to_uppercase(league.slug());
    append(&mut s, " ");
    append(&mut s, abbr);
    s
}

/// `t` on the board: favorites the selected game's home team, or
/// unfavorites it when it already is one (abbrs ignore ASCII case). Returns
/// the footer line.
pub fn toggle_favorite(favs: &mut Vec<Favorite>, game: &Game) -> (msg: String)
    ensures
        match fav_upto(old(favs)@, game.league, game.home.abbr@, old(favs)@.len() as int) {
            Some(i) => final(favs)@ == old(favs)@.remove(i) && msg@ == "unfavorited "@ + league_team(
                game.league,
                game.home.abbr@,
            ),
            None => final(favs)@ == old(favs)@.push(Favorite { league: game.league, team_abbr: game.home.abbr })
                && msg@ == "favorited "@ + league_team(game.league, game.home.abbr@),
        },
{
    let abbr = game.home.abbr.clone();
    let lt = league_team_text(game.league, abbr.as_str());
    match fav_index(favs, game.league, &abbr) {
        Some(i) => {
            proof {
                lemma_fav_upto(favs@, game.league, abbr@, 0, favs@.len() as int);
            }
            favs.remove(i);
            let mut m = String::new();
            append(&mut m, "unfavorited ");
            append(&mut m, lt.as_str());
            m
        },
        None => {
            favs.push(Favorite { league: game.league, team_abbr: abbr });
            let mut m = String::new();
            append(&mut m, "favorited ");
            append(&mut m, lt.as_str());
            m
        },
    }
}

/// The predicate "is league `l`".
pub open spec fn league_is(l: League) -> spec_fn(League) -> bool {
    |x: League| x == l
}

/// The tabs of `v` in the fixed league order, each occurrence kept.
pub open spec fn ordered_upto(v: Seq<League>, k: int) -> Seq<League>
    decreases k,
{
    if k <= 0 {
        Seq::empty()
    } else {
        ordered_upto(v, k - 1) + v.filter(league_is(all_leagues()[k - 1]))
    }
}

/// `v` re-sorted into the fixed league order.
pub open spec fn in_league_order(v: Seq<League>) -> Seq<League> {
    ordered_upto(v, 9)
}

fn keep_equal(v: &Vec<League>, l: League) -> (r: Vec<League>)
    ensures
        r@ == v@.filter(league_is(l)),
{
    let mut out: Vec<League> = Vec::new();
    let mut i: usize = 0;
    while i < v.len()
        invariant
            i <= v@.len(),
            out@ == v@.take(i as int).filter(league_is(l)),
        decreases v@.len() - i,
    {
        proof {
            reveal(Seq::filter);
            assert(v@.take(i + 1).drop_last() =~= v@.take(i as int));
        }
        if v[i] == l {
            out.push(v[i]);
        }
        i += 1;
    }
    assert(v@.take(v@.len() as int) =~= v@);
    out
}

/// Space on a TABS row: toggles the league in the enabled tabs, which are
/// then kept in the fixed league order (a league switched off and on again
/// returns to its place). Returns the tab to show: Home when the shown tab
/// was just switched off.
pub fn toggle_tab(enabled: &mut Vec<League>, league: League, current: Tab) -> (shown: Tab)
    ensures
        ({
            let before = old(enabled)@;
            let i = before.index_of_first(league);
            let toggled = match i {
                Some(i) => before.remove(i),
                None => before.push(league),
            };
            &&& final(enabled)@ == in_league_order(toggled)
            &&& shown == if i is Some && current == Tab::League(league) {
                Tab::Home
            } else {
                current
            }
        }),
{
    let ghost before = enabled@;
    let mut shown = current;
    let mut i: usize = 0;
    while i < enabled.len() && enabled[i] != league
        invariant
            i <= enabled@.len(),
            enabled@ == before,
            forall|j: int| 0 <= j < i ==> enabled@[j] != league,
        decreases enabled@.len() - i,
    {
        i += 1;
    }
    let found = i < enabled.len();
    proof {
        before.index_of_first_ensures(league);
        if found {
            assert(before.contains(league));
            let r = before.index_of_first(league)->0;
            assert(r == i as int);
        } else {
            if before.contains(league) {
                let r = before.index_of_first(league)->0;
                assert(before[r] == league);
            }
        }
    }
    let mut toggled: Vec<League> = Vec::new();
    let mut k: usize = 0;
    while k < enabled.len()
        invariant
            k <= enabled@.len(),
            toggled@ == enabled@.take(k as int),
        decreases enabled@.len() - k,
    {
        toggled.push(enabled[k]);
        assert(enabled@.take(k + 1) =~= enabled@.take(k as int).push(enabled@[k as int]));
        k += 1;
    }
    assert(enabled@.take(enabled@.len() as int) =~= enabled@);
    if found && i < toggled.len() {
        toggled.remove(i);
        if current == Tab::League(league) {
            shown = Tab::Home;
        }
    } else {
        toggled.push(league);
    }
    let all = League::all();
    let mut out: Vec<League> = Vec::new();
    let mut m: usize = 0;
    while m < 9
        invariant
            m <= 9,
            all@ == all_leagues(),
            out@ == ordered_upto(toggled@, m as int),
        decreases 9 - m,
    {
        let part = keep_equal(&toggled, all[m]);
        let mut j: usize = 0;
        let ghost base = out@;
        while j < part.len()
            invariant
                j <= part@.len(),
                out@ == base + part@.take(j as int),
            decreases part@.len() - j,
        {
            out.push(part[j]);
            assert(part@.take(j + 1) =~= part@.take(j as int).push(part@[j as int]));
            j += 1;
        }
        assert(part@.take(part@.len() as int) =~= part@);
        m += 1;
    }
    *enabled = out;
    shown
}

/// The first entry of `boards` for `league`: that league's board.
pub open spec fn board_upto(boards: Seq<(League, Vec<Game>)>, league: League, n: int) -> Option<int>
    decreases n,
{
    if n <= 0 {
        None
    } else {
        match board_upto(boards, league, n - 1) {
            Some(i) => Some(i),
            None => if boards[n - 1].0 == league {
                Some(n - 1)
            } else {
                None
            },
        }
    }
}

/// The games of `league`'s board (none when it has none).
pub open spec fn board_games(boards: Seq<(League, Vec<Game>)>, league: League) -> Seq<Game> {
    match board_upto(boards, league, boards.len() as int) {
        Some(i) => boards[i].1@,
        None => Seq::empty(),
    }
}

/// The teams of the first `n` games, away before home, as (league, abbr).
pub open spec fn teams_of(games: Seq<Game>, n: int) -> Seq<(League, Seq<char>)>
    decreases n,
{
    if n <= 0 {
        Seq::empty()
    } else {
        teams_of(games, n - 1) + seq![
            (games[n - 1].league, games[n - 1].away.abbr@),
            (games[n - 1].league, games[n - 1].home.abbr@),
        ]
    }
}

/// Every team on the enabled boards, tab by tab, as (league, abbr).
pub open spec fn teams_on(enabled: Seq<League>, boards: Seq<(League, Vec<Game>)>, n: int) -> Seq<(League, Seq<char>)>
    decreases n,
{
    if n <= 0 {
        Seq::empty()
    } else {
        let games = board_games(boards, enabled[n - 1]);
        teams_on(enabled, boards, n - 1) + teams_of(games, games.len() as int)
    }
}

/// The first team on the enabled boards whose abbr is `abbr` (ASCII case
/// ignored).
pub open spec fn team_upto(ts: Seq<(League, Seq<char>)>, abbr: Seq<char>, n: int) -> Option<(League, Seq<char>)>
    decreases n,
{
    if n <= 0 {
        None
    } else {
        match team_upto(ts, abbr, n - 1) {
            Some(t) => Some(t),
            None => if abbr_eq(ts[n - 1].1, abbr) {
                Some(ts[n - 1])
            } else {
                None
            },
        }
    }
}

/// What the ADD FAVORITE prompt's text names: `kc` is looked up on the
/// enabled boards, `nhl edm` names the league directly; the abbr is
/// uppercased. `Err` carries the footer line.
pub open spec fn favorite_target(
    text: Seq<char>,
    enabled: Seq<League>,
    boards: Seq<(League, Vec<Game>)>,
) -> Result<(League, Seq<char>), Seq<char>> {
    let parts = words(text);
    if parts.len() == 1 {
        let ts = teams_on(enabled, boards, enabled.len() as int);
        match team_upto(ts, parts[0], ts.len() as int) {
            Some((l, a)) => Ok((l, upper(a))),
            None => Err(
                "no team "@ + debug_quoted(parts[0])
                    + " on enabled boards; use \"<league> <abbr>\" like \"nfl kc\""@,
            ),
        }
    } else if parts.len() == 2 {
        match league_of_slug(lower(parts[0])) {
            Some(l) => Ok((l, upper(parts[1]))),
            None => Err("unknown league "@ + debug_quoted(parts[0]) + ", valid: "@ + league_slugs_spec()),
        }
    } else {
        Err("expected \"<abbr>\" or \"<league> <abbr>\", got "@ + debug_quoted(text))
    }
}

pub(crate) fn board_index(boards: &Vec<(League, Vec<Game>)>, league: League) -> (r: Option<usize>)
    ensures
        match (r, board_upto(boards@, league, boards@.len() as int)) {
            (Some(i), Some(j)) => i == j && i < boards@.len(),
            (None, None) => true,
            _ => false,
        },
{
    let mut i: usize = 0;
    while i < boards.len()
        invariant
            i <= boards@.len(),
            board_upto(boards@, league, i as int) is None,
        decreases boards@.len() - i,
    {
        if boards[i].0 == league {
            proof {
                lemma_board_upto(boards@, league, i + 1, boards@.len() as int);
            }
            return Some(i);
        }
        i += 1;
    }
    None
}

proof fn lemma_board_upto(boards: Seq<(League, Vec<Game>)>, league: League, a: int, b: int)
    requires
        0 <= a <= b <= boards.len(),
    ensures
        board_upto(boards, league, a) is Some ==> board_upto(boards, league, b) == board_upto(boards, league, a),
    decreases b,
{
    if b > a {
        lemma_board_upto(boards, league, a, b - 1);
    }
}

/// The exec answer says what the spec answer says.
pub open spec fn same_team(r: Option<(League, String)>, t: Option<(League, Seq<char>)>) -> bool {
    match (r, t) {
        (Some(x), Some(y)) => x.0 == y.0 && x.1@ == y.1,
        (None, None) => true,
        _ => false,
    }
}

fn find_team(enabled: &Vec<League>, boards: &Vec<(League, Vec<Game>)>, abbr: &String) -> (r: Option<(League, String)>)
    ensures
        same_team(r, team_upto(teams_on(enabled@, boards@, enabled@.len() as int), abbr@, teams_on(enabled@, boards@, enabled@.len() as int).len() as int)),
{
    let ghost all = teams_on(enabled@, boards@, enabled@.len() as int);
    let mut leagues: Vec<League> = Vec::new();
    let mut abbrs: Vec<String> = Vec::new();
    let mut t: usize = 0;
    while t < enabled.len()
        invariant
            t <= enabled@.len(),
            leagues@.len() == abbrs@.len(),
            Seq::new(leagues@.len(), |j: int| (leagues@[j], abbrs@[j]@)) == teams_on(enabled@, boards@, t as int),
        decreases enabled@.len() - t,
    {
        let ghost games_spec = board_games(boards@, enabled@[t as int]);
        match board_index(boards, enabled[t]) {
            Some(b) => {
                let games = &boards[b].1;
                let ghost base = Seq::new(leagues@.len(), |j: int| (leagues@[j], abbrs@[j]@));
                let mut k: usize = 0;
                while k < games.len()
                    invariant
                        k <= games@.len(),
                        games@ == games_spec,
                        leagues@.len() == abbrs@.len(),
                        Seq::new(leagues@.len(), |j: int| (leagues@[j], abbrs@[j]@)) == base + teams_of(
                            games@,
                            k as int,
                        ),
                    decreases games@.len() - k,
                {
                    let ghost before = Seq::new(leagues@.len(), |j: int| (leagues@[j], abbrs@[j]@));
                    leagues.push(games[k].league);
                    abbrs.push(games[k].away.abbr.clone());
                    leagues.push(games[k].league);
                    abbrs.push(games[k].home.abbr.clone());
                    assert(Seq::new(leagues@.len(), |j: int| (leagues@[j], abbrs@[j]@)) =~= before + seq![
                        (games@[k as int].league, games@[k as int].away.abbr@),
                        (games@[k as int].league, games@[k as int].home.abbr@),
                    ]);
                    k += 1;
                }
            },
            None => {},
        }
        t += 1;
    }
    let ghost flat = Seq::new(leagues@.len(), |j: int| (leagues@[j], abbrs@[j]@));
    let mut i: usize = 0;
    while i < abbrs.len()
        invariant
            i <= abbrs@.len(),
            leagues@.len() == abbrs@.len(),
            flat == Seq::new(leagues@.len(), |j: int| (leagues@[j], abbrs@[j]@)),
            flat == all,
            all == teams_on(enabled@, boards@, enabled@.len() as int),
            team_upto(flat, abbr@, i as int) is None,
        decreases abbrs@.len() - i,
    {
        if abbr_matches(&abbrs[i], abbr) {
            proof {
                assert(flat[i as int] == (leagues@[i as int], abbrs@[i as int]@));
                assert(abbr_eq(flat[i as int].1, abbr@));
                assert(team_upto(flat, abbr@, i + 1) == Some(flat[i as int]));
                lemma_team_upto(flat, abbr@, i + 1, flat.len() as int);
                assert(team_upto(all, abbr@, all.len() as int) == Some(flat[i as int]));
            }
            let l = leagues[i];
            let a = abbrs[i].clone();
            assert((l, a@) == flat[i as int]);
            return Some((l, a));
        }
        i += 1;
    }
    None
}

proof fn lemma_team_upto(ts: Seq<(League, Seq<char>)>, abbr: Seq<char>, a: int, b: int)
    requires
        0 <= a <= b,
    ensures
        team_upto(ts, abbr, a) is Some ==> team_upto(ts, abbr, b) == team_upto(ts, abbr, a),
    decreases b,
{
    if b > a {
        lemma_team_upto(ts, abbr, a, b - 1);
    }
}

/// Commits the ADD FAVORITE prompt: the team it names joins the favorites
/// unless it already is one. Returns the footer line and whether a favorite
/// was added.
pub fn add_favorite(
    favs: &mut Vec<Favorite>,
    enabled: &Vec<League>,
    boards: &Vec<(League, Vec<Game>)>,
    text: &str,
) -> (r: (String, bool))
    ensures
        match favorite_target(text@, enabled@, boards@) {
            Err(m) => final(favs)@ == old(favs)@ && r.0@ == m && !r.1,
            Ok((l, a)) => if fav_upto(old(favs)@, l, a, old(favs)@.len() as int) is Some {
                final(favs)@ == old(favs)@ && r.0@ == league_team(l, a) + " is already a favorite"@ && !r.1
            } else {
                &&& final(favs)@.len() == old(favs)@.len() + 1
                &&& final(favs)@.take(old(favs)@.len() as int) == old(favs)@
                &&& final(favs)@.last().league == l && final(favs)@.last().team_abbr@ == a
                &&& r.0@ == "favorited "@ + league_team(l, a)
                &&& r.1
            },
        },
{
    let cs = chars_of(text);
    let parts = split_ws(&cs);
    let target: (League, String) = if parts.len() == 1 {
        let abbr = string_of(&parts[0]);
        match find_team(enabled, boards, &abbr) {
            Some((l, a)) => (l, str_to_uppercase(a.as_str())),
            None => {
                let mut m = String::new();
                append(&mut m, "no team ");
                let q = debug_str(abbr.as_str());
                append(&mut m, q.as_str());
                append(&mut m, " on enabled boards; use \"<league> <abbr>\" like \"nfl kc\"");
                return (m, false);
            },
        }
    } else if parts.len() == 2 {
        let slug = string_of(&parts[0]);
        let low = str_to_lowercase(slug.as_str());
        match League::from_slug(low.as_str()) {
            Some(l) => {
                let abbr = string_of(&parts[1]);
                (l, str_to_uppercase(abbr.as_str()))
            },
            None => {
                let mut m = String::new();
                append(&mut m, "unknown league ");
                let q = debug_str(slug.as_str());
                append(&mut m, q.as_str());
                append(&mut m, ", valid: ");
                let all = league_slugs();
                append(&mut m, all.as_str());
                return (m, false);
            },
        }
    } else {
        let mut m = String::new();
        append(&mut m, "expected \"<abbr>\" or \"<league> <abbr>\", got ");
        let q = debug_str(text);
        append(&mut m, q.as_str());
        return (m, false);
    };
    let (league, abbr) = target;
    let lt = league_team_text(league, abbr.as_str());
    if fav_index(favs, league, &abbr).is_some() {
        let mut m = lt;
        append(&mut m, " is already a favorite");
        return (m, false);
    }
    let mut m = String::new();
    append(&mut m, "favorited ");
    append(&mut m, lt.as_str());
    favs.push(Favorite { league, team_abbr: abbr });
    (m, true)
}

/// Space twice undoes itself: pinning a game no pin holds and then
/// toggling it again leaves the pins as they were.
pub proof fn lemma_pin_twice(pins: Seq<Pin>, game: Game)
    requires
        pin_upto(pins, game.id@, pins.len() as int) is None,
    ensures
        ({
            let pinned = pins.push(Pin { game_id: game.id, league: game.league, final_at: None });
            &&& pin_upto(pinned, game.id@, pinned.len() as int) == Some(pins.len() as int)
            &&& pinned.remove(pins.len() as int) == pins
        }),
{
    let pinned = pins.push(Pin { game_id: game.id, league: game.league, final_at: None });
    lemma_pin_prefix(pins, pinned, game.id@, pins.len() as int);
    assert(pinned.remove(pins.len() as int) =~= pins);
}

proof fn lemma_pin_prefix(a: Seq<Pin>, b: Seq<Pin>, id: Seq<char>, n: int)
    requires
        0 <= n <= a.len(),
        n <= b.len(),
        forall|i: int| 0 <= i < n ==> a[i] == b[i],
    ensures
        pin_upto(a, id, n) == pin_upto(b, id, n),
    decreases n,
{
    if n > 0 {
        lemma_pin_prefix(a, b, id, n - 1);
    }
}

/// `t` twice undoes itself: favoriting a home team no favorite names and
/// then toggling it again leaves the favorites as they were.
pub proof fn lemma_favorite_twice(favs: Seq<Favorite>, game: Game)
    requires
        fav_upto(favs, game.league, game.home.abbr@, favs.len() as int) is None,
    ensures
        ({
            let faved = favs.push(Favorite { league: game.league, team_abbr: game.home.abbr });
            &&& fav_upto(faved, game.league, game.home.abbr@, faved.len() as int) == Some(favs.len() as int)
            &&& faved.remove(favs.len() as int) == favs
        }),
{
    let faved = favs.push(Favorite { league: game.league, team_abbr: game.home.abbr });
    lemma_fav_prefix(favs, faved, game.league, game.home.abbr@, favs.len() as int);
    assert(faved.remove(favs.len() as int) =~= favs);
}

proof fn lemma_fav_prefix(a: Seq<Favorite>, b: Seq<Favorite>, league: League, abbr: Seq<char>, n: int)
    requires
        0 <= n <= a.len(),
        n <= b.len(),
        forall|i: int| 0 <= i < n ==> a[i] == b[i],
    ensures
        fav_upto(a, league, abbr, n) == fav_upto(b, league, abbr, n),
    decreases n,
{
    if n > 0 {
        lemma_fav_prefix(a, b, league, abbr, n - 1);
    }
}

/// How many times `l` occurs in `v`.
pub open spec fn tally(v: Seq<League>, l: League) -> nat {
    v.filter(league_is(l)).len()
}

proof fn lemma_keep_all(s: Seq<League>, l: League)
    requires
        forall|i: int| 0 <= i < s.len() ==> s[i] == l,
    ensures
        s.filter(league_is(l)) == s,
    decreases s.len(),
{
    reveal(Seq::filter);
    if s.len() > 0 {
        lemma_keep_all(s.drop_last(), l);
        assert(s.drop_last().push(s.last()) =~= s);
    }
}

proof fn lemma_keep_none(s: Seq<League>, l: League)
    requires
        forall|i: int| 0 <= i < s.len() ==> s[i] != l,
    ensures
        s.filter(league_is(l)) == Seq::<League>::empty(),
    decreases s.len(),
{
    reveal(Seq::filter);
    if s.len() > 0 {
        lemma_keep_none(s.drop_last(), l);
    }
}

/// Every entry of `v.filter(league_is(y))` is `y`.
proof fn lemma_piece_is(v: Seq<League>, y: League)
    ensures
        forall|i: int| 0 <= i < v.filter(league_is(y)).len() ==> #[trigger] v.filter(league_is(y))[i] == y,
{
    assert forall|i: int| 0 <= i < v.filter(league_is(y)).len() implies #[trigger] v.filter(league_is(y))[i] == y by {
        v.lemma_filter_pred(league_is(y), i);
    }
}

proof fn lemma_ordered_tally(v: Seq<League>, x: League, k: int)
    requires
        0 <= k <= 9,
    ensures
        ordered_upto(v, k).filter(league_is(x)) == if exists|j: int| 0 <= j < k && all_leagues()[j] == x {
            v.filter(league_is(x))
        } else {
            Seq::<League>::empty()
        },
    decreases k,
{
    crate::domain::lemma_all_leagues_complete(x);
    if k > 0 {
        lemma_ordered_tally(v, x, k - 1);
        let y = all_leagues()[k - 1];
        let piece = v.filter(league_is(y));
        Seq::filter_distributes_over_add(ordered_upto(v, k - 1), piece, league_is(x));
        lemma_piece_is(v, y);
        if y == x {
            lemma_keep_all(piece, x);
            assert(!(exists|j: int| 0 <= j < k - 1 && all_leagues()[j] == x)) by {
                if exists|j: int| 0 <= j < k - 1 && all_leagues()[j] == x {
                    let j = choose|j: int| 0 <= j < k - 1 && all_leagues()[j] == x;
                    assert(all_leagues()[j] == all_leagues()[k - 1]);
                }
            }
        } else {
            lemma_keep_none(piece, x);
            assert((exists|j: int| 0 <= j < k && all_leagues()[j] == x) == (exists|j: int|
                0 <= j < k - 1 && all_leagues()[j] == x));
        }
    }
}

/// Putting tabs in league order keeps how many of each league there are.
proof fn lemma_order_keeps_tally(v: Seq<League>, x: League)
    ensures
        tally(in_league_order(v), x) == tally(v, x),
{
    lemma_ordered_tally(v, x, 9);
    crate::domain::lemma_all_leagues_complete(x);
    let j = all_leagues().index_of(x);
    assert(all_leagues()[j] == x);
}

proof fn lemma_same_tally_same_order(a: Seq<League>, b: Seq<League>, k: int)
    requires
        0 <= k <= 9,
        forall|x: League| #[trigger] tally(a, x) == tally(b, x),
    ensures
        ordered_upto(a, k) == ordered_upto(b, k),
    decreases k,
{
    if k > 0 {
        lemma_same_tally_same_order(a, b, k - 1);
        let y = all_leagues()[k - 1];
        lemma_piece_is(a, y);
        lemma_piece_is(b, y);
        assert(tally(a, y) == tally(b, y));
        assert(a.filter(league_is(y)) =~= b.filter(league_is(y)));
    }
}

proof fn lemma_tally_push(v: Seq<League>, l: League, x: League)
    ensures
        tally(v.push(l), x) == tally(v, x) + if l == x { 1nat } else { 0nat },
{
    reveal(Seq::filter);
    assert(v.push(l).drop_last() =~= v);
}

proof fn lemma_tally_remove(v: Seq<League>, i: int, x: League)
    requires
        0 <= i < v.len(),
    ensures
        tally(v.remove(i), x) + (if v[i] == x { 1nat } else { 0nat }) == tally(v, x),
{
    let (a, b) = (v.take(i), v.skip(i + 1));
    assert(v.remove(i) =~= a + b);
    assert(v =~= a.push(v[i]) + b);
    Seq::filter_distributes_over_add(a, b, league_is(x));
    Seq::filter_distributes_over_add(a.push(v[i]), b, league_is(x));
    lemma_tally_push(a, v[i], x);
}

/// A league switched on and then off again leaves the tabs in the order
/// they had, and so does one switched off and then on: each tab returns to
/// its place in the league order.
pub proof fn lemma_tab_twice(v: Seq<League>, l: League)
    ensures
        !v.contains(l) ==> {
            let on = in_league_order(v.push(l));
            &&& on.contains(l)
            &&& in_league_order(on.remove(on.index_of_first(l)->0)) == in_league_order(v)
        },
        v.contains(l) ==> {
            let off = in_league_order(v.remove(v.index_of_first(l)->0));
            in_league_order(off.push(l)) == in_league_order(v)
        },
{
    if !v.contains(l) {
        let on = in_league_order(v.push(l));
        lemma_order_keeps_tally(v.push(l), l);
        lemma_tally_push(v, l, l);
        assert(tally(on, l) > 0);
        assert(on.filter(league_is(l)).contains(on.filter(league_is(l))[0]));
        on.lemma_filter_contains_rev(league_is(l), on.filter(league_is(l))[0]);
        lemma_piece_is(on, l);
        on.index_of_first_ensures(l);
        let i = on.index_of_first(l)->0;
        assert forall|x: League| #[trigger] tally(on.remove(i), x) == tally(v, x) by {
            lemma_tally_remove(on, i, x);
            lemma_order_keeps_tally(v.push(l), x);
            lemma_tally_push(v, l, x);
        }
        lemma_same_tally_same_order(on.remove(i), v, 9);
    } else {
        v.index_of_first_ensures(l);
        let i = v.index_of_first(l)->0;
        let off = in_league_order(v.remove(i));
        assert forall|x: League| #[trigger] tally(off.push(l), x) == tally(v, x) by {
            lemma_tally_push(off, l, x);
            lemma_order_keeps_tally(v.remove(i), x);
            lemma_tally_remove(v, i, x);
        }
        lemma_same_tally_same_order(off.push(l), v, 9);
    }
}

} // verus!
