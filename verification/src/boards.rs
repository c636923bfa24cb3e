//! The enabled boards read as one: every league's games in tab order, and
//! what the chrome asks of them — the ticker's live lane, the scoring feed,
//! whether anything is live, the live games the ranking sees, and the line
//! an empty filtered board prints.
//!
//! A board set is a list of `(league, games)`; a league's board is its first
//! entry there, as a map keyed by league would hold it.
use vstd::prelude::*;
use crate::app::Tab;
use crate::net::{chip_label_spec, NetChip};
use crate::config::{Favorite, Pin};
use crate::cut::copy_play;
use crate::derive::{favorited, favorited_spec};
use crate::domain::{slug_of, Game, League, Meter, Play, Situation, Status, Team};
use crate::edit::{board_games, board_index, matchup};
use crate::filter::{matches_spec, read_words, Query};
use crate::merge::{copy_extras, copy_plays, extras_same};
use crate::text::{append, join, join_strings, str_to_uppercase, string_views, upper, words};
use crate::domain::all_leagues;

verus! {

broadcast use vstd::seq_lib::group_seq_properties;

/// Two games say the same thing: every field equal, lists element for
/// element.
pub open spec fn game_same(a: Game, b: Game) -> bool {
    &&& a.id == b.id
    &&& a.league == b.league
    &&& a.home == b.home
    &&& a.away == b.away
    &&& a.home_score == b.home_score
    &&& a.away_score == b.away_score
    &&& a.status == b.status
    &&& a.period == b.period
    &&& a.clock == b.clock
    &&& situation_same(a.situation, b.situation)
    &&& a.last_plays@ == b.last_plays@
    &&& a.meter == b.meter
    &&& a.start == b.start
    &&& a.scoring_plays@ == b.scoring_plays@
    &&& a.linescore@ == b.linescore@
    &&& a.timeouts == b.timeouts
    &&& extras_same(a.extras, b.extras)
    &&& a.broadcast == b.broadcast
    &&& a.odds == b.odds
    &&& a.headline == b.headline
}

/// Two situations say the same thing.
pub open spec fn situation_same(a: Option<Situation>, b: Option<Situation>) -> bool {
    match (a, b) {
        (None, None) => true,
        (Some(x), Some(y)) => {
            &&& x.down_distance == y.down_distance
            &&& x.possession == y.possession
            &&& x.ball_on == y.ball_on
            &&& x.down == y.down
            &&& x.distance == y.distance
            &&& x.yard_line == y.yard_line
            &&& x.is_red_zone == y.is_red_zone
            &&& x.drive_desc == y.drive_desc
            &&& x.balls == y.balls
            &&& x.strikes == y.strikes
            &&& x.outs == y.outs
            &&& x.on_base == y.on_base
            &&& x.pitcher == y.pitcher
            &&& x.batter == y.batter
            &&& x.due_up@ == y.due_up@
            &&& x.shot_clock == y.shot_clock
        },
        _ => false,
    }
}

/// Two lists of games say the same thing, game for game.
pub open spec fn games_same(a: Seq<Game>, b: Seq<Game>) -> bool {
    a.len() == b.len() && forall|i: int| 0 <= i < a.len() ==> game_same(#[trigger] a[i], b[i])
}

fn copy_team(t: &Team) -> (r: Team)
    ensures
        r == *t,
{
    Team {
        id: t.id.clone(),
        abbr: t.abbr.clone(),
        name: t.name.clone(),
        location: t.location.clone(),
        record: t.record.clone(),
        color: t.color,
        alt_color: t.alt_color,
        logo_key: t.logo_key.clone(),
        rank: t.rank,
    }
}

fn copy_opt_string(s: &Option<String>) -> (r: Option<String>)
    ensures
        r == *s,
{
    match s {
        Some(x) => Some(x.clone()),
        None => None,
    }
}

fn copy_strings(v: &Vec<String>) -> (r: Vec<String>)
    ensures
        r@ == v@,
{
    let mut out: Vec<String> = Vec::new();
    let mut i: usize = 0;
    while i < v.len()
        invariant
            i <= v.len(),
            out@ == v@.take(i as int),
        decreases v.len() - i,
    {
        out.push(v[i].clone());
        assert(v@.take(i + 1) =~= v@.take(i as int).push(v@[i as int]));
        i += 1;
    }
    assert(v@.take(v.len() as int) =~= v@);
    out
}

fn copy_situation(s: &Option<Situation>) -> (r: Option<Situation>)
    ensures
        situation_same(r, *s),
{
    match s {
        None => None,
        Some(x) => Some(
            Situation {
                down_distance: x.down_distance.clone(),
                possession: copy_opt_string(&x.possession),
                ball_on: copy_opt_string(&x.ball_on),
                down: x.down,
                distance: x.distance,
                yard_line: x.yard_line,
                is_red_zone: x.is_red_zone,
                drive_desc: copy_opt_string(&x.drive_desc),
                balls: x.balls,
                strikes: x.strikes,
                outs: x.outs,
                on_base: x.on_base,
                pitcher: copy_opt_string(&x.pitcher),
                batter: copy_opt_string(&x.batter),
                due_up: copy_strings(&x.due_up),
                shot_clock: x.shot_clock,
            },
        ),
    }
}

fn copy_meter(m: &Option<Meter>) -> (r: Option<Meter>)
    ensures
        r == *m,
{
    match m {
        None => None,
        Some(Meter::RedZone { yards_to_goal }) => Some(Meter::RedZone { yards_to_goal: *yards_to_goal }),
        Some(Meter::Lead { plus_minus }) => Some(Meter::Lead { plus_minus: *plus_minus }),
        Some(Meter::Diamond { occupied }) => Some(Meter::Diamond { occupied: *occupied }),
        Some(Meter::Penalty { team_abbr, seconds }) => Some(
            Meter::Penalty { team_abbr: team_abbr.clone(), seconds: *seconds },
        ),
    }
}

fn copy_pairs(v: &Vec<(u16, u16)>) -> (r: Vec<(u16, u16)>)
    ensures
        r@ == v@,
{
    let mut out: Vec<(u16, u16)> = Vec::new();
    let mut i: usize = 0;
    while i < v.len()
        invariant
            i <= v.len(),
            out@ == v@.take(i as int),
        decreases v.len() - i,
    {
        out.push(v[i]);
        assert(v@.take(i + 1) =~= v@.take(i as int).push(v@[i as int]));
        i += 1;
    }
    assert(v@.take(v.len() as int) =~= v@);
    out
}

/// A copy of a game, field for field.
pub fn copy_game(g: &Game) -> (r: Game)
    ensures
        game_same(r, *g),
{
    Game {
        id: g.id.clone(),
        league: g.league,
        home: copy_team(&g.home),
        away: copy_team(&g.away),
        home_score: g.home_score,
        away_score: g.away_score,
        status: g.status,
        period: g.period.clone(),
        clock: g.clock.clone(),
        situation: copy_situation(&g.situation),
        last_plays: copy_plays(&g.last_plays),
        meter: copy_meter(&g.meter),
        start: g.start,
        scoring_plays: copy_plays(&g.scoring_plays),
        linescore: copy_pairs(&g.linescore),
        timeouts: g.timeouts,
        extras: copy_extras(&g.extras),
        broadcast: copy_opt_string(&g.broadcast),
        odds: copy_opt_string(&g.odds),
        headline: copy_opt_string(&g.headline),
    }
}

/// The boards of the first `n` enabled leagues, one after another.
pub open spec fn concat_upto(enabled: Seq<League>, boards: Seq<(League, Vec<Game>)>, n: int) -> Seq<Game>
    decreases n,
{
    if n <= 0 {
        Seq::empty()
    } else {
        concat_upto(enabled, boards, n - 1) + board_games(boards, enabled[n - 1])
    }
}

/// Every enabled league's board, in tab order.
pub open spec fn concat_spec(enabled: Seq<League>, boards: Seq<(League, Vec<Game>)>) -> Seq<Game> {
    concat_upto(enabled, boards, enabled.len() as int)
}

/// Appends copies of `games` to `out`.
fn extend_copies(out: &mut Vec<Game>, games: &Vec<Game>)
    ensures
        final(out)@.len() == old(out)@.len() + games@.len(),
        games_same(final(out)@.take(old(out)@.len() as int), old(out)@),
        forall|i: int| 0 <= i < games@.len() ==> game_same(#[trigger] final(out)@[old(out)@.len() + i], games@[i]),
{
    let ghost start = out@;
    let mut k: usize = 0;
    while k < games.len()
        invariant
            k <= games@.len(),
            out@.len() == start.len() + k,
            forall|i: int| 0 <= i < start.len() ==> game_same(#[trigger] out@[i], start[i]),
            forall|i: int| 0 <= i < k ==> game_same(#[trigger] out@[start.len() + i], games@[i]),
        decreases games@.len() - k,
    {
        out.push(copy_game(&games[k]));
        k += 1;
    }
    assert forall|i: int| 0 <= i < start.len() implies game_same(#[trigger] out@.take(start.len() as int)[i], start[i]) by {
        assert(out@.take(start.len() as int)[i] == out@[i]);
    }
}

/// Every enabled league's board, one after another in tab order: what the
/// ticker and the scoring feed walk.
pub fn concat_boards(enabled: &Vec<League>, boards: &Vec<(League, Vec<Game>)>) -> (r: Vec<Game>)
    ensures
        games_same(r@, concat_spec(enabled@, boards@)),
{
    let mut out: Vec<Game> = Vec::new();
    let mut t: usize = 0;
    while t < enabled.len()
        invariant
            t <= enabled@.len(),
            games_same(out@, concat_upto(enabled@, boards@, t as int)),
        decreases enabled@.len() - t,
    {
        let ghost before = out@;
        let ghost want = concat_upto(enabled@, boards@, t as int);
        match board_index(boards, enabled[t]) {
            Some(b) => {
                extend_copies(&mut out, &boards[b].1);
                assert forall|i: int| 0 <= i < out@.len() implies game_same(
                    #[trigger] out@[i],
                    concat_upto(enabled@, boards@, t + 1)[i],
                ) by {
                    if i < before.len() {
                        assert(out@.take(before.len() as int)[i] == out@[i]);
                    } else {
                        assert(out@[before.len() + (i - before.len())] == out@[i]);
                    }
                }
            },
            None => {
                assert(concat_upto(enabled@, boards@, t + 1) =~= want);
            },
        }
        t += 1;
    }
    out
}


proof fn lemma_games_same_trans(a: Seq<Game>, b: Seq<Game>, c: Seq<Game>)
    requires
        games_same(a, b),
        games_same(b, c),
    ensures
        games_same(a, c),
{
    assert forall|i: int| 0 <= i < a.len() implies game_same(#[trigger] a[i], c[i]) by {
        assert(game_same(a[i], b[i]));
        assert(game_same(b[i], c[i]));
    }
}

/// The games of the first `n` of `games` that pass `keep`, in order.
pub open spec fn pick(games: Seq<Game>, keep: spec_fn(Game) -> bool, n: int) -> Seq<Game>
    decreases n,
{
    if n <= 0 {
        Seq::empty()
    } else if keep(games[n - 1]) {
        pick(games, keep, n - 1).push(games[n - 1])
    } else {
        pick(games, keep, n - 1)
    }
}

/// A test on games that two games saying the same thing pass alike.
pub open spec fn respects_same(keep: spec_fn(Game) -> bool) -> bool {
    forall|x: Game, y: Game| game_same(x, y) ==> #[trigger] keep(x) == #[trigger] keep(y)
}

proof fn lemma_pick_same(a: Seq<Game>, b: Seq<Game>, keep: spec_fn(Game) -> bool, n: int)
    requires
        games_same(a, b),
        respects_same(keep),
        0 <= n <= a.len(),
    ensures
        games_same(pick(a, keep, n), pick(b, keep, n)),
    decreases n,
{
    if n > 0 {
        lemma_pick_same(a, b, keep, n - 1);
        assert(game_same(a[n - 1], b[n - 1]));
        assert(keep(a[n - 1]) == keep(b[n - 1]));
    }
}

/// Copies of the games of `games` that pass `keep`: live, through the
/// parsed filter `q`, and — when the viewer's pins and favorites are given —
/// none of theirs.
fn keep_copies(games: &Vec<Game>, keep: Ghost<spec_fn(Game) -> bool>, q: &Option<Query>, mine: Option<(&Vec<Pin>, &Vec<Favorite>)>) -> (r: Vec<Game>)
    requires
        forall|g: Game| #[trigger] keep@(g) == (g.status == Status::Live && query_passes(*q, g) && match mine {
            Some((pins, favs)) => !is_mine(g, pins@, favs@),
            None => true,
        }),
    ensures
        games_same(r@, pick(games@, keep@, games@.len() as int)),
{
    let mut out: Vec<Game> = Vec::new();
    let mut i: usize = 0;
    while i < games.len()
        invariant
            i <= games@.len(),
            games_same(out@, pick(games@, keep@, i as int)),
            forall|g: Game| #[trigger] keep@(g) == (g.status == Status::Live && query_passes(*q, g) && match mine {
                Some((pins, favs)) => !is_mine(g, pins@, favs@),
                None => true,
            }),
        decreases games@.len() - i,
    {
        let g = &games[i];
        let live = g.status == Status::Live;
        let hit = match q {
            Some(q) => q.matches(g),
            None => true,
        };
        let theirs = match mine {
            Some((pins, favs)) => !pinned(g, pins) && !favorited(g, favs),
            None => true,
        };
        if live && hit && theirs {
            out.push(copy_game(g));
        }
        i += 1;
    }
    out
}

/// The game passes the parsed filter, if there is one.
pub open spec fn query_passes(q: Option<Query>, g: Game) -> bool {
    match q {
        Some(q) => matches_spec(q.tokens_spec(), q.league_spec(), g),
        None => true,
    }
}

/// The game passes the typed filter `f`, if there is one.
pub open spec fn filter_passes(f: Option<Seq<char>>, g: Game) -> bool {
    match f {
        Some(s) => matches_spec(read_words(words(s)).0, read_words(words(s)).1, g),
        None => true,
    }
}

/// A filter as text.
pub open spec fn opt_view(f: Option<&str>) -> Option<Seq<char>> {
    match f {
        Some(s) => Some(s@),
        None => None,
    }
}

fn parse_filter(f: Option<&str>) -> (q: Option<Query>)
    ensures
        forall|g: Game| #[trigger] query_passes(q, g) == filter_passes(opt_view(f), g),
{
    match f {
        Some(s) => Some(Query::parse(s)),
        None => None,
    }
}

/// On the ticker: live, and through the filter.
pub open spec fn on_ticker(f: Option<Seq<char>>) -> spec_fn(Game) -> bool {
    |g: Game| g.status == Status::Live && filter_passes(f, g)
}

/// The ticker's live lane: every live game across the enabled boards, in
/// tab order, whatever tab is shown; a typed filter narrows it too.
pub fn ticker_live(enabled: &Vec<League>, boards: &Vec<(League, Vec<Game>)>, filter: Option<&str>) -> (r: Vec<Game>)
    ensures
        games_same(r@, pick(concat_spec(enabled@, boards@), on_ticker(opt_view(filter)), concat_spec(enabled@, boards@).len() as int)),
{
    let games = concat_boards(enabled, boards);
    let q = parse_filter(filter);
    let ghost keep = on_ticker(opt_view(filter));
    let r = keep_copies(&games, Ghost(keep), &q, None);
    proof {
        let spec = concat_spec(enabled@, boards@);
        lemma_pick_same(games@, spec, keep, games@.len() as int);
        lemma_games_same_trans(r@, pick(games@, keep, games@.len() as int), pick(spec, keep, spec.len() as int));
    }
    r
}

/// The game is one of the viewer's: pinned, or a favorite plays in it.
pub open spec fn is_mine(g: Game, pins: Seq<Pin>, favs: Seq<Favorite>) -> bool {
    (exists|i: int| 0 <= i < pins.len() && (#[trigger] pins[i]).game_id@ == g.id@) || favorited_spec(g, favs)
}

fn pinned(g: &Game, pins: &Vec<Pin>) -> (r: bool)
    ensures
        r == exists|i: int| 0 <= i < pins@.len() && (#[trigger] pins@[i]).game_id@ == g.id@,
{
    let mut i: usize = 0;
    while i < pins.len()
        invariant
            i <= pins@.len(),
            forall|j: int| 0 <= j < i ==> (#[trigger] pins@[j]).game_id@ != g.id@,
        decreases pins@.len() - i,
    {
        if crate::text::str_eq(pins[i].game_id.as_str(), g.id.as_str()) {
            return true;
        }
        i += 1;
    }
    false
}

/// What the live ranking sees: live and not the viewer's own.
pub open spec fn ranked(pins: Seq<Pin>, favs: Seq<Favorite>) -> spec_fn(Game) -> bool {
    |g: Game| g.status == Status::Live && !is_mine(g, pins, favs)
}

/// Every live game on an enabled board, minus the viewer's pins and
/// favorites: those sit in MY GAMES and never re-sort.
pub fn live_all(enabled: &Vec<League>, boards: &Vec<(League, Vec<Game>)>, pins: &Vec<Pin>, favs: &Vec<Favorite>) -> (r: Vec<Game>)
    ensures
        games_same(r@, pick(concat_spec(enabled@, boards@), ranked(pins@, favs@), concat_spec(enabled@, boards@).len() as int)),
{
    let games = concat_boards(enabled, boards);
    let ghost keep = ranked(pins@, favs@);
    let r = keep_copies(&games, Ghost(keep), &None, Some((pins, favs)));
    proof {
        let spec = concat_spec(enabled@, boards@);
        assert forall|x: Game, y: Game| game_same(x, y) implies #[trigger] keep(x) == #[trigger] keep(y) by {
            assert(x.id@ == y.id@);
        }
        lemma_pick_same(games@, spec, keep, games@.len() as int);
        lemma_games_same_trans(r@, pick(games@, keep, games@.len() as int), pick(spec, keep, spec.len() as int));
    }
    r
}

/// The games a league tab shows from its board: all of them, narrowed by a
/// typed filter.
pub fn league_visible(board: &Vec<Game>, filter: Option<&str>) -> (r: Vec<Game>)
    ensures
        games_same(r@, pick(board@, |g: Game| filter_passes(opt_view(filter), g), board@.len() as int)),
{
    let q = parse_filter(filter);
    let ghost keep = |g: Game| filter_passes(opt_view(filter), g);
    let mut out: Vec<Game> = Vec::new();
    let mut i: usize = 0;
    while i < board.len()
        invariant
            i <= board@.len(),
            games_same(out@, pick(board@, keep, i as int)),
            forall|g: Game| #[trigger] query_passes(q, g) == filter_passes(opt_view(filter), g),
            forall|g: Game| #[trigger] keep(g) == filter_passes(opt_view(filter), g),
        decreases board@.len() - i,
    {
        let hit = match &q {
            Some(q) => q.matches(&board[i]),
            None => true,
        };
        proof {
            assert(query_passes(q, board@[i as int]) == keep(board@[i as int]));
        }
        if hit {
            out.push(copy_game(&board[i]));
        }
        i += 1;
    }
    out
}

/// Whether any board holds a live game.
pub open spec fn any_board_live(boards: Seq<(League, Vec<Game>)>) -> bool {
    exists|l: int, k: int|
        0 <= l < 9 && 0 <= k < board_games(boards, all_leagues()[l]).len() && (#[trigger] board_games(
            boards,
            all_leagues()[l],
        )[k]).status == Status::Live
}

/// Whether anything is live: a running cut, or a live game on any board
/// (enabled or not). The render loop ticks fast only while this holds.
pub fn any_live(boards: &Vec<(League, Vec<Game>)>, cut_running: bool) -> (r: bool)
    ensures
        r == (cut_running || any_board_live(boards@)),
{
    if cut_running {
        return true;
    }
    let all = League::all();
    let mut l: usize = 0;
    while l < 9
        invariant
            l <= 9,
            all@ == all_leagues(),
            forall|m: int, k: int|
                0 <= m < l && 0 <= k < board_games(boards@, all_leagues()[m]).len() ==> (#[trigger] board_games(
                    boards@,
                    all_leagues()[m],
                )[k]).status != Status::Live,
        decreases 9 - l,
    {
        match board_index(boards, all[l]) {
            Some(b) => {
                let games = &boards[b].1;
                let mut k: usize = 0;
                while k < games.len()
                    invariant
                        k <= games@.len(),
                        games@ == board_games(boards@, all_leagues()[l as int]),
                        forall|j: int| 0 <= j < k ==> (#[trigger] games@[j]).status != Status::Live,
                    decreases games@.len() - k,
                {
                    if games[k].status == Status::Live {
                        return true;
                    }
                    k += 1;
                }
            },
            None => {},
        }
        l += 1;
    }
    false
}

/// A game's scoring plays newest first, each with its game.
pub open spec fn game_events(g: Game) -> Seq<(Game, Play)> {
    g.scoring_plays@.reverse().map_values(|p: Play| (g, p))
}

/// The scoring feed of the first `n` games, games in order.
pub open spec fn events_upto(games: Seq<Game>, n: int) -> Seq<(Game, Play)>
    decreases n,
{
    if n <= 0 {
        Seq::empty()
    } else {
        events_upto(games, n - 1) + game_events(games[n - 1])
    }
}

/// Two scoring feeds say the same thing, entry for entry.
pub open spec fn events_same(a: Seq<(Game, Play)>, b: Seq<(Game, Play)>) -> bool {
    a.len() == b.len() && forall|i: int| 0 <= i < a.len() ==> game_same(#[trigger] a[i].0, b[i].0) && a[i].1 == b[i].1
}

proof fn lemma_events_same(a: Seq<Game>, b: Seq<Game>, n: int)
    requires
        games_same(a, b),
        0 <= n <= a.len(),
    ensures
        events_same(events_upto(a, n), events_upto(b, n)),
    decreases n,
{
    if n > 0 {
        lemma_events_same(a, b, n - 1);
        let (ea, eb) = (events_upto(a, n - 1), events_upto(b, n - 1));
        let (ga, gb) = (game_events(a[n - 1]), game_events(b[n - 1]));
        assert(game_same(a[n - 1], b[n - 1]));
        assert forall|i: int| 0 <= i < (ea + ga).len() implies game_same(#[trigger] (ea + ga)[i].0, (eb + gb)[i].0) && (ea
            + ga)[i].1 == (eb + gb)[i].1 by {
            if i >= ea.len() {
                assert((ea + ga)[i] == ga[i - ea.len()]);
                assert((eb + gb)[i] == gb[i - ea.len()]);
            } else {
                assert((ea + ga)[i] == ea[i]);
                assert((eb + gb)[i] == eb[i]);
            }
        }
    }
}

proof fn lemma_events_extend(
    out: Seq<(Game, Play)>,
    base: Seq<(Game, Play)>,
    prior: Seq<(Game, Play)>,
    ge: Seq<(Game, Play)>,
)
    requires
        events_same(base, prior),
        out.len() == base.len() + ge.len(),
        forall|x: int| 0 <= x < base.len() ==> #[trigger] out[x] == base[x],
        forall|y: int|
            base.len() <= y < out.len() ==> game_same(#[trigger] out[y].0, ge[y - base.len()].0) && out[y].1 == ge[y
                - base.len()].1,
    ensures
        events_same(out, prior + ge),
{
    let want = prior + ge;
    assert forall|x: int| 0 <= x < out.len() implies game_same(#[trigger] out[x].0, want[x].0) && out[x].1 == want[x].1 by {
        if x < base.len() {
            assert(out[x] == base[x]);
            assert(game_same(base[x].0, prior[x].0));
            assert(want[x] == prior[x]);
        } else {
            let y = x - base.len();
            assert(game_same(out[x].0, ge[y].0));
            assert(want[x] == ge[y]);
        }
    }
}

/// The scoring feed: every enabled board's scoring plays, games in board
/// order, each game's newest first. Finals keep theirs while on the board.
#[verifier::spinoff_prover]
pub fn scoring_events(enabled: &Vec<League>, boards: &Vec<(League, Vec<Game>)>) -> (r: Vec<(Game, Play)>)
    ensures
        events_same(r@, events_upto(concat_spec(enabled@, boards@), concat_spec(enabled@, boards@).len() as int)),
{
    let games = concat_boards(enabled, boards);
    let mut out: Vec<(Game, Play)> = Vec::new();
    let mut i: usize = 0;
    while i < games.len()
        invariant
            i <= games@.len(),
            events_same(out@, events_upto(games@, i as int)),
        decreases games@.len() - i,
    {
        let g = &games[i];
        let ghost base = out@;
        let ghost ge = game_events(games@[i as int]);
        let n = g.scoring_plays.len();
        assert(ge.len() == n);
        let mut j: usize = 0;
        while j < n
            invariant
                j <= n,
                n == g.scoring_plays@.len(),
                ge.len() == n,
                out@.len() == base.len() + j,
                ge == game_events(*g),
                forall|x: int| 0 <= x < base.len() ==> #[trigger] out@[x] == base[x],
                forall|x: int| 0 <= x < j ==> game_same(#[trigger] out@[base.len() + x].0, ge[x].0) && out@[base.len() + x].1
                    == ge[x].1,
            decreases n - j,
        {
            out.push((copy_game(g), copy_play(&g.scoring_plays[n - 1 - j])));
            j += 1;
        }
        proof {
            assert(j == n);
            assert forall|y: int| base.len() <= y < out@.len() implies game_same(#[trigger] out@[y].0, ge[y
                - base.len()].0) && out@[y].1 == ge[y - base.len()].1 by {
                let x = y - base.len();
                assert(x < j);
                assert(base.len() + x == y);
                assert(game_same(out@[base.len() + x].0, ge[x].0));
            }
            assert(events_same(base, events_upto(games@, i as int)));
            assert(out@.len() == base.len() + ge.len());
            assert(forall|x: int| 0 <= x < base.len() ==> #[trigger] out@[x] == base[x]);
            lemma_events_extend(out@, base, events_upto(games@, i as int), ge);
            assert(events_upto(games@, i + 1) == events_upto(games@, i as int) + ge);
        }
        i += 1;
    }
    proof {
        let spec = concat_spec(enabled@, boards@);
        lemma_events_same(games@, spec, games@.len() as int);
        let (a, b) = (events_upto(games@, games@.len() as int), events_upto(spec, spec.len() as int));
        assert forall|x: int| 0 <= x < out@.len() implies game_same(#[trigger] out@[x].0, b[x].0) && out@[x].1 == b[x].1 by {
            assert(game_same(out@[x].0, a[x].0));
            assert(game_same(a[x].0, b[x].0));
        }
    }
    out
}

/// The scope an empty filtered board searched: every board from Home, else
/// the tab's league.
pub open spec fn scope_of(tab: Tab) -> Seq<char> {
    match tab {
        Tab::Home => "all boards"@,
        Tab::League(l) => upper(slug_of(l)),
    }
}

/// The ticker's first (up to) two matches, as `AWAY@HOME`, for the hint.
pub open spec fn hint_of(ticker: Seq<Game>) -> Seq<char> {
    if ticker.len() == 0 {
        Seq::empty()
    } else {
        let shown = if ticker.len() < 2 { ticker } else { ticker.take(2) };
        " · ticker matches "@ + join(shown.map_values(|g: Game| matchup(g)), ", "@)
    }
}

/// What an empty filtered board says: the filter, the scope it searched
/// and, when the ticker holds matches elsewhere, the first two of them.
pub open spec fn filter_miss_spec(needle: Seq<char>, tab: Tab, ticker: Seq<Game>) -> Seq<char> {
    "no games match \""@ + needle + "\" on "@ + scope_of(tab) + hint_of(ticker) + " · esc clears"@
}

/// The empty filtered board's line; `ticker` is what [`ticker_live`] gives
/// under the same filter.
pub fn filter_miss_message(needle: &str, tab: Tab, ticker: &Vec<Game>) -> (s: String)
    ensures
        s@ == filter_miss_spec(needle@, tab, ticker@),
{
    let mut s = String::new();
    append(&mut s, "no games match \"");
    append(&mut s, needle);
    append(&mut s, "\" on ");
    match tab {
        Tab::Home => append(&mut s, "all boards"),
        Tab::League(l) => {
            let u = str_to_uppercase(l.slug());
            append(&mut s, u.as_str());
        },
    }
    if ticker.len() > 0 {
        let take: usize = if ticker.len() < 2 { ticker.len() } else { 2 };
        let mut names: Vec<String> = Vec::new();
        let mut i: usize = 0;
        while i < take
            invariant
                i <= take,
                take <= ticker@.len(),
                string_views(names@) == ticker@.take(i as int).map_values(|g: Game| matchup(g)),
            decreases take - i,
        {
            let mut m = String::new();
            append(&mut m, ticker[i].away.abbr.as_str());
            append(&mut m, "@");
            append(&mut m, ticker[i].home.abbr.as_str());
            let ghost prev = names@;
            names.push(m);
            proof {
                assert(string_views(names@) =~= string_views(prev).push(m@));
                assert(ticker@.take(i + 1).map_values(|g: Game| matchup(g)) =~= ticker@.take(i as int).map_values(
                    |g: Game| matchup(g),
                ).push(matchup(ticker@[i as int])));
            }
            i += 1;
        }
        proof {
            if ticker@.len() < 2 {
                assert(ticker@.take(take as int) =~= ticker@);
            }
        }
        append(&mut s, " · ticker matches ");
        let joined = join_strings(&names, ", ");
        append(&mut s, joined.as_str());
    }
    append(&mut s, " · esc clears");
    s
}

/// Some board or dated slate holds a game with `id`.
pub open spec fn holds_id(boards: Seq<(League, Vec<Game>)>, dated: Seq<Vec<Game>>, id: Seq<char>) -> bool {
    (exists|b: int, k: int| 0 <= b < boards.len() && 0 <= k < boards[b].1@.len() && (#[trigger] boards[b].1@[k]).id@ == id)
        || (exists|b: int, k: int| 0 <= b < dated.len() && 0 <= k < dated[b]@.len() && (#[trigger] dated[b]@[k]).id@ == id)
}

/// The game is one on a board or a dated slate.
pub open spec fn held(boards: Seq<(League, Vec<Game>)>, dated: Seq<Vec<Game>>, g: Game) -> bool {
    (exists|b: int, k: int| 0 <= b < boards.len() && 0 <= k < boards[b].1@.len() && game_same(g, #[trigger] boards[b].1@[k]))
        || (exists|b: int, k: int| 0 <= b < dated.len() && 0 <= k < dated[b]@.len() && game_same(g, #[trigger] dated[b]@[k]))
}

fn find_in(games: &Vec<Game>, id: &str) -> (r: Option<usize>)
    ensures
        match r {
            Some(k) => k < games@.len() && games@[k as int].id@ == id@,
            None => forall|k: int| 0 <= k < games@.len() ==> (#[trigger] games@[k]).id@ != id@,
        },
{
    let mut k: usize = 0;
    while k < games.len()
        invariant
            k <= games@.len(),
            forall|j: int| 0 <= j < k ==> (#[trigger] games@[j]).id@ != id@,
        decreases games@.len() - k,
    {
        if crate::text::str_eq(games[k].id.as_str(), id) {
            return Some(k);
        }
        k += 1;
    }
    None
}

/// The game with `id` on any board, today's or a fetched date's: what a
/// zoom looks up, so a traveled game is not a dead view.
pub fn game_by_id(boards: &Vec<(League, Vec<Game>)>, dated: &Vec<Vec<Game>>, id: &str) -> (r: Option<Game>)
    ensures
        r is Some <==> holds_id(boards@, dated@, id@),
        r matches Some(g) ==> g.id@ == id@ && held(boards@, dated@, g),
{
    let mut b: usize = 0;
    while b < boards.len()
        invariant
            b <= boards@.len(),
            forall|x: int, k: int|
                0 <= x < b && 0 <= k < boards@[x].1@.len() ==> (#[trigger] boards@[x].1@[k]).id@ != id@,
        decreases boards@.len() - b,
    {
        if let Some(k) = find_in(&boards[b].1, id) {
            let g = copy_game(&boards[b].1[k]);
            assert(game_same(g, boards@[b as int].1@[k as int]));
            return Some(g);
        }
        b += 1;
    }
    let mut b: usize = 0;
    while b < dated.len()
        invariant
            b <= dated@.len(),
            forall|x: int, k: int|
                0 <= x < boards@.len() && 0 <= k < boards@[x].1@.len() ==> (#[trigger] boards@[x].1@[k]).id@ != id@,
            forall|x: int, k: int| 0 <= x < b && 0 <= k < dated@[x]@.len() ==> (#[trigger] dated@[x]@[k]).id@ != id@,
        decreases dated@.len() - b,
    {
        if let Some(k) = find_in(&dated[b], id) {
            let g = copy_game(&dated[b][k]);
            assert(game_same(g, dated@[b as int]@[k as int]));
            return Some(g);
        }
        b += 1;
    }
    None
}

/// The local calendar day of a moment: whole days since the epoch at
/// `offset` seconds east of UTC.
pub open spec fn local_day(at: i64, offset: i64) -> int {
    (at + offset) / 86400
}

/// Among the first `n` games, the first scheduled one starting on a local
/// day after `day` with the earliest start.
pub open spec fn next_upto(games: Seq<Game>, day: int, offset: i64, n: int) -> Option<int>
    decreases n,
{
    if n <= 0 {
        None
    } else {
        let best = next_upto(games, day, offset, n - 1);
        let g = games[n - 1];
        if g.status == Status::Pre && g.start is Some && local_day(g.start->0, offset) > day && match best {
            Some(b) => g.start->0 < games[b].start->0,
            None => true,
        } {
            Some(n - 1)
        } else {
            best
        }
    }
}

proof fn lemma_next_upto(games: Seq<Game>, day: int, offset: i64, n: int)
    requires
        0 <= n <= games.len(),
    ensures
        match next_upto(games, day, offset, n) {
            Some(b) => 0 <= b < n && games[b].start is Some,
            None => true,
        },
    decreases n,
{
    if n > 0 {
        lemma_next_upto(games, day, offset, n - 1);
    }
}

/// The first game to come after local day `day` — scheduled, with a start
/// on a later day, the earliest such start (the first of equals).
pub fn next_game(games: &Vec<Game>, day: i64, offset: i64) -> (r: Option<usize>)
    ensures
        match (r, next_upto(games@, day as int, offset, games@.len() as int)) {
            (Some(i), Some(j)) => i == j,
            (None, None) => true,
            _ => false,
        },
{
    let mut best: Option<usize> = None;
    let mut i: usize = 0;
    while i < games.len()
        invariant
            i <= games@.len(),
            match (best, next_upto(games@, day as int, offset, i as int)) {
                (Some(a), Some(b)) => a == b,
                (None, None) => true,
                _ => false,
            },
        decreases games@.len() - i,
    {
        proof {
            lemma_next_upto(games@, day as int, offset, i as int);
        }
        let g = &games[i];
        if g.status == Status::Pre {
            if let Some(s) = g.start {
                let local: i128 = s as i128 + offset as i128;
                let d: i128 = if local >= 0 {
                    local / 86400
                } else {
                    -((-(local + 1)) / 86400) - 1
                };
                proof {
                    assert(d == (s + offset) / 86400) by (nonlinear_arith)
                        requires
                            local == s + offset,
                            d == if local >= 0 {
                                local / 86400
                            } else {
                                -((-(local + 1)) / 86400) - 1
                            },
                    ;
                }
                let earlier = match best {
                    Some(b) => match games[b].start {
                        Some(t) => s < t,
                        None => true,
                    },
                    None => true,
                };
                if d > day as i128 && earlier {
                    best = Some(i);
                }
            }
        }
        i += 1;
    }
    best
}

/// The empty league board's line: the league and the day it shows, then
/// the next game known after that day, or that none is scheduled.
pub open spec fn empty_line_spec(league: League, day_label: Seq<char>, next: Option<(Seq<char>, Game)>) -> Seq<char> {
    let head = "No "@ + upper(slug_of(league)) + " games "@ + day_label;
    match next {
        Some((start, g)) => head + " · next "@ + start + " "@ + g.away.abbr@ + " @ "@ + g.home.abbr@,
        None => head + " · nothing scheduled"@,
    }
}

/// An empty league board's line; `day_label` names the viewed day and
/// `next` is the next game with its start as text.
pub fn empty_league_line(league: League, day_label: &str, next: Option<(&str, &Game)>) -> (s: String)
    ensures
        s@ == empty_line_spec(league, day_label@, match next {
            Some((t, g)) => Some((t@, *g)),
            None => None,
        }),
{
    let mut s = String::new();
    append(&mut s, "No ");
    let u = str_to_uppercase(league.slug());
    append(&mut s, u.as_str());
    append(&mut s, " games ");
    append(&mut s, day_label);
    match next {
        Some((t, g)) => {
            append(&mut s, " · next ");
            append(&mut s, t);
            append(&mut s, " ");
            append(&mut s, g.away.abbr.as_str());
            append(&mut s, " @ ");
            append(&mut s, g.home.abbr.as_str());
        },
        None => append(&mut s, " · nothing scheduled"),
    }
    s
}

/// What an empty board says instead of rows.
#[derive(Debug, PartialEq, Eq)]
pub enum EmptyBoard {
    /// A filter matched nothing: the filter-miss line (see
    /// [`filter_miss_message`]).
    FilterMiss,
    /// No data during an outage: the chip's words and what went wrong, so
    /// an outage never reads as a quiet night.
    Outage { headline: String, detail: String, offline: bool },
    /// Home with nothing on any enabled board.
    NothingLive,
    /// An empty league tab.
    NextKickoff,
}

/// The outage's first line: the chip's words.
pub open spec fn outage_headline(net: NetChip) -> Seq<char> {
    match chip_label_spec(net) {
        Some(l) => l,
        None => Seq::empty(),
    }
}

/// The outage's second line: the last error, or that no board came yet.
pub open spec fn outage_detail(net: NetChip) -> Seq<char> {
    match net {
        NetChip::Offline { error, .. } => "last error: "@ + error@,
        _ => "waiting for the first scoreboard…"@,
    }
}

/// Which empty state a board shows: a filter's miss first, then an outage
/// (offline, or no board yet), then the tab's own empty line; none while the
/// board has rows.
pub fn empty_state(empty: bool, filtering: bool, net: &NetChip, tab: Tab) -> (r: Option<EmptyBoard>)
    ensures
        match r {
            None => !empty,
            Some(EmptyBoard::FilterMiss) => empty && filtering,
            Some(EmptyBoard::Outage { headline, detail, offline }) => {
                &&& empty && !filtering
                &&& (*net is Offline || *net is NoDataYet)
                &&& offline == (*net is Offline)
                &&& headline@ == outage_headline(*net)
                &&& detail@ == outage_detail(*net)
            },
            Some(EmptyBoard::NothingLive) => empty && !filtering && !(*net is Offline || *net is NoDataYet) && tab
                == Tab::Home,
            Some(EmptyBoard::NextKickoff) => empty && !filtering && !(*net is Offline || *net is NoDataYet)
                && tab is League,
        },
{
    if !empty {
        return None;
    }
    if filtering {
        return Some(EmptyBoard::FilterMiss);
    }
    let outage = match net {
        NetChip::Offline { .. } => true,
        NetChip::NoDataYet => true,
        _ => false,
    };
    if outage {
        let headline = match net.label() {
            Some(l) => l,
            None => String::new(),
        };
        let (detail, offline) = match net {
            NetChip::Offline { error, .. } => {
                let mut d = String::new();
                append(&mut d, "last error: ");
                append(&mut d, error.as_str());
                (d, true)
            },
            _ => (crate::text::owned("waiting for the first scoreboard…"), false),
        };
        return Some(EmptyBoard::Outage { headline, detail, offline });
    }
    match tab {
        Tab::Home => Some(EmptyBoard::NothingLive),
        Tab::League(_) => Some(EmptyBoard::NextKickoff),
    }
}

/// Some game of `live` carries this id.
pub open spec fn on_ticker_live(live: Seq<Game>, id: Seq<char>) -> bool {
    exists|i: int| 0 <= i < live.len() && (#[trigger] live[i]).id@ == id
}

/// The first `n` scoring events whose game is one of `live`, in feed order.
pub open spec fn ticker_events_upto(events: Seq<(Game, Play)>, live: Seq<Game>, n: int) -> Seq<(Game, Play)>
    decreases n,
{
    if n <= 0 {
        Seq::empty()
    } else {
        let acc = ticker_events_upto(events, live, n - 1);
        if on_ticker_live(live, events[n - 1].0.id@) {
            acc.push(events[n - 1])
        } else {
            acc
        }
    }
}

/// The ticker's scoring feed: the scoring events (`scoring_events`, board
/// order) of the games the ticker shows live (`ticker_live`).
pub fn ticker_events(events: &Vec<(Game, Play)>, live: &Vec<Game>) -> (r: Vec<(Game, Play)>)
    ensures
        events_same(r@, ticker_events_upto(events@, live@, events@.len() as int)),
{
    let mut out: Vec<(Game, Play)> = Vec::new();
    let mut i: usize = 0;
    while i < events.len()
        invariant
            i <= events@.len(),
            events_same(out@, ticker_events_upto(events@, live@, i as int)),
        decreases events@.len() - i,
    {
        let mut shown = false;
        let mut k: usize = 0;
        while k < live.len()
            invariant
                k <= live@.len(),
                i < events@.len(),
                !shown ==> forall|m: int| 0 <= m < k ==> live@[m].id@ != events@[i as int].0.id@,
                shown ==> on_ticker_live(live@, events@[i as int].0.id@),
            decreases live@.len() - k,
        {
            if !shown && live[k].id == events[i].0.id {
                assert(live@[k as int].id@ == events@[i as int].0.id@);
                shown = true;
            }
            k += 1;
        }
        let ghost prev = out@;
        if shown {
            out.push((copy_game(&events[i].0), copy_play(&events[i].1)));
            assert(out@[prev.len() as int].1 == events@[i as int].1);
        }
        proof {
            let want = ticker_events_upto(events@, live@, i + 1);
            assert(shown == on_ticker_live(live@, events@[i as int].0.id@));
            assert forall|x: int| 0 <= x < out@.len() implies game_same(#[trigger] out@[x].0, want[x].0) && out@[x].1
                == want[x].1 by {
                if x < prev.len() {
                    assert(out@[x] == prev[x]);
                }
            }
        }
        i += 1;
    }
    out
}

} // verus!
