//! Favorite-score alerts: after each fresh board, a favorited team's own
//! score moving rings the bell and flashes a header banner, with a per-game
//! cooldown. Deltas are diffed against this module's own score memory,
//! seeded silently on first sighting so startup never alerts.
use vstd::prelude::*;
use crate::app::LIVE_TICKS_PER_SEC;
use crate::config::Favorite;
use crate::derive::{abbr_eq, abbr_matches};
use crate::domain::{Game, League, Team};
use crate::idmap::{find_key, get_spec, keep_spec, lemma_find_upto, put_spec, IdMap};
use crate::text::{append, append_dec, dec, lower_ascii_seq, string_views};

verus! {

broadcast use vstd::seq_lib::group_seq_properties;

/// Per-game quiet window after an alert fires.
pub const COOLDOWN_SECS: u64 = 30;

/// How long the banner stays in the header.
pub const BANNER_SECS: u64 = 8;

/// Cooldown in render ticks, at the live cadence (alerts only fire while a
/// game is live).
pub const COOLDOWN_TICKS: u64 = COOLDOWN_SECS * LIVE_TICKS_PER_SEC;

/// Banner lifetime in render ticks.
pub const BANNER_TICKS: u64 = BANNER_SECS * LIVE_TICKS_PER_SEC;

/// One active header banner, e.g. `★ KC SCORES  27-24` (the favorite's own
/// score first), shown until `until_tick`.
#[derive(Debug, PartialEq, Eq)]
pub struct Alert {
    pub text: String,
    pub until_tick: u64,
}

/// The banner's words: `★ {abbr} SCORES  {own}-{other}`.
pub open spec fn alert_text(abbr: Seq<char>, own: u16, other: u16) -> Seq<char> {
    "★ "@ + abbr + " SCORES  "@ + dec(own as nat) + "-"@ + dec(other as nat)
}

/// A favorite names this team in this league (abbrs ignore ASCII case).
pub open spec fn fav_of(favs: Seq<Favorite>, league: League, abbr: Seq<char>) -> bool {
    exists|i: int| 0 <= i < favs.len() && (#[trigger] favs[i]).league == league && abbr_eq(favs[i].team_abbr@, abbr)
}

/// The favorited side whose own score moved since `prev`, away first, as
/// (abbr, own score, other score). The opponent scoring is not its alert.
pub open spec fn scorer(g: Game, prev: (u16, u16), favs: Seq<Favorite>) -> Option<(Seq<char>, u16, u16)> {
    if g.away_score != prev.0 && fav_of(favs, g.league, g.away.abbr@) {
        Some((g.away.abbr@, g.away_score, g.home_score))
    } else if g.home_score != prev.1 && fav_of(favs, g.league, g.home.abbr@) {
        Some((g.home.abbr@, g.home_score, g.away_score))
    } else {
        None
    }
}

/// The diff's running state: score memory, cooldowns, and the banner fired
/// so far as (text, until tick).
pub type AlertModel = (Seq<(Seq<char>, (u16, u16))>, Seq<(Seq<char>, u64)>, Option<(Seq<char>, u64)>);

/// The game is inside its cooldown at `tick`.
pub open spec fn cooling(cool: Seq<(Seq<char>, u64)>, id: Seq<char>, tick: u64) -> bool {
    match get_spec(cool, id) {
        Some(until) => tick < until,
        None => false,
    }
}

/// One game's effect on the diff: its score is remembered either way; a
/// moved score in a game off cooldown, before anything fired, alerts when a
/// favorite's own score moved.
pub open spec fn alert_step(st: AlertModel, g: Game, favs: Seq<Favorite>, tick: u64) -> AlertModel {
    let score = (g.away_score, g.home_score);
    let scores = put_spec(st.0, g.id@, score);
    match get_spec(st.0, g.id@) {
        None => (scores, st.1, st.2),
        Some(prev) => if prev == score || st.2 is Some || cooling(st.1, g.id@, tick) {
            (scores, st.1, st.2)
        } else {
            match scorer(g, prev, favs) {
                Some((abbr, own, other)) => (
                    scores,
                    put_spec(st.1, g.id@, (tick + COOLDOWN_TICKS) as u64),
                    Some((alert_text(abbr, own, other), (tick + BANNER_TICKS) as u64)),
                ),
                None => (scores, st.1, st.2),
            }
        },
    }
}

/// The diff after the first `n` games.
pub open spec fn alert_fold(st: AlertModel, games: Seq<Game>, favs: Seq<Favorite>, tick: u64, n: int) -> AlertModel
    decreases n,
{
    if n <= 0 {
        st
    } else {
        alert_step(alert_fold(st, games, favs, tick, n - 1), games[n - 1], favs, tick)
    }
}

/// Every board's games, one board after another in the order the boards are
/// held.
pub open spec fn flat_upto(boards: Seq<(League, Vec<Game>)>, n: int) -> Seq<Game>
    decreases n,
{
    if n <= 0 {
        Seq::empty()
    } else {
        flat_upto(boards, n - 1) + boards[n - 1].1@
    }
}

/// Every game on every board.
pub open spec fn flat_boards(boards: Seq<(League, Vec<Game>)>) -> Seq<Game> {
    flat_upto(boards, boards.len() as int)
}

proof fn lemma_flat_grows(boards: Seq<(League, Vec<Game>)>, b: int, n: int)
    requires
        0 <= b <= n <= boards.len(),
    ensures
        flat_upto(boards, b).len() <= flat_upto(boards, n).len(),
    decreases n,
{
    if n > b {
        lemma_flat_grows(boards, b, n - 1);
    }
}

proof fn lemma_flat_index(boards: Seq<(League, Vec<Game>)>, b: int, k: int, n: int)
    requires
        0 <= b < n <= boards.len(),
        0 <= k < boards[b].1@.len(),
    ensures
        flat_upto(boards, b).len() + k < flat_upto(boards, n).len(),
        flat_upto(boards, n)[flat_upto(boards, b).len() + k] == boards[b].1@[k],
    decreases n,
{
    if n > b + 1 {
        lemma_flat_index(boards, b, k, n - 1);
    }
}

/// The ids of the games.
pub open spec fn ids_of(games: Seq<Game>) -> Seq<Seq<char>> {
    games.map_values(|g: Game| g.id@)
}

fn fav_matches(favs: &Vec<Favorite>, league: League, abbr: &String) -> (r: bool)
    ensures
        r == fav_of(favs@, league, abbr@),
{
    let mut i: usize = 0;
    while i < favs.len()
        invariant
            i <= favs.len(),
            forall|j: int|
                0 <= j < i ==> !((#[trigger] favs@[j]).league == league && abbr_eq(favs@[j].team_abbr@, abbr@)),
        decreases favs.len() - i,
    {
        if favs[i].league == league && abbr_matches(&favs[i].team_abbr, abbr) {
            return true;
        }
        i += 1;
    }
    false
}

fn banner(team: &Team, own: u16, other: u16) -> (s: String)
    ensures
        s@ == alert_text(team.abbr@, own, other),
{
    let mut s = String::new();
    append(&mut s, "★ ");
    append(&mut s, team.abbr.as_str());
    append(&mut s, " SCORES  ");
    append_dec(&mut s, own as u64);
    append(&mut s, "-");
    append_dec(&mut s, other as u64);
    s
}

/// Score memory and cooldown ledger for the alert diff.
pub struct AlertState {
    /// Last-seen (away, home) per game id.
    last_scores: IdMap<(u16, u16)>,
    /// Game id -> first tick at which it may alert again.
    cooldown_until: IdMap<u64>,
}

impl AlertState {
    pub closed spec fn wf(&self) -> bool {
        self.last_scores.wf() && self.cooldown_until.wf()
    }

    /// The remembered scores.
    pub closed spec fn scores(&self) -> Seq<(Seq<char>, (u16, u16))> {
        self.last_scores.entries()
    }

    /// The cooldowns.
    pub closed spec fn cooldowns(&self) -> Seq<(Seq<char>, u64)> {
        self.cooldown_until.entries()
    }

    /// Diffs the games of every board against the previous check. The first
    /// favorited team whose own score moved, in a game off cooldown, yields
    /// the banner and starts that game's cooldown. Every delta is consumed
    /// either way, and the memory then forgets games no board carries.
    pub fn check(&mut self, favorites: &Vec<Favorite>, boards: &Vec<(League, Vec<Game>)>, tick: u64) -> (r: Option<
        Alert,
    >)
        requires
            old(self).wf(),
            tick + COOLDOWN_TICKS <= u64::MAX,
        ensures
            final(self).wf(),
            ({
                let games = flat_boards(boards@);
                let after = alert_fold((old(self).scores(), old(self).cooldowns(), None), games, favorites@, tick,
                    games.len() as int);
                &&& final(self).scores() == keep_spec(after.0, ids_of(games))
                &&& final(self).cooldowns() == keep_spec(after.1, ids_of(games))
                &&& match (r, after.2) {
                    (Some(a), Some(f)) => a.text@ == f.0 && a.until_tick == f.1,
                    (None, None) => true,
                    _ => false,
                }
            }),
    {
        let ghost st0: AlertModel = (self.scores(), self.cooldowns(), None);
        let ghost games = flat_boards(boards@);
        let mut fired: Option<Alert> = None;
        let mut ids: Vec<String> = Vec::new();
        let mut b: usize = 0;
        while b < boards.len()
            invariant
                b <= boards@.len(),
                games == flat_boards(boards@),
                tick + COOLDOWN_TICKS <= u64::MAX,
                self.wf(),
                ids@.len() == flat_upto(boards@, b as int).len(),
                string_views(ids@) == ids_of(flat_upto(boards@, b as int)),
                flat_upto(boards@, b as int).len() <= games.len(),
                forall|j: int| 0 <= j < flat_upto(boards@, b as int).len() ==> #[trigger] flat_upto(boards@, b as int)[j] == games[j],
                ({
                    let st = alert_fold(st0, games, favorites@, tick, flat_upto(boards@, b as int).len() as int);
                    &&& self.scores() == st.0
                    &&& self.cooldowns() == st.1
                    &&& match (fired, st.2) {
                        (Some(a), Some(f)) => a.text@ == f.0 && a.until_tick == f.1,
                        (None, None) => true,
                        _ => false,
                    }
                }),
            decreases boards@.len() - b,
        {
            let board = &boards[b].1;
            let ghost base = flat_upto(boards@, b as int);
            let mut k: usize = 0;
            while k < board.len()
                invariant
                    k <= board@.len(),
                    b < boards@.len(),
                    board == boards@[b as int].1,
                    base == flat_upto(boards@, b as int),
                    games == flat_boards(boards@),
                    tick + COOLDOWN_TICKS <= u64::MAX,
                    self.wf(),
                    ids@.len() == base.len() + k,
                    string_views(ids@) == ids_of(base + board@.take(k as int)),
                    ({
                        let st = alert_fold(st0, games, favorites@, tick, base.len() + k);
                        &&& self.scores() == st.0
                        &&& self.cooldowns() == st.1
                        &&& match (fired, st.2) {
                            (Some(a), Some(f)) => a.text@ == f.0 && a.until_tick == f.1,
                            (None, None) => true,
                            _ => false,
                        }
                    }),
                decreases board@.len() - k,
            {
                proof {
                    lemma_flat_index(boards@, b as int, k as int, boards@.len() as int);
                }
                let g = &board[k];
                assert(games[base.len() + k] == *g);
                let score = (g.away_score, g.home_score);
                let prev = self.last_scores.put(g.id.as_str(), score);
                match prev {
                    None => {},
                    Some(prev) => {
                        let quiet = (prev.0 == score.0 && prev.1 == score.1) || fired.is_some() || match self.cooldown_until.get(
                            g.id.as_str(),
                        ) {
                            Some(until) => tick < until,
                            None => false,
                        };
                        if !quiet {
                            if g.away_score != prev.0 && fav_matches(favorites, g.league, &g.away.abbr) {
                                self.cooldown_until.put(g.id.as_str(), tick + COOLDOWN_TICKS);
                                fired = Some(
                                    Alert {
                                        text: banner(&g.away, g.away_score, g.home_score),
                                        until_tick: tick + BANNER_TICKS,
                                    },
                                );
                            } else if g.home_score != prev.1 && fav_matches(favorites, g.league, &g.home.abbr) {
                                self.cooldown_until.put(g.id.as_str(), tick + COOLDOWN_TICKS);
                                fired = Some(
                                    Alert {
                                        text: banner(&g.home, g.home_score, g.away_score),
                                        until_tick: tick + BANNER_TICKS,
                                    },
                                );
                            }
                        }
                    },
                }
                let ghost before = ids@;
                ids.push(g.id.clone());
                proof {
                    assert(board@.take(k + 1) =~= board@.take(k as int).push(*g));
                    assert(base + board@.take(k + 1) =~= (base + board@.take(k as int)).push(*g));
                    assert(string_views(ids@) =~= string_views(before).push(g.id@));
                    assert(ids_of(base + board@.take(k + 1)) =~= ids_of(base + board@.take(k as int)).push(g.id@));
                }
                k += 1;
            }
            proof {
                assert(board@.take(board@.len() as int) =~= board@);
                assert(flat_upto(boards@, b + 1) == base + board@);
                lemma_flat_grows(boards@, b + 1, boards@.len() as int);
                assert forall|j: int| 0 <= j < flat_upto(boards@, b + 1).len() implies #[trigger] flat_upto(
                    boards@,
                    b + 1,
                )[j] == games[j] by {
                    if j >= base.len() {
                        lemma_flat_index(boards@, b as int, j - base.len(), boards@.len() as int);
                    }
                }
            }
            b += 1;
        }
        proof {
            assert(flat_upto(boards@, boards@.len() as int) == games);
        }
        self.last_scores.keep_only(&ids);
        self.cooldown_until.keep_only(&ids);
        fired
    }
}

impl Default for AlertState {
    /// An empty memory: the first check seeds it silently.
    fn default() -> (s: AlertState)
        ensures
            s.wf(),
            s.scores() == Seq::<(Seq<char>, (u16, u16))>::empty(),
            s.cooldowns() == Seq::<(Seq<char>, u64)>::empty(),
    {
        AlertState { last_scores: IdMap::new(), cooldown_until: IdMap::new() }
    }
}

/// No two games share an id.
pub open spec fn distinct_ids(games: Seq<Game>) -> bool {
    forall|i: int, j: int| 0 <= i < games.len() && 0 <= j < games.len() && i != j ==> games[i].id@ != games[j].id@
}

proof fn lemma_memory_keys(games: Seq<Game>, favs: Seq<Favorite>, tick: u64, n: int)
    requires
        0 <= n <= games.len(),
    ensures
        ({
            let st = alert_fold(
                (Seq::<(Seq<char>, (u16, u16))>::empty(), Seq::<(Seq<char>, u64)>::empty(), None),
                games,
                favs,
                tick,
                n,
            );
            forall|e: int|
                #![trigger st.0[e]]
                0 <= e < st.0.len() ==> exists|j: int| 0 <= j < n && (#[trigger] games[j]).id@ == st.0[e].0
        }),
    decreases n,
{
    if n > 0 {
        lemma_memory_keys(games, favs, tick, n - 1);
        let st0 = (Seq::<(Seq<char>, (u16, u16))>::empty(), Seq::<(Seq<char>, u64)>::empty(), None);
        let before = alert_fold(st0, games, favs, tick, n - 1);
        let after = alert_fold(st0, games, favs, tick, n);
        let g = games[n - 1];
        lemma_find_upto(before.0, g.id@, 0, before.0.len() as int);
        assert forall|e: int| #![trigger after.0[e]] 0 <= e < after.0.len() implies exists|j: int|
            0 <= j < n && (#[trigger] games[j]).id@ == after.0[e].0 by {
            if e < before.0.len() && after.0[e] == before.0[e] {
                let j = choose|j: int| 0 <= j < n - 1 && (#[trigger] games[j]).id@ == before.0[e].0;
                assert(games[j].id@ == after.0[e].0);
            } else {
                assert(after.0[e].0 == g.id@);
                assert(games[n - 1].id@ == after.0[e].0);
            }
        }
    }
}

/// Startup never alerts: from an empty memory, a check over games with
/// distinct ids fires nothing — every score is a first sighting.
pub proof fn lemma_first_check_is_silent(games: Seq<Game>, favs: Seq<Favorite>, tick: u64, n: int)
    requires
        distinct_ids(games),
        0 <= n <= games.len(),
    ensures
        alert_fold(
            (Seq::<(Seq<char>, (u16, u16))>::empty(), Seq::<(Seq<char>, u64)>::empty(), None),
            games,
            favs,
            tick,
            n,
        ).2 is None,
    decreases n,
{
    if n > 0 {
        lemma_first_check_is_silent(games, favs, tick, n - 1);
        lemma_memory_keys(games, favs, tick, n - 1);
        let st0 = (Seq::<(Seq<char>, (u16, u16))>::empty(), Seq::<(Seq<char>, u64)>::empty(), None);
        let before = alert_fold(st0, games, favs, tick, n - 1);
        let g = games[n - 1];
        lemma_find_upto(before.0, g.id@, 0, before.0.len() as int);
        if find_key(before.0, g.id@) is Some {
            let e = find_key(before.0, g.id@)->0;
            let j = choose|j: int| 0 <= j < n - 1 && (#[trigger] games[j]).id@ == before.0[e].0;
            assert(games[j].id@ == games[n - 1].id@);
        }
    }
}

/// The banner `text` is one a favorite earned in `g` against the score
/// remembered before it, `prev`: it names a side a favorite follows (same
/// league, abbreviation equal ignoring ASCII case) whose OWN score differs
/// from the remembered one, own score first. The other side scoring is
/// never that side's alert.
pub open spec fn earned_by_own_score(g: Game, prev: (u16, u16), favs: Seq<Favorite>, text: Seq<char>) -> bool {
    ||| {
        &&& g.away_score != prev.0
        &&& exists|i: int|
            0 <= i < favs.len() && (#[trigger] favs[i]).league == g.league && lower_ascii_seq(favs[i].team_abbr@)
                == lower_ascii_seq(g.away.abbr@)
        &&& text == "★ "@ + g.away.abbr@ + " SCORES  "@ + dec(g.away_score as nat) + "-"@ + dec(g.home_score as nat)
    }
    ||| {
        &&& g.home_score != prev.1
        &&& exists|i: int|
            0 <= i < favs.len() && (#[trigger] favs[i]).league == g.league && lower_ascii_seq(favs[i].team_abbr@)
                == lower_ascii_seq(g.home.abbr@)
        &&& text == "★ "@ + g.home.abbr@ + " SCORES  "@ + dec(g.home_score as nat) + "-"@ + dec(g.away_score as nat)
    }
}

/// One game's step raises a banner only for a favorite whose own score
/// moved since that game was last seen: a game seen for the first time, or
/// whose favorite's score stood still while the opponent scored, raises
/// nothing.
pub proof fn lemma_step_alerts_only_own_scores(st: AlertModel, g: Game, favs: Seq<Favorite>, tick: u64)
    requires
        st.2 is None,
    ensures
        match alert_step(st, g, favs, tick).2 {
            Some(f) => match get_spec(st.0, g.id@) {
                Some(prev) => earned_by_own_score(g, prev, favs, f.0),
                None => false,
            },
            None => true,
        },
{
}

/// Game `k` of a check earned banner `text` against the scores remembered
/// when its turn came.
pub open spec fn earned_at(st: AlertModel, games: Seq<Game>, favs: Seq<Favorite>, tick: u64, k: int, text: Seq<char>) -> bool {
    match get_spec(alert_fold(st, games, favs, tick, k).0, games[k].id@) {
        Some(prev) => earned_by_own_score(games[k], prev, favs, text),
        None => false,
    }
}

/// Over a whole check: when a banner fires, some game in it earned it — a
/// favorite's own score in that game moved from the score remembered for
/// the game just before it was diffed.
pub proof fn lemma_check_alerts_only_own_scores(
    st: AlertModel,
    games: Seq<Game>,
    favs: Seq<Favorite>,
    tick: u64,
    n: int,
)
    requires
        st.2 is None,
        0 <= n <= games.len(),
    ensures
        match alert_fold(st, games, favs, tick, n).2 {
            Some(f) => exists|k: int| 0 <= k < n && #[trigger] earned_at(st, games, favs, tick, k, f.0),
            None => true,
        },
    decreases n,
{
    if n > 0 {
        lemma_check_alerts_only_own_scores(st, games, favs, tick, n - 1);
        let pre = alert_fold(st, games, favs, tick, n - 1);
        match pre.2 {
            Some(f) => {
                let k = choose|k: int| 0 <= k < n - 1 && #[trigger] earned_at(st, games, favs, tick, k, f.0);
                assert(alert_fold(st, games, favs, tick, n).2 == pre.2);
                assert(0 <= k < n);
            },
            None => {
                lemma_step_alerts_only_own_scores(pre, games[n - 1], favs, tick);
                let k = n - 1;
                assert(alert_fold(st, games, favs, tick, k) == pre);
                match alert_fold(st, games, favs, tick, n).2 {
                    Some(f) => {
                        assert(earned_at(st, games, favs, tick, k, f.0));
                    },
                    None => {},
                }
            },
        }
    }
}

/// And the banner does fire: in a game seen before, off its cooldown,
/// when nothing has fired yet in this check and a favorite's own score
/// moved, the step raises a banner and starts the game's cooldown.
pub proof fn lemma_own_score_move_alerts(st: AlertModel, g: Game, favs: Seq<Favorite>, tick: u64)
    requires
        st.2 is None,
        get_spec(st.0, g.id@) matches Some(prev) && ((g.away_score != prev.0 && exists|i: int|
            0 <= i < favs.len() && (#[trigger] favs[i]).league == g.league && lower_ascii_seq(favs[i].team_abbr@)
                == lower_ascii_seq(g.away.abbr@)) || (g.home_score != prev.1 && exists|i: int|
            0 <= i < favs.len() && (#[trigger] favs[i]).league == g.league && lower_ascii_seq(favs[i].team_abbr@)
                == lower_ascii_seq(g.home.abbr@))),
        match get_spec(st.1, g.id@) {
            Some(until) => tick >= until,
            None => true,
        },
    ensures
        alert_step(st, g, favs, tick).2 is Some,
        alert_step(st, g, favs, tick).1 == put_spec(st.1, g.id@, (tick + COOLDOWN_TICKS) as u64),
{
}

} // verus!
