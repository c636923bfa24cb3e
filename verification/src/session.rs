//! A viewing session's data side: the boards as last fetched, the pins, and
//! what reacts to a fresh board — the score feed (flashes, captured scoring
//! plays, catch-up asks), the favorite alerts, the cut on screen, and the
//! connection's status. [`Session::apply_boards`] is the one door a
//! scoreboard comes in by.
use vstd::prelude::*;
use crate::alerts::{alert_fold, flat_boards, ids_of, Alert, AlertState, COOLDOWN_TICKS};
use crate::config::{pin_holds, prune_pins, Favorite, Pin};
use crate::cut::{Cut, CutState, BAND_TICKS, CUT_TICKS};
use crate::derive::{favorited, favorited_spec, first_with_id, index_of_id};
use crate::domain::{Game, League, Play, Summary};
use crate::edit::{board_games, board_index, board_upto};
use crate::idmap::keep_spec;
use crate::merge::{
    cut_here, cuts_spec, fold_spec, mark_pins_final, merged_game, stamped, summary_step, CatchupEntry, Feed, FeedModel,
};
use crate::app::LIVE_TICKS_PER_SEC;
use crate::merge::SCOREBOARD_LIVE_SECS;
use crate::net::NetStatus;
use crate::text::{lower_ascii_seq, str_eq, string_views};

verus! {

broadcast use vstd::seq_lib::group_seq_properties;

/// The data behind the screen.
pub struct Session {
    /// Each league's board, as last fetched.
    pub boards: Vec<(League, Vec<Game>)>,
    pub pins: Vec<Pin>,
    pub feed: Feed,
    pub alerts: AlertState,
    pub cuts: CutState,
    pub net: NetStatus,
    /// The favorite-score banner in the header.
    pub active_alert: Option<Alert>,
    /// A bell the terminal owes the viewer.
    pub bell_pending: bool,
}

/// A cut as values: the game's id, the play, takeover or band, and the tick
/// it leaves the screen at.
pub open spec fn cut_view(c: Option<Cut>) -> Option<(Seq<char>, Play, bool, u64)> {
    match c {
        Some(c) => Some((c.game_id@, c.play, c.full, c.until_tick)),
        None => None,
    }
}

/// Firing a cut: a takeover on screen is never downgraded and a band only
/// yields to a takeover; otherwise the new cut takes the screen.
pub open spec fn fire_view(
    slot: Option<(Seq<char>, Play, bool, u64)>,
    id: Seq<char>,
    play: Play,
    full: bool,
    tick: u64,
) -> Option<(Seq<char>, Play, bool, u64)> {
    match slot {
        Some(a) if tick < a.3 && !(full && !a.2) => slot,
        _ => Some((id, play, full, (tick + if full { CUT_TICKS } else { BAND_TICKS }) as u64)),
    }
}

/// Whether a cut of game `id` takes the whole screen: the game is pinned,
/// a favorite plays in it (as the board shows it), or TV is showing it.
pub open spec fn cut_full(pins: Seq<Pin>, favs: Seq<Favorite>, board: Seq<Game>, tv_shown: Option<Seq<char>>, id: Seq<char>) -> bool {
    ||| exists|i: int| 0 <= i < pins.len() && (#[trigger] pins[i]).game_id@ == id
    ||| (first_with_id(board, id) matches Some(j) && favorited_spec(board[j], favs))
    ||| tv_shown == Some(id)
}

/// The screen's cut after firing the first `n` of `cuts`, in order.
pub open spec fn fire_fold(
    slot: Option<(Seq<char>, Play, bool, u64)>,
    cuts: Seq<(Seq<char>, Play)>,
    pins: Seq<Pin>,
    favs: Seq<Favorite>,
    board: Seq<Game>,
    tv_shown: Option<Seq<char>>,
    tick: u64,
    n: int,
) -> Option<(Seq<char>, Play, bool, u64)>
    decreases n,
{
    if n <= 0 {
        slot
    } else {
        let c = cuts[n - 1];
        fire_view(
            fire_fold(slot, cuts, pins, favs, board, tv_shown, tick, n - 1),
            c.0,
            c.1,
            cut_full(pins, favs, board, tv_shown, c.0),
            tick,
        )
    }
}

/// Where `league`'s board sits: its entry, or a new one at the end.
pub open spec fn board_slot(boards: Seq<(League, Vec<Game>)>, league: League) -> int {
    match board_upto(boards, league, boards.len() as int) {
        Some(i) => i,
        None => boards.len() as int,
    }
}

/// The feed's memory after a board: the fresh board folded in (a cached one
/// changes nothing), then the scores of games no board carries forgotten.
pub open spec fn feed_after(st: FeedModel, games: Seq<Game>, stale: bool, tick: u64, on_boards: Seq<Game>) -> FeedModel {
    let m = if stale {
        st
    } else {
        fold_spec(st, games, tick, games.len() as int)
    };
    (keep_spec(m.0, ids_of(on_boards)), m.1, m.2, m.3)
}

/// The pins after a board: those whose game it shows final are stamped,
/// then those held past their window dropped.
pub open spec fn pins_after(pins: Seq<Pin>, board: Seq<Game>, now: i64) -> Seq<Pin> {
    pins.map_values(|p: Pin| stamped(p, board, now)).filter(|p: Pin| pin_holds(p, now))
}

fn cut_is_full(pins: &Vec<Pin>, favs: &Vec<Favorite>, board: &Vec<Game>, tv_shown: Option<&str>, id: &String) -> (r: bool)
    ensures
        r == cut_full(pins@, favs@, board@, match tv_shown {
            Some(t) => Some(t@),
            None => None,
        }, id@),
{
    let mut i: usize = 0;
    while i < pins.len()
        invariant
            i <= pins@.len(),
            forall|j: int| 0 <= j < i ==> (#[trigger] pins@[j]).game_id@ != id@,
        decreases pins@.len() - i,
    {
        if str_eq(pins[i].game_id.as_str(), id.as_str()) {
            return true;
        }
        i += 1;
    }
    let fav = match index_of_id(board, id) {
        Some(j) => favorited(&board[j], favs),
        None => false,
    };
    if fav {
        return true;
    }
    match tv_shown {
        Some(t) => str_eq(t, id.as_str()),
        None => false,
    }
}

/// Whether a cut of game `id` takes the whole screen, judged on the game
/// itself: pinned, a favorite's, or on TV.
pub open spec fn full_for(pins: Seq<Pin>, favs: Seq<Favorite>, g: Game, tv_shown: Option<Seq<char>>, id: Seq<char>) -> bool {
    ||| exists|i: int| 0 <= i < pins.len() && (#[trigger] pins[i]).game_id@ == id
    ||| favorited_spec(g, favs)
    ||| tv_shown == Some(id)
}

fn game_is_full(pins: &Vec<Pin>, favs: &Vec<Favorite>, g: &Game, tv_shown: Option<&str>, id: &String) -> (r: bool)
    ensures
        r == full_for(pins@, favs@, *g, match tv_shown {
            Some(t) => Some(t@),
            None => None,
        }, id@),
{
    let mut i: usize = 0;
    while i < pins.len()
        invariant
            i <= pins@.len(),
            forall|j: int| 0 <= j < i ==> (#[trigger] pins@[j]).game_id@ != id@,
        decreases pins@.len() - i,
    {
        if str_eq(pins[i].game_id.as_str(), id.as_str()) {
            return true;
        }
        i += 1;
    }
    if favorited(g, favs) {
        return true;
    }
    match tv_shown {
        Some(t) => str_eq(t, id.as_str()),
        None => false,
    }
}

fn ids_on(boards: &Vec<(League, Vec<Game>)>) -> (r: Vec<String>)
    ensures
        string_views(r@) == ids_of(flat_boards(boards@)),
{
    let mut out: Vec<String> = Vec::new();
    let mut b: usize = 0;
    while b < boards.len()
        invariant
            b <= boards@.len(),
            string_views(out@) == ids_of(crate::alerts::flat_upto(boards@, b as int)),
        decreases boards@.len() - b,
    {
        let board = &boards[b].1;
        let ghost base = crate::alerts::flat_upto(boards@, b as int);
        let mut k: usize = 0;
        while k < board.len()
            invariant
                k <= board@.len(),
                b < boards@.len(),
                board == boards@[b as int].1,
                base == crate::alerts::flat_upto(boards@, b as int),
                string_views(out@) == ids_of(base + board@.take(k as int)),
            decreases board@.len() - k,
        {
            let ghost before = out@;
            out.push(board[k].id.clone());
            proof {
                assert(board@.take(k + 1) =~= board@.take(k as int).push(board@[k as int]));
                assert(base + board@.take(k + 1) =~= (base + board@.take(k as int)).push(board@[k as int]));
                assert(string_views(out@) =~= string_views(before).push(board@[k as int].id@));
                assert(ids_of(base + board@.take(k + 1)) =~= ids_of(base + board@.take(k as int)).push(
                    board@[k as int].id@,
                ));
            }
            k += 1;
        }
        assert(board@.take(board@.len() as int) =~= board@);
        b += 1;
    }
    out
}

/// Two boards show the same games: ids, leagues and teams, game for game.
pub open spec fn same_faces(a: Seq<Game>, b: Seq<Game>) -> bool {
    a.len() == b.len() && forall|i: int|
        0 <= i < a.len() ==> (#[trigger] a[i]).id == b[i].id && a[i].league == b[i].league && a[i].home == b[i].home
            && a[i].away == b[i].away
}

proof fn lemma_first_same(a: Seq<Game>, b: Seq<Game>, id: Seq<char>, n: int)
    requires
        same_faces(a, b),
        0 <= n <= a.len(),
    ensures
        crate::derive::first_with_id_upto(a, id, n) == crate::derive::first_with_id_upto(b, id, n),
    decreases n,
{
    if n > 0 {
        lemma_first_same(a, b, id, n - 1);
        assert(a[n - 1].id == b[n - 1].id);
    }
}

proof fn lemma_full_same(
    a: Seq<Game>,
    b: Seq<Game>,
    pins: Seq<Pin>,
    favs: Seq<Favorite>,
    tv: Option<Seq<char>>,
    id: Seq<char>,
)
    requires
        same_faces(a, b),
    ensures
        cut_full(pins, favs, a, tv, id) == cut_full(pins, favs, b, tv, id),
{
    lemma_first_same(a, b, id, a.len() as int);
    crate::derive::lemma_first_upto(a, id, 0, a.len() as int);
    match first_with_id(a, id) {
        Some(j) => {
            assert(a[j].league == b[j].league && a[j].home == b[j].home && a[j].away == b[j].away);
            assert(favorited_spec(a[j], favs) == favorited_spec(b[j], favs));
        },
        None => {},
    }
}

/// Where game `id` sits among the first `n` boards: the first board that
/// carries it, and its first place there.
pub open spec fn locate_upto(boards: Seq<(League, Vec<Game>)>, id: Seq<char>, n: int) -> Option<(int, int)>
    decreases n,
{
    if n <= 0 {
        None
    } else {
        match locate_upto(boards, id, n - 1) {
            Some(x) => Some(x),
            None => match first_with_id(boards[n - 1].1@, id) {
                Some(k) => Some((n - 1, k)),
                None => None,
            },
        }
    }
}

/// Where game `id` sits on the boards.
pub open spec fn locate(boards: Seq<(League, Vec<Game>)>, id: Seq<char>) -> Option<(int, int)> {
    locate_upto(boards, id, boards.len() as int)
}

proof fn lemma_locate_upto(boards: Seq<(League, Vec<Game>)>, id: Seq<char>, a: int, b: int)
    requires
        0 <= a <= b <= boards.len(),
    ensures
        locate_upto(boards, id, a) is Some ==> locate_upto(boards, id, b) == locate_upto(boards, id, a),
        match locate_upto(boards, id, b) {
            Some((x, k)) => 0 <= x < b && 0 <= k < boards[x].1@.len() && boards[x].1@[k].id@ == id,
            None => true,
        },
    decreases b,
{
    if b > 0 {
        if a < b {
            lemma_locate_upto(boards, id, a, b - 1);
        } else {
            lemma_locate_upto(boards, id, b - 1, b - 1);
        }
        crate::derive::lemma_first_upto(boards[b - 1].1@, id, 0, boards[b - 1].1@.len() as int);
    }
}

fn find_game(boards: &Vec<(League, Vec<Game>)>, id: &String) -> (r: Option<(usize, usize)>)
    ensures
        match (r, locate(boards@, id@)) {
            (Some((b, k)), Some((x, j))) => b == x && k == j && b < boards@.len() && k < boards@[b as int].1@.len(),
            (None, None) => true,
            _ => false,
        },
{
    let mut b: usize = 0;
    while b < boards.len()
        invariant
            b <= boards@.len(),
            locate_upto(boards@, id@, b as int) is None,
        decreases boards@.len() - b,
    {
        match index_of_id(&boards[b].1, id) {
            Some(k) => {
                proof {
                    lemma_locate_upto(boards@, id@, b + 1, boards@.len() as int);
                }
                return Some((b, k));
            },
            None => {},
        }
        b += 1;
    }
    None
}

impl Session {
    pub open spec fn wf(&self) -> bool {
        self.feed.wf() && self.alerts.wf()
    }

    /// A session before any board: the loaded pins, nothing seen yet.
    pub fn new(pins: Vec<Pin>) -> (s: Session)
        ensures
            s.wf(),
            s.boards@.len() == 0,
            s.pins@ == pins@,
            s.feed.model() == (
                Seq::<(Seq<char>, (u16, u16))>::empty(),
                Seq::<(Seq<char>, u64)>::empty(),
                Seq::<crate::merge::CatchupEntry>::empty(),
                0u64,
            ),
            s.alerts.scores().len() == 0,
            s.alerts.cooldowns().len() == 0,
            s.cuts.slot() is None,
            !s.net.seen_a_board(),
            s.net.last_failure().is_none(),
            s.net.last_ok_at().is_none(),
            !s.net.last_ok_from_cache(),
            s.active_alert is None,
            !s.bell_pending,
    {
        Session {
            boards: Vec::new(),
            pins,
            feed: Feed::new(),
            alerts: AlertState::default(),
            cuts: CutState::new(),
            net: NetStatus::new(),
            active_alert: None,
            bell_pending: false,
        }
    }

    /// A scoreboard for `league` arrived (`stale`: served from the cache).
    /// Its games are merged into the feed and replace the league's board;
    /// each scoring play it captures fires a cut — unless cuts are
    /// suppressed right now — a takeover when the game is the viewer's own
    /// or the one TV shows (`tv_shown`), a band otherwise, and a takeover
    /// owes a bell. A fresh board is then diffed for favorite alerts, which
    /// set the banner and owe a bell; a cached one is scores only. Pins
    /// whose game it shows final are stamped, the feed forgets the scores of
    /// games no board carries, the connection is marked live (or stale),
    /// and pins past their window are dropped.
    #[verifier::rlimit(40)]
    pub fn apply_boards(
        &mut self,
        league: League,
        games: Vec<Game>,
        stale: bool,
        favorites: &Vec<Favorite>,
        suppressed: bool,
        tv_shown: Option<&str>,
        tick: u64,
        now: i64,
        now_ms: u64,
    )
        requires
            old(self).wf(),
            old(self).feed.catchup_seq + games@.len() <= u64::MAX,
            tick + COOLDOWN_TICKS <= u64::MAX,
            tick + CUT_TICKS <= u64::MAX,
        ensures
            final(self).wf(),
            ({
                let prev = board_games(old(self).boards@, league);
                let slot = board_slot(old(self).boards@, league);
                let fresh = final(self).boards@[slot].1@;
                let on_boards = flat_boards(final(self).boards@);
                let tv = match tv_shown {
                    Some(t) => Some(t@),
                    None => None,
                };
                let cuts = cuts_spec(old(self).feed.model(), prev, games@, tick, games@.len() as int);
                let alert = alert_fold(
                    (old(self).alerts.scores(), old(self).alerts.cooldowns(), None),
                    on_boards,
                    favorites@,
                    tick,
                    on_boards.len() as int,
                );
                let firing = !stale && !suppressed;
                let rang = firing && exists|k: int|
                    0 <= k < cuts.len() && cut_full(old(self).pins@, favorites@, games@, tv, #[trigger] cuts[k].0);
                // The board.
                &&& final(self).boards@.len() == if slot < old(self).boards@.len() {
                    old(self).boards@.len()
                } else {
                    old(self).boards@.len() + 1
                }
                &&& final(self).boards@[slot].0 == league
                &&& forall|j: int|
                    0 <= j < old(self).boards@.len() && j != slot ==> #[trigger] final(self).boards@[j] == old(
                        self,
                    ).boards@[j]
                &&& fresh.len() == games@.len()
                &&& forall|i: int|
                    0 <= i < games@.len() ==> merged_game(
                        prev,
                        games@[i],
                        #[trigger] fresh[i],
                        !stale && cut_here(fold_spec(old(self).feed.model(), games@, tick, i), prev, games@[i]),
                    )
                // The feed.
                &&& final(self).feed.model() == feed_after(old(self).feed.model(), games@, stale, tick, on_boards)
                // The cut on screen.
                &&& cut_view(final(self).cuts.slot()) == if firing {
                    fire_fold(
                        cut_view(old(self).cuts.slot()),
                        cuts,
                        old(self).pins@,
                        favorites@,
                        games@,
                        tv,
                        tick,
                        cuts.len() as int,
                    )
                } else {
                    cut_view(old(self).cuts.slot())
                }
                // Favorite alerts.
                &&& if stale {
                    &&& final(self).alerts.scores() == old(self).alerts.scores()
                    &&& final(self).alerts.cooldowns() == old(self).alerts.cooldowns()
                    &&& final(self).active_alert == old(self).active_alert
                } else {
                    &&& final(self).alerts.scores() == keep_spec(alert.0, ids_of(on_boards))
                    &&& final(self).alerts.cooldowns() == keep_spec(alert.1, ids_of(on_boards))
                    &&& match alert.2 {
                        Some(f) => final(self).active_alert matches Some(a) && a.text@ == f.0 && a.until_tick == f.1,
                        None => final(self).active_alert == old(self).active_alert,
                    }
                }
                &&& final(self).bell_pending == (old(self).bell_pending || rang || (!stale && alert.2 is Some))
                // Pins and the connection.
                &&& final(self).pins@ == pins_after(old(self).pins@, fresh, now)
                &&& final(self).net.last_ok_at() == Some(now_ms)
                &&& final(self).net.last_ok_from_cache() == stale
                &&& final(self).net.seen_a_board()
                &&& final(self).net.last_failure() == old(self).net.last_failure()
            }),
    {
        let ghost old_pins = self.pins@;
        let ghost st0 = self.feed.model();
        let ghost slot0 = cut_view(self.cuts.slot());
        let ghost tv = match tv_shown {
            Some(t) => Some(t@),
            None => None,
        };
        let at = board_index(&self.boards, league);
        let empty: Vec<Game> = Vec::new();
        let ghost g0 = games@;
        let ghost prev = board_games(self.boards@, league);
        let (merged, cuts) = match at {
            Some(i) => self.feed.apply(&self.boards[i].1, games, stale, tick),
            None => self.feed.apply(&empty, games, stale, tick),
        };
        proof {
            assert forall|i: int| 0 <= i < g0.len() implies (#[trigger] merged@[i]).id == g0[i].id && merged@[i].league
                == g0[i].league && merged@[i].home == g0[i].home && merged@[i].away == g0[i].away by {
                assert(merged_game(
                    prev,
                    g0[i],
                    merged@[i],
                    !stale && cut_here(fold_spec(st0, g0, tick, i), prev, g0[i]),
                ));
            }
            assert(same_faces(merged@, g0));
        }
        // Cuts: whose earns the whole screen is read off the board, whose
        // ids and teams the merge keeps.
        let ghost cv = cuts@.map_values(|c: (String, Play)| (c.0@, c.1));
        let ghost before = *self;
        let mut rang = false;
        if !stale && !suppressed {
            let mut c: usize = 0;
            while c < cuts.len()
                invariant
                    c <= cuts@.len(),
                    cv == cuts@.map_values(|c: (String, Play)| (c.0@, c.1)),
                    tick + CUT_TICKS <= u64::MAX,
                    cut_view(self.cuts.slot()) == fire_fold(slot0, cv, old_pins, favorites@, g0, tv, tick, c as int),
                    rang == exists|j: int| 0 <= j < c && cut_full(old_pins, favorites@, g0, tv, #[trigger] cv[j].0),
                    self.pins@ == old_pins,
                    self.boards == before.boards,
                    self.feed == before.feed,
                    self.alerts == before.alerts,
                    self.net == before.net,
                    self.active_alert == before.active_alert,
                    self.bell_pending == before.bell_pending,
                    self.pins == before.pins,
                    same_faces(merged@, g0),
                    tv == match tv_shown {
                        Some(t) => Some(t@),
                        None => None,
                    },
                decreases cuts@.len() - c,
            {
                let full = cut_is_full(&self.pins, favorites, &merged, tv_shown, &cuts[c].0);
                proof {
                    lemma_full_same(merged@, g0, old_pins, favorites@, tv, cv[c as int].0);
                    assert(cv[c as int] == (cuts@[c as int].0@, cuts@[c as int].1));
                }
                self.cuts.fire(cuts[c].0.as_str(), &cuts[c].1, full, tick);
                proof {
                    assert(rang || full <==> exists|j: int| 0 <= j < c + 1 && cut_full(old_pins, favorites@, g0, tv, #[trigger] cv[j].0));
                }
                if full {
                    rang = true;
                }
                c += 1;
            }
        }
        // The board.
        match at {
            Some(i) => {
                self.boards.set(i, (league, merged));
            },
            None => {
                self.boards.push((league, merged));
            },
        }
        // Pins whose game the fresh board shows final.
        let b = match at {
            Some(i) => i,
            None => self.boards.len() - 1,
        };
        mark_pins_final(&mut self.pins, &self.boards[b].1, now);
        let ghost stamped_pins = self.pins@;
        proof {
            assert(stamped_pins =~= old_pins.map_values(|p: Pin| stamped(p, self.boards@[b as int].1@, now)));
        }
        // Favorite alerts, from fresh data only.
        if !stale {
            if let Some(alert) = self.alerts.check(favorites, &self.boards, tick) {
                self.active_alert = Some(alert);
                self.bell_pending = true;
            }
        }
        if rang {
            self.bell_pending = true;
        }
        let ids = ids_on(&self.boards);
        self.feed.forget_gone(&ids);
        self.net.ok(now_ms, stale);
        let mut held: Vec<Pin> = Vec::new();
        std::mem::swap(&mut held, &mut self.pins);
        self.pins = prune_pins(held, now);
        proof {
            assert(self.pins@ == stamped_pins.filter(|p: Pin| pin_holds(p, now)));
        }
    }

    /// A summary for game `game_id` arrived. It merges into the game where
    /// the boards carry it (see [`Feed::merge_summary`]); the cut it names
    /// fires unless cuts are suppressed — a takeover, owing a bell, when the
    /// game is the viewer's own or the one TV shows. Returns the cut, whether
    /// the game's catch-up asks again, and the catch-up the retries dropped.
    pub fn merge_summary(
        &mut self,
        game_id: &String,
        summary: Summary,
        favorites: &Vec<Favorite>,
        suppressed: bool,
        tv_shown: Option<&str>,
        tick: u64,
    ) -> (r: (Option<Play>, bool, Option<CatchupEntry>))
        requires
            old(self).wf(),
            old(self).feed.catchup_seq < u64::MAX,
            tick + SCOREBOARD_LIVE_SECS * LIVE_TICKS_PER_SEC <= u64::MAX,
            tick + CUT_TICKS <= u64::MAX,
        ensures
            final(self).wf(),
            ({
                let at = locate(old(self).boards@, game_id@);
                let game = match at {
                    Some((b, k)) => Some(old(self).boards@[b].1@[k]),
                    None => None,
                };
                let merged = match at {
                    Some((b, k)) => Some(final(self).boards@[b].1@[k]),
                    None => None,
                };
                let tv = match tv_shown {
                    Some(t) => Some(t@),
                    None => None,
                };
                let full = match merged {
                    Some(o) => full_for(old(self).pins@, favorites@, o, tv, game_id@),
                    None => false,
                };
                &&& summary_step(
                    old(self).feed.catchup@,
                    old(self).feed.catchup_seq,
                    game,
                    game_id@,
                    summary,
                    tick,
                    (merged, r.0, r.1, r.2),
                    final(self).feed.catchup@,
                    final(self).feed.catchup_seq,
                )
                &&& final(self).feed.last_scores == old(self).feed.last_scores
                &&& final(self).feed.flashes == old(self).feed.flashes
                &&& final(self).boards@.len() == old(self).boards@.len()
                &&& match at {
                    Some((b, k)) => {
                        &&& final(self).boards@[b].0 == old(self).boards@[b].0
                        &&& final(self).boards@[b].1@ == old(self).boards@[b].1@.update(k, final(self).boards@[b].1@[k])
                        &&& forall|j: int|
                            0 <= j < old(self).boards@.len() && j != b ==> #[trigger] final(self).boards@[j] == old(
                                self,
                            ).boards@[j]
                    },
                    None => final(self).boards@ == old(self).boards@,
                }
                &&& cut_view(final(self).cuts.slot()) == match r.0 {
                    Some(p) if !suppressed => fire_view(cut_view(old(self).cuts.slot()), game_id@, p, full, tick),
                    _ => cut_view(old(self).cuts.slot()),
                }
                &&& final(self).bell_pending == (old(self).bell_pending || (r.0 is Some && !suppressed && full))
                &&& final(self).pins == old(self).pins
                &&& final(self).alerts == old(self).alerts
                &&& final(self).net == old(self).net
                &&& final(self).active_alert == old(self).active_alert
            }),
    {
        let at = find_game(&self.boards, game_id);
        let ghost tv = match tv_shown {
            Some(t) => Some(t@),
            None => None,
        };
        match at {
            None => {
                let (_, cut, again, dropped) = self.feed.merge_summary(None, game_id.as_str(), summary, tick);
                (cut, again, dropped)
            },
            Some((b, k)) => {
                let (league, mut games) = self.boards.remove(b);
                let game = games.remove(k);
                let (merged, cut, again, dropped) = self.feed.merge_summary(Some(game), game_id.as_str(), summary, tick);
                let o = merged.unwrap();
                let full = game_is_full(&self.pins, favorites, &o, tv_shown, game_id);
                games.insert(k, o);
                self.boards.insert(b, (league, games));
                if let Some(p) = &cut {
                    if !suppressed {
                        self.cuts.fire(game_id.as_str(), p, full, tick);
                        if full {
                            self.bell_pending = true;
                        }
                    }
                }
                (cut, again, dropped)
            },
        }
    }

    /// One render tick: flashes whose window closed go, and so does a
    /// banner past its lifetime.
    pub fn advance_tick(&mut self, tick: u64)
        requires
            old(self).wf(),
        ensures
            final(self).wf(),
            final(self).feed.flashes.entries() == crate::idmap::recent_upto(
                old(self).feed.flashes.entries(),
                tick,
                crate::app::FLASH_TICKS,
                old(self).feed.flashes.entries().len() as int,
            ),
            final(self).feed.last_scores == old(self).feed.last_scores,
            final(self).feed.catchup@ == old(self).feed.catchup@,
            final(self).active_alert == match old(self).active_alert {
                Some(a) => if tick >= a.until_tick {
                    None
                } else {
                    Some(a)
                },
                None => None,
            },
            final(self).boards == old(self).boards,
            final(self).pins == old(self).pins,
    {
        self.feed.expire_flashes(tick);
        let mut banner: Option<Alert> = None;
        std::mem::swap(&mut banner, &mut self.active_alert);
        self.active_alert = crate::nav::expire_alert(banner, tick);
    }

    /// A scoreboard fetch for `league` failed; `retry_ms` is the delay the
    /// scheduler picked. The connection records it, and — while no board
    /// has a game to show — the failure is the news: the footer line it
    /// earns is returned.
    pub fn note_failure(&mut self, league: League, error: String, retry_ms: Option<u64>, now_ms: u64) -> (line: Option<
        String,
    >)
        ensures
            final(self).net.last_failure() == Some((now_ms, error, retry_ms)),
            final(self).net.last_ok_at() == old(self).net.last_ok_at(),
            final(self).boards == old(self).boards,
            final(self).feed == old(self).feed,
            match line {
                Some(l) => flat_boards(old(self).boards@).len() == 0 && l@ == crate::nav::failure_line_spec(
                    crate::domain::slug_of(league),
                    error@,
                    match retry_ms {
                        Some(m) => Some((m / 1000) as u64),
                        None => None,
                    },
                ),
                None => flat_boards(old(self).boards@).len() > 0,
            },
    {
        let retry_secs = match retry_ms {
            Some(m) => Some(m / 1000),
            None => None,
        };
        let ids = ids_on(&self.boards);
        proof {
            assert(string_views(ids@).len() == ids@.len());
            assert(ids_of(flat_boards(self.boards@)).len() == flat_boards(self.boards@).len());
        }
        let line = if ids.len() == 0 {
            Some(crate::nav::failure_line(league, error.as_str(), retry_secs))
        } else {
            None
        };
        self.net.failed(now_ms, error, retry_ms);
        line
    }
}

/// A favorite plays in the first board game carrying `id`: same league,
/// and its home or away abbreviation equals a favorited one ignoring ASCII
/// case.
pub open spec fn favorite_plays(favs: Seq<Favorite>, board: Seq<Game>, id: Seq<char>) -> bool {
    exists|j: int|
        0 <= j < board.len() && (#[trigger] board[j]).id@ == id && (forall|k: int| 0 <= k < j ==> board[k].id@ != id)
            && exists|i: int|
            0 <= i < favs.len() && (#[trigger] favs[i]).league == board[j].league && (lower_ascii_seq(
                favs[i].team_abbr@,
            ) == lower_ascii_seq(board[j].away.abbr@) || lower_ascii_seq(favs[i].team_abbr@) == lower_ascii_seq(
                board[j].home.abbr@,
            ))
}

/// A cut of a game a favorite plays in takes the whole screen, exactly as a
/// pinned game's does (and as TV's shown game's does).
pub proof fn lemma_my_games_cut_full(
    pins: Seq<Pin>,
    favs: Seq<Favorite>,
    board: Seq<Game>,
    tv_shown: Option<Seq<char>>,
    id: Seq<char>,
)
    ensures
        favorite_plays(favs, board, id) ==> cut_full(pins, favs, board, tv_shown, id),
        (exists|i: int| 0 <= i < pins.len() && (#[trigger] pins[i]).game_id@ == id) ==> cut_full(
            pins,
            favs,
            board,
            tv_shown,
            id,
        ),
        tv_shown == Some(id) ==> cut_full(pins, favs, board, tv_shown, id),
{
    if favorite_plays(favs, board, id) {
        let j = choose|j: int|
            0 <= j < board.len() && (#[trigger] board[j]).id@ == id && (forall|k: int| 0 <= k < j ==> board[k].id@ != id)
                && exists|i: int|
                0 <= i < favs.len() && (#[trigger] favs[i]).league == board[j].league && (lower_ascii_seq(
                    favs[i].team_abbr@,
                ) == lower_ascii_seq(board[j].away.abbr@) || lower_ascii_seq(favs[i].team_abbr@) == lower_ascii_seq(
                    board[j].home.abbr@,
                ));
        lemma_first_game_found(board, id, j);
    }
}

proof fn lemma_first_game_found(board: Seq<Game>, id: Seq<char>, j: int)
    requires
        0 <= j < board.len(),
        board[j].id@ == id,
        forall|k: int| 0 <= k < j ==> board[k].id@ != id,
    ensures
        first_with_id(board, id) == Some(j),
{
    crate::derive::lemma_first_upto(board, id, j, j);
    crate::derive::lemma_first_upto(board, id, j + 1, board.len() as int);
}

/// Every cut the screen holds after a board's cuts fire (from none) is full
/// exactly when its game is pinned, a favorite plays in it, or TV shows it:
/// in particular a favorite's game always gets the takeover.
pub proof fn lemma_fired_cut_is_full_for_my_games(
    cuts: Seq<(Seq<char>, Play)>,
    pins: Seq<Pin>,
    favs: Seq<Favorite>,
    board: Seq<Game>,
    tv_shown: Option<Seq<char>>,
    tick: u64,
    n: int,
)
    ensures
        match fire_fold(None, cuts, pins, favs, board, tv_shown, tick, n) {
            Some(c) => c.2 == cut_full(pins, favs, board, tv_shown, c.0) && (favorite_plays(favs, board, c.0) ==> c.2),
            None => true,
        },
    decreases n,
{
    if n > 0 {
        lemma_fired_cut_is_full_for_my_games(cuts, pins, favs, board, tv_shown, tick, n - 1);
    }
    match fire_fold(None, cuts, pins, favs, board, tv_shown, tick, n) {
        Some(c) => {
            lemma_my_games_cut_full(pins, favs, board, tv_shown, c.0);
        },
        None => {},
    }
}

/// Every other cut is the band: a game neither pinned, nor one a favorite
/// plays in, nor TV's shown game never takes the whole screen.
pub proof fn lemma_other_cuts_are_bands(
    pins: Seq<Pin>,
    favs: Seq<Favorite>,
    board: Seq<Game>,
    tv_shown: Option<Seq<char>>,
    id: Seq<char>,
)
    requires
        forall|i: int| 0 <= i < pins.len() ==> (#[trigger] pins[i]).game_id@ != id,
        !favorite_plays(favs, board, id),
        tv_shown != Some(id),
    ensures
        !cut_full(pins, favs, board, tv_shown, id),
{
    match first_with_id(board, id) {
        Some(j) => {
            if favorited_spec(board[j], favs) {
                lemma_favorited_first_plays(favs, board, id, j);
            }
        },
        None => {},
    }
}

proof fn lemma_favorited_first_plays(favs: Seq<Favorite>, board: Seq<Game>, id: Seq<char>, j: int)
    requires
        first_with_id(board, id) == Some(j),
        favorited_spec(board[j], favs),
    ensures
        favorite_plays(favs, board, id),
{
    crate::derive::lemma_first_upto(board, id, 0, board.len() as int);
    crate::derive::lemma_first_upto(board, id, j, board.len() as int);
    crate::derive::lemma_first_upto(board, id, j, j);
    let i = choose|i: int|
        0 <= i < favs.len() && (#[trigger] favs[i]).league == board[j].league && (crate::derive::abbr_eq(
            board[j].away.abbr@,
            favs[i].team_abbr@,
        ) || crate::derive::abbr_eq(board[j].home.abbr@, favs[i].team_abbr@));
    assert(0 <= j < board.len() && board[j].id@ == id && (forall|k: int| 0 <= k < j ==> board[k].id@ != id));
}

} // verus!
