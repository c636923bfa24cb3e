//! TV mode's state: the game on screen, and the lock that holds it. The
//! slate is every live game of the board's MY GAMES and IN PLAY sections, in
//! that order; `n` walks it, data arrival re-anchors to it, and an event
//! follows the board's hero unless a lock holds.
use vstd::prelude::*;
use crate::app::LIVE_TICKS_PER_SEC;
use crate::domain::{Game, Status};
use crate::text::str_eq;

verus! {

broadcast use vstd::seq_lib::group_seq_properties;

/// The cut stays off for the first half-minute of a session: the boards
/// arrive with history.
pub const CUT_QUIET_SECS: u64 = 30;

/// What TV shows, and whether it is locked there.
#[derive(Clone, Debug, PartialEq, Eq, Default)]
pub struct TvState {
    /// The game an event or `n` last put on screen.
    pub shown: Option<String>,
    /// A game `space` locked on; events do not cut away from it.
    pub lock: Option<String>,
}

/// An id as text.
pub open spec fn opt_id(o: Option<String>) -> Option<Seq<char>> {
    match o {
        Some(s) => Some(s@),
        None => None,
    }
}

/// The live games among `idx`, in order.
pub open spec fn live_of(vis: Seq<Game>, idx: Seq<usize>) -> Seq<usize> {
    idx.filter(|i: usize| vis[i as int].status == Status::Live)
}

/// Every index is a visible game.
pub open spec fn all_in(idx: Seq<usize>, n: int) -> bool {
    forall|k: int| 0 <= k < idx.len() ==> #[trigger] idx[k] < n
}

/// The ids of the slate's games.
pub open spec fn ids_of(vis: Seq<Game>, slate: Seq<usize>) -> Seq<Seq<char>> {
    slate.map_values(|i: usize| vis[i as int].id@)
}

/// The hero's id, when there is a hero.
pub open spec fn hero_id(vis: Seq<Game>, hero: Option<usize>) -> Option<Seq<char>> {
    match hero {
        Some(h) => Some(vis[h as int].id@),
        None => None,
    }
}

/// The slate `n` walks: the live games of MY GAMES, then of IN PLAY.
pub fn tv_slate(vis: &Vec<Game>, my_games: &Vec<usize>, in_play: &Vec<usize>) -> (r: Vec<usize>)
    requires
        all_in(my_games@, vis@.len() as int),
        all_in(in_play@, vis@.len() as int),
    ensures
        r@ == live_of(vis@, my_games@ + in_play@),
        all_in(r@, vis@.len() as int),
{
    let ghost keep = |i: usize| vis@[i as int].status == Status::Live;
    let mut r: Vec<usize> = Vec::new();
    let mut k: usize = 0;
    while k < my_games.len()
        invariant
            k <= my_games@.len(),
            all_in(my_games@, vis@.len() as int),
            r@ == live_of(vis@, my_games@.take(k as int)),
            all_in(r@, vis@.len() as int),
        decreases my_games@.len() - k,
    {
        let i = my_games[k];
        proof {
            reveal_with_fuel(Seq::<_>::filter, 1);
            assert(my_games@.take(k + 1).drop_last() =~= my_games@.take(k as int));
            assert(my_games@.take(k + 1).last() == i);
        }
        if vis[i].status == Status::Live {
            r.push(i);
        }
        k += 1;
    }
    assert(my_games@.take(my_games@.len() as int) =~= my_games@);
    let ghost head = r@;
    let mut k: usize = 0;
    while k < in_play.len()
        invariant
            k <= in_play@.len(),
            all_in(in_play@, vis@.len() as int),
            head == live_of(vis@, my_games@),
            r@ == head + live_of(vis@, in_play@.take(k as int)),
            all_in(r@, vis@.len() as int),
        decreases in_play@.len() - k,
    {
        let i = in_play[k];
        proof {
            reveal_with_fuel(Seq::<_>::filter, 1);
            assert(in_play@.take(k + 1).drop_last() =~= in_play@.take(k as int));
            assert(in_play@.take(k + 1).last() == i);
        }
        if vis[i].status == Status::Live {
            r.push(i);
        }
        k += 1;
    }
    assert(in_play@.take(in_play@.len() as int) =~= in_play@);
    proof {
        Seq::filter_distributes_over_add(my_games@, in_play@, keep);
        assert(live_of(vis@, my_games@ + in_play@) == (my_games@ + in_play@).filter(keep));
    }
    r
}

/// The first place on the slate holding `id`.
pub open spec fn position(ids: Seq<Seq<char>>, id: Seq<char>) -> Option<int> {
    if ids.contains(id) {
        Some(ids.index_of_first(id)->0)
    } else {
        None
    }
}

fn find_on_slate(vis: &Vec<Game>, slate: &Vec<usize>, id: &String) -> (r: Option<usize>)
    requires
        all_in(slate@, vis@.len() as int),
    ensures
        match r {
            Some(k) => position(ids_of(vis@, slate@), id@) == Some(k as int) && k < slate@.len(),
            None => position(ids_of(vis@, slate@), id@) is None,
        },
{
    let ghost ids = ids_of(vis@, slate@);
    let mut k: usize = 0;
    while k < slate.len()
        invariant
            k <= slate@.len(),
            ids == ids_of(vis@, slate@),
            all_in(slate@, vis@.len() as int),
            forall|j: int| 0 <= j < k ==> ids[j] != id@,
        decreases slate@.len() - k,
    {
        if str_eq(vis[slate[k]].id.as_str(), id.as_str()) {
            proof {
                ids.index_of_first_ensures(id@);
                assert(ids[k as int] == id@);
                assert(ids.contains(id@));
            }
            return Some(k);
        }
        k += 1;
    }
    proof {
        ids.index_of_first_ensures(id@);
        if ids.contains(id@) {
            let j = choose|j: int| 0 <= j < ids.len() && ids[j] == id@;
            assert(ids[j] == id@);
        }
    }
    None
}

/// What TV shows: the shown game while it is on the slate, else the hero
/// while it is, else nothing.
pub open spec fn shown_in_spec(shown: Option<Seq<char>>, hero: Option<Seq<char>>, ids: Seq<Seq<char>>) -> Option<Seq<char>> {
    match shown {
        Some(s) if ids.contains(s) => Some(s),
        _ => match hero {
            Some(h) if ids.contains(h) => Some(h),
            _ => None,
        },
    }
}

/// The id that `n` moves to: the one after the shown game on the slate,
/// wrapping, or the slate's first when nothing on it is shown.
pub open spec fn step_target(shown: Option<Seq<char>>, hero: Option<Seq<char>>, ids: Seq<Seq<char>>) -> Seq<char> {
    match shown_in_spec(shown, hero, ids) {
        Some(s) => ids[(position(ids, s)->0 + 1) % ids.len() as int],
        None => ids[0],
    }
}

impl TvState {
    /// The game on screen; see [`shown_in_spec`].
    pub fn shown_in(&self, vis: &Vec<Game>, slate: &Vec<usize>, hero: Option<usize>) -> (r: Option<String>)
        requires
            all_in(slate@, vis@.len() as int),
            hero matches Some(h) ==> h < vis@.len(),
        ensures
            opt_id(r) == shown_in_spec(opt_id(self.shown), hero_id(vis@, hero), ids_of(vis@, slate@)),
    {
        let ghost ids = ids_of(vis@, slate@);
        if let Some(s) = &self.shown {
            if find_on_slate(vis, slate, s).is_some() {
                return Some(s.clone());
            }
        }
        if let Some(h) = hero {
            let id = &vis[h].id;
            if find_on_slate(vis, slate, id).is_some() {
                return Some(id.clone());
            }
        }
        None
    }

    /// `n`: the next live game after the shown one, wrapping; a lock
    /// travels with it. Nothing happens on an empty slate.
    pub fn step(&mut self, vis: &Vec<Game>, slate: &Vec<usize>, hero: Option<usize>)
        requires
            all_in(slate@, vis@.len() as int),
            hero matches Some(h) ==> h < vis@.len(),
        ensures
            slate@.len() == 0 ==> *final(self) == *old(self),
            slate@.len() > 0 ==> {
                let next = step_target(opt_id(old(self).shown), hero_id(vis@, hero), ids_of(vis@, slate@));
                &&& opt_id(final(self).shown) == Some(next)
                &&& opt_id(final(self).lock) == if old(self).lock is Some {
                    Some(next)
                } else {
                    None
                }
            },
    {
        if slate.len() == 0 {
            return;
        }
        let ghost ids = ids_of(vis@, slate@);
        let at = match self.shown_in(vis, slate, hero) {
            Some(id) => find_on_slate(vis, slate, &id),
            None => None,
        };
        let k: usize = match at {
            Some(a) => if a + 1 < slate.len() {
                a + 1
            } else {
                0
            },
            None => 0,
        };
        proof {
            match shown_in_spec(opt_id(self.shown), hero_id(vis@, hero), ids) {
                Some(s) => {
                    ids.index_of_first_ensures(s);
                    let p = position(ids, s)->0;
                    assert(0 <= p < ids.len());
                    if p + 1 < ids.len() {
                        vstd::arithmetic::div_mod::lemma_small_mod((p + 1) as nat, ids.len());
                    } else {
                        vstd::arithmetic::div_mod::lemma_mod_self_0(ids.len() as int);
                    }
                    assert(k == (p + 1) % ids.len() as int);
                },
                None => {},
            }
        }
        let next = vis[slate[k]].id.clone();
        if self.lock.is_some() {
            self.lock = Some(next.clone());
        }
        self.shown = Some(next);
    }

    /// `space`: lock on the game on screen, or let go of the lock.
    pub fn toggle_lock(&mut self, vis: &Vec<Game>, slate: &Vec<usize>, hero: Option<usize>)
        requires
            all_in(slate@, vis@.len() as int),
            hero matches Some(h) ==> h < vis@.len(),
        ensures
            final(self).shown == old(self).shown,
            opt_id(final(self).lock) == if old(self).lock is Some {
                None
            } else {
                shown_in_spec(opt_id(old(self).shown), hero_id(vis@, hero), ids_of(vis@, slate@))
            },
    {
        self.lock = match self.lock {
            Some(_) => None,
            None => self.shown_in(vis, slate, hero),
        };
    }

    /// After an event re-ranked the board: TV (when it is showing and not
    /// locked) cuts to the hero. Nothing else moves the shown game on its own.
    pub fn follow(&mut self, vis: &Vec<Game>, tv_view: bool, hero: Option<usize>)
        requires
            hero matches Some(h) ==> h < vis@.len(),
        ensures
            final(self).lock == old(self).lock,
            opt_id(final(self).shown) == if tv_view && old(self).lock is None && hero is Some {
                hero_id(vis@, hero)
            } else {
                opt_id(old(self).shown)
            },
    {
        if !tv_view || self.lock.is_some() {
            return;
        }
        if let Some(h) = hero {
            self.shown = Some(vis[h].id.clone());
        }
    }

    /// On data arrival, in TV: a lock whose game left the slate lets go,
    /// and a shown game that left it (with no lock) falls back to the hero.
    pub fn hygiene(&mut self, vis: &Vec<Game>, slate: &Vec<usize>, tv_view: bool, hero: Option<usize>)
        requires
            all_in(slate@, vis@.len() as int),
            hero matches Some(h) ==> h < vis@.len(),
        ensures
            ({
                let ids = ids_of(vis@, slate@);
                let gone = |o: Option<String>| o matches Some(x) && !ids.contains(x@);
                let lock = if tv_view && gone(old(self).lock) {
                    None
                } else {
                    opt_id(old(self).lock)
                };
                &&& opt_id(final(self).lock) == lock
                &&& opt_id(final(self).shown) == if tv_view && gone(old(self).shown) && lock is None {
                    hero_id(vis@, hero)
                } else {
                    opt_id(old(self).shown)
                }
            }),
            tv_view ==> (final(self).lock matches Some(x) ==> ids_of(vis@, slate@).contains(x@)),
            tv_view && final(self).lock is None && (hero matches Some(h) ==> ids_of(vis@, slate@).contains(
                vis@[h as int].id@,
            )) ==> (final(self).shown matches Some(x) ==> ids_of(vis@, slate@).contains(x@)),
    {
        if !tv_view {
            return;
        }
        let lock_gone = match &self.lock {
            Some(id) => find_on_slate(vis, slate, id).is_none(),
            None => false,
        };
        if lock_gone {
            self.lock = None;
        }
        let shown_gone = match &self.shown {
            Some(id) => find_on_slate(vis, slate, id).is_none(),
            None => false,
        };
        if shown_gone && self.lock.is_none() {
            self.shown = match hero {
                Some(h) => Some(vis[h].id.clone()),
                None => None,
            };
        }
    }

    /// Opening TV: the board's hero, unlocked.
    pub fn open(vis: &Vec<Game>, hero: Option<usize>) -> (s: TvState)
        requires
            hero matches Some(h) ==> h < vis@.len(),
        ensures
            opt_id(s.shown) == hero_id(vis@, hero),
            s.lock is None,
    {
        TvState {
            shown: match hero {
                Some(h) => Some(vis[h].id.clone()),
                None => None,
            },
            lock: None,
        }
    }

    /// The game the next event will cut to, when that is not the game on
    /// screen: MY GAMES' top while it is live, else the game the ranking
    /// leads with (`rank_top`, the ranking's answer over IN PLAY), as long
    /// as it is on the slate. None while locked.
    pub fn next_cut(
        &self,
        vis: &Vec<Game>,
        slate: &Vec<usize>,
        my_games: &Vec<usize>,
        hero: Option<usize>,
        rank_top: Option<String>,
    ) -> (r: Option<usize>)
        requires
            all_in(slate@, vis@.len() as int),
            all_in(my_games@, vis@.len() as int),
            hero matches Some(h) ==> h < vis@.len(),
        ensures
            ({
                let ids = ids_of(vis@, slate@);
                let next = if my_games@.len() > 0 && vis@[my_games@[0] as int].status == Status::Live {
                    Some(vis@[my_games@[0] as int].id@)
                } else {
                    opt_id(rank_top)
                };
                let want = match next {
                    Some(n) if self.lock is None && Some(n) != shown_in_spec(
                        opt_id(self.shown),
                        hero_id(vis@, hero),
                        ids,
                    ) => match position(ids, n) {
                        Some(p) => Some(slate@[p]),
                        None => None,
                    },
                    _ => None,
                };
                r == want
            }),
    {
        if self.lock.is_some() {
            return None;
        }
        let next: String = if my_games.len() > 0 && vis[my_games[0]].status == Status::Live {
            vis[my_games[0]].id.clone()
        } else {
            match rank_top {
                Some(t) => t,
                None => {
                    return None;
                },
            }
        };
        let shown = self.shown_in(vis, slate, hero);
        if let Some(s) = &shown {
            if str_eq(s.as_str(), next.as_str()) {
                return None;
            }
        }
        match find_on_slate(vis, slate, &next) {
            Some(k) => Some(slate[k]),
            None => None,
        }
    }
}

/// Whether the cut is held back: the session's first half-minute, an open
/// prompt (or a config field being typed), the help overlay, or the theme
/// picker's preview.
pub fn cut_suppressed(tick: u64, typing: bool, help_open: bool, editing: bool, theme_picker: bool) -> (r: bool)
    ensures
        r == (tick < CUT_QUIET_SECS * LIVE_TICKS_PER_SEC || typing || help_open || editing || theme_picker),
{
    tick < CUT_QUIET_SECS * LIVE_TICKS_PER_SEC || typing || help_open || editing || theme_picker
}

/// `n` never leaves the slate: on a slate with any game, the game it moves
/// to is one of the slate's.
pub proof fn lemma_step_stays_on_slate(shown: Option<Seq<char>>, hero: Option<Seq<char>>, ids: Seq<Seq<char>>)
    requires
        ids.len() > 0,
    ensures
        ids.contains(step_target(shown, hero, ids)),
{
    match shown_in_spec(shown, hero, ids) {
        Some(s) => {
            ids.index_of_first_ensures(s);
            let p = position(ids, s)->0;
            let q = (p + 1) % ids.len() as int;
            assert(0 <= q < ids.len());
            assert(ids[q] == step_target(shown, hero, ids));
        },
        None => {
            assert(ids[0] == step_target(shown, hero, ids));
        },
    }
}

/// `n` walks the slate one game at a time: on a slate whose games are
/// distinct, from the game at `p` it moves to the one at `p + 1`, wrapping
/// to the first after the last — so `len` presses visit every live game.
pub proof fn lemma_step_walks_the_slate(hero: Option<Seq<char>>, ids: Seq<Seq<char>>, p: int)
    requires
        ids.no_duplicates(),
        0 <= p < ids.len(),
    ensures
        step_target(Some(ids[p]), hero, ids) == ids[(p + 1) % ids.len() as int],
{
    ids.index_of_first_ensures(ids[p]);
    assert(ids.contains(ids[p]));
    let q = ids.index_of_first(ids[p])->0;
    assert(ids[q] == ids[p]);
    assert(q == p);
}

} // verus!
