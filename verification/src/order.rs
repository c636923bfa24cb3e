//! When IN PLAY re-sorts: each live game's ordering identity — both
//! scores, its status, the hot flag and soccer's on-field count — and the
//! gate that calls a change news only when one of those moved or the set of
//! live games did. A clock that merely advanced is not an event, so between
//! events the order stays frozen.
use vstd::prelude::*;
use crate::domain::{Extras, Game, Status};
use crate::idmap::{find_key, find_upto, get_spec, lemma_find_upto, put_spec, IdMap};

verus! {

/// One live game's ordering identity.
#[derive(Clone, Copy, Debug, PartialEq, Eq)]
pub struct RankFingerprint {
    pub away_score: u16,
    pub home_score: u16,
    pub status: Status,
    pub hot: bool,
    pub men: Option<(u8, u8)>,
}

/// The game's fingerprint, `hot` being its watchability's hot flag.
pub open spec fn fingerprint_spec(g: Game, hot: bool) -> RankFingerprint {
    RankFingerprint {
        away_score: g.away_score,
        home_score: g.home_score,
        status: g.status,
        hot,
        men: match g.extras {
            Extras::Soccer { men, .. } => men,
            _ => None,
        },
    }
}

/// The fingerprints of the first `n` live games, by id; a later game with
/// an id already seen replaces its fingerprint.
pub open spec fn fingerprints_upto(live: Seq<Game>, hot: Seq<bool>, n: int) -> Seq<(Seq<char>, RankFingerprint)>
    decreases n,
{
    if n <= 0 {
        Seq::empty()
    } else {
        put_spec(fingerprints_upto(live, hot, n - 1), live[n - 1].id@, fingerprint_spec(live[n - 1], hot[n - 1]))
    }
}

/// The order moved: the number of live ids changed, or some id's
/// fingerprint is not the one remembered for it.
pub open spec fn order_moved_spec(old: Seq<(Seq<char>, RankFingerprint)>, new: Seq<(Seq<char>, RankFingerprint)>) -> bool {
    new.len() != old.len() || exists|i: int| 0 <= i < new.len() && get_spec(old, (#[trigger] new[i]).0) != Some(new[i].1)
}

fn fingerprint(g: &Game, hot: bool) -> (f: RankFingerprint)
    ensures
        f == fingerprint_spec(*g, hot),
{
    RankFingerprint {
        away_score: g.away_score,
        home_score: g.home_score,
        status: g.status,
        hot,
        men: match &g.extras {
            Extras::Soccer { men, .. } => *men,
            _ => None,
        },
    }
}

/// Fingerprints every live game; `hot` holds each one's hot flag, in order.
pub fn fingerprints(live: &Vec<Game>, hot: &Vec<bool>) -> (m: IdMap<RankFingerprint>)
    requires
        hot@.len() == live@.len(),
    ensures
        m.wf(),
        m.entries() == fingerprints_upto(live@, hot@, live@.len() as int),
{
    let mut m: IdMap<RankFingerprint> = IdMap::new();
    let mut i: usize = 0;
    while i < live.len()
        invariant
            i <= live@.len(),
            hot@.len() == live@.len(),
            m.wf(),
            m.entries() == fingerprints_upto(live@, hot@, i as int),
        decreases live@.len() - i,
    {
        let f = fingerprint(&live[i], hot[i]);
        m.put(live[i].id.as_str(), f);
        i += 1;
    }
    m
}

fn same_fingerprint(a: RankFingerprint, b: RankFingerprint) -> (r: bool)
    ensures
        r == (a == b),
{
    let men_same = match (a.men, b.men) {
        (Some(x), Some(y)) => x.0 == y.0 && x.1 == y.1,
        (None, None) => true,
        _ => false,
    };
    a.away_score == b.away_score && a.home_score == b.home_score && a.status == b.status && a.hot == b.hot
        && men_same
}

/// Whether the live slate moved since the fingerprints `old` were taken.
pub fn order_moved(old: &IdMap<RankFingerprint>, new: &IdMap<RankFingerprint>) -> (r: bool)
    requires
        old.wf(),
        new.wf(),
    ensures
        r == order_moved_spec(old.entries(), new.entries()),
{
    if new.len() != old.len() {
        return true;
    }
    let mut i: usize = 0;
    while i < new.len()
        invariant
            i <= new.entries().len(),
            old.wf(),
            new.wf(),
            forall|j: int| 0 <= j < i ==> get_spec(old.entries(), (#[trigger] new.entries()[j]).0) == Some(new.entries()[j].1),
        decreases new.entries().len() - i,
    {
        let k = new.key_at(i);
        let v = new.value_at(i);
        match old.get(k.as_str()) {
            Some(f) => {
                if !same_fingerprint(f, v) {
                    return true;
                }
            },
            None => {
                return true;
            },
        }
        i += 1;
    }
    false
}

/// No id occurs twice.
pub open spec fn keys_distinct(e: Seq<(Seq<char>, RankFingerprint)>) -> bool {
    forall|i: int, j: int| 0 <= i < e.len() && 0 <= j < e.len() && i != j ==> e[i].0 != e[j].0
}

proof fn lemma_put_distinct(e: Seq<(Seq<char>, RankFingerprint)>, k: Seq<char>, v: RankFingerprint)
    requires
        keys_distinct(e),
    ensures
        keys_distinct(put_spec(e, k, v)),
{
    lemma_find_upto(e, k, 0, e.len() as int);
    match find_key(e, k) {
        Some(i) => {
            let r = e.update(i, (k, v));
            assert forall|a: int, b: int| 0 <= a < r.len() && 0 <= b < r.len() && a != b implies r[a].0 != r[b].0 by {
                if a == i {
                    assert(r[a].0 == e[i].0);
                } else if b == i {
                    assert(r[b].0 == e[i].0);
                }
            }
        },
        None => {},
    }
}

proof fn lemma_fingerprints_distinct(live: Seq<Game>, hot: Seq<bool>, n: int)
    ensures
        keys_distinct(fingerprints_upto(live, hot, n)),
    decreases n,
{
    if n > 0 {
        lemma_fingerprints_distinct(live, hot, n - 1);
        lemma_put_distinct(fingerprints_upto(live, hot, n - 1), live[n - 1].id@, fingerprint_spec(live[n - 1], hot[n - 1]));
    }
}

proof fn lemma_find_distinct(e: Seq<(Seq<char>, RankFingerprint)>, i: int, n: int)
    requires
        keys_distinct(e),
        0 <= i < n <= e.len(),
    ensures
        find_upto(e, e[i].0, n) == Some(i),
    decreases n,
{
    if n - 1 > i {
        lemma_find_distinct(e, i, n - 1);
    } else {
        lemma_find_upto(e, e[i].0, 0, i);
    }
}

/// A clock that merely advanced is not an event: the same live games with
/// the same scores, statuses, hot flags and on-field counts never move the
/// order, however their clocks ran.
pub proof fn lemma_frozen_between_events(live: Seq<Game>, hot: Seq<bool>)
    ensures
        !order_moved_spec(
            fingerprints_upto(live, hot, live.len() as int),
            fingerprints_upto(live, hot, live.len() as int),
        ),
{
    let e = fingerprints_upto(live, hot, live.len() as int);
    lemma_fingerprints_distinct(live, hot, live.len() as int);
    assert forall|i: int| 0 <= i < e.len() implies get_spec(e, (#[trigger] e[i]).0) == Some(e[i].1) by {
        lemma_find_distinct(e, i, e.len() as int);
    }
}

} // verus!
