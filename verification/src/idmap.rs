//! A small map from game ids to copyable values — score memories, flash
//! ticks, cooldowns — modelled as an association list read first-match.
//!
//! `put` replaces the first entry for a key or appends one, so an id never
//! occurs twice and the list reads as a map.
use vstd::prelude::*;
use crate::text::{owned, str_eq, string_views};

verus! {

/// The index of the first of the first `n` entries whose key is `k`.
pub open spec fn find_upto<V>(e: Seq<(Seq<char>, V)>, k: Seq<char>, n: int) -> Option<int>
    decreases n,
{
    if n <= 0 {
        None
    } else {
        match find_upto(e, k, n - 1) {
            Some(i) => Some(i),
            None => if e[n - 1].0 == k {
                Some(n - 1)
            } else {
                None
            },
        }
    }
}

/// The index of the entry for `k`.
pub open spec fn find_key<V>(e: Seq<(Seq<char>, V)>, k: Seq<char>) -> Option<int> {
    find_upto(e, k, e.len() as int)
}

/// The value stored for `k`.
pub open spec fn get_spec<V>(e: Seq<(Seq<char>, V)>, k: Seq<char>) -> Option<V> {
    match find_key(e, k) {
        Some(i) => Some(e[i].1),
        None => None,
    }
}

/// `e` with `k` set to `v`: the entry replaced in place, or appended.
pub open spec fn put_spec<V>(e: Seq<(Seq<char>, V)>, k: Seq<char>, v: V) -> Seq<(Seq<char>, V)> {
    match find_key(e, k) {
        Some(i) => e.update(i, (k, v)),
        None => e.push((k, v)),
    }
}

/// The first `n` entries whose key is one of `ids`, in order.
pub open spec fn keep_upto<V>(e: Seq<(Seq<char>, V)>, ids: Seq<Seq<char>>, n: int) -> Seq<(Seq<char>, V)>
    decreases n,
{
    if n <= 0 {
        Seq::empty()
    } else if ids.contains(e[n - 1].0) {
        keep_upto(e, ids, n - 1).push(e[n - 1])
    } else {
        keep_upto(e, ids, n - 1)
    }
}

/// `e` without the entries whose key is not one of `ids`.
pub open spec fn keep_spec<V>(e: Seq<(Seq<char>, V)>, ids: Seq<Seq<char>>) -> Seq<(Seq<char>, V)> {
    keep_upto(e, ids, e.len() as int)
}

pub proof fn lemma_find_upto<V>(e: Seq<(Seq<char>, V)>, k: Seq<char>, a: int, b: int)
    requires
        0 <= a <= b <= e.len(),
    ensures
        find_upto(e, k, a) is Some ==> find_upto(e, k, b) == find_upto(e, k, a),
        match find_upto(e, k, b) {
            Some(i) => 0 <= i < b && e[i].0 == k,
            None => forall|j: int| 0 <= j < b ==> e[j].0 != k,
        },
    decreases b,
{
    if b > 0 {
        if a < b {
            lemma_find_upto(e, k, a, b - 1);
        } else {
            lemma_find_upto(e, k, b - 1, b - 1);
        }
    }
}

/// Ids mapped to copyable values.
pub struct IdMap<V> {
    keys: Vec<String>,
    vals: Vec<V>,
}

impl<V: Copy> IdMap<V> {
    /// The entries, in insertion order.
    pub closed spec fn entries(&self) -> Seq<(Seq<char>, V)> {
        Seq::new(self.keys@.len(), |i: int| (self.keys@[i]@, self.vals@[i]))
    }

    pub closed spec fn wf(&self) -> bool {
        self.keys@.len() == self.vals@.len()
    }

    pub fn new() -> (m: Self)
        ensures
            m.wf(),
            m.entries() == Seq::<(Seq<char>, V)>::empty(),
    {
        let m = IdMap { keys: Vec::new(), vals: Vec::new() };
        assert(m.entries() =~= Seq::<(Seq<char>, V)>::empty());
        m
    }

    fn find(&self, k: &str) -> (r: Option<usize>)
        requires
            self.wf(),
        ensures
            match (r, find_key(self.entries(), k@)) {
                (Some(i), Some(j)) => i == j && i < self.keys@.len(),
                (None, None) => true,
                _ => false,
            },
    {
        let ghost e = self.entries();
        let mut i: usize = 0;
        while i < self.keys.len()
            invariant
                i <= self.keys@.len(),
                self.wf(),
                e == self.entries(),
                find_upto(e, k@, i as int) is None,
            decreases self.keys@.len() - i,
        {
            if str_eq(self.keys[i].as_str(), k) {
                proof {
                    assert(e[i as int].0 == k@);
                    lemma_find_upto(e, k@, i + 1, e.len() as int);
                }
                return Some(i);
            }
            i += 1;
        }
        None
    }

    /// How many ids are remembered.
    pub fn len(&self) -> (n: usize)
        requires
            self.wf(),
        ensures
            n == self.entries().len(),
    {
        self.keys.len()
    }

    /// The key of entry `i`.
    pub fn key_at(&self, i: usize) -> (k: &String)
        requires
            self.wf(),
            i < self.entries().len(),
        ensures
            k@ == self.entries()[i as int].0,
    {
        &self.keys[i]
    }

    /// The value of entry `i`.
    pub fn value_at(&self, i: usize) -> (v: V)
        requires
            self.wf(),
            i < self.entries().len(),
        ensures
            v == self.entries()[i as int].1,
    {
        self.vals[i]
    }

    /// The value stored for `k`.
    pub fn get(&self, k: &str) -> (r: Option<V>)
        requires
            self.wf(),
        ensures
            r == get_spec(self.entries(), k@),
    {
        match self.find(k) {
            Some(i) => Some(self.vals[i]),
            None => None,
        }
    }

    /// Sets `k` to `v`, handing back what it held before.
    pub fn put(&mut self, k: &str, v: V) -> (prev: Option<V>)
        requires
            old(self).wf(),
        ensures
            final(self).wf(),
            prev == get_spec(old(self).entries(), k@),
            final(self).entries() == put_spec(old(self).entries(), k@, v),
    {
        match self.find(k) {
            Some(i) => {
                let prev = self.vals[i];
                let ghost e0 = self.entries();
                proof {
                    lemma_find_upto(e0, k@, 0, e0.len() as int);
                }
                self.vals.set(i, v);
                assert forall|j: int| 0 <= j < e0.len() implies self.entries()[j] == e0.update(i as int, (k@, v))[j] by {
                    assert(self.keys@[j] == old(self).keys@[j]);
                }
                assert(self.entries() =~= e0.update(i as int, (k@, v)));
                Some(prev)
            },
            None => {
                let ghost e0 = self.entries();
                self.keys.push(owned(k));
                self.vals.push(v);
                assert forall|j: int| 0 <= j < e0.len() implies self.entries()[j] == e0[j] by {
                    assert(self.keys@[j] == old(self).keys@[j]);
                    assert(self.vals@[j] == old(self).vals@[j]);
                }
                assert(self.entries()[e0.len() as int] == (k@, v));
                assert(self.entries() =~= e0.push((k@, v)));
                None
            },
        }
    }

    /// Drops every entry whose key is not one of `ids`.
    pub fn keep_only(&mut self, ids: &Vec<String>)
        requires
            old(self).wf(),
        ensures
            final(self).wf(),
            final(self).entries() == keep_spec(old(self).entries(), string_views(ids@)),
    {
        let ghost e = self.entries();
        let ghost idv = string_views(ids@);
        let mut keys: Vec<String> = Vec::new();
        let mut vals: Vec<V> = Vec::new();
        let mut i: usize = 0;
        while i < self.keys.len()
            invariant
                i <= self.keys@.len(),
                self.wf(),
                e == self.entries(),
                idv == string_views(ids@),
                keys@.len() == vals@.len(),
                Seq::new(keys@.len(), |j: int| (keys@[j]@, vals@[j])) == keep_upto(e, idv, i as int),
            decreases self.keys@.len() - i,
        {
            let mut found = false;
            let mut j: usize = 0;
            while j < ids.len()
                invariant
                    j <= ids@.len(),
                    i < self.keys@.len(),
                    found <==> exists|m: int| 0 <= m < j && ids@[m]@ == self.keys@[i as int]@,
                decreases ids@.len() - j,
            {
                if ids[j] == self.keys[i] {
                    found = true;
                }
                j += 1;
            }
            proof {
                if found {
                    let m = choose|m: int| 0 <= m < ids@.len() && ids@[m]@ == self.keys@[i as int]@;
                    assert(idv[m] == e[i as int].0);
                } else {
                    assert forall|m: int| 0 <= m < idv.len() implies idv[m] != e[i as int].0 by {
                        assert(idv[m] == ids@[m]@);
                    }
                }
            }
            let ghost before = Seq::new(keys@.len(), |j: int| (keys@[j]@, vals@[j]));
            if found {
                keys.push(self.keys[i].clone());
                vals.push(self.vals[i]);
                assert(Seq::new(keys@.len(), |j: int| (keys@[j]@, vals@[j])) =~= before.push(e[i as int]));
            }
            i += 1;
        }
        self.keys = keys;
        self.vals = vals;
    }
}

/// Of the first `n` entries, those stamped less than `window` ticks before
/// `now` (a stamp after `now` counts as no time at all), in order.
pub open spec fn recent_upto(e: Seq<(Seq<char>, u64)>, now: u64, window: u64, n: int) -> Seq<(Seq<char>, u64)>
    decreases n,
{
    if n <= 0 {
        Seq::empty()
    } else if (if now >= e[n - 1].1 {
        now - e[n - 1].1
    } else {
        0
    }) < window {
        recent_upto(e, now, window, n - 1).push(e[n - 1])
    } else {
        recent_upto(e, now, window, n - 1)
    }
}

impl IdMap<u64> {
    /// Keeps the entries stamped less than `window` ticks before `now`.
    pub fn keep_recent(&mut self, now: u64, window: u64)
        requires
            old(self).wf(),
        ensures
            final(self).wf(),
            final(self).entries() == recent_upto(old(self).entries(), now, window, old(self).entries().len() as int),
    {
        let ghost e = self.entries();
        let mut keys: Vec<String> = Vec::new();
        let mut vals: Vec<u64> = Vec::new();
        let mut i: usize = 0;
        while i < self.keys.len()
            invariant
                i <= self.keys@.len(),
                self.wf(),
                e == self.entries(),
                keys@.len() == vals@.len(),
                Seq::new(keys@.len(), |j: int| (keys@[j]@, vals@[j])) == recent_upto(e, now, window, i as int),
            decreases self.keys@.len() - i,
        {
            let ghost before = Seq::new(keys@.len(), |j: int| (keys@[j]@, vals@[j]));
            if now.saturating_sub(self.vals[i]) < window {
                keys.push(self.keys[i].clone());
                vals.push(self.vals[i]);
                assert(Seq::new(keys@.len(), |j: int| (keys@[j]@, vals@[j])) =~= before.push(e[i as int]));
            } else {
                assert(Seq::new(keys@.len(), |j: int| (keys@[j]@, vals@[j])) =~= before);
            }
            i += 1;
        }
        self.keys = keys;
        self.vals = vals;
    }
}

} // verus!
