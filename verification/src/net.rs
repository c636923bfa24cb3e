//! Connection truth: one small state machine that answers "is what you are
//! looking at real right now?" — the header chip, the footer's freshness
//! label and the board's offline message all read it, so they can never
//! disagree.
//!
//! Time here is a monotonic clock in milliseconds: a wall-clock jump must
//! not turn a fresh board stale or a stale board fresh.
use vstd::prelude::*;
use crate::text::{append, append_dec, dec, owned};

verus! {

/// What the header chip says. `Live` is the silent state — the tiles already
/// say LIVE, so a chip there would be noise.
#[derive(Debug, Clone, PartialEq, Eq)]
pub enum NetChip {
    NoDataYet,
    Live,
    /// `age` in milliseconds since the last board.
    Stale { age: u64 },
    /// `retry_in` in milliseconds until the scheduler's next attempt.
    Offline { retry_in: Option<u64>, error: String },
}

/// "12s" under a minute, whole minutes past it.
pub open spec fn short_age_spec(secs: nat) -> Seq<char> {
    if secs < 60 {
        dec(secs) + "s"@
    } else {
        dec(secs / 60) + "m"@
    }
}

/// The chip's text; nothing while `Live`.
pub open spec fn chip_label_spec(c: NetChip) -> Option<Seq<char>> {
    match c {
        NetChip::Live => None,
        NetChip::NoDataYet => Some("NO DATA YET"@),
        NetChip::Stale { age } => Some("STALE "@ + short_age_spec((age / 1000) as nat)),
        NetChip::Offline { retry_in, error } => Some(
            match retry_in {
                Some(d) => "OFFLINE · retry "@ + short_age_spec((d / 1000) as nat),
                None => "OFFLINE"@,
            },
        ),
    }
}

/// The same age shape everywhere an age or a delay is rendered.
pub fn short_age(secs: u64) -> (s: String)
    ensures
        s@ == short_age_spec(secs as nat),
{
    let mut out = String::new();
    if secs < 60 {
        append_dec(&mut out, secs);
        append(&mut out, "s");
    } else {
        append_dec(&mut out, secs / 60);
        append(&mut out, "m");
    }
    out
}

impl NetChip {
    /// The chip's text, or None while `Live` (nothing to say).
    pub fn label(&self) -> (r: Option<String>)
        ensures
            r.is_some() == chip_label_spec(*self).is_some(),
            r.is_some() ==> r.unwrap()@ == chip_label_spec(*self).unwrap(),
    {
        match self {
            NetChip::Live => None,
            NetChip::NoDataYet => Some(owned("NO DATA YET")),
            NetChip::Stale { age } => {
                let mut out = owned("STALE ");
                let a = short_age(*age / 1000);
                append(&mut out, a.as_str());
                Some(out)
            },
            NetChip::Offline { retry_in, .. } => match retry_in {
                Some(d) => {
                    let mut out = owned("OFFLINE · retry ");
                    let a = short_age(*d / 1000);
                    append(&mut out, a.as_str());
                    Some(out)
                },
                None => Some(owned("OFFLINE")),
            },
        }
    }

    /// The shortest honest form of the chip, for a header with no room for
    /// the full one: only the retry detail is droppable.
    pub fn short_label(&self) -> (r: Option<String>)
        ensures
            match *self {
                NetChip::Offline { .. } => r.is_some() && r.unwrap()@ == "OFFLINE"@,
                _ => r.is_some() == chip_label_spec(*self).is_some() && (r.is_some() ==> r.unwrap()@
                    == chip_label_spec(*self).unwrap()),
            },
    {
        match self {
            NetChip::Offline { .. } => Some(owned("OFFLINE")),
            _ => self.label(),
        }
    }
}

/// Every successful apply and every failed fetch, reduced to the four chip
/// states. `new()` is "the app just started and has never seen a board".
#[derive(Debug, Clone)]
pub struct NetStatus {
    /// When the last board was applied, fresh or from cache.
    last_ok: Option<u64>,
    /// Whether that last apply was served from the on-disk cache.
    last_ok_stale: bool,
    /// The last failure: when, the provider's short error, and the retry delay.
    last_err: Option<(u64, String, Option<u64>)>,
}

/// `now - t`, or 0 for a `t` in the future.
pub open spec fn since(now: u64, t: u64) -> u64 {
    if now >= t { (now - t) as u64 } else { 0 }
}

impl NetStatus {
    pub closed spec fn last_ok_at(self) -> Option<u64> {
        self.last_ok
    }

    pub closed spec fn last_ok_from_cache(self) -> bool {
        self.last_ok_stale
    }

    pub closed spec fn last_failure(self) -> Option<(u64, String, Option<u64>)> {
        self.last_err
    }

    pub closed spec fn seen_a_board(self) -> bool {
        self.last_ok.is_some()
    }

    /// The age of the last board at `now` (0 before any).
    pub open spec fn age_spec(self, now: u64) -> u64 {
        match self.last_ok_at() {
            Some(t) => since(now, t),
            None => 0,
        }
    }

    /// "Live" is the narrow claim: the last event was a fresh board younger
    /// than the caller's staleness threshold.
    pub open spec fn fresh_spec(self, now: u64, stale_after: u64) -> bool {
        self.seen_a_board() && !self.last_ok_from_cache() && self.age_spec(now) < stale_after
    }

    /// The chip at `now`. A failure outranks the board it followed unless a
    /// fresh board is still standing behind it; with no board at all, the
    /// failure is the only thing known.
    pub open spec fn chip_spec(self, now: u64, stale_after: u64) -> NetChip {
        let fresh = self.fresh_spec(now, stale_after);
        match self.last_failure() {
            Some((at, error, retry_in)) if !fresh && (self.last_ok_at().is_none()
                || at >= self.last_ok_at().unwrap()) => NetChip::Offline { retry_in, error },
            _ => if !self.seen_a_board() {
                NetChip::NoDataYet
            } else if fresh {
                NetChip::Live
            } else {
                NetChip::Stale { age: self.age_spec(now) }
            },
        }
    }

    /// Nothing seen yet.
    pub fn new() -> (s: NetStatus)
        ensures
            s.last_ok_at().is_none(),
            s.last_failure().is_none(),
            !s.seen_a_board(),
            !s.last_ok_from_cache(),
    {
        NetStatus { last_ok: None, last_ok_stale: false, last_err: None }
    }

    /// A board was applied at `now`. `stale` means it was served from cache,
    /// which is instantly a `Stale` chip however recent the apply is.
    pub fn ok(&mut self, now: u64, stale: bool)
        ensures
            final(self).last_ok_at() == Some(now),
            final(self).last_ok_from_cache() == stale,
            final(self).seen_a_board(),
            final(self).last_failure() == old(self).last_failure(),
    {
        self.last_ok = Some(now);
        self.last_ok_stale = stale;
    }

    /// A scoreboard fetch failed at `now`. `retry_in` is the delay the
    /// scheduler has already picked, so the chip can name the next attempt.
    pub fn failed(&mut self, now: u64, error: String, retry_in: Option<u64>)
        ensures
            final(self).last_failure() == Some((now, error, retry_in)),
            final(self).last_ok_at() == old(self).last_ok_at(),
            final(self).last_ok_from_cache() == old(self).last_ok_from_cache(),
            final(self).seen_a_board() == old(self).seen_a_board(),
    {
        self.last_err = Some((now, error, retry_in));
    }

    /// What the header chip says at `now`, given the cadence-derived
    /// staleness threshold.
    pub fn chip(&self, now: u64, stale_after: u64) -> (c: NetChip)
        ensures
            c == self.chip_spec(now, stale_after),
    {
        let age: u64 = match self.last_ok {
            Some(t) => if now >= t { now - t } else { 0 },
            None => 0,
        };
        let fresh = self.last_ok.is_some() && !self.last_ok_stale && age < stale_after;
        if let Some((at, error, retry_in)) = &self.last_err {
            let after_board = match self.last_ok {
                None => true,
                Some(t) => *at >= t,
            };
            if !fresh && after_board {
                return NetChip::Offline { retry_in: *retry_in, error: error.clone() };
            }
        }
        if self.last_ok.is_none() {
            return NetChip::NoDataYet;
        }
        if fresh {
            NetChip::Live
        } else {
            NetChip::Stale { age }
        }
    }

    /// The footer's freshness age: "UPD 12s" while live, and frozen with a
    /// trailing ` ·` while stale or offline. None before first data.
    pub fn upd_label(&self, now: u64, stale_after: u64) -> (r: Option<String>)
        ensures
            match self.last_ok_at() {
                None => r.is_none(),
                Some(t) => r.is_some() && r.unwrap()@ == "UPD "@ + short_age_spec((since(now, t) / 1000) as nat) + (
                if self.chip_spec(now, stale_after) == NetChip::Live {
                    Seq::<char>::empty()
                } else {
                    " ·"@
                }),
            },
    {
        let last_ok = match self.last_ok {
            Some(t) => t,
            None => return None,
        };
        let secs: u64 = (if now >= last_ok { now - last_ok } else { 0 }) / 1000;
        let mut label = owned("UPD ");
        let a = short_age(secs);
        append(&mut label, a.as_str());
        match self.chip(now, stale_after) {
            NetChip::Live => {
                assert(label@ =~= "UPD "@ + short_age_spec(secs as nat) + Seq::<char>::empty());
            },
            _ => append(&mut label, " ·"),
        }
        Some(label)
    }
}

/// A fresh apply reads `Live` for as long as it is younger than the
/// threshold, whatever failed before it.
pub proof fn lemma_fresh_apply_is_live(s: NetStatus, now: u64, later: u64, stale_after: u64)
    requires
        s.last_ok_at() == Some(now),
        !s.last_ok_from_cache(),
        s.seen_a_board(),
        now <= later,
        later - now < stale_after,
    ensures
        s.chip_spec(later, stale_after) == NetChip::Live,
{
}

/// A cached apply is never `Live`, however recent.
pub proof fn lemma_cached_apply_is_never_live(s: NetStatus, now: u64, stale_after: u64)
    requires
        s.last_ok_from_cache(),
    ensures
        s.chip_spec(now, stale_after) != NetChip::Live,
{
}

/// A failure that lands after the last board, once that board is no longer
/// fresh, is the chip: `Offline`, naming the failure and its retry delay.
pub proof fn lemma_failure_after_board_is_offline(
    s: NetStatus,
    at: u64,
    error: String,
    retry_in: Option<u64>,
    now: u64,
    stale_after: u64,
)
    requires
        s.last_failure() == Some((at, error, retry_in)),
        s.last_ok_at().is_none() || at >= s.last_ok_at().unwrap(),
        !s.fresh_spec(now, stale_after),
    ensures
        s.chip_spec(now, stale_after) == (NetChip::Offline { retry_in, error }),
{
}

/// Before the first board the chip is `NoDataYet` or a failure, and never
/// claims live or stale data.
pub proof fn lemma_no_board_no_data(s: NetStatus, now: u64, stale_after: u64)
    requires
        !s.seen_a_board(),
    ensures
        s.chip_spec(now, stale_after) is NoDataYet || s.chip_spec(now, stale_after) is Offline,
{
}

impl Default for NetStatus {
    /// Nothing seen yet: the same as [`NetStatus::new`].
    fn default() -> (s: NetStatus)
        ensures
            s.last_ok_at().is_none(),
            s.last_failure().is_none(),
            !s.seen_a_board(),
            !s.last_ok_from_cache(),
    {
        NetStatus::new()
    }
}

/// A status has seen a board exactly when it holds the time of the last
/// one: whatever `new`, `ok` and `failed` have done to it.
pub proof fn lemma_seen_iff_last_ok(n: NetStatus)
    ensures
        n.seen_a_board() <==> n.last_ok_at().is_some(),
{
}

/// A failure outranks only the board it followed: once a board was
/// applied after the last failure (or with none at all), the chip is never
/// `Offline` — it is `Live` while that board is a fresh one younger than
/// the threshold, else `Stale` with the board's age.
pub proof fn lemma_board_after_failure_is_never_offline(s: NetStatus, now: u64, stale_after: u64)
    ensures
        match s.last_ok_at() {
            Some(t) => (match s.last_failure() {
                Some(f) => f.0 < t,
                None => true,
            }) ==> s.chip_spec(now, stale_after) == if !s.last_ok_from_cache() && since(now, t) < stale_after {
                NetChip::Live
            } else {
                NetChip::Stale { age: since(now, t) }
            },
            None => true,
        },
{
}

} // verus!
