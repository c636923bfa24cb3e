//! The data merge path: what a fetched board or summary does to the games,
//! the score memory, the flash ticks and the catch-up queue.
//!
//! A score that moves while the scoreboard's last play is not marked scoring
//! queues one catch-up per game; the summary that answers it names the run
//! to cut on — the oldest play whose running score reaches the board's.
use vstd::prelude::*;
use crate::config::{copy_pin, Pin};
use crate::cut::copy_play;
use crate::derive::first_with_id;
use crate::domain::{Extras, Game, League, MatchEvent, PenaltyEvent, Play, Status, Summary};
use crate::idmap::{get_spec, keep_spec, put_spec, recent_upto, IdMap};
use crate::app::{FLASH_TICKS, LIVE_TICKS_PER_SEC};
use crate::text::string_views;

verus! {

broadcast use vstd::seq_lib::group_seq_properties;

/// Summaries one catch-up may spend without learning its run.
pub const CATCHUP_MAX_ATTEMPTS: u8 = 3;

/// The live scoreboard cadence, in seconds.
pub const SCOREBOARD_LIVE_SECS: u64 = 15;

/// The idle scoreboard cadence, in seconds.
pub const SCOREBOARD_IDLE_SECS: u64 = 60;

/// One pending catch-up: a game whose score moved while the scoreboard's
/// last play was not the scoring play.
#[derive(Debug, PartialEq, Eq)]
pub struct CatchupEntry {
    pub league: League,
    pub game_id: String,
    pub seq: u64,
    pub queued_tick: u64,
    /// Summaries already asked for and answered without the run.
    pub attempts: u8,
    /// The (away, home) score this ask is chasing.
    pub target: (u16, u16),
    /// The earliest tick this entry may be asked for again; 0 on first queue.
    pub next_ask_tick: u64,
}

/// What a summary said about the catch-up that asked for it.
#[derive(Debug, PartialEq, Eq)]
pub enum CatchupOutcome {
    /// This run is the one the delta reported: cut on it.
    Cut(Play),
    /// The scoreboard already carried the run: retire the ask quietly.
    Answered,
    /// The play-by-play has not reached the delta yet.
    AskAgain,
}

/// Play identity: feed ids when both sides carry one, else the text.
pub open spec fn same_play_spec(a: Play, b: Play) -> bool {
    if a.id@.len() > 0 && b.id@.len() > 0 {
        a.id@ == b.id@
    } else {
        a.text@ == b.text@
    }
}

/// Play identity: ESPN ids when both sides carry one, else the text (demo
/// and simulated plays have no ids). A real id is never compared against an
/// empty one.
pub fn same_play(a: &Play, b: &Play) -> (r: bool)
    ensures
        r == same_play_spec(*a, *b),
{
    if !a.id.as_str().is_empty() && !b.id.as_str().is_empty() {
        a.id == b.id
    } else {
        a.text == b.text
    }
}

/// Some play of `s` is the same play as `p`.
pub open spec fn has_same(s: Seq<Play>, p: Play) -> bool {
    exists|i: int| 0 <= i < s.len() && same_play_spec(#[trigger] s[i], p)
}

pub fn any_same(s: &Vec<Play>, p: &Play) -> (r: bool)
    ensures
        r == has_same(s@, *p),
{
    let mut i: usize = 0;
    while i < s.len()
        invariant
            i <= s.len(),
            forall|j: int| 0 <= j < i ==> !same_play_spec(#[trigger] s@[j], *p),
        decreases s.len() - i,
    {
        if same_play(&s[i], p) {
            return true;
        }
        i += 1;
    }
    false
}

/// The play's running score has caught up with `target` on both sides.
pub open spec fn reaches(p: Play, target: (u16, u16)) -> bool {
    match p.score_after {
        Some(s) => s.0 >= target.0 && s.1 >= target.1,
        None => false,
    }
}

fn play_reaches(p: &Play, target: (u16, u16)) -> (r: bool)
    ensures
        r == reaches(*p, target),
{
    match p.score_after {
        Some(s) => s.0 >= target.0 && s.1 >= target.1,
        None => false,
    }
}

/// `after`, `cut` and `ask_again` are what resolving a catch-up for
/// `target` against `before` (oldest first) gives: the oldest play reaching
/// the target is the answer and the last play kept; it is the cut unless
/// `known` already has it; with no such play the list stands and the ask
/// goes out again.
pub open spec fn resolved(
    before: Seq<Play>,
    target: (u16, u16),
    known: Seq<Play>,
    after: Seq<Play>,
    cut: Option<Play>,
    ask_again: bool,
) -> bool {
    if ask_again {
        &&& after == before
        &&& cut is None
        &&& forall|i: int| 0 <= i < before.len() ==> !reaches(#[trigger] before[i], target)
    } else {
        let at = after.len() - 1;
        &&& 0 <= at < before.len()
        &&& after == before.take(at + 1)
        &&& reaches(before[at], target)
        &&& forall|i: int| 0 <= i < at ==> !reaches(#[trigger] before[i], target)
        &&& match cut {
            Some(p) => p == before[at] && !has_same(known, p),
            None => has_same(known, before[at]),
        }
    }
}

/// The play an outcome cuts on.
pub open spec fn outcome_cut(o: CatchupOutcome) -> Option<Play> {
    match o {
        CatchupOutcome::Cut(p) => Some(p),
        _ => None,
    }
}

/// Resolves one queued catch-up against the summary's scoring plays
/// (oldest first) and trims them to the history this ask may leave.
///
/// The answer is the OLDEST play whose running score reaches `target` on
/// both sides — at or beyond, never exactly equal, because a feed folds an
/// extra point into the touchdown row. Everything after it is cut off and
/// stays unknown for the next delta to claim. An answer already `known` is
/// `Answered`; no play reaching the target is `AskAgain`, with `plays` left
/// whole.
pub fn resolve_catchup(plays: &mut Vec<Play>, target: (u16, u16), known: &Vec<Play>) -> (r: CatchupOutcome)
    ensures
        resolved(old(plays)@, target, known@, final(plays)@, outcome_cut(r), r is AskAgain),
{
    let mut at: usize = 0;
    while at < plays.len() && !play_reaches(&plays[at], target)
        invariant
            at <= plays@.len(),
            plays@ == old(plays)@,
            forall|i: int| 0 <= i < at ==> !reaches(#[trigger] plays@[i], target),
        decreases plays@.len() - at,
    {
        at += 1;
    }
    if at == plays.len() {
        return CatchupOutcome::AskAgain;
    }
    let answer = copy_play(&plays[at]);
    plays.truncate(at + 1);
    assert(plays@ =~= old(plays)@.take(at + 1));
    if any_same(known, &answer) {
        CatchupOutcome::Answered
    } else {
        CatchupOutcome::Cut(answer)
    }
}

/// A copy of a list of plays.
pub fn copy_plays(v: &Vec<Play>) -> (r: Vec<Play>)
    ensures
        r@ == v@,
{
    let mut out: Vec<Play> = Vec::new();
    let mut i: usize = 0;
    while i < v.len()
        invariant
            i <= v.len(),
            out@ == v@.take(i as int),
        decreases v.len() - i,
    {
        out.push(copy_play(&v[i]));
        assert(v@.take(i + 1) =~= v@.take(i as int).push(v@[i as int]));
        i += 1;
    }
    assert(v@.take(v.len() as int) =~= v@);
    out
}

fn copy_event(e: &MatchEvent) -> (r: MatchEvent)
    ensures
        r == *e,
{
    MatchEvent { minute: e.minute.clone(), kind: e.kind, team: e.team.clone(), player: e.player.clone() }
}

fn copy_penalty(p: &PenaltyEvent) -> (r: PenaltyEvent)
    ensures
        r == *p,
{
    PenaltyEvent { team: p.team.clone(), minutes: p.minutes, kind: p.kind.clone(), period: p.period, clock: p.clock.clone() }
}

/// Two extras say the same thing: same variant, same fields, lists equal
/// element for element.
pub open spec fn extras_same(a: Extras, b: Extras) -> bool {
    match (a, b) {
        (Extras::Empty, Extras::Empty) => true,
        (Extras::Baseball { hits: h1, errors: e1 }, Extras::Baseball { hits: h2, errors: e2 }) => h1 == h2 && e1 == e2,
        (Extras::Soccer { events: v1, men: m1 }, Extras::Soccer { events: v2, men: m2 }) => v1@ == v2@ && m1 == m2,
        (Extras::Hockey { strength: s1, penalties: p1 }, Extras::Hockey { strength: s2, penalties: p2 }) => s1 == s2
            && p1@ == p2@,
        _ => false,
    }
}

/// A copy of a game's extras.
pub fn copy_extras(e: &Extras) -> (r: Extras)
    ensures
        extras_same(r, *e),
{
    match e {
        Extras::Empty => Extras::Empty,
        Extras::Baseball { hits, errors } => Extras::Baseball { hits: *hits, errors: *errors },
        Extras::Soccer { events, men } => {
            let mut out: Vec<MatchEvent> = Vec::new();
            let mut i: usize = 0;
            while i < events.len()
                invariant
                    i <= events.len(),
                    out@ == events@.take(i as int),
                decreases events.len() - i,
            {
                out.push(copy_event(&events[i]));
                assert(events@.take(i + 1) =~= events@.take(i as int).push(events@[i as int]));
                i += 1;
            }
            assert(events@.take(events.len() as int) =~= events@);
            Extras::Soccer { events: out, men: *men }
        },
        Extras::Hockey { strength, penalties } => {
            let mut out: Vec<PenaltyEvent> = Vec::new();
            let mut i: usize = 0;
            while i < penalties.len()
                invariant
                    i <= penalties.len(),
                    out@ == penalties@.take(i as int),
                decreases penalties.len() - i,
            {
                out.push(copy_penalty(&penalties[i]));
                assert(penalties@.take(i + 1) =~= penalties@.take(i as int).push(penalties@[i as int]));
                i += 1;
            }
            assert(penalties@.take(penalties.len() as int) =~= penalties@);
            Extras::Hockey { strength: *strength, penalties: out }
        },
    }
}

/// A copy of a catch-up entry.
pub fn copy_entry(c: &CatchupEntry) -> (r: CatchupEntry)
    ensures
        r == *c,
{
    CatchupEntry {
        league: c.league,
        game_id: c.game_id.clone(),
        seq: c.seq,
        queued_tick: c.queued_tick,
        attempts: c.attempts,
        target: c.target,
        next_ask_tick: c.next_ask_tick,
    }
}

/// The queue after a summary failed to name the run of entry `i`: a fourth
/// attempt drops it, anything less re-arms it under a fresh sequence number,
/// withheld for one live poll.
pub open spec fn retry_spec(q: Seq<CatchupEntry>, seq: u64, i: int, tick: u64) -> (Seq<CatchupEntry>, u64) {
    let attempts = q[i].attempts + 1;
    if attempts >= CATCHUP_MAX_ATTEMPTS {
        (q.remove(i), seq)
    } else {
        (
            q.update(
                i,
                CatchupEntry {
                    attempts: attempts as u8,
                    seq: (seq + 1) as u64,
                    next_ask_tick: (tick + SCOREBOARD_LIVE_SECS * LIVE_TICKS_PER_SEC) as u64,
                    ..q[i]
                },
            ),
            (seq + 1) as u64,
        )
    }
}

/// Asks again for the catch-up at `i`, up to [`CATCHUP_MAX_ATTEMPTS`]
/// summaries, then lets it go; hands back the entry it dropped, if any.
/// `None` is a zoom's own summary landing: nothing was asked, nothing is
/// retried.
pub fn retry_catchup(q: &mut Vec<CatchupEntry>, seq: &mut u64, i: Option<usize>, tick: u64) -> (dropped: Option<
    CatchupEntry,
>)
    requires
        match i {
            Some(i) => i < old(q)@.len() && *old(seq) < u64::MAX && tick + SCOREBOARD_LIVE_SECS * LIVE_TICKS_PER_SEC
                <= u64::MAX,
            None => true,
        },
    ensures
        match i {
            Some(i) => {
                &&& (final(q)@, *final(seq)) == retry_spec(old(q)@, *old(seq), i as int, tick)
                &&& dropped == if old(q)@[i as int].attempts + 1 >= CATCHUP_MAX_ATTEMPTS {
                    Some(old(q)@[i as int])
                } else {
                    None
                }
            },
            None => final(q)@ == old(q)@ && *final(seq) == *old(seq) && dropped.is_none(),
        },
{
    match i {
        None => None,
        Some(i) => {
            let attempts: u16 = q[i].attempts as u16 + 1;
            if attempts >= CATCHUP_MAX_ATTEMPTS as u16 {
                let d = q.remove(i);
                return Some(d);
            }
            *seq = *seq + 1;
            let mut e = copy_entry(&q[i]);
            e.attempts = attempts as u8;
            e.seq = *seq;
            e.next_ask_tick = tick + SCOREBOARD_LIVE_SECS * LIVE_TICKS_PER_SEC;
            q.set(i, e);
            None
        },
    }
}

/// How long the last fresh board may age before the header stops calling
/// it live, in milliseconds: three missed live polls while anything is
/// live, else one idle cadence plus one live window.
pub fn stale_after(any_live: bool) -> (ms: u64)
    ensures
        ms == if any_live {
            3 * SCOREBOARD_LIVE_SECS * 1000
        } else {
            (SCOREBOARD_IDLE_SECS + SCOREBOARD_LIVE_SECS) * 1000
        },
{
    if any_live {
        3 * SCOREBOARD_LIVE_SECS * 1000
    } else {
        (SCOREBOARD_IDLE_SECS + SCOREBOARD_LIVE_SECS) * 1000
    }
}

/// The first of the first `n` plays of `last` that is the same play as `q`.
pub open spec fn pos_upto(last: Seq<Play>, q: Play, n: int) -> Option<int>
    decreases n,
{
    if n <= 0 {
        None
    } else {
        match pos_upto(last, q, n - 1) {
            Some(i) => Some(i),
            None => if same_play_spec(last[n - 1], q) {
                Some(n - 1)
            } else {
                None
            },
        }
    }
}

proof fn lemma_pos_upto(last: Seq<Play>, q: Play, a: int, b: int)
    requires
        0 <= a <= b <= last.len(),
    ensures
        pos_upto(last, q, a) is Some ==> pos_upto(last, q, b) == pos_upto(last, q, a),
        match pos_upto(last, q, b) {
            Some(i) => 0 <= i < b,
            None => true,
        },
    decreases b,
{
    if b > 0 {
        if a < b {
            lemma_pos_upto(last, q, a, b - 1);
        } else {
            lemma_pos_upto(last, q, b - 1, b - 1);
        }
    }
}

fn position_of(last: &Vec<Play>, q: &Play) -> (r: Option<usize>)
    ensures
        match (r, pos_upto(last@, *q, last@.len() as int)) {
            (Some(i), Some(j)) => i == j,
            (None, None) => true,
            _ => false,
        },
{
    let mut i: usize = 0;
    while i < last.len()
        invariant
            i <= last@.len(),
            pos_upto(last@, *q, i as int) is None,
        decreases last@.len() - i,
    {
        if same_play(&last[i], q) {
            proof {
                lemma_pos_upto(last@, *q, i + 1, last@.len() as int);
            }
            return Some(i);
        }
        i += 1;
    }
    None
}

/// The summary lists its scoring plays newest first: the newest-first
/// `last` places its first play after its last one.
pub open spec fn newest_first(sp: Seq<Play>, last: Seq<Play>) -> bool {
    sp.len() > 1 && match (
        pos_upto(last, sp[0], last.len() as int),
        pos_upto(last, sp[sp.len() - 1], last.len() as int),
    ) {
        (Some(a), Some(b)) => a < b,
        _ => false,
    }
}

/// The summary's scoring plays, oldest first.
pub open spec fn oldest_first(s: Summary) -> Seq<Play> {
    if newest_first(s.scoring_plays@, s.last_plays@) {
        s.scoring_plays@.reverse()
    } else {
        s.scoring_plays@
    }
}

/// The summary's recent plays, each marked scoring when it is one of the
/// summary's scoring plays.
pub open spec fn marked_plays(s: Summary) -> Seq<Play> {
    s.last_plays@.map_values(
        |p: Play|
            if has_same(s.scoring_plays@, p) {
                Play { scoring: true, ..p }
            } else {
                p
            },
    )
}

/// The newest play of `plays` that `known` does not have.
pub open spec fn newest_unseen(plays: Seq<Play>, known: Seq<Play>) -> Option<Play>
    decreases plays.len(),
{
    if plays.len() == 0 {
        None
    } else if !has_same(known, plays.last()) {
        Some(plays.last())
    } else {
        newest_unseen(plays.drop_last(), known)
    }
}

/// Some play carries a running score.
pub open spec fn scored_feed(plays: Seq<Play>) -> bool {
    exists|i: int| 0 <= i < plays.len() && (#[trigger] plays[i]).score_after is Some
}

/// What merging `s` into a game that carried `known` gives, as
/// (scoring plays, cut, ask again): a queued ask with a running-score feed
/// resolves against its target; otherwise the newest unseen play is the cut,
/// and a first summary with nothing queued is history, never a cut.
pub open spec fn summary_outcome(
    known: Seq<Play>,
    s: Summary,
    target: Option<(u16, u16)>,
    queued: bool,
    plays_after: Seq<Play>,
    cut: Option<Play>,
    ask_again: bool,
) -> bool {
    let sp = if s.scoring_plays@.len() > 0 {
        oldest_first(s)
    } else {
        known
    };
    match target {
        Some(t) if scored_feed(sp) => resolved(sp, t, known, plays_after, cut, ask_again),
        _ => {
            &&& plays_after == sp
            &&& if queued || known.len() > 0 {
                cut == newest_unseen(sp, known) && ask_again == (queued && cut is None)
            } else {
                cut is None && !ask_again
            }
        },
    }
}

fn reversed(v: Vec<Play>) -> (r: Vec<Play>)
    ensures
        r@ == v@.reverse(),
{
    let mut out: Vec<Play> = Vec::new();
    let mut v = v;
    let ghost v0 = v@;
    while v.len() > 0
        invariant
            v@ == v0.take(v@.len() as int),
            v@.len() <= v0.len(),
            out@ == v0.skip(v@.len() as int).reverse(),
        decreases v@.len(),
    {
        let p = v.pop().unwrap();
        proof {
            assert(v0.skip(v@.len() as int).reverse() =~= v0.skip(v@.len() + 1 as int).reverse().push(p));
        }
        out.push(p);
        assert(v@ =~= v0.take(v@.len() as int));
    }
    assert(v0.skip(0) =~= v0);
    out
}

fn has_score_after(v: &Vec<Play>) -> (r: bool)
    ensures
        r == scored_feed(v@),
{
    let mut i: usize = 0;
    while i < v.len()
        invariant
            i <= v.len(),
            forall|j: int| 0 <= j < i ==> (#[trigger] v@[j]).score_after is None,
        decreases v.len() - i,
    {
        if v[i].score_after.is_some() {
            return true;
        }
        i += 1;
    }
    false
}

fn newest_unseen_exec(plays: &Vec<Play>, known: &Vec<Play>) -> (r: Option<Play>)
    ensures
        r == newest_unseen(plays@, known@),
{
    let mut n: usize = plays.len();
    while n > 0
        invariant
            n <= plays@.len(),
            newest_unseen(plays@, known@) == newest_unseen(plays@.take(n as int), known@),
        decreases n,
    {
        assert(plays@.take(n as int).last() == plays@[n - 1]);
        assert(plays@.take(n as int).drop_last() =~= plays@.take(n - 1));
        if !any_same(known, &plays[n - 1]) {
            return Some(copy_play(&plays[n - 1]));
        }
        n -= 1;
    }
    None
}

/// `g` after summary `s` landed, scoring plays aside: the recent plays are
/// the summary's (marked) when it has any, the extras the summary's when it
/// says anything, and nothing else moves.
pub open spec fn summary_merged(g: Game, o: Game, s: Summary) -> bool {
    &&& Game { scoring_plays: g.scoring_plays, extras: g.extras, last_plays: g.last_plays, ..o } == g
    &&& o.last_plays@ == if s.last_plays@.len() > 0 {
        marked_plays(s)
    } else {
        g.last_plays@
    }
    &&& if s.extras is Empty {
        o.extras == g.extras
    } else {
        extras_same(o.extras, s.extras)
    }
}

/// Merges a summary into its game: the scoring plays (normalized to oldest
/// first), the per-sport extras when the summary has any, the recent plays
/// marked by the scoring list; then names the cut and whether the ask goes
/// out again. Returns (cut, ask again).
pub fn merge_summary_game(game: &mut Game, summary: Summary, target: Option<(u16, u16)>, queued: bool) -> (r: (
    Option<Play>,
    bool,
))
    ensures
        summary_merged(*old(game), *final(game), summary),
        summary_outcome(old(game).scoring_plays@, summary, target, queued, final(game).scoring_plays@, r.0, r.1),
{
    let ghost s0 = summary;
    let known = copy_plays(&game.scoring_plays);
    if summary.scoring_plays.len() > 0 {
        let sp = copy_plays(&summary.scoring_plays);
        let mut flip = false;
        if sp.len() > 1 {
            let a = position_of(&summary.last_plays, &sp[0]);
            let b = position_of(&summary.last_plays, &sp[sp.len() - 1]);
            flip = match (a, b) {
                (Some(a), Some(b)) => a < b,
                _ => false,
            };
        }
        assert(flip == newest_first(s0.scoring_plays@, s0.last_plays@));
        game.scoring_plays = if flip {
            reversed(sp)
        } else {
            sp
        };
    }
    let ghost sp_spec = if s0.scoring_plays@.len() > 0 {
        oldest_first(s0)
    } else {
        known@
    };
    assert(game.scoring_plays@ == sp_spec);
    let empty_extras = match summary.extras {
        Extras::Empty => true,
        _ => false,
    };
    if !empty_extras {
        game.extras = copy_extras(&summary.extras);
    }
    if summary.last_plays.len() > 0 {
        let mut marked: Vec<Play> = Vec::new();
        let mut i: usize = 0;
        while i < summary.last_plays.len()
            invariant
                i <= summary.last_plays@.len(),
                summary == s0,
                marked@ == marked_plays(s0).take(i as int),
            decreases summary.last_plays@.len() - i,
        {
            let mut p = copy_play(&summary.last_plays[i]);
            if any_same(&summary.scoring_plays, &p) {
                p.scoring = true;
            }
            marked.push(p);
            assert(marked_plays(s0).take(i + 1) =~= marked_plays(s0).take(i as int).push(marked_plays(s0)[i as int]));
            i += 1;
        }
        assert(marked_plays(s0).take(summary.last_plays@.len() as int) =~= marked_plays(s0));
        game.last_plays = marked;
    }
    assert(summary_merged(*old(game), *game, s0));
    let feed = has_score_after(&game.scoring_plays);
    let ghost mid = *game;
    let mut cut: Option<Play> = None;
    let mut ask = false;
    if feed && target.is_some() {
        let t = target.unwrap();
        let o = resolve_catchup(&mut game.scoring_plays, t, &known);
        match o {
            CatchupOutcome::Cut(p) => {
                cut = Some(p);
            },
            CatchupOutcome::Answered => {},
            CatchupOutcome::AskAgain => {
                ask = true;
            },
        }
    } else if queued || known.len() > 0 {
        cut = newest_unseen_exec(&game.scoring_plays, &known);
        ask = queued && cut.is_none();
    }
    assert(Game { scoring_plays: mid.scoring_plays, ..*game } == mid);
    (cut, ask)
}

/// Some game of the board with id `id` is final.
pub open spec fn final_on(games: Seq<Game>, id: Seq<char>) -> bool {
    exists|i: int| 0 <= i < games.len() && (#[trigger] games[i]).id@ == id && games[i].status == Status::Final
}

/// A pin whose game this board shows final, and that was not stamped
/// before, is stamped `now` — the clock its six-hour hold runs from.
pub open spec fn stamped(p: Pin, games: Seq<Game>, now: i64) -> Pin {
    if p.final_at is None && final_on(games, p.game_id@) {
        Pin { final_at: Some(now), ..p }
    } else {
        p
    }
}

/// Stamps the pins whose game a fresh board shows final.
pub fn mark_pins_final(pins: &mut Vec<Pin>, games: &Vec<Game>, now: i64)
    ensures
        final(pins)@.len() == old(pins)@.len(),
        forall|i: int| 0 <= i < old(pins)@.len() ==> #[trigger] final(pins)@[i] == stamped(old(pins)@[i], games@, now),
{
    let mut i: usize = 0;
    while i < pins.len()
        invariant
            i <= pins@.len(),
            pins@.len() == old(pins)@.len(),
            forall|j: int| 0 <= j < i ==> #[trigger] pins@[j] == stamped(old(pins)@[j], games@, now),
            forall|j: int| i <= j < pins@.len() ==> #[trigger] pins@[j] == old(pins)@[j],
        decreases pins@.len() - i,
    {
        if pins[i].final_at.is_none() {
            let mut k: usize = 0;
            let mut hit = false;
            while k < games.len()
                invariant
                    k <= games@.len(),
                    i < pins@.len(),
                    hit <==> exists|m: int|
                        0 <= m < k && (#[trigger] games@[m]).id@ == pins@[i as int].game_id@ && games@[m].status
                            == Status::Final,
                decreases games@.len() - k,
            {
                if games[k].id == pins[i].game_id && games[k].status == Status::Final {
                    hit = true;
                }
                k += 1;
            }
            if hit {
                let mut p = copy_pin(&pins[i]);
                p.final_at = Some(now);
                pins.set(i, p);
            }
        }
        i += 1;
    }
}

/// The index of the catch-up for `id` among the first `n` entries.
pub open spec fn entry_upto(q: Seq<CatchupEntry>, id: Seq<char>, n: int) -> Option<int>
    decreases n,
{
    if n <= 0 {
        None
    } else {
        match entry_upto(q, id, n - 1) {
            Some(i) => Some(i),
            None => if q[n - 1].game_id@ == id {
                Some(n - 1)
            } else {
                None
            },
        }
    }
}

/// The index of the catch-up for `id`.
pub open spec fn entry_of(q: Seq<CatchupEntry>, id: Seq<char>) -> Option<int> {
    entry_upto(q, id, q.len() as int)
}

proof fn lemma_entry_upto(q: Seq<CatchupEntry>, id: Seq<char>, a: int, b: int)
    requires
        0 <= a <= b <= q.len(),
    ensures
        entry_upto(q, id, a) is Some ==> entry_upto(q, id, b) == entry_upto(q, id, a),
        match entry_upto(q, id, b) {
            Some(i) => 0 <= i < b && q[i].game_id@ == id,
            None => forall|j: int| 0 <= j < b ==> q[j].game_id@ != id,
        },
    decreases b,
{
    if b > 0 {
        if a < b {
            lemma_entry_upto(q, id, a, b - 1);
        } else {
            lemma_entry_upto(q, id, b - 1, b - 1);
        }
    }
}

/// Where the catch-up queued for `id` sits.
pub fn entry_index(q: &Vec<CatchupEntry>, id: &str) -> (r: Option<usize>)
    ensures
        match (r, entry_of(q@, id@)) {
            (Some(i), Some(j)) => i == j && i < q@.len(),
            (None, None) => true,
            _ => false,
        },
{
    let mut i: usize = 0;
    while i < q.len()
        invariant
            i <= q@.len(),
            entry_upto(q@, id@, i as int) is None,
        decreases q@.len() - i,
    {
        if crate::text::str_eq(q[i].game_id.as_str(), id) {
            proof {
                lemma_entry_upto(q@, id@, i + 1, q@.len() as int);
            }
            return Some(i);
        }
        i += 1;
    }
    None
}

/// The scoring plays a fresh game carries after the previous board's are
/// carried across: a fresh list with none takes the previous one's.
pub open spec fn carried_plays(prev_board: Seq<Game>, g: Game) -> Seq<Play> {
    match first_with_id(prev_board, g.id@) {
        Some(k) => if g.scoring_plays@.len() == 0 {
            prev_board[k].scoring_plays@
        } else {
            g.scoring_plays@
        },
        None => g.scoring_plays@,
    }
}

/// A live NHL game whose scoreboard said nothing of strength keeps the
/// previous board's (only a summary can produce it).
pub open spec fn carries_extras(prev_board: Seq<Game>, g: Game) -> bool {
    &&& first_with_id(prev_board, g.id@) is Some
    &&& g.league == League::Nhl
    &&& g.status == Status::Live
    &&& g.extras is Empty
}

/// `o` is `g` after the carry-over, with `captured` appended to its scoring
/// plays when the fresh board's last play was captured.
pub open spec fn merged_game(prev_board: Seq<Game>, g: Game, o: Game, captured: bool) -> bool {
    &&& Game { scoring_plays: g.scoring_plays, extras: g.extras, ..o } == g
    &&& o.scoring_plays@ == carried_plays(prev_board, g) + if captured {
        seq![g.last_plays@[0]]
    } else {
        Seq::<Play>::empty()
    }
    &&& if carries_extras(prev_board, g) {
        extras_same(o.extras, prev_board[first_with_id(prev_board, g.id@)->0].extras)
    } else {
        o.extras == g.extras
    }
}

/// What taking a summary does, as values: `q0`/`seq0` are the catch-up
/// queue and counter before, `q2`/`seq2` after; `game` is the game as the
/// boards carry it, `r` is (the merged game, the cut, whether the ask goes
/// out again, the catch-up the retry ladder dropped).
pub open spec fn summary_step(
    q0: Seq<CatchupEntry>,
    seq0: u64,
    game: Option<Game>,
    id: Seq<char>,
    summary: Summary,
    tick: u64,
    r: (Option<Game>, Option<Play>, bool, Option<CatchupEntry>),
    q2: Seq<CatchupEntry>,
    seq2: u64,
) -> bool {
    let q = q0;
    let at = entry_of(q, id);
    let retried = match at {
        Some(i) => retry_spec(q, seq0, i, tick),
        None => (q, seq0),
    };
    let dropped = match at {
        Some(i) => if q[i].attempts + 1 >= CATCHUP_MAX_ATTEMPTS {
            Some(q[i])
        } else {
            None
        },
        None => None,
    };
    let retired = match at {
        Some(i) => (q.remove(i), seq0),
        None => (q, seq0),
    };
    if summary.last_plays@.len() == 0 && summary.scoring_plays@.len() == 0 {
        &&& r.0 == game
        &&& r.1 is None
        &&& if at is Some && game is None {
            (q2, seq2) == retired && !r.2 && r.3 is None
        } else {
            (q2, seq2) == retried && r.2 == at is Some && r.3 == dropped
        }
    } else {
        match game {
            None => {
                &&& r.0 is None && r.1 is None && !r.2 && r.3 is None
                &&& (q2, seq2) == retired
            },
            Some(g) => {
                let target = match at {
                    Some(i) => Some(q[i].target),
                    None => None,
                };
                &&& r.0 matches Some(o) && summary_merged(g, o, summary)
                &&& summary_outcome(
                    g.scoring_plays@,
                    summary,
                    target,
                    at is Some,
                    r.0->0.scoring_plays@,
                    r.1,
                    r.2,
                )
                &&& if r.2 {
                    (q2, seq2) == retried && r.3 == dropped
                } else {
                    (q2, seq2) == retired && r.3 is None
                }
            },
        }
    }
}

/// The feed's memory as values: last-seen scores, flash start ticks, the
/// catch-up queue and its sequence counter.
pub type FeedModel = (Seq<(Seq<char>, (u16, u16))>, Seq<(Seq<char>, u64)>, Seq<CatchupEntry>, u64);

/// The score moved since the last fresh board (a first sighting never does).
pub open spec fn score_moved(scores: Seq<(Seq<char>, (u16, u16))>, g: Game) -> bool {
    match get_spec(scores, g.id@) {
        Some(prev) => prev != (g.away_score, g.home_score),
        None => false,
    }
}

/// The board's newest play is marked scoring.
pub open spec fn marked_scoring(g: Game) -> bool {
    g.last_plays@.len() > 0 && g.last_plays@[0].scoring
}

/// A moved score whose marked scoring play is new to the game: it is
/// appended and cut on.
pub open spec fn cut_here(st: FeedModel, prev_board: Seq<Game>, g: Game) -> bool {
    score_moved(st.0, g) && marked_scoring(g) && !has_same(carried_plays(prev_board, g), g.last_plays@[0])
}

/// The queue after an unmarked score delta on `g`: the pending ask chases
/// the new score with fresh attempts, or a new ask is queued.
pub open spec fn queue_ask(q: Seq<CatchupEntry>, seq: u64, g: Game, tick: u64) -> (Seq<CatchupEntry>, u64) {
    match entry_of(q, g.id@) {
        Some(i) => (q.update(i, CatchupEntry { target: (g.away_score, g.home_score), attempts: 0, ..q[i] }), seq),
        None => (
            q.push(
                CatchupEntry {
                    league: g.league,
                    game_id: g.id,
                    seq: (seq + 1) as u64,
                    queued_tick: tick,
                    attempts: 0,
                    target: (g.away_score, g.home_score),
                    next_ask_tick: 0,
                },
            ),
            (seq + 1) as u64,
        ),
    }
}

/// One fresh game's effect on the feed's memory.
pub open spec fn step_spec(st: FeedModel, g: Game, tick: u64) -> FeedModel {
    let scores = put_spec(st.0, g.id@, (g.away_score, g.home_score));
    if score_moved(st.0, g) {
        let flashes = put_spec(st.1, g.id@, tick);
        if marked_scoring(g) {
            (scores, flashes, st.2, st.3)
        } else {
            let (q, seq) = queue_ask(st.2, st.3, g, tick);
            (scores, flashes, q, seq)
        }
    } else {
        (scores, st.1, st.2, st.3)
    }
}

/// The memory after the first `n` games of a fresh board.
pub open spec fn fold_spec(st: FeedModel, games: Seq<Game>, tick: u64, n: int) -> FeedModel
    decreases n,
{
    if n <= 0 {
        st
    } else {
        step_spec(fold_spec(st, games, tick, n - 1), games[n - 1], tick)
    }
}

/// The cuts the first `n` games of a fresh board fire, in board order.
pub open spec fn cuts_spec(st: FeedModel, prev_board: Seq<Game>, games: Seq<Game>, tick: u64, n: int) -> Seq<
    (Seq<char>, Play),
>
    decreases n,
{
    if n <= 0 {
        Seq::empty()
    } else {
        let before = cuts_spec(st, prev_board, games, tick, n - 1);
        if cut_here(fold_spec(st, games, tick, n - 1), prev_board, games[n - 1]) {
            before.push((games[n - 1].id@, games[n - 1].last_plays@[0]))
        } else {
            before
        }
    }
}

proof fn lemma_seq_bound(st: FeedModel, games: Seq<Game>, tick: u64, n: int)
    requires
        0 <= n,
        st.3 + n <= u64::MAX,
    ensures
        st.3 <= fold_spec(st, games, tick, n).3 <= st.3 + n,
    decreases n,
{
    if n > 0 {
        lemma_seq_bound(st, games, tick, n - 1);
    }
}

/// Carries the previous board's scoring plays (and, for a live NHL game,
/// its strength) across a wholesale replace.
fn carry_over(prev_board: &Vec<Game>, g: &mut Game)
    ensures
        merged_game(prev_board@, *old(g), *final(g), false),
{
    let ghost g0 = *g;
    match crate::derive::index_of_id(prev_board, &g.id) {
        Some(k) => {
            let prev = &prev_board[k];
            if g.scoring_plays.len() == 0 {
                g.scoring_plays = copy_plays(&prev.scoring_plays);
            }
            let empty = match g.extras {
                Extras::Empty => true,
                _ => false,
            };
            if g.league == League::Nhl && g.status == Status::Live && empty {
                g.extras = copy_extras(&prev.extras);
            }
            assert(g.scoring_plays@ =~= carried_plays(prev_board@, g0) + Seq::<Play>::empty());
        },
        None => {
            assert(g.scoring_plays@ =~= carried_plays(prev_board@, g0) + Seq::<Play>::empty());
        },
    }
}

/// What the data path remembers between boards.
pub struct Feed {
    /// Last-seen (away, home) per game id: the score-delta source.
    pub last_scores: IdMap<(u16, u16)>,
    /// Game id -> tick its score last moved; drives the one-shot flash.
    pub flashes: IdMap<u64>,
    /// At most one pending catch-up per game.
    pub catchup: Vec<CatchupEntry>,
    pub catchup_seq: u64,
}

impl Feed {
    pub open spec fn wf(&self) -> bool {
        self.last_scores.wf() && self.flashes.wf()
    }

    pub open spec fn model(&self) -> FeedModel {
        (self.last_scores.entries(), self.flashes.entries(), self.catchup@, self.catchup_seq)
    }

    /// A feed that has seen nothing.
    pub fn new() -> (f: Feed)
        ensures
            f.wf(),
            f.model() == (
                Seq::<(Seq<char>, (u16, u16))>::empty(),
                Seq::<(Seq<char>, u64)>::empty(),
                Seq::<CatchupEntry>::empty(),
                0u64,
            ),
    {
        Feed { last_scores: IdMap::new(), flashes: IdMap::new(), catchup: Vec::new(), catchup_seq: 0 }
    }

    /// Merges one league's fresh board. Every game first carries what the
    /// previous board had that this one cannot say; then, unless the board is
    /// a cached (`stale`) payload, a moved score flashes, and either captures
    /// the board's marked scoring play (appending it and naming a cut) or
    /// queues one catch-up ask. A first sighting seeds silently. Returns the
    /// merged games and the cuts to fire, in board order.
    pub fn apply(&mut self, prev_board: &Vec<Game>, games: Vec<Game>, stale: bool, tick: u64) -> (r: (
        Vec<Game>,
        Vec<(String, Play)>,
    ))
        requires
            old(self).wf(),
            old(self).catchup_seq + games@.len() <= u64::MAX,
        ensures
            final(self).wf(),
            r.0@.len() == games@.len(),
            forall|i: int|
                0 <= i < games@.len() ==> merged_game(
                    prev_board@,
                    games@[i],
                    #[trigger] r.0@[i],
                    !stale && cut_here(fold_spec(old(self).model(), games@, tick, i), prev_board@, games@[i]),
                ),
            stale ==> final(self).model() == old(self).model() && r.1@.len() == 0,
            !stale ==> final(self).model() == fold_spec(old(self).model(), games@, tick, games@.len() as int),
            !stale ==> r.1@.map_values(|c: (String, Play)| (c.0@, c.1)) == cuts_spec(
                old(self).model(),
                prev_board@,
                games@,
                tick,
                games@.len() as int,
            ),
    {
        let ghost st0 = self.model();
        let ghost g0 = games@;
        let n0: usize = games.len();
        assert(g0.len() == n0);
        let mut games = games;
        let mut out: Vec<Game> = Vec::new();
        let mut cuts: Vec<(String, Play)> = Vec::new();
        let mut i: usize = 0;
        while games.len() > 0
            invariant
                games@ == g0.skip(i as int),
                i + games@.len() == g0.len(),
                g0.len() <= usize::MAX,
                out@.len() == i,
                self.wf(),
                st0.3 + g0.len() <= u64::MAX,
                forall|j: int|
                    0 <= j < i ==> merged_game(
                        prev_board@,
                        g0[j],
                        #[trigger] out@[j],
                        !stale && cut_here(fold_spec(st0, g0, tick, j), prev_board@, g0[j]),
                    ),
                stale ==> self.model() == st0 && cuts@.len() == 0,
                !stale ==> self.model() == fold_spec(st0, g0, tick, i as int),
                !stale ==> cuts@.map_values(|c: (String, Play)| (c.0@, c.1)) == cuts_spec(
                    st0,
                    prev_board@,
                    g0,
                    tick,
                    i as int,
                ),
            decreases games@.len(),
        {
            assert(games@[0] == g0[i as int]);
            let mut g = games.remove(0);
            assert(games@ =~= g0.skip(i + 1));
            carry_over(prev_board, &mut g);
            let ghost carried = g;
            let mut captured = false;
            if !stale {
                proof {
                    lemma_seq_bound(st0, g0, tick, i as int);
                }
                let ghost before = self.model();
                let score = (g.away_score, g.home_score);
                let seen = self.last_scores.get(g.id.as_str());
                let moved = match seen {
                    Some(prev) => prev.0 != score.0 || prev.1 != score.1,
                    None => false,
                };
                if moved {
                    self.flashes.put(g.id.as_str(), tick);
                    let marked = g.last_plays.len() > 0 && g.last_plays[0].scoring;
                    if marked {
                        let p = copy_play(&g.last_plays[0]);
                        if !any_same(&g.scoring_plays, &p) {
                            let ghost cuts0 = cuts@;
                            g.scoring_plays.push(copy_play(&p));
                            cuts.push((g.id.clone(), p));
                            captured = true;
                            proof {
                                assert(cuts@.map_values(|c: (String, Play)| (c.0@, c.1)) =~= cuts0.map_values(
                                    |c: (String, Play)| (c.0@, c.1),
                                ).push((g0[i as int].id@, g0[i as int].last_plays@[0])));
                            }
                        }
                    } else {
                        match entry_index(&self.catchup, g.id.as_str()) {
                            Some(k) => {
                                let mut e = copy_entry(&self.catchup[k]);
                                e.target = score;
                                e.attempts = 0;
                                self.catchup.set(k, e);
                            },
                            None => {
                                self.catchup_seq = self.catchup_seq + 1;
                                self.catchup.push(
                                    CatchupEntry {
                                        league: g.league,
                                        game_id: g.id.clone(),
                                        seq: self.catchup_seq,
                                        queued_tick: tick,
                                        attempts: 0,
                                        target: score,
                                        next_ask_tick: 0,
                                    },
                                );
                            },
                        }
                    }
                }
                self.last_scores.put(g.id.as_str(), score);
                proof {
                    assert(self.model() == step_spec(before, g0[i as int], tick));
                }
            }
            proof {
                if captured {
                    assert(g.scoring_plays@ =~= carried_plays(prev_board@, g0[i as int]) + seq![
                        g0[i as int].last_plays@[0],
                    ]);
                } else {
                    assert(g.scoring_plays@ =~= carried_plays(prev_board@, g0[i as int]) + Seq::<Play>::empty());
                }
            }
            out.push(g);
            i += 1;
        }
        (out, cuts)
    }

    /// Takes a summary for `game_id`. `game` is that game as the boards
    /// carry it, `None` when it has left every board. A summary with no plays
    /// at all retries the game's catch-up (or drops it when the game is gone);
    /// otherwise the summary merges into the game, and the catch-up is retried
    /// when the summary did not name the run, else retired. Returns the merged
    /// game, the cut to fire, whether the ask goes out again, and the
    /// catch-up the retry ladder dropped.
    pub fn merge_summary(&mut self, game: Option<Game>, game_id: &str, summary: Summary, tick: u64) -> (r: (
        Option<Game>,
        Option<Play>,
        bool,
        Option<CatchupEntry>,
    ))
        requires
            old(self).catchup_seq < u64::MAX,
            tick + SCOREBOARD_LIVE_SECS * LIVE_TICKS_PER_SEC <= u64::MAX,
        ensures
            final(self).last_scores == old(self).last_scores,
            final(self).flashes == old(self).flashes,
            summary_step(
                old(self).catchup@,
                old(self).catchup_seq,
                game,
                game_id@,
                summary,
                tick,
                r,
                final(self).catchup@,
                final(self).catchup_seq,
            ),
    {
        let queued = entry_index(&self.catchup, game_id);
        proof {
            lemma_entry_upto(self.catchup@, game_id@, 0, self.catchup@.len() as int);
        }
        if summary.last_plays.len() == 0 && summary.scoring_plays.len() == 0 {
            if queued.is_some() && game.is_none() {
                self.catchup.remove(queued.unwrap());
                return (game, None, false, None);
            }
            let d = retry_catchup(&mut self.catchup, &mut self.catchup_seq, queued, tick);
            return (game, None, queued.is_some(), d);
        }
        match game {
            None => {
                if queued.is_some() {
                    self.catchup.remove(queued.unwrap());
                }
                (None, None, false, None)
            },
            Some(g) => {
                let ghost g0 = g;
                let mut g = g;
                let target = match queued {
                    Some(i) => Some(self.catchup[i].target),
                    None => None,
                };
                let ghost s0 = summary;
                let (cut, ask) = merge_summary_game(&mut g, summary, target, queued.is_some());
                assert(summary_outcome(g0.scoring_plays@, s0, target, queued.is_some(), g.scoring_plays@, cut, ask));
                if ask {
                    let d = retry_catchup(&mut self.catchup, &mut self.catchup_seq, queued, tick);
                    (Some(g), cut, true, d)
                } else {
                    if queued.is_some() {
                        self.catchup.remove(queued.unwrap());
                    }
                    (Some(g), cut, false, None)
                }
            },
        }
    }

    /// Is `game_id` inside its score-flash window at `tick`?
    pub fn flash_active(&self, game_id: &str, tick: u64) -> (r: bool)
        requires
            self.wf(),
        ensures
            r == match get_spec(self.flashes.entries(), game_id@) {
                Some(start) => sat_sub(tick, start) < FLASH_TICKS,
                None => false,
            },
    {
        match self.flashes.get(game_id) {
            Some(start) => tick.saturating_sub(start) < FLASH_TICKS,
            None => false,
        }
    }

    /// Drops the flashes whose window has closed at `tick`, so a settled
    /// score never flashes again.
    pub fn expire_flashes(&mut self, tick: u64)
        requires
            old(self).wf(),
        ensures
            final(self).wf(),
            final(self).last_scores == old(self).last_scores,
            final(self).catchup@ == old(self).catchup@,
            final(self).catchup_seq == old(self).catchup_seq,
            final(self).flashes.entries() == recent_upto(
                old(self).flashes.entries(),
                tick,
                FLASH_TICKS,
                old(self).flashes.entries().len() as int,
            ),
    {
        self.flashes.keep_recent(tick, FLASH_TICKS);
    }

    /// Forgets the scores and flashes of games no board carries any more;
    /// a recycled id then seeds silently instead of diffing against a dead
    /// score.
    pub fn forget_gone(&mut self, on_boards: &Vec<String>)
        requires
            old(self).wf(),
        ensures
            final(self).wf(),
            final(self).last_scores.entries() == keep_spec(
                old(self).last_scores.entries(),
                string_views(on_boards@),
            ),
            final(self).flashes == old(self).flashes,
            final(self).catchup@ == old(self).catchup@,
            final(self).catchup_seq == old(self).catchup_seq,
    {
        self.last_scores.keep_only(on_boards);
    }
}

/// `a - b`, floored at zero.
pub open spec fn sat_sub(a: u64, b: u64) -> int {
    if a >= b {
        a - b
    } else {
        0
    }
}

/// No two catch-ups chase the same game.
pub open spec fn one_ask_per_game(q: Seq<CatchupEntry>) -> bool {
    forall|i: int, j: int| 0 <= i < q.len() && 0 <= j < q.len() && i != j ==> q[i].game_id@ != q[j].game_id@
}

/// Still one ask per game: however many fresh boards land, the catch-up
/// queue never holds two asks for one game — a game that scores again
/// while its ask is pending re-aims that ask instead of queuing another.
pub proof fn lemma_one_ask_per_game(st: FeedModel, games: Seq<Game>, tick: u64, n: int)
    requires
        one_ask_per_game(st.2),
        0 <= n <= games.len(),
    ensures
        one_ask_per_game(fold_spec(st, games, tick, n).2),
    decreases n,
{
    if n > 0 {
        lemma_one_ask_per_game(st, games, tick, n - 1);
        let before = fold_spec(st, games, tick, n - 1);
        let g = games[n - 1];
        let q = before.2;
        lemma_entry_upto(q, g.id@, 0, q.len() as int);
    }
}

/// A first sighting seeds the score memory silently: a game the feed has
/// no score for neither flashes, nor queues an ask, nor cuts.
pub proof fn lemma_first_sighting_is_silent(st: FeedModel, prev_board: Seq<Game>, g: Game, tick: u64)
    requires
        get_spec(st.0, g.id@) is None,
    ensures
        step_spec(st, g, tick) == (put_spec(st.0, g.id@, (g.away_score, g.home_score)), st.1, st.2, st.3),
        !cut_here(st, prev_board, g),
{
}

/// The retry ladder keeps one ask per game.
pub proof fn lemma_retry_keeps_one_ask(q: Seq<CatchupEntry>, seq: u64, i: int, tick: u64)
    requires
        one_ask_per_game(q),
        0 <= i < q.len(),
    ensures
        one_ask_per_game(retry_spec(q, seq, i, tick).0),
{
    let r = retry_spec(q, seq, i, tick).0;
    if q[i].attempts + 1 >= CATCHUP_MAX_ATTEMPTS {
        assert forall|a: int, b: int| 0 <= a < r.len() && 0 <= b < r.len() && a != b implies r[a].game_id@
            != r[b].game_id@ by {
            let a2 = if a < i { a } else { a + 1 };
            let b2 = if b < i { b } else { b + 1 };
            assert(r[a] == q[a2] && r[b] == q[b2]);
        }
    }
}

} // verus!
