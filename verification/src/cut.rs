//! The cut: when a score lands, the app says so — a full-frame takeover for
//! a game you care about, a quiet two-row band for everything else.
//!
//! [`CutState`] is pure: it knows a game id, a play, a size and a deadline.
//! Whether a cut is *allowed* is the caller's judgment, passed in as `full`.
use vstd::prelude::*;
use vstd::string::*;
use crate::app::LIVE_TICKS_PER_SEC;
use crate::domain::{Game, Play, Team};
use crate::hero::{digit_rows, GLYPH_COLS, GLYPH_ROWS, QUAD_ROWS};
use crate::rect::Rect;
use crate::text::{
    append, append_dec, char_is_alphabetic, char_is_uppercase, chars_of, dec, is_alpha, is_upper,
    lower_ascii_seq, lower_ascii_chars, ltrim, owned, split_ws, str_to_uppercase, trim, trim_bounds,
    upper, words, chars_eq, views, slice_chars,
};

verus! {

broadcast use vstd::seq_lib::group_seq_properties;

/// Takeover lifetime: 3 s at the live cadence.
pub const CUT_TICKS: u64 = 3 * LIVE_TICKS_PER_SEC;

/// Band lifetime: 1.5 s at the live cadence.
pub const BAND_TICKS: u64 = 3 * LIVE_TICKS_PER_SEC / 2;

/// Rows the quiet band occupies above the list: the headline and one detail line.
pub const BAND_ROWS: u16 = 2;

/// One firing. `full` = the takeover; false = the 2-row band.
#[derive(Debug, PartialEq, Eq)]
pub struct Cut {
    pub game_id: String,
    pub play: Play,
    pub full: bool,
    pub until_tick: u64,
}

/// Whole seconds left at `tick`, rounded up; zero once expired.
pub open spec fn remaining_spec(until_tick: u64, tick: u64) -> nat {
    let left: nat = if until_tick > tick { (until_tick - tick) as nat } else { 0 };
    (left + 9) / 10
}

impl Cut {
    /// Whole seconds left before this cut clears, rounded up — what the
    /// takeover's strip and the band's affordance count down. Ceiling, not
    /// truncation: a cut still on screen never says `0s`.
    pub fn remaining_secs(&self, tick: u64) -> (r: u64)
        ensures
            r == remaining_spec(self.until_tick, tick),
            (r == 0) == (tick >= self.until_tick),
    {
        let left: u64 = if self.until_tick > tick { self.until_tick - tick } else { 0 };
        left / LIVE_TICKS_PER_SEC + if left % LIVE_TICKS_PER_SEC > 0 { 1 } else { 0 }
    }
}

/// `clears in 3s` — the cut's own countdown.
pub open spec fn timer_spec(until_tick: u64, tick: u64) -> Seq<char> {
    "clears in "@ + dec(remaining_spec(until_tick, tick)) + "s"@
}

pub fn timer_text(cut: &Cut, tick: u64) -> (s: String)
    ensures
        s@ == timer_spec(cut.until_tick, tick),
{
    let mut out = owned("clears in ");
    append_dec(&mut out, cut.remaining_secs(tick));
    append(&mut out, "s");
    out
}

/// A copy of a play, field for field.
pub fn copy_play(p: &Play) -> (r: Play)
    ensures
        r == *p,
{
    Play {
        id: p.id.clone(),
        clock: p.clock.clone(),
        period: p.period.clone(),
        team: p.team.clone(),
        text: p.text.clone(),
        scoring: p.scoring,
        kind: p.kind,
        score_value: p.score_value,
        score_after: p.score_after,
    }
}

/// The single active cut. At most one — two scores inside three seconds are
/// one moment, not two overlays.
pub struct CutState {
    active: Option<Cut>,
}

/// The cut on screen at `tick`: expiry is read, not swept.
pub open spec fn on_screen(slot: Option<Cut>, tick: u64) -> Option<Cut> {
    match slot {
        Some(c) if tick < c.until_tick => Some(c),
        _ => None,
    }
}

impl CutState {
    /// The stored cut, expired or not.
    pub closed spec fn slot(self) -> Option<Cut> {
        self.active
    }

    pub fn new() -> (s: CutState)
        ensures
            s.slot().is_none(),
    {
        CutState { active: None }
    }

    /// Called with every newly captured scoring play. A takeover is never
    /// downgraded: while one is up, a second score anywhere is part of the
    /// same moment. A band yields to a takeover the instant one is earned,
    /// and never to another band.
    pub fn fire(&mut self, game_id: &str, play: &Play, full: bool, tick: u64)
        requires
            tick + CUT_TICKS <= u64::MAX,
        ensures
            match on_screen(old(self).slot(), tick) {
                Some(a) if !(full && !a.full) => final(self).slot() == old(self).slot(),
                _ => final(self).slot() is Some && final(self).slot().unwrap().game_id@ == game_id@
                    && final(self).slot().unwrap().play == *play && final(self).slot().unwrap().full == full
                    && final(self).slot().unwrap().until_tick == tick + if full { CUT_TICKS } else { BAND_TICKS },
            },
    {
        if let Some(active) = self.active(tick) {
            if !(full && !active.full) {
                return;
            }
        }
        self.active = Some(Cut {
            game_id: owned(game_id),
            play: copy_play(play),
            full,
            until_tick: tick + if full { CUT_TICKS } else { BAND_TICKS },
        });
    }

    /// The cut on screen at `tick`, if any.
    pub fn active(&self, tick: u64) -> (r: Option<&Cut>)
        ensures
            match (r, on_screen(self.slot(), tick)) {
                (Some(c), Some(d)) => *c == d,
                (None, None) => true,
                _ => false,
            },
    {
        match &self.active {
            Some(c) => if tick < c.until_tick { Some(c) } else { None },
            None => None,
        }
    }
}

/// A char a name may hold: letters, apostrophes, hyphens, initials' periods.
pub open spec fn name_char(c: char) -> bool {
    is_alpha(c) || c == '\'' || c == '-' || c == '.'
}

/// One capitalized token of name chars.
pub open spec fn name_token(t: Seq<char>) -> bool {
    t.len() > 0 && is_upper(t[0]) && forall|i: int| 0 <= i < t.len() ==> name_char(#[trigger] t[i])
}

/// One to three capitalized name tokens, the last long enough to be a surname.
pub open spec fn is_person_spec(s: Seq<char>) -> bool {
    let ws = words(s);
    &&& 1 <= ws.len() <= 3
    &&& ws.last().len() > 1
    &&& forall|k: int| 0 <= k < ws.len() ==> name_token(#[trigger] ws[k])
}

fn name_token_chars(t: &Vec<char>) -> (r: bool)
    ensures
        r == name_token(t@),
{
    if t.len() == 0 || !char_is_uppercase(t[0]) {
        return false;
    }
    let mut i: usize = 0;
    while i < t.len()
        invariant
            i <= t.len(),
            forall|j: int| 0 <= j < i ==> name_char(#[trigger] t@[j]),
        decreases t.len() - i,
    {
        let c = t[i];
        if !(char_is_alphabetic(c) || c == '\'' || c == '-' || c == '.') {
            return false;
        }
        i += 1;
    }
    true
}

fn is_person_chars(s: &Vec<char>) -> (r: bool)
    ensures
        r == is_person_spec(s@),
{
    let toks = split_ws(s);
    proof {
        assert(views(toks@).len() == toks@.len());
    }
    if toks.len() == 0 || toks.len() > 3 {
        return false;
    }
    if toks[toks.len() - 1].len() <= 1 {
        return false;
    }
    let mut k: usize = 0;
    while k < toks.len()
        invariant
            k <= toks.len(),
            views(toks@) == words(s@),
            forall|j: int| 0 <= j < k ==> name_token(#[trigger] words(s@)[j]),
        decreases toks.len() - k,
    {
        if !name_token_chars(&toks[k]) {
            assert(words(s@)[k as int] == toks@[k as int]@);
            return false;
        }
        assert(words(s@)[k as int] == toks@[k as int]@);
        k += 1;
    }
    true
}

/// Is this whole fragment a person's name? Deliberately tight: one to three
/// capitalized tokens, ending in a token long enough to be a surname.
pub fn is_person(s: &str) -> (r: bool)
    ensures
        r == is_person_spec(s@),
{
    is_person_chars(&chars_of(s))
}

/// The dash form `Strikeout — J. Ortiz`: `(name, rest)` when the right side
/// of the first `sep` is name-shaped and the left is not empty.
pub open spec fn dash_split(t: Seq<char>, sep: char) -> Option<(Seq<char>, Seq<char>)> {
    match t.index_of_first(sep) {
        Some(k) => {
            let head = trim(t.take(k));
            let tail = trim(t.skip(k + 1));
            if head.len() > 0 && is_person_spec(tail) {
                Some((tail, head))
            } else {
                None
            }
        },
        None => None,
    }
}

/// Capitalized words that open a play sentence without being anybody's name.
pub open spec fn not_a_name() -> Seq<Seq<char>> {
    seq!["End"@, "Safety"@, "Timeout"@, "Penalty"@, "Blocked"@, "Missed"@, "Two"@, "Extra"@]
}

pub open spec fn stop_listed(h: Seq<char>) -> bool {
    exists|i: int| 0 <= i < not_a_name().len() && lower_ascii_seq(#[trigger] not_a_name()[i]) == lower_ascii_seq(h)
}

/// More than one byte of UTF-8: two chars or more, or one non-ASCII char.
pub open spec fn multi_byte(h: Seq<char>) -> bool {
    h.len() > 1 || (h.len() == 1 && h[0] as u32 >= 0x80)
}

/// The leading token counts as a name: not stop-listed, more than one byte,
/// capitalized, and made of name chars.
pub open spec fn leading_name(h: Seq<char>) -> bool {
    &&& !stop_listed(h)
    &&& multi_byte(h)
    &&& h.len() > 0
    &&& is_upper(h[0])
    &&& forall|i: int| 0 <= i < h.len() ==> name_char(#[trigger] h[i])
}

/// The play text's name, and everything else: the dash form first (em dash,
/// then en dash), else a name-shaped leading token; `None` when no token is
/// name-shaped, with the whole trimmed sentence as the rest.
pub open spec fn split_surname_spec(s: Seq<char>) -> (Option<Seq<char>>, Seq<char>) {
    let t = trim(s);
    match dash_split(t, '—') {
        Some((n, r)) => (Some(n), r),
        None => match dash_split(t, '–') {
            Some((n, r)) => (Some(n), r),
            None => {
                let head = crate::text::lead_word(t);
                if leading_name(head) {
                    (Some(head), ltrim(t.skip(head.len() as int)))
                } else {
                    (None, t)
                }
            },
        },
    }
}

fn stop_word(i: usize) -> (r: &'static str)
    requires
        i < 8,
    ensures
        r@ == not_a_name()[i as int],
{
    if i == 0 {
        "End"
    } else if i == 1 {
        "Safety"
    } else if i == 2 {
        "Timeout"
    } else if i == 3 {
        "Penalty"
    } else if i == 4 {
        "Blocked"
    } else if i == 5 {
        "Missed"
    } else if i == 6 {
        "Two"
    } else {
        "Extra"
    }
}

fn is_stop_listed(h: &Vec<char>) -> (r: bool)
    ensures
        r == stop_listed(h@),
{
    let lh = lower_ascii_chars(h);
    let mut i: usize = 0;
    while i < 8
        invariant
            i <= 8,
            lh@ == lower_ascii_seq(h@),
            forall|j: int| 0 <= j < i ==> lower_ascii_seq(#[trigger] not_a_name()[j]) != lower_ascii_seq(h@),
        decreases 8 - i,
    {
        let w = lower_ascii_chars(&chars_of(stop_word(i)));
        if chars_eq(&w, &lh) {
            return true;
        }
        i += 1;
    }
    false
}

/// Where the first `sep` sits in `v[a..b]`, if anywhere.
fn find_char(v: &Vec<char>, a: usize, b: usize, sep: char) -> (r: Option<usize>)
    requires
        a <= b <= v.len(),
    ensures
        match (r, v@.subrange(a as int, b as int).index_of_first(sep)) {
            (Some(k), Some(i)) => a <= k < b && k - a == i,
            (None, None) => true,
            _ => false,
        },
{
    let ghost t = v@.subrange(a as int, b as int);
    let mut k = a;
    while k < b
        invariant
            a <= k <= b,
            b <= v.len(),
            t == v@.subrange(a as int, b as int),
            forall|j: int| a <= j < k ==> v@[j] != sep,
        decreases b - k,
    {
        if v[k] == sep {
            proof {
                t.index_of_first_ensures(sep);
                assert(t[k - a] == sep);
                assert(t.contains(sep));
            }
            return Some(k);
        }
        k += 1;
    }
    proof {
        t.index_of_first_ensures(sep);
        if t.contains(sep) {
            let i = choose|i: int| 0 <= i < t.len() && t[i] == sep;
            assert(v@[a + i] == sep);
        }
    }
    None
}

/// Tries the dash form on `v[a..b]` for one dash: `(name, rest)` bounds.
fn try_dash(v: &Vec<char>, a: usize, b: usize, sep: char) -> (r: Option<(usize, usize, usize, usize)>)
    requires
        a <= b <= v.len(),
    ensures
        match (r, dash_split(v@.subrange(a as int, b as int), sep)) {
            (Some((na, nb, ra, rb)), Some((n, rest))) => {
                &&& na <= nb <= v.len()
                &&& ra <= rb <= v.len()
                &&& v@.subrange(na as int, nb as int) == n
                &&& v@.subrange(ra as int, rb as int) == rest
            },
            (None, None) => true,
            _ => false,
        },
{
    let ghost t = v@.subrange(a as int, b as int);
    match find_char(v, a, b, sep) {
        None => None,
        Some(k) => {
            let (ha, hb) = trim_bounds(v, a, k);
            let (ta, tb) = trim_bounds(v, k + 1, b);
            proof {
                assert(t.take(k - a) =~= v@.subrange(a as int, k as int));
                assert(t.skip(k - a + 1) =~= v@.subrange(k + 1, b as int));
            }
            if hb > ha && is_person_chars(&slice_chars(v, ta, tb)) {
                Some((ta, tb, ha, hb))
            } else {
                None
            }
        },
    }
}

/// The play text's name, and everything else. `None` when no token is
/// name-shaped — nothing is invented.
///
/// Baseball writes its subject last behind a dash ("Strikeout — J. Ortiz"),
/// so the dash form is recognized first, and only when the right side is
/// actually name-shaped; otherwise the leading token is the name when it
/// looks like one ("Mahomes 12 Yd pass").
pub fn split_surname(text: &str) -> (r: (Option<&str>, &str))
    ensures
        r.0.is_some() == split_surname_spec(text@).0.is_some(),
        r.0.is_some() ==> r.0.unwrap()@ == split_surname_spec(text@).0.unwrap(),
        r.1@ == split_surname_spec(text@).1,
{
    let v = chars_of(text);
    let (a, b) = trim_bounds(&v, 0, v.len());
    proof {
        assert(v@.subrange(0, v@.len() as int) =~= v@);
    }
    if let Some((na, nb, ra, rb)) = try_dash(&v, a, b, '—') {
        return (Some(text.substring_char(na, nb)), text.substring_char(ra, rb));
    }
    if let Some((na, nb, ra, rb)) = try_dash(&v, a, b, '–') {
        return (Some(text.substring_char(na, nb)), text.substring_char(ra, rb));
    }
    let j = crate::text::lead_word_end(&v, a, b);
    let head = slice_chars(&v, a, j);
    let head_str = text.substring_char(a, j);
    let multi = head.len() > 1 || (head.len() == 1 && (head[0] as u32) >= 0x80);
    let mut is_name = !is_stop_listed(&head) && multi && head.len() > 0;
    if is_name {
        is_name = name_token_chars(&head);
    }
    if is_name {
        let (ra, _rb) = trim_bounds(&v, j, b);
        proof {
            let t = v@.subrange(a as int, b as int);
            assert(t.skip(head@.len() as int) =~= v@.subrange(j as int, b as int));
        }
        (Some(head_str), text.substring_char(ra, b))
    } else {
        (None, text.substring_char(a, b))
    }
}

impl Default for CutState {
    fn default() -> (s: CutState)
        ensures
            s.slot().is_none(),
    {
        CutState::new()
    }
}

/// A cut stays on screen from the moment it is fired until its deadline,
/// and is gone from the deadline on.
pub proof fn lemma_cut_lives_until_deadline(slot: Option<Cut>, t: u64, later: u64)
    requires
        on_screen(slot, t) is Some,
        t <= later,
    ensures
        (later < slot.unwrap().until_tick) ==> on_screen(slot, later) == on_screen(slot, t),
        (later >= slot.unwrap().until_tick) ==> on_screen(slot, later) is None,
{
}

/// A fired cut's countdown starts at its full length in seconds: 3 for a
/// takeover, 2 for a band (1.5 s, rounded up).
pub proof fn lemma_fresh_countdown(tick: u64)
    requires
        tick + CUT_TICKS <= u64::MAX,
    ensures
        remaining_spec((tick + CUT_TICKS) as u64, tick) == 3,
        remaining_spec((tick + BAND_TICKS) as u64, tick) == 2,
{
}

/// A team's display name for the strip: its name, else its abbr, uppercased.
pub open spec fn strip_name(t: Team) -> Seq<char> {
    if t.name@.len() == 0 {
        upper(t.abbr@)
    } else {
        upper(t.name@)
    }
}

fn strip_name_of(t: &Team) -> (s: String)
    ensures
        s@ == strip_name(*t),
{
    if t.name.as_str().is_empty() {
        str_to_uppercase(t.abbr.as_str())
    } else {
        str_to_uppercase(t.name.as_str())
    }
}

/// The dim strip under the detail: who is playing, spelled out.
pub fn strip_text(game: &Game) -> (s: String)
    ensures
        s@ == strip_name(game.away) + " AT "@ + strip_name(game.home),
{
    let mut out = strip_name_of(&game.away);
    append(&mut out, " AT ");
    let home = strip_name_of(&game.home);
    append(&mut out, home.as_str());
    out
}

/// `▲ SCORING PLAY · KC`, padded by a space each side — the takeover's one
/// filled element.
pub fn chip_text(play: &Play) -> (s: String)
    ensures
        play.team@.len() == 0 ==> s@ == " ▲ SCORING PLAY "@,
        play.team@.len() > 0 ==> s@ == " ▲ SCORING PLAY · "@ + upper(play.team@) + " "@,
{
    if play.team.as_str().is_empty() {
        owned(" ▲ SCORING PLAY ")
    } else {
        let mut out = owned(" ▲ SCORING PLAY · ");
        let t = str_to_uppercase(play.team.as_str());
        append(&mut out, t.as_str());
        append(&mut out, " ");
        out
    }
}

/// The band's headline: `▲ HOME RUN · TEX SEAGER · ATH 0 TEX 5` — the
/// scoring word, the team and scorer when known, then the score.
pub open spec fn band_head_spec(game: Game, play: Play, word: Seq<char>) -> Seq<char> {
    let name = split_surname_spec(play.text@).0;
    let who = if play.team@.len() == 0 {
        Seq::<char>::empty()
    } else {
        " · "@ + upper(play.team@) + match name {
            Some(n) => " "@ + upper(n),
            None => Seq::<char>::empty(),
        }
    };
    "▲ "@ + word + who + " · "@ + game.away.abbr@ + " "@ + dec(game.away_score as nat) + " "@
        + game.home.abbr@ + " "@ + dec(game.home_score as nat)
}

pub fn band_head(game: &Game, play: &Play, word: &str) -> (s: String)
    ensures
        s@ == band_head_spec(*game, *play, word@),
{
    let (name, _) = split_surname(play.text.as_str());
    let mut head = owned("▲ ");
    append(&mut head, word);
    let ghost after_word = head@;
    if !play.team.as_str().is_empty() {
        append(&mut head, " · ");
        let t = str_to_uppercase(play.team.as_str());
        append(&mut head, t.as_str());
        if let Some(n) = name {
            append(&mut head, " ");
            let u = str_to_uppercase(n);
            append(&mut head, u.as_str());
        }
    }
    let ghost after_who = head@;
    append(&mut head, " · ");
    append(&mut head, game.away.abbr.as_str());
    append(&mut head, " ");
    append_dec(&mut head, game.away_score as u64);
    append(&mut head, " ");
    append(&mut head, game.home.abbr.as_str());
    append(&mut head, " ");
    append_dec(&mut head, game.home_score as u64);
    proof {
        let who = after_who.subrange(after_word.len() as int, after_who.len() as int);
        assert(after_who =~= after_word + who);
    }
    head
}

/// The band's second row: the jump key and the countdown.
pub fn band_tail(cut: &Cut, tick: u64, key: &str) -> (s: String)
    ensures
        s@ == key@ + " jump · "@ + timer_spec(cut.until_tick, tick),
{
    let mut out = owned(key);
    append(&mut out, " jump · ");
    let t = timer_text(cut, tick);
    append(&mut out, t.as_str());
    out
}

/// The key cap the band's affordance names: the board legend's own `zoom`
/// chord, or `enter` when the legend has none.
pub fn jump_key<'a>(legend: &'a [(&'a str, &'a str)]) -> (r: &'a str)
    ensures
        (exists|i: int| 0 <= i < legend@.len() && legend@[i].1@ == "zoom"@) ==> exists|i: int|
            0 <= i < legend@.len() && legend@[i].1@ == "zoom"@ && r == legend@[i].0 && forall|j: int|
                0 <= j < i ==> legend@[j].1@ != "zoom"@,
        (forall|i: int| 0 <= i < legend@.len() ==> legend@[i].1@ != "zoom"@) ==> r@ == "enter"@,
{
    let mut i: usize = 0;
    while i < legend.len()
        invariant
            i <= legend.len(),
            forall|j: int| 0 <= j < i ==> legend@[j].1@ != "zoom"@,
        decreases legend.len() - i,
    {
        if crate::text::str_eq(legend[i].1, "zoom") {
            return legend[i].0;
        }
        i += 1;
    }
    "enter"
}

/// The takeover's detail line, as text: `MAHOMES · 12 YD PASS TO KELCE · Q4 1:52`.
pub open spec fn detail_spec(play: Play) -> Seq<char> {
    let (name, rest) = split_surname_spec(play.text@);
    let clock = trim(play.period@ + " "@ + play.clock@);
    let a = match name {
        Some(n) => upper(n) + " · "@,
        None => Seq::<char>::empty(),
    };
    let b = if rest.len() > 0 { upper(rest) } else { Seq::<char>::empty() };
    let c = if clock.len() > 0 {
        (if name.is_some() || rest.len() > 0 { " · "@ } else { Seq::<char>::empty() }) + clock
    } else {
        Seq::<char>::empty()
    };
    a + b + c
}

pub fn detail_text(play: &Play) -> (s: String)
    ensures
        s@ == detail_spec(*play),
{
    let (name, rest) = split_surname(play.text.as_str());
    let mut raw = String::new();
    append(&mut raw, play.period.as_str());
    append(&mut raw, " ");
    append(&mut raw, play.clock.as_str());
    let rv = chars_of(raw.as_str());
    let (ca, cb) = trim_bounds(&rv, 0, rv.len());
    let clock = crate::text::string_of(&slice_chars(&rv, ca, cb));
    proof {
        assert(rv@.subrange(0, rv@.len() as int) =~= rv@);
    }
    let mut out = String::new();
    let mut any = false;
    if let Some(n) = name {
        let u = str_to_uppercase(n);
        append(&mut out, u.as_str());
        append(&mut out, " · ");
        any = true;
    }
    let ghost after_a = out@;
    if !rest.is_empty() {
        let u = str_to_uppercase(rest);
        append(&mut out, u.as_str());
        any = true;
    }
    let ghost after_b = out@;
    if !clock.as_str().is_empty() {
        if any {
            append(&mut out, " · ");
        }
        append(&mut out, clock.as_str());
    }
    proof {
        let b = after_b.subrange(after_a.len() as int, after_b.len() as int);
        let c = out@.subrange(after_b.len() as int, out@.len() as int);
        assert(after_b =~= after_a + b);
        assert(out@ =~= after_a + b + c);
    }
    out
}

/// Which size the scoring word ended up at. There is no middle rung: block
/// letters or a plain bold line.
#[derive(Clone, Copy, Debug, PartialEq, Eq, Structural)]
pub enum WordForm {
    Full,
    Text,
}

impl WordForm {
    pub open spec fn rows_spec(self) -> u16 {
        match self {
            WordForm::Full => GLYPH_ROWS,
            WordForm::Text => 1,
        }
    }

    pub open spec fn cols_spec(self, glyphs: nat) -> nat {
        match self {
            WordForm::Full => glyphs * GLYPH_COLS as nat,
            WordForm::Text => glyphs,
        }
    }

    pub fn rows(self) -> (r: u16)
        ensures
            r == self.rows_spec(),
    {
        match self {
            WordForm::Full => GLYPH_ROWS,
            WordForm::Text => 1,
        }
    }

    /// Cells `word` needs at this size.
    pub fn cols(self, word: &str) -> (r: u16)
        requires
            word@.len() * 8 <= u16::MAX,
        ensures
            r == self.cols_spec(word@.len()),
    {
        let glyphs = chars_of(word).len() as u16;
        match self {
            WordForm::Full => glyphs * GLYPH_COLS,
            WordForm::Text => glyphs,
        }
    }
}

/// Where the takeover's pieces land.
#[derive(Clone, Copy, Debug, PartialEq, Eq)]
pub struct TakeoverPlan {
    /// Rows spent on the chip / detail / strip singles: 3, or 0 when there
    /// is no middle left to bracket.
    pub brackets: u16,
    pub word_form: WordForm,
    pub word_rect: Rect,
    pub score: Rect,
    pub score_full: bool,
    /// The row the team labels hang on, when the middle has a spare row.
    pub labels: Option<Rect>,
}

/// Whether a (word, score) pair fits the middle band.
pub open spec fn pair_fits(area: Rect, glyphs: nat, form: WordForm, score_full: bool, middle: int) -> bool {
    form.cols_spec(glyphs) <= area.width && form.rows_spec() + (if score_full { GLYPH_ROWS } else {
        QUAD_ROWS
    }) <= middle
}

/// The biggest (word, score) pair that fits: the word gives way before the
/// score does, because the digits are what is being announced.
pub open spec fn pick_spec(area: Rect, glyphs: nat, middle: int) -> (WordForm, bool) {
    if pair_fits(area, glyphs, WordForm::Full, true, middle) {
        (WordForm::Full, true)
    } else if pair_fits(area, glyphs, WordForm::Full, false, middle) {
        (WordForm::Full, false)
    } else if pair_fits(area, glyphs, WordForm::Text, true, middle) {
        (WordForm::Text, true)
    } else {
        (WordForm::Text, false)
    }
}

/// Lays out the takeover in `area` for a scoring word of `word`: three
/// bracket rows when there are at least six, the biggest pair that fits the
/// middle, centred, and a label row only out of a row the pair did not want.
pub fn takeover_plan(area: Rect, word: &str) -> (p: TakeoverPlan)
    requires
        area.wf(),
        area.height > 0 || area.y < u16::MAX,
        word@.len() * 8 <= u16::MAX,
    ensures
        p.brackets == if area.height >= 6 { 3u16 } else { 0u16 },
        (p.word_form, p.score_full) == pick_spec(area, word@.len(), area.height - p.brackets),
        p.word_rect.x == area.x && p.word_rect.width == area.width,
        p.word_rect.height == p.word_form.rows_spec(),
        p.score.y == p.word_rect.y + p.word_rect.height,
        p.score.height == crate::layout::min(
            if p.score_full { GLYPH_ROWS as int } else { QUAD_ROWS as int },
            area.height - p.brackets,
        ),
        p.word_rect.y >= area.y + (if p.brackets > 0 { 1int } else { 0 }),
        // Whenever some pair fits, the word, the score and the labels stay
        // inside the middle band.
        pair_fits(area, word@.len(), p.word_form, p.score_full, area.height - p.brackets) ==> p.score.y
            + p.score.height <= area.y + (if p.brackets > 0 { 1int } else { 0 }) + area.height - p.brackets,
        p.labels.is_some() ==> p.labels.unwrap().y == p.score.y + p.score.height && p.labels.unwrap().height
            == 1 && p.labels.unwrap().y + 1 <= area.y + (if p.brackets > 0 { 1int } else { 0 }) + area.height
            - p.brackets,
{
    let brackets: u16 = if area.height >= 6 { 3 } else { 0 };
    let middle: u16 = area.height - brackets;
    let (word_form, score_full) = if WordForm::Full.cols(word) <= area.width && WordForm::Full.rows()
        + digit_rows(true) <= middle {
        (WordForm::Full, true)
    } else if WordForm::Full.cols(word) <= area.width && WordForm::Full.rows() + digit_rows(false)
        <= middle {
        (WordForm::Full, false)
    } else if WordForm::Text.cols(word) <= area.width && WordForm::Text.rows() + digit_rows(true)
        <= middle {
        (WordForm::Text, true)
    } else {
        (WordForm::Text, false)
    };
    let dr = digit_rows(score_full);
    let score_rows: u16 = if dr < middle { dr } else { middle };
    let stack: u16 = word_form.rows() + score_rows;
    let top: u16 = area.y + if brackets > 0 { 1 } else { 0 };
    let word_y: u16 = top + (if middle > stack { middle - stack } else { 0 }) / 2;
    let word_rect = Rect { x: area.x, y: word_y, width: area.width, height: word_form.rows() };
    let score = Rect { x: area.x, y: word_y + word_form.rows(), width: area.width, height: score_rows };
    let labels = if stack < middle {
        Some(Rect { x: area.x, y: score.y + score.height, width: area.width, height: 1 })
    } else {
        None
    };
    TakeoverPlan { brackets, word_form, word_rect, score, score_full, labels }
}

} // verus!
