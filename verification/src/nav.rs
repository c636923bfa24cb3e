//! Moving around the board: the tab strip, j/k over the selection, the
//! `[`/`]` date walk, and the small state steps a render tick or a failed
//! fetch takes.
use vstd::prelude::*;
use crate::alerts::Alert;
use crate::app::{Tab, DATE_TRAVEL_MAX_DAYS};
use crate::domain::League;
use crate::text::{append, append_dec, dec};

verus! {

broadcast use vstd::seq_lib::group_seq_properties;

/// The tab strip: Home, then each enabled league in order.
pub open spec fn tab_list_spec(enabled: Seq<League>) -> Seq<Tab> {
    seq![Tab::Home] + enabled.map_values(|l: League| Tab::League(l))
}

/// The tab strip: Home, then each enabled league in order.
pub fn tab_list(enabled: &Vec<League>) -> (r: Vec<Tab>)
    ensures
        r@ == tab_list_spec(enabled@),
{
    let mut out: Vec<Tab> = Vec::new();
    out.push(Tab::Home);
    let mut i: usize = 0;
    while i < enabled.len()
        invariant
            i <= enabled@.len(),
            out@ == seq![Tab::Home] + enabled@.take(i as int).map_values(|l: League| Tab::League(l)),
        decreases enabled@.len() - i,
    {
        out.push(Tab::League(enabled[i]));
        assert(enabled@.take(i + 1).map_values(|l: League| Tab::League(l)) =~= enabled@.take(i as int).map_values(
            |l: League| Tab::League(l),
        ).push(Tab::League(enabled@[i as int])));
        i += 1;
    }
    assert(enabled@.take(enabled@.len() as int) =~= enabled@);
    out
}

/// The first of the first `n` tabs equal to `tab`.
pub open spec fn tab_upto(tabs: Seq<Tab>, tab: Tab, n: int) -> Option<int>
    decreases n,
{
    if n <= 0 {
        None
    } else {
        match tab_upto(tabs, tab, n - 1) {
            Some(i) => Some(i),
            None => if tabs[n - 1] == tab {
                Some(n - 1)
            } else {
                None
            },
        }
    }
}

/// Where `tab` sits in the strip; 0 when it is not there.
pub open spec fn tab_index_spec(tabs: Seq<Tab>, tab: Tab) -> int {
    match tab_upto(tabs, tab, tabs.len() as int) {
        Some(i) => i,
        None => 0,
    }
}

proof fn lemma_tab_upto(tabs: Seq<Tab>, tab: Tab, a: int, b: int)
    requires
        0 <= a <= b <= tabs.len(),
    ensures
        tab_upto(tabs, tab, a) is Some ==> tab_upto(tabs, tab, b) == tab_upto(tabs, tab, a),
        match tab_upto(tabs, tab, b) {
            Some(i) => 0 <= i < b,
            None => true,
        },
    decreases b,
{
    if b > 0 {
        if a < b {
            lemma_tab_upto(tabs, tab, a, b - 1);
        } else {
            lemma_tab_upto(tabs, tab, b - 1, b - 1);
        }
    }
}

/// Where `tab` sits in the strip; 0 when it is not there.
pub fn current_tab_index(tabs: &Vec<Tab>, tab: Tab) -> (r: usize)
    ensures
        r == tab_index_spec(tabs@, tab),
{
    let mut i: usize = 0;
    while i < tabs.len()
        invariant
            i <= tabs@.len(),
            tab_upto(tabs@, tab, i as int) is None,
        decreases tabs@.len() - i,
    {
        if tabs[i] == tab {
            proof {
                lemma_tab_upto(tabs@, tab, i + 1, tabs@.len() as int);
            }
            return i;
        }
        i += 1;
    }
    0
}

/// `(at + delta)` wrapped into `0..n`.
pub open spec fn wrap_spec(at: int, delta: int, n: int) -> int {
    (at + delta) % n
}

/// One step of a wrapping walk over `n` entries.
pub fn wrap(at: usize, delta: isize, n: usize) -> (r: usize)
    requires
        n > 0,
        n <= isize::MAX,
        at <= isize::MAX,
    ensures
        r == wrap_spec(at as int, delta as int, n as int),
        r < n,
{
    let k: i128 = at as i128 + delta as i128;
    let m: u128 = n as u128;
    if k >= 0 {
        let r: u128 = (k as u128) % m;
        r as usize
    } else {
        let neg: u128 = (-k) as u128;
        let r: u128 = neg % m;
        proof {
            lemma_neg_mod(k as int, m as int, r as int);
        }
        if r == 0 {
            0
        } else {
            (m - r) as usize
        }
    }
}

proof fn lemma_neg_mod(k: int, m: int, r: int)
    requires
        k < 0,
        m > 0,
        r == (-k) % m,
    ensures
        k % m == if r == 0 {
            0
        } else {
            m - r
        },
{
    let q = (-k) / m;
    vstd::arithmetic::div_mod::lemma_fundamental_div_mod(-k, m);
    assert(-k == m * q + r);
    vstd::arithmetic::div_mod::lemma_mod_bound(-k, m);
    if r == 0 {
        assert(k == m * (-q)) by (nonlinear_arith)
            requires
                -k == m * q + r,
                r == 0,
        ;
        vstd::arithmetic::div_mod::lemma_mod_multiples_basic(-q, m);
        assert(m * (-q) == (-q) * m) by (nonlinear_arith);
    } else {
        assert(k == m * (-q - 1) + (m - r)) by (nonlinear_arith)
            requires
                -k == m * q + r,
        ;
        vstd::arithmetic::div_mod::lemma_mod_add_multiples_vanish(m - r, m);
        vstd::arithmetic::div_mod::lemma_fundamental_div_mod_converse(k, m, -q - 1, m - r);
    }
}

/// j/k: walk the selection of `n` entries, wrapping at both ends; nothing
/// to walk selects 0.
pub fn move_selected(selected: usize, delta: isize, n: usize) -> (r: usize)
    requires
        n <= isize::MAX,
        selected <= isize::MAX,
    ensures
        n == 0 ==> r == 0,
        n > 0 ==> r == wrap_spec(selected as int, delta as int, n as int),
{
    if n == 0 {
        0
    } else {
        wrap(selected, delta, n)
    }
}

/// Keeps the selection on the list after it shrank.
pub fn clamp_selected(selected: usize, n: usize) -> (r: usize)
    ensures
        r == if n == 0 {
            0
        } else if selected >= n {
            (n - 1) as usize
        } else {
            selected
        },
{
    if n == 0 {
        0
    } else if selected >= n {
        n - 1
    } else {
        selected
    }
}

/// Tab / shift-tab: the tab `delta` steps along the strip, wrapping; no
/// tabs, no move.
pub fn cycle_tab(tabs: &Vec<Tab>, current: Tab, delta: isize) -> (r: Option<Tab>)
    requires
        tabs@.len() <= isize::MAX,
    ensures
        tabs@.len() == 0 ==> r is None,
        tabs@.len() > 0 ==> r == Some(
            tabs@[wrap_spec(tab_index_spec(tabs@, current), delta as int, tabs@.len() as int)],
        ),
{
    if tabs.len() == 0 {
        return None;
    }
    let at = current_tab_index(tabs, current);
    proof {
        lemma_tab_upto(tabs@, current, 0, tabs@.len() as int);
    }
    let next = wrap(at, delta, tabs.len());
    Some(tabs[next])
}

/// A scroll offset moved by `delta` and clamped to `0..=last`.
pub open spec fn scroll_spec(scroll: int, delta: int, last: Option<usize>) -> int {
    match last {
        None => 0,
        Some(m) => if scroll + delta < 0 {
            0
        } else if scroll + delta > m {
            m as int
        } else {
            scroll + delta
        },
    }
}

/// j/k in the plays feed, a zoom's list or the standings: the scroll moves
/// by `delta` and stays within `0..=last`; with nothing to scroll (`last`
/// is none) it rests at the top.
pub fn scroll_by(scroll: usize, delta: isize, last: Option<usize>) -> (r: usize)
    requires
        scroll <= isize::MAX,
        last matches Some(m) ==> m <= isize::MAX,
    ensures
        r == scroll_spec(scroll as int, delta as int, last),
{
    match last {
        None => 0,
        Some(m) => {
            let next: i128 = scroll as i128 + delta as i128;
            if next < 0 {
                0
            } else if next > m as i128 {
                m
            } else {
                next as usize
            }
        },
    }
}

/// `[`/`]`: the viewed-day offset stepped by `delta`, clamped to
/// ±[`DATE_TRAVEL_MAX_DAYS`].
pub fn step_offset(off: i8, delta: i8) -> (r: i8)
    ensures
        r == if off + delta < -DATE_TRAVEL_MAX_DAYS {
            -DATE_TRAVEL_MAX_DAYS as int
        } else if off + delta > DATE_TRAVEL_MAX_DAYS {
            DATE_TRAVEL_MAX_DAYS as int
        } else {
            off + delta
        },
{
    let s: i16 = off as i16 + delta as i16;
    if s < -(DATE_TRAVEL_MAX_DAYS as i16) {
        -DATE_TRAVEL_MAX_DAYS
    } else if s > DATE_TRAVEL_MAX_DAYS as i16 {
        DATE_TRAVEL_MAX_DAYS
    } else {
        s as i8
    }
}

/// The banner still showing at `tick`: one-shot, gone once its lifetime
/// passes.
pub fn expire_alert(active: Option<Alert>, tick: u64) -> (r: Option<Alert>)
    ensures
        r == match active {
            Some(a) => if tick >= a.until_tick {
                None
            } else {
                Some(a)
            },
            None => None,
        },
{
    match active {
        Some(a) => if tick >= a.until_tick {
            None
        } else {
            Some(a)
        },
        None => None,
    }
}

/// The footer line for a failed scoreboard fetch on an empty board:
/// `nfl · ESPN 403 · retry in 30s`.
pub open spec fn failure_line_spec(slug: Seq<char>, error: Seq<char>, retry_secs: Option<u64>) -> Seq<char> {
    match retry_secs {
        Some(s) => slug + " · "@ + error + " · retry in "@ + dec(s as nat) + "s"@,
        None => slug + " · "@ + error,
    }
}

/// The footer line for a failed scoreboard fetch.
pub fn failure_line(league: League, error: &str, retry_secs: Option<u64>) -> (s: String)
    ensures
        s@ == failure_line_spec(crate::domain::slug_of(league), error@, retry_secs),
{
    let mut s = String::new();
    append(&mut s, league.slug());
    append(&mut s, " · ");
    append(&mut s, error);
    match retry_secs {
        Some(secs) => {
            append(&mut s, " · retry in ");
            append_dec(&mut s, secs);
            append(&mut s, "s");
        },
        None => {},
    }
    s
}

/// The three-letter weekday names, Monday first.
pub open spec fn weekday_name(w: int) -> Seq<char> {
    seq!["MON"@, "TUE"@, "WED"@, "THU"@, "FRI"@, "SAT"@, "SUN"@][w]
}

/// The three-letter month names, January first.
pub open spec fn month_name(m: int) -> Seq<char> {
    seq!["JAN"@, "FEB"@, "MAR"@, "APR"@, "MAY"@, "JUN"@, "JUL"@, "AUG"@, "SEP"@, "OCT"@, "NOV"@, "DEC"@][m - 1]
}

/// A traveled date's header label: `FRI AUG 29`.
pub open spec fn date_label_spec(weekday: u8, month: u8, day: u8) -> Seq<char> {
    weekday_name(weekday as int) + " "@ + month_name(month as int) + " "@ + dec(day as nat)
}

fn weekday_str(w: u8) -> (s: &'static str)
    requires
        w < 7,
    ensures
        s@ == weekday_name(w as int),
{
    if w == 0 {
        "MON"
    } else if w == 1 {
        "TUE"
    } else if w == 2 {
        "WED"
    } else if w == 3 {
        "THU"
    } else if w == 4 {
        "FRI"
    } else if w == 5 {
        "SAT"
    } else {
        "SUN"
    }
}

fn month_str(m: u8) -> (s: &'static str)
    requires
        1 <= m <= 12,
    ensures
        s@ == month_name(m as int),
{
    if m == 1 {
        "JAN"
    } else if m == 2 {
        "FEB"
    } else if m == 3 {
        "MAR"
    } else if m == 4 {
        "APR"
    } else if m == 5 {
        "MAY"
    } else if m == 6 {
        "JUN"
    } else if m == 7 {
        "JUL"
    } else if m == 8 {
        "AUG"
    } else if m == 9 {
        "SEP"
    } else if m == 10 {
        "OCT"
    } else if m == 11 {
        "NOV"
    } else {
        "DEC"
    }
}

/// The label for a date given as weekday (0 = Monday), month (1-12) and
/// day of the month.
pub fn label_of(weekday: u8, month: u8, day: u8) -> (s: String)
    requires
        weekday < 7,
        1 <= month <= 12,
    ensures
        s@ == date_label_spec(weekday, month, day),
{
    let mut s = String::new();
    append(&mut s, weekday_str(weekday));
    append(&mut s, " ");
    append(&mut s, month_str(month));
    append(&mut s, " ");
    append_dec(&mut s, day as u64);
    s
}

/// A calendar date as plain values: a year of the proleptic Gregorian
/// calendar, a month (1-12) and a day of the month.
#[derive(Clone, Copy, Debug)]
pub struct CalendarDate {
    pub year: i32,
    pub month: u8,
    pub day: u8,
}

/// Gregorian leap years: every fourth year, but not centuries, but every
/// fourth century.
pub open spec fn is_leap_year(year: int) -> bool {
    year % 4 == 0 && (year % 100 != 0 || year % 400 == 0)
}

/// The days in month `month` (1-12) of `year`.
pub open spec fn days_in_month(year: int, month: int) -> int {
    if month == 2 {
        if is_leap_year(year) {
            29
        } else {
            28
        }
    } else if month == 4 || month == 6 || month == 9 || month == 11 {
        30
    } else {
        31
    }
}

/// A date the calendar has, in the years -9999 to 9999.
pub open spec fn valid_date(year: int, month: int, day: int) -> bool {
    &&& -9999 <= year <= 9999
    &&& 1 <= month <= 12
    &&& 1 <= day <= days_in_month(year, month)
}

/// The days of `year` before month `month` begins.
pub open spec fn days_before_month(year: int, month: int) -> int
    decreases month,
{
    if month <= 1 {
        0
    } else {
        days_before_month(year, month - 1) + days_in_month(year, month - 1)
    }
}

/// Days since 1 January of year 1 on the proleptic Gregorian calendar
/// (negative before it).
pub open spec fn day_number(year: int, month: int, day: int) -> int {
    let y = year - 1;
    365 * y + y / 4 - y / 100 + y / 400 + days_before_month(year, month) + day - 1
}

/// The day of the week, counted from Monday (0) to Sunday (6): 1 January
/// of year 1 was a Monday.
pub open spec fn weekday_from_monday(year: int, month: int, day: int) -> int {
    day_number(year, month, day) % 7
}

/// `time::Date::from_calendar_date` on the date (its month through
/// `Month::try_from`), then `Date::weekday` and
/// `Weekday::number_days_from_monday`. Claimed: the result is the date's
/// day of the week on the proleptic Gregorian calendar, Monday being 0.
/// Both constructors succeed on every date `valid_date` admits, so neither
/// unwrap can fail.
#[verifier::external_body]
fn calendar_weekday(year: i32, month: u8, day: u8) -> (r: u8)
    requires
        valid_date(year as int, month as int, day as int),
    ensures
        r as int == weekday_from_monday(year as int, month as int, day as int),
{
    let m = time::Month::try_from(month).unwrap();
    time::Date::from_calendar_date(year, m, day).unwrap().weekday().number_days_from_monday()
}

/// Header label for a traveled date: `FRI AUG 29` — weekday, month, day,
/// no year (the ±7-day window never needs one). The weekday is the `time`
/// crate's; what the label says of its parts is stated by [`label_of`].
pub fn date_label(d: CalendarDate) -> (s: String)
    requires
        valid_date(d.year as int, d.month as int, d.day as int),
    ensures
        s@ == date_label_spec(
            weekday_from_monday(d.year as int, d.month as int, d.day as int) as u8,
            d.month,
            d.day,
        ),
{
    let w = calendar_weekday(d.year, d.month, d.day);
    label_of(w, d.month, d.day)
}

} // verus!
