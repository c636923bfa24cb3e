//! The header's shed ladder. The right side — connection chip, date, clock
//! — is never clipped; the left side gives way, one thing per rung: the
//! `FILTER:` label, the tab chips' brackets, trailing league tabs (never past
//! the selected one), and finally the wordmark `GAMEDAY` → `GD`.
use vstd::prelude::*;
use crate::net::{chip_label_spec, NetChip};
use crate::text::{append, string_views};

verus! {

broadcast use vstd::seq_lib::group_seq_properties;

/// Width of the full wordmark ` GAMEDAY `.
pub const MARK_FULL_LEN: usize = 9;

/// Width of the short wordmark ` GD `.
pub const MARK_SHORT_LEN: usize = 4;

/// Width of the `  FILTER: ` label.
pub const FILTER_LABEL_LEN: usize = 10;

/// One shape of the header's left side: which wordmark, whether the filter
/// label shows, whether tab chips are bracketed, and the window of tabs shown
/// (always holding the selected one).
#[derive(Clone, Copy, Debug, PartialEq, Eq, Structural)]
pub struct HeaderRung {
    pub short_mark: bool,
    pub filter: bool,
    pub bracketed: bool,
    pub start: usize,
    pub end: usize,
}

/// The shape chosen: the rung, which chip form (index into the forms), and
/// whether the date fits beside the clock.
#[derive(Clone, Copy, Debug, PartialEq, Eq, Structural)]
pub struct HeaderFit {
    pub rung: HeaderRung,
    pub chip: Option<usize>,
    pub show_date: bool,
}

/// The chip's bare state word: `OFFLINE` for an outage, else the label.
pub open spec fn short_label_spec(c: NetChip) -> Option<Seq<char>> {
    match c {
        NetChip::Offline { .. } => Some("OFFLINE"@),
        _ => chip_label_spec(c),
    }
}

/// The chip's forms, longest first: padded label, bare word with a space
/// each side, bare word. None while live.
pub open spec fn chip_forms_spec(c: NetChip) -> Seq<Seq<char>> {
    match (chip_label_spec(c), short_label_spec(c)) {
        (Some(full), Some(bare)) => seq!["  "@ + full + "  "@, " "@ + bare + " "@, bare],
        _ => Seq::empty(),
    }
}

/// The connection chip's forms, longest first.
pub fn chip_forms(c: &NetChip) -> (r: Vec<String>)
    ensures
        string_views(r@) == chip_forms_spec(*c),
{
    let mut out: Vec<String> = Vec::new();
    match (c.label(), c.short_label()) {
        (Some(full), Some(bare)) => {
            let mut a = String::new();
            append(&mut a, "  ");
            append(&mut a, full.as_str());
            append(&mut a, "  ");
            let mut b = String::new();
            append(&mut b, " ");
            append(&mut b, bare.as_str());
            append(&mut b, " ");
            out.push(a);
            out.push(b);
            out.push(bare);
            assert(string_views(out@) =~= chip_forms_spec(*c));
        },
        _ => {
            assert(string_views(out@) =~= chip_forms_spec(*c));
        },
    }
    out
}

/// A chip form's width: a form with no trailing space costs one more
/// column, the separator that keeps it from running into the date.
pub open spec fn chip_width_spec(form: Seq<char>) -> int {
    form.len() + if form.len() > 0 && form.last() == ' ' {
        0int
    } else {
        1int
    }
}

/// The ladder, most generous first.
pub open spec fn ladder_spec(n: int, sel: int) -> Seq<HeaderRung> {
    seq![
        HeaderRung { short_mark: false, filter: true, bracketed: true, start: 0, end: n as usize },
        HeaderRung { short_mark: false, filter: false, bracketed: true, start: 0, end: n as usize },
    ] + Seq::new(
        (n - sel) as nat,
        |k: int| HeaderRung { short_mark: false, filter: false, bracketed: false, start: 0, end: (n - k) as usize },
    ) + Seq::new(
        (sel + 1) as nat,
        |k: int| HeaderRung { short_mark: true, filter: false, bracketed: false, start: k as usize, end: (sel + 1) as usize },
    )
}

/// One tab chip's cells, plus the space after it: `[NFL]` selected,
/// `[ NFL ]` otherwise, bare when unbracketed.
pub open spec fn chip_cells(len: int, selected: bool, bracketed: bool) -> int {
    (if !bracketed {
        len
    } else if selected {
        len + 2
    } else {
        len + 4
    }) + 1
}

/// The cells of tabs `[start, k)`.
pub open spec fn tabs_width(lens: Seq<usize>, sel: int, bracketed: bool, start: int, k: int) -> int
    decreases k - start,
{
    if k <= start {
        0
    } else {
        tabs_width(lens, sel, bracketed, start, k - 1) + chip_cells(lens[k - 1] as int, k - 1 == sel, bracketed)
    }
}

/// The left side's width at a rung.
pub open spec fn left_spec(r: HeaderRung, lens: Seq<usize>, sel: int, alert: int) -> int {
    (if r.short_mark {
        MARK_SHORT_LEN as int
    } else {
        MARK_FULL_LEN as int
    }) + (if r.filter {
        FILTER_LABEL_LEN as int
    } else {
        0int
    }) + tabs_width(lens, sel, r.bracketed, r.start as int, r.end as int) + alert
}

/// The first chip form (of the first `k`) that fits beside `left`, `date`
/// and `clock` within `width`.
pub open spec fn form_upto(forms: Seq<Seq<char>>, left: int, date: int, clock: int, width: int, k: int) -> Option<int>
    decreases k,
{
    if k <= 0 {
        None
    } else {
        match form_upto(forms, left, date, clock, width, k - 1) {
            Some(i) => Some(i),
            None => if left + chip_width_spec(forms[k - 1]) + date + clock <= width {
                Some(k - 1)
            } else {
                None
            },
        }
    }
}

/// Whether the right side fits beside `left`, and with which chip form:
/// with no chip, just whether date and clock fit.
pub open spec fn best_chip_spec(forms: Seq<Seq<char>>, left: int, date: int, clock: int, width: int) -> Option<
    Option<int>,
> {
    if forms.len() == 0 {
        if left + date + clock <= width {
            Some(None)
        } else {
            None
        }
    } else {
        match form_upto(forms, left, date, clock, width, forms.len() as int) {
            Some(i) => Some(Some(i)),
            None => None,
        }
    }
}

/// The first of the first `k` rungs where the right side fits whole.
pub open spec fn rung_upto(
    ladder: Seq<HeaderRung>,
    lens: Seq<usize>,
    sel: int,
    alert: int,
    forms: Seq<Seq<char>>,
    date: int,
    clock: int,
    width: int,
    k: int,
) -> Option<int>
    decreases k,
{
    if k <= 0 {
        None
    } else {
        match rung_upto(ladder, lens, sel, alert, forms, date, clock, width, k - 1) {
            Some(i) => Some(i),
            None => if best_chip_spec(forms, left_spec(ladder[k - 1], lens, sel, alert), date, clock, width) is Some {
                Some(k - 1)
            } else {
                None
            },
        }
    }
}

/// The header's shape: the first rung where the right side fits whole,
/// with the longest chip form that fits; past the last rung the date goes,
/// then the chip.
pub open spec fn header_fit_spec(
    lens: Seq<usize>,
    sel: int,
    alert: int,
    forms: Seq<Seq<char>>,
    date: int,
    clock: int,
    width: int,
) -> HeaderFit {
    let ladder = ladder_spec(lens.len() as int, sel);
    match rung_upto(ladder, lens, sel, alert, forms, date, clock, width, ladder.len() as int) {
        Some(i) => HeaderFit {
            rung: ladder[i],
            chip: match best_chip_spec(forms, left_spec(ladder[i], lens, sel, alert), date, clock, width) {
                Some(Some(f)) => Some(f as usize),
                _ => None,
            },
            show_date: true,
        },
        None => {
            let last = ladder.last();
            HeaderFit {
                rung: last,
                chip: match best_chip_spec(forms, left_spec(last, lens, sel, alert), 0, clock, width) {
                    Some(Some(f)) => Some(f as usize),
                    _ => None,
                },
                show_date: false,
            }
        },
    }
}

/// A bound above any width: sums are capped here, which leaves every
/// comparison with a `u16` width unchanged.
pub const CAP: u64 = 0x10_0000;

fn cap(x: u64) -> (r: u64)
    ensures
        r == if x < CAP {
            x
        } else {
            CAP
        },
{
    if x < CAP {
        x
    } else {
        CAP
    }
}

fn ladder(n: usize, sel: usize) -> (r: Vec<HeaderRung>)
    requires
        sel < n,
    ensures
        r@ == ladder_spec(n as int, sel as int),
{
    let mut out: Vec<HeaderRung> = Vec::new();
    out.push(HeaderRung { short_mark: false, filter: true, bracketed: true, start: 0, end: n });
    out.push(HeaderRung { short_mark: false, filter: false, bracketed: true, start: 0, end: n });
    let ghost p0 = out@;
    let mut k: usize = 0;
    while k < n - sel
        invariant
            k <= n - sel,
            sel < n,
            out@ == p0 + Seq::new(
                k as nat,
                |j: int| HeaderRung { short_mark: false, filter: false, bracketed: false, start: 0, end: (n - j) as usize },
            ),
        decreases n - sel - k,
    {
        out.push(HeaderRung { short_mark: false, filter: false, bracketed: false, start: 0, end: n - k });
        assert(Seq::new(
            (k + 1) as nat,
            |j: int| HeaderRung { short_mark: false, filter: false, bracketed: false, start: 0, end: (n - j) as usize },
        ) =~= Seq::new(
            k as nat,
            |j: int| HeaderRung { short_mark: false, filter: false, bracketed: false, start: 0, end: (n - j) as usize },
        ).push(HeaderRung { short_mark: false, filter: false, bracketed: false, start: 0, end: (n - k) as usize }));
        k += 1;
    }
    let ghost p1 = out@;
    k = 0;
    while k <= sel
        invariant
            k <= sel + 1,
            sel < n,
            out@ == p1 + Seq::new(
                k as nat,
                |j: int| HeaderRung { short_mark: true, filter: false, bracketed: false, start: j as usize, end: (sel + 1) as usize },
            ),
        decreases sel + 1 - k,
    {
        out.push(HeaderRung { short_mark: true, filter: false, bracketed: false, start: k, end: sel + 1 });
        assert(Seq::new(
            (k + 1) as nat,
            |j: int| HeaderRung { short_mark: true, filter: false, bracketed: false, start: j as usize, end: (sel + 1) as usize },
        ) =~= Seq::new(
            k as nat,
            |j: int| HeaderRung { short_mark: true, filter: false, bracketed: false, start: j as usize, end: (sel + 1) as usize },
        ).push(HeaderRung { short_mark: true, filter: false, bracketed: false, start: k, end: (sel + 1) as usize }));
        k += 1;
    }
    assert(out@ =~= ladder_spec(n as int, sel as int));
    out
}

proof fn lemma_tabs_width_nonneg(lens: Seq<usize>, sel: int, bracketed: bool, start: int, k: int)
    ensures
        tabs_width(lens, sel, bracketed, start, k) >= 0,
    decreases k - start,
{
    if k > start {
        lemma_tabs_width_nonneg(lens, sel, bracketed, start, k - 1);
    }
}

fn left_len(r: HeaderRung, lens: &Vec<usize>, sel: usize, alert: u64) -> (w: u64)
    requires
        r.start <= r.end <= lens@.len(),
    ensures
        w == if left_spec(r, lens@, sel as int, alert as int) < CAP {
            left_spec(r, lens@, sel as int, alert as int)
        } else {
            CAP as int
        },
{
    let mut w: u64 = if r.short_mark {
        MARK_SHORT_LEN as u64
    } else {
        MARK_FULL_LEN as u64
    };
    if r.filter {
        w = w + FILTER_LABEL_LEN as u64;
    }
    let ghost head = w as int;
    let mut i: usize = r.start;
    while i < r.end
        invariant
            r.start <= i <= r.end <= lens@.len(),
            head <= MARK_FULL_LEN + FILTER_LABEL_LEN,
            w == if head + tabs_width(lens@, sel as int, r.bracketed, r.start as int, i as int) < CAP {
                head + tabs_width(lens@, sel as int, r.bracketed, r.start as int, i as int)
            } else {
                CAP as int
            },
        decreases r.end - i,
    {
        proof {
            lemma_tabs_width_nonneg(lens@, sel as int, r.bracketed, r.start as int, i as int);
        }
        let len = cap(lens[i] as u64);
        let cells: u64 = if !r.bracketed {
            len
        } else if i == sel {
            len + 2
        } else {
            len + 4
        } + 1;
        w = cap(w + cells);
        i += 1;
    }
    proof {
        lemma_tabs_width_nonneg(lens@, sel as int, r.bracketed, r.start as int, r.end as int);
    }
    cap(w + cap(alert))
}

fn chip_width(form: &String) -> (w: u64)
    ensures
        w == if chip_width_spec(form@) < CAP {
            chip_width_spec(form@)
        } else {
            CAP as int
        },
{
    let cs = crate::text::chars_of(form.as_str());
    let n = cs.len();
    let pad: u64 = if n > 0 && cs[n - 1] == ' ' {
        0
    } else {
        1
    };
    cap(cap(n as u64) + pad)
}

fn best_chip(forms: &Vec<String>, left: u64, date: u64, clock: u64, width: u16, ghost_left: Ghost<int>, ghost_date: Ghost<
    int,
>, ghost_clock: Ghost<int>) -> (r: Option<Option<usize>>)
    requires
        ghost_left@ >= 0 && ghost_date@ >= 0 && ghost_clock@ >= 0,
        left == if ghost_left@ < CAP {
            ghost_left@
        } else {
            CAP as int
        },
        date == if ghost_date@ < CAP {
            ghost_date@
        } else {
            CAP as int
        },
        clock == if ghost_clock@ < CAP {
            ghost_clock@
        } else {
            CAP as int
        },
    ensures
        match (r, best_chip_spec(string_views(forms@), ghost_left@, ghost_date@, ghost_clock@, width as int)) {
            (Some(Some(a)), Some(Some(b))) => a == b,
            (Some(None), Some(None)) => true,
            (None, None) => true,
            _ => false,
        },
{
    let ghost fv = string_views(forms@);
    if forms.len() == 0 {
        return if left + date + clock <= width as u64 {
            Some(None)
        } else {
            None
        };
    }
    let mut k: usize = 0;
    while k < forms.len()
        invariant
            k <= forms@.len(),
            fv == string_views(forms@),
            form_upto(fv, ghost_left@, ghost_date@, ghost_clock@, width as int, k as int) is None,
            ghost_left@ >= 0 && ghost_date@ >= 0 && ghost_clock@ >= 0,
            left == if ghost_left@ < CAP {
                ghost_left@
            } else {
                CAP as int
            },
            date == if ghost_date@ < CAP {
                ghost_date@
            } else {
                CAP as int
            },
            clock == if ghost_clock@ < CAP {
                ghost_clock@
            } else {
                CAP as int
            },
        decreases forms@.len() - k,
    {
        let cw = chip_width(&forms[k]);
        assert(fv[k as int] == forms@[k as int]@);
        if left + cw + date + clock <= width as u64 {
            proof {
                lemma_form_upto(fv, ghost_left@, ghost_date@, ghost_clock@, width as int, k + 1, fv.len() as int);
            }
            return Some(Some(k));
        }
        k += 1;
    }
    None
}

proof fn lemma_form_upto(forms: Seq<Seq<char>>, left: int, date: int, clock: int, width: int, a: int, b: int)
    requires
        0 <= a <= b,
    ensures
        form_upto(forms, left, date, clock, width, a) is Some ==> form_upto(forms, left, date, clock, width, b)
            == form_upto(forms, left, date, clock, width, a),
    decreases b,
{
    if b > a {
        lemma_form_upto(forms, left, date, clock, width, a, b - 1);
    }
}

proof fn lemma_rung_upto(
    ladder: Seq<HeaderRung>,
    lens: Seq<usize>,
    sel: int,
    alert: int,
    forms: Seq<Seq<char>>,
    date: int,
    clock: int,
    width: int,
    a: int,
    b: int,
)
    requires
        0 <= a <= b,
    ensures
        rung_upto(ladder, lens, sel, alert, forms, date, clock, width, a) is Some ==> rung_upto(
            ladder,
            lens,
            sel,
            alert,
            forms,
            date,
            clock,
            width,
            b,
        ) == rung_upto(ladder, lens, sel, alert, forms, date, clock, width, a),
    decreases b,
{
    if b > a {
        lemma_rung_upto(ladder, lens, sel, alert, forms, date, clock, width, a, b - 1);
    }
}

/// Picks the header's shape for a row `width` wide: `lens` are the tab
/// labels' widths, `sel` the selected tab, `alert` the banner's cells (0 when
/// none), `forms` the chip's forms, `date` and `clock` the right side's
/// cells.
pub fn header_fit(
    lens: &Vec<usize>,
    sel: usize,
    alert: u64,
    forms: &Vec<String>,
    date: u64,
    clock: u64,
    width: u16,
) -> (f: HeaderFit)
    requires
        sel < lens@.len(),
    ensures
        f == header_fit_spec(lens@, sel as int, alert as int, string_views(forms@), date as int, clock as int, width as int),
{
    let n = lens.len();
    let rungs = ladder(n, sel);
    let ghost fv = string_views(forms@);
    let capped_date = cap(date);
    let capped_clock = cap(clock);
    let mut i: usize = 0;
    while i < rungs.len()
        invariant
            i <= rungs@.len(),
            sel < n == lens@.len(),
            capped_date == if date < CAP {
                date
            } else {
                CAP
            },
            capped_clock == if clock < CAP {
                clock
            } else {
                CAP
            },
            rungs@ == ladder_spec(n as int, sel as int),
            fv == string_views(forms@),
            rung_upto(rungs@, lens@, sel as int, alert as int, fv, date as int, clock as int, width as int, i as int) is None,
        decreases rungs@.len() - i,
    {
        let r = rungs[i];
        let left = left_len(r, lens, sel, alert);
        let ghost gl = left_spec(r, lens@, sel as int, alert as int);
        proof {
            lemma_tabs_width_nonneg(lens@, sel as int, r.bracketed, r.start as int, r.end as int);
        }
        match best_chip(forms, left, capped_date, capped_clock, width, Ghost(gl), Ghost(date as int), Ghost(clock as int)) {
            Some(chip) => {
                proof {
                    lemma_rung_upto(
                        rungs@,
                        lens@,
                        sel as int,
                        alert as int,
                        fv,
                        date as int,
                        clock as int,
                        width as int,
                        i + 1,
                        rungs@.len() as int,
                    );
                }
                return HeaderFit { rung: r, chip, show_date: true };
            },
            None => {},
        }
        i += 1;
    }
    let r = rungs[rungs.len() - 1];
    let left = left_len(r, lens, sel, alert);
    let ghost gl = left_spec(r, lens@, sel as int, alert as int);
    proof {
        lemma_tabs_width_nonneg(lens@, sel as int, r.bracketed, r.start as int, r.end as int);
    }
    let chip = match best_chip(forms, left, 0, capped_clock, width, Ghost(gl), Ghost(0), Ghost(clock as int)) {
        Some(c) => c,
        None => None,
    };
    HeaderFit { rung: r, chip, show_date: false }
}

proof fn lemma_form_fits(forms: Seq<Seq<char>>, left: int, date: int, clock: int, width: int, k: int)
    ensures
        match form_upto(forms, left, date, clock, width, k) {
            Some(i) => 0 <= i < k && left + chip_width_spec(forms[i]) + date + clock <= width,
            None => true,
        },
    decreases k,
{
    if k > 0 {
        lemma_form_fits(forms, left, date, clock, width, k - 1);
    }
}

proof fn lemma_rung_fits(
    ladder: Seq<HeaderRung>,
    lens: Seq<usize>,
    sel: int,
    alert: int,
    forms: Seq<Seq<char>>,
    date: int,
    clock: int,
    width: int,
    k: int,
)
    ensures
        match rung_upto(ladder, lens, sel, alert, forms, date, clock, width, k) {
            Some(i) => 0 <= i < k && best_chip_spec(forms, left_spec(ladder[i], lens, sel, alert), date, clock, width)
                is Some,
            None => true,
        },
    decreases k,
{
    if k > 0 {
        lemma_rung_fits(ladder, lens, sel, alert, forms, date, clock, width, k - 1);
    }
}

/// The right side is never clipped: whenever the header shows the date,
/// the chosen left side, chip form, date and clock together fit the row.
pub proof fn lemma_right_side_whole(
    lens: Seq<usize>,
    sel: int,
    alert: int,
    forms: Seq<Seq<char>>,
    date: int,
    clock: int,
    width: int,
)
    requires
        0 <= sel < lens.len(),
        forms.len() <= usize::MAX,
    ensures
        ({
            let f = header_fit_spec(lens, sel, alert, forms, date, clock, width);
            f.show_date ==> left_spec(f.rung, lens, sel, alert) + match f.chip {
                Some(i) => chip_width_spec(forms[i as int]),
                None => 0,
            } + date + clock <= width
        }),
{
    let ladder = ladder_spec(lens.len() as int, sel);
    lemma_rung_fits(ladder, lens, sel, alert, forms, date, clock, width, ladder.len() as int);
    match rung_upto(ladder, lens, sel, alert, forms, date, clock, width, ladder.len() as int) {
        Some(i) => {
            let left = left_spec(ladder[i], lens, sel, alert);
            lemma_form_fits(forms, left, date, clock, width, forms.len() as int);
        },
        None => {},
    }
}

/// The columns before the first tab at a rung: the mark and the filter
/// label when it shows.
pub open spec fn head_cells(r: HeaderRung) -> int {
    (if r.short_mark {
        MARK_SHORT_LEN as int
    } else {
        MARK_FULL_LEN as int
    }) + (if r.filter {
        FILTER_LABEL_LEN as int
    } else {
        0int
    })
}

/// The click zones of the tabs `[r.start, k)` drawn at rung `r` in a row
/// `width` wide: each rendered tab's index, first column and width (its
/// chip without the space after it), for the tabs that end inside the row.
pub open spec fn tab_zones_upto(r: HeaderRung, lens: Seq<usize>, sel: int, width: int, k: int) -> Seq<(usize, u16, u16)>
    decreases k - r.start,
{
    if k <= r.start {
        Seq::empty()
    } else {
        let acc = tab_zones_upto(r, lens, sel, width, k - 1);
        let x = head_cells(r) + tabs_width(lens, sel, r.bracketed, r.start as int, k - 1);
        let w = chip_cells(lens[k - 1] as int, k - 1 == sel, r.bracketed) - 1;
        if x + w <= width {
            acc.push(((k - 1) as usize, x as u16, w as u16))
        } else {
            acc
        }
    }
}

/// Where each rendered tab can be clicked, for the rung `header_fit` chose.
pub fn tab_zones(r: HeaderRung, lens: &Vec<usize>, sel: usize, width: u16) -> (z: Vec<(usize, u16, u16)>)
    requires
        r.start <= r.end <= lens@.len(),
    ensures
        z@ == tab_zones_upto(r, lens@, sel as int, width as int, r.end as int),
{
    let head: u64 = (if r.short_mark {
        MARK_SHORT_LEN as u64
    } else {
        MARK_FULL_LEN as u64
    }) + if r.filter {
        FILTER_LABEL_LEN as u64
    } else {
        0
    };
    let mut x: u64 = head;
    let mut out: Vec<(usize, u16, u16)> = Vec::new();
    let mut i: usize = r.start;
    while i < r.end
        invariant
            r.start <= i <= r.end <= lens@.len(),
            head == head_cells(r),
            x == if head + tabs_width(lens@, sel as int, r.bracketed, r.start as int, i as int) < CAP {
                head + tabs_width(lens@, sel as int, r.bracketed, r.start as int, i as int)
            } else {
                CAP as int
            },
            out@ == tab_zones_upto(r, lens@, sel as int, width as int, i as int),
        decreases r.end - i,
    {
        proof {
            lemma_tabs_width_nonneg(lens@, sel as int, r.bracketed, r.start as int, i as int);
        }
        let len = cap(lens[i] as u64);
        let cells: u64 = if !r.bracketed {
            len
        } else if i == sel {
            len + 2
        } else {
            len + 4
        };
        if x + cells <= width as u64 {
            out.push((i, x as u16, cells as u16));
        }
        x = cap(x + cells + 1);
        i += 1;
    }
    out
}

} // verus!
