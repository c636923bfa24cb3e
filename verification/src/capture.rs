//! A captured screen as a file: the grid of cells the terminal would show,
//! written as an HTML page (one styled span per colored cell) or as ANSI
//! text (24-bit color escapes). A cell is what the capture reads of it: its
//! symbol, its foreground and background ink, and whether it is bold.
use vstd::prelude::*;
use crate::gallery::{escape_spec, html_escape};
use crate::text::{append, append_dec, dec, push_char};

verus! {

broadcast use vstd::seq_lib::group_seq_properties;

/// A cell's color as the capture sees it: the terminal default, a 24-bit
/// color, or a named palette color (by its lowercase name).
#[derive(Clone, Debug, PartialEq, Eq)]
pub enum Ink {
    Reset,
    Rgb(u8, u8, u8),
    Named(String),
}

/// One screen cell.
#[derive(Clone, Debug, PartialEq, Eq)]
pub struct CellView {
    pub symbol: String,
    pub fg: Ink,
    pub bg: Ink,
    pub bold: bool,
}

/// A hex digit, lowercase.
pub open spec fn hex_digit(n: int) -> char {
    if n < 10 {
        (('0' as int) + n) as char
    } else {
        (('a' as int) + (n - 10)) as char
    }
}

/// A byte as two lowercase hex digits (`{:02x}`).
pub open spec fn hex2(n: u8) -> Seq<char> {
    seq![hex_digit((n / 16) as int), hex_digit((n % 16) as int)]
}

/// A color as CSS: none for the default, `#rrggbb` for a 24-bit color, a
/// named color by its name.
pub open spec fn css_spec(c: Ink) -> Seq<char> {
    match c {
        Ink::Reset => Seq::empty(),
        Ink::Rgb(r, g, b) => "#"@ + hex2(r) + hex2(g) + hex2(b),
        Ink::Named(n) => n@,
    }
}

fn hex_char(n: u8) -> (c: char)
    requires
        n < 16,
    ensures
        c == hex_digit(n as int),
{
    if n < 10 {
        (('0' as u8) + n) as char
    } else {
        (('a' as u8) + (n - 10)) as char
    }
}

fn push_hex2(s: &mut String, n: u8)
    ensures
        final(s)@ == old(s)@ + hex2(n),
{
    push_char(s, hex_char(n / 16));
    push_char(s, hex_char(n % 16));
    assert(final(s)@ =~= old(s)@ + hex2(n));
}

/// A color as CSS; see [`css_spec`].
pub fn color_css(c: &Ink) -> (s: String)
    ensures
        s@ == css_spec(*c),
{
    match c {
        Ink::Reset => String::new(),
        Ink::Rgb(r, g, b) => {
            let mut s = String::new();
            append(&mut s, "#");
            push_hex2(&mut s, *r);
            push_hex2(&mut s, *g);
            push_hex2(&mut s, *b);
            s
        },
        Ink::Named(n) => n.clone(),
    }
}

/// A cell's inline style: its colors and weight.
pub open spec fn style_spec(c: CellView) -> Seq<char> {
    (if css_spec(c.fg).len() > 0 {
        "color:"@ + css_spec(c.fg) + ";"@
    } else {
        Seq::empty()
    }) + (if css_spec(c.bg).len() > 0 {
        "background:"@ + css_spec(c.bg) + ";"@
    } else {
        Seq::empty()
    }) + (if c.bold {
        "font-weight:700;"@
    } else {
        Seq::empty()
    })
}

/// A cell in the page: nothing for a cell a wide glyph covers, the escaped
/// symbol bare when it has no style, else in a styled span.
pub open spec fn html_cell(c: CellView) -> Seq<char> {
    if c.symbol@.len() == 0 {
        Seq::empty()
    } else if style_spec(c).len() == 0 {
        escape_spec(c.symbol@)
    } else {
        "<span style=\""@ + style_spec(c) + "\">"@ + escape_spec(c.symbol@) + "</span>"@
    }
}

/// A row of cells in the page, then its line break.
pub open spec fn html_row(row: Seq<CellView>) -> Seq<char>
    decreases row.len(),
{
    if row.len() == 0 {
        Seq::empty()
    } else {
        html_row(row.drop_last()) + html_cell(row.last())
    }
}

/// The page's rows.
pub open spec fn html_rows(rows: Seq<Vec<CellView>>) -> Seq<char>
    decreases rows.len(),
{
    if rows.len() == 0 {
        Seq::empty()
    } else {
        html_rows(rows.drop_last()) + html_row(rows.last()@) + "\n"@
    }
}

/// The page's head: the font face (when one is given), the page's ground
/// and ink, a monospace `pre` to hold the grid.
pub open spec fn html_head(font_face: Seq<char>, page_bg: Seq<char>, page_fg: Seq<char>) -> Seq<char> {
    "<!DOCTYPE html><html><head><meta charset=\"utf-8\"><title>gameday board</title>\n<style>\n  "@ + font_face
        + "html,body{margin:0;background:"@ + page_bg
        + ";}\n  pre{font:13px/16px 'DumpMono',Menlo,\"Cascadia Mono\",\"SF Mono\",ui-monospace,monospace;\n      margin:16px;padding:10px 12px;background:"@
        + page_bg + ";color:"@ + page_fg
        + ";\n      display:inline-block;white-space:pre;}\n  pre span{font:inherit;}\n</style></head><body><pre>"@
}

/// A captured screen as an HTML page; see [`html_head`], [`html_rows`].
pub open spec fn html_spec(rows: Seq<Vec<CellView>>, font_face: Seq<char>, page_bg: Seq<char>, page_fg: Seq<char>) -> Seq<
    char,
> {
    html_head(font_face, page_bg, page_fg) + html_rows(rows) + "</pre></body></html>\n"@
}

fn cell_html(c: &CellView) -> (s: String)
    ensures
        s@ == html_cell(*c),
{
    if c.symbol.as_str().is_empty() {
        return String::new();
    }
    let fg = color_css(&c.fg);
    let bg = color_css(&c.bg);
    let mut style = String::new();
    if !fg.as_str().is_empty() {
        append(&mut style, "color:");
        append(&mut style, fg.as_str());
        append(&mut style, ";");
    }
    if !bg.as_str().is_empty() {
        append(&mut style, "background:");
        append(&mut style, bg.as_str());
        append(&mut style, ";");
    }
    if c.bold {
        append(&mut style, "font-weight:700;");
    }
    assert(style@ == style_spec(*c));
    let ch = html_escape(c.symbol.as_str());
    if style.as_str().is_empty() {
        ch
    } else {
        let mut s = String::new();
        append(&mut s, "<span style=\"");
        append(&mut s, style.as_str());
        append(&mut s, "\">");
        append(&mut s, ch.as_str());
        append(&mut s, "</span>");
        s
    }
}

/// A captured screen as an HTML page: `font_face` is the `@font-face` rule
/// to lead the style with (empty for none), `page_bg` and `page_fg` the
/// theme's ground and ink as CSS.
pub fn buffer_to_html(rows: &Vec<Vec<CellView>>, font_face: &str, page_bg: &str, page_fg: &str) -> (s: String)
    ensures
        s@ == html_spec(rows@, font_face@, page_bg@, page_fg@),
{
    let mut s = String::new();
    append(
        &mut s,
        "<!DOCTYPE html><html><head><meta charset=\"utf-8\"><title>gameday board</title>\n<style>\n  ",
    );
    append(&mut s, font_face);
    append(&mut s, "html,body{margin:0;background:");
    append(&mut s, page_bg);
    append(
        &mut s,
        ";}\n  pre{font:13px/16px 'DumpMono',Menlo,\"Cascadia Mono\",\"SF Mono\",ui-monospace,monospace;\n      margin:16px;padding:10px 12px;background:",
    );
    append(&mut s, page_bg);
    append(&mut s, ";color:");
    append(&mut s, page_fg);
    append(&mut s, ";\n      display:inline-block;white-space:pre;}\n  pre span{font:inherit;}\n</style></head><body><pre>");
    let ghost head = s@;
    assert(head == html_head(font_face@, page_bg@, page_fg@));
    let mut y: usize = 0;
    while y < rows.len()
        invariant
            y <= rows@.len(),
            s@ == head + html_rows(rows@.take(y as int)),
        decreases rows@.len() - y,
    {
        let row = &rows[y];
        let ghost before = s@;
        let mut x: usize = 0;
        while x < row.len()
            invariant
                x <= row@.len(),
                s@ == before + html_row(row@.take(x as int)),
            decreases row@.len() - x,
        {
            assert(row@.take(x + 1).drop_last() =~= row@.take(x as int));
            let c = cell_html(&row[x]);
            append(&mut s, c.as_str());
            x += 1;
        }
        assert(row@.take(row@.len() as int) =~= row@);
        append(&mut s, "\n");
        assert(rows@.take(y + 1).drop_last() =~= rows@.take(y as int));
        y += 1;
    }
    assert(rows@.take(rows@.len() as int) =~= rows@);
    append(&mut s, "</pre></body></html>\n");
    s
}

/// The ANSI escape that sets a 24-bit color: `38` for ink, `48` for ground.
pub open spec fn rgb_escape(code: Seq<char>, c: Ink) -> Seq<char> {
    match c {
        Ink::Rgb(r, g, b) => "\x1b["@ + code + ";2;"@ + dec(r as nat) + ";"@ + dec(g as nat) + ";"@ + dec(b as nat)
            + "m"@,
        _ => Seq::empty(),
    }
}

/// A cell as ANSI text: a reset, then its weight and 24-bit colors, then
/// its symbol; nothing for a cell a wide glyph covers.
pub open spec fn ansi_cell(c: CellView) -> Seq<char> {
    if c.symbol@.len() == 0 {
        Seq::empty()
    } else {
        "\x1b[0m"@ + (if c.bold {
            "\x1b[1m"@
        } else {
            Seq::empty()
        }) + rgb_escape("38"@, c.fg) + rgb_escape("48"@, c.bg) + c.symbol@
    }
}

/// A row as ANSI text.
pub open spec fn ansi_row(row: Seq<CellView>) -> Seq<char>
    decreases row.len(),
{
    if row.len() == 0 {
        Seq::empty()
    } else {
        ansi_row(row.drop_last()) + ansi_cell(row.last())
    }
}

/// The rows as ANSI text, each ending in a reset and a newline.
pub open spec fn ansi_rows(rows: Seq<Vec<CellView>>) -> Seq<char>
    decreases rows.len(),
{
    if rows.len() == 0 {
        Seq::empty()
    } else {
        ansi_rows(rows.drop_last()) + ansi_row(rows.last()@) + "\x1b[0m\n"@
    }
}

fn push_rgb(s: &mut String, code: &str, c: &Ink)
    ensures
        final(s)@ == old(s)@ + rgb_escape(code@, *c),
{
    if let Ink::Rgb(r, g, b) = c {
        append(s, "\x1b[");
        append(s, code);
        append(s, ";2;");
        append_dec(s, *r as u64);
        append(s, ";");
        append_dec(s, *g as u64);
        append(s, ";");
        append_dec(s, *b as u64);
        append(s, "m");
    }
}

fn cell_ansi(c: &CellView) -> (s: String)
    ensures
        s@ == ansi_cell(*c),
{
    let mut s = String::new();
    if !c.symbol.as_str().is_empty() {
        append(&mut s, "\x1b[0m");
        if c.bold {
            append(&mut s, "\x1b[1m");
        }
        push_rgb(&mut s, "38", &c.fg);
        push_rgb(&mut s, "48", &c.bg);
        append(&mut s, c.symbol.as_str());
    }
    s
}

/// A captured screen as ANSI text: a reset, then each row.
pub fn buffer_to_ansi(rows: &Vec<Vec<CellView>>) -> (s: String)
    ensures
        s@ == "\x1b[0m"@ + ansi_rows(rows@),
{
    let mut s = String::new();
    append(&mut s, "\x1b[0m");
    let ghost head = s@;
    let mut y: usize = 0;
    while y < rows.len()
        invariant
            y <= rows@.len(),
            s@ == head + ansi_rows(rows@.take(y as int)),
        decreases rows@.len() - y,
    {
        let row = &rows[y];
        let ghost before = s@;
        let mut x: usize = 0;
        while x < row.len()
            invariant
                x <= row@.len(),
                s@ == before + ansi_row(row@.take(x as int)),
            decreases row@.len() - x,
        {
            assert(row@.take(x + 1).drop_last() =~= row@.take(x as int));
            let c = cell_ansi(&row[x]);
            append(&mut s, c.as_str());
            x += 1;
        }
        assert(row@.take(row@.len() as int) =~= row@);
        append(&mut s, "\x1b[0m\n");
        assert(rows@.take(y + 1).drop_last() =~= rows@.take(y as int));
        y += 1;
    }
    assert(rows@.take(rows@.len() as int) =~= rows@);
    s
}

} // verus!
