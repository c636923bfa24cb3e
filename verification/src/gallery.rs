//! The gallery's fixed names and the text its HTML pages carry: stable file
//! stems other tasks read, one board capture per built-in theme.
use vstd::prelude::*;
use crate::text::{append, push_char};
use crate::theme::builtin_names_spec;

verus! {

broadcast use vstd::seq_lib::group_seq_properties;

/// The gallery's capture size.
pub const DUMP_COLS: u16 = 120;

pub const DUMP_ROWS: u16 = 36;

/// The board capture of built-in theme `i`: (theme, stem).
pub fn board_stem(i: usize) -> (r: (&'static str, &'static str))
    requires
        i < 4,
    ensures
        r.0@ == builtin_names_spec()[i as int],
        r.1@ == "board-"@ + r.0@,
{
    proof {
        reveal_strlit("board-");
        reveal_strlit("broadcast");
        reveal_strlit("board-broadcast");
        reveal_strlit("studio");
        reveal_strlit("board-studio");
        reveal_strlit("gruvbox");
        reveal_strlit("board-gruvbox");
        reveal_strlit("daygame");
        reveal_strlit("board-daygame");
    }
    if i == 0 {
        assert("board-broadcast"@ =~= "board-"@ + "broadcast"@);
        ("broadcast", "board-broadcast")
    } else if i == 1 {
        assert("board-studio"@ =~= "board-"@ + "studio"@);
        ("studio", "board-studio")
    } else if i == 2 {
        assert("board-gruvbox"@ =~= "board-"@ + "gruvbox"@);
        ("gruvbox", "board-gruvbox")
    } else {
        assert("board-daygame"@ =~= "board-"@ + "daygame"@);
        ("daygame", "board-daygame")
    }
}

/// One board capture per built-in theme, in built-in order, each stem
/// `board-<theme>`: a theme cannot ship without its board.
pub fn board_stems() -> (v: Vec<(&'static str, &'static str)>)
    ensures
        v@.len() == builtin_names_spec().len(),
        forall|i: int|
            0 <= i < v@.len() ==> (#[trigger] v@[i]).0@ == builtin_names_spec()[i] && v@[i].1@ == "board-"@
                + v@[i].0@,
{
    let mut v: Vec<(&'static str, &'static str)> = Vec::new();
    let mut i: usize = 0;
    while i < 4
        invariant
            i <= 4,
            v@.len() == i,
            forall|j: int|
                0 <= j < i ==> (#[trigger] v@[j]).0@ == builtin_names_spec()[j] && v@[j].1@ == "board-"@ + v@[j].0@,
        decreases 4 - i,
    {
        v.push(board_stem(i));
        i += 1;
    }
    v
}

/// The gallery's stems, in write order: a stable contract for other tasks.
pub open spec fn gallery_stems_spec() -> Seq<Seq<char>> {
    seq![
        "board-broadcast"@,
        "board-studio"@,
        "board-gruvbox"@,
        "board-daygame"@,
        "board-narrow"@,
        "board-sixty"@,
        "tv"@,
        "cut-full"@,
        "cut-band"@,
        "zoom"@,
        "plays-feed"@,
        "standings"@,
        "config"@,
        "filter"@,
        "theme-picker"@,
        "help"@,
        "home-live"@,
        "offline"@,
        "stale"@,
        "config-error"@,
        "nudge-seq-1"@,
        "nudge-seq-2"@,
        "nudge-seq-3"@,
    ]
}

/// The gallery's stems, in write order.
pub fn gallery_stems() -> (v: Vec<&'static str>)
    ensures
        v@.map_values(|s: &str| s@) == gallery_stems_spec(),
{
    let mut v: Vec<&'static str> = Vec::new();
    v.push("board-broadcast");
    v.push("board-studio");
    v.push("board-gruvbox");
    v.push("board-daygame");
    v.push("board-narrow");
    v.push("board-sixty");
    v.push("tv");
    v.push("cut-full");
    v.push("cut-band");
    v.push("zoom");
    v.push("plays-feed");
    v.push("standings");
    v.push("config");
    v.push("filter");
    v.push("theme-picker");
    v.push("help");
    v.push("home-live");
    v.push("offline");
    v.push("stale");
    v.push("config-error");
    v.push("nudge-seq-1");
    v.push("nudge-seq-2");
    v.push("nudge-seq-3");
    assert(v@.map_values(|s: &str| s@) =~= gallery_stems_spec());
    v
}

/// HTML-escaped text: `&`, `<` and `>` become entities, nothing else
/// changes.
pub open spec fn escape_spec(s: Seq<char>) -> Seq<char>
    decreases s.len(),
{
    if s.len() == 0 {
        Seq::empty()
    } else {
        escape_spec(s.drop_last()) + if s.last() == '&' {
            "&amp;"@
        } else if s.last() == '<' {
            "&lt;"@
        } else if s.last() == '>' {
            "&gt;"@
        } else {
            seq![s.last()]
        }
    }
}

/// Escapes text for an HTML page.
pub fn html_escape(s: &str) -> (r: String)
    ensures
        r@ == escape_spec(s@),
{
    let cs = crate::text::chars_of(s);
    let mut out = String::new();
    let mut i: usize = 0;
    while i < cs.len()
        invariant
            i <= cs@.len(),
            cs@ == s@,
            out@ == escape_spec(cs@.take(i as int)),
        decreases cs@.len() - i,
    {
        assert(cs@.take(i + 1).drop_last() =~= cs@.take(i as int));
        let c = cs[i];
        if c == '&' {
            append(&mut out, "&amp;");
        } else if c == '<' {
            append(&mut out, "&lt;");
        } else if c == '>' {
            append(&mut out, "&gt;");
        } else {
            let ghost before = out@;
            push_char(&mut out, c);
            assert(out@ =~= before + seq![c]);
        }
        i += 1;
    }
    assert(cs@.take(cs@.len() as int) =~= cs@);
    out
}

} // verus!
