//! Theme names: the built-ins and the loaded set a name is looked up in.
use vstd::prelude::*;
use crate::text::{chars_eq, chars_of, lower_ascii_chars, lower_ascii_seq, owned};

verus! {

broadcast use vstd::seq_lib::group_seq_properties;

/// The built-in themes, default first.
pub open spec fn builtin_names_spec() -> Seq<Seq<char>> {
    seq!["broadcast"@, "studio"@, "gruvbox"@, "daygame"@]
}

pub const BUILTIN_NAMES: [&'static str; 4] = ["broadcast", "studio", "gruvbox", "daygame"];

/// The name of built-in theme `i`.
pub fn builtin_name(i: usize) -> (r: &'static str)
    requires
        i < 4,
    ensures
        r@ == builtin_names_spec()[i as int],
{
    if i == 0 {
        "broadcast"
    } else if i == 1 {
        "studio"
    } else if i == 2 {
        "gruvbox"
    } else {
        "daygame"
    }
}

/// The built-in names as owned strings, in order — the loaded set before
/// any user theme is installed.
pub fn builtin_names() -> (v: Vec<String>)
    ensures
        v@.map_values(|s: String| s@) == builtin_names_spec(),
{
    let mut v: Vec<String> = Vec::new();
    let mut i: usize = 0;
    while i < 4
        invariant
            i <= 4,
            v@.map_values(|s: String| s@) == builtin_names_spec().take(i as int),
        decreases 4 - i,
    {
        let ghost prev = v@;
        let n = owned(builtin_name(i));
        v.push(n);
        assert(v@.map_values(|s: String| s@) =~= prev.map_values(|s: String| s@).push(n@));
        assert(builtin_names_spec().take(i + 1) =~= builtin_names_spec().take(i as int).push(
            builtin_names_spec()[i as int],
        ));
        i += 1;
    }
    assert(builtin_names_spec().take(4) =~= builtin_names_spec());
    v
}

/// The default theme: the first built-in.
pub fn default_theme() -> (s: String)
    ensures
        s@ == "broadcast"@,
{
    owned("broadcast")
}

/// Theme names compare ASCII-case-insensitively.
pub open spec fn names_match(a: Seq<char>, b: Seq<char>) -> bool {
    lower_ascii_seq(a) == lower_ascii_seq(b)
}

/// The first loaded name matching `a`, from index `i` on.
pub open spec fn lookup_from(names: Seq<Seq<char>>, a: Seq<char>, i: int) -> Option<Seq<char>>
    decreases names.len() - i,
{
    if i < 0 || i >= names.len() {
        None
    } else if names_match(names[i], a) {
        Some(names[i])
    } else {
        lookup_from(names, a, i + 1)
    }
}

/// The canonical loaded name `a` refers to, if any.
pub open spec fn lookup_spec(names: Seq<Seq<char>>, a: Seq<char>) -> Option<Seq<char>> {
    lookup_from(names, a, 0)
}

/// The view of a list of names.
pub open spec fn name_views(names: Seq<String>) -> Seq<Seq<char>> {
    names.map_values(|s: String| s@)
}

/// Looks `a` up among the loaded theme names, ignoring ASCII case, and
/// answers with the name as it was loaded.
pub fn lookup(names: &Vec<String>, a: &str) -> (r: Option<String>)
    ensures
        match (r, lookup_spec(name_views(names@), a@)) {
            (Some(n), Some(m)) => n@ == m,
            (None, None) => true,
            _ => false,
        },
{
    let la = lower_ascii_chars(&chars_of(a));
    let mut i: usize = 0;
    while i < names.len()
        invariant
            i <= names.len(),
            la@ == lower_ascii_seq(a@),
            lookup_spec(name_views(names@), a@) == lookup_from(name_views(names@), a@, i as int),
        decreases names.len() - i,
    {
        let ln = lower_ascii_chars(&chars_of(names[i].as_str()));
        if chars_eq(&ln, &la) {
            return Some(names[i].clone());
        }
        i += 1;
    }
    None
}

} // verus!
