//! `:` command grammar: one static registry table drives parsing, completion
//! and error text, so the valid set the user sees is always the set that
//! parses.
use vstd::prelude::*;
use crate::domain::{all_leagues, slug_of, League};
use crate::rank::SortKey;
use crate::text::{
    lemma_words_of_unbroken, is_white,
    append, chars_eq, chars_of, debug_quoted, debug_str, join, join_strings, lower_ascii_chars,
    lower_ascii_seq, ltrim, owned, split_ws, string_of, string_views, trim_bounds, views, words,
    starts_with, slice_chars,
};
use crate::theme::{lookup, lookup_spec};

verus! {

broadcast use vstd::seq_lib::group_seq_properties;

/// A parsed `:` command, ready to apply.
#[derive(Clone, Debug, PartialEq, Eq)]
pub enum Cmd {
    GoLeague(League),
    GoHome,
    Plays,
    Standings(Option<League>),
    ConfigView,
    /// `:theme <name>` applies directly (canonical loaded name); `:theme`
    /// alone opens the picker.
    Theme(Option<String>),
    /// `:sort` alone cycles; `:sort <key>` sets it directly.
    Sort(Option<SortKey>),
    Tv,
    Pin(String),
    Quit,
    Help,
    NotifyTest,
}

/// A command as a value: the same variants, strings by their chars.
pub enum CmdV {
    GoLeague(League),
    GoHome,
    Plays,
    Standings(Option<League>),
    ConfigView,
    Theme(Option<Seq<char>>),
    Sort(Option<SortKey>),
    Tv,
    Pin(Seq<char>),
    Quit,
    Help,
    NotifyTest,
}

impl View for Cmd {
    type V = CmdV;

    open spec fn view(&self) -> CmdV {
        match self {
            Cmd::GoLeague(l) => CmdV::GoLeague(*l),
            Cmd::GoHome => CmdV::GoHome,
            Cmd::Plays => CmdV::Plays,
            Cmd::Standings(l) => CmdV::Standings(*l),
            Cmd::ConfigView => CmdV::ConfigView,
            Cmd::Theme(t) => CmdV::Theme(
                match t {
                    Some(s) => Some(s@),
                    None => None,
                },
            ),
            Cmd::Sort(k) => CmdV::Sort(*k),
            Cmd::Tv => CmdV::Tv,
            Cmd::Pin(a) => CmdV::Pin(a@),
            Cmd::Quit => CmdV::Quit,
            Cmd::Help => CmdV::Help,
            Cmd::NotifyTest => CmdV::NotifyTest,
        }
    }
}

/// Argument shape a registry entry accepts; drives both parse and complete.
#[derive(Clone, Copy, Debug, PartialEq, Eq, Structural)]
pub enum ArgSpec {
    Bare,
    OptLeague,
    Theme,
    Sort,
    Abbr,
    NotifyTest,
}

pub const REGISTRY_LEN: usize = 22;

/// Every command name the prompt accepts, in the order errors and
/// completion list them. League slugs lead, in `League::ALL` order.
pub open spec fn registry_spec() -> Seq<(Seq<char>, ArgSpec)> {
    seq![
        ("nfl"@, ArgSpec::Bare),
        ("cfb"@, ArgSpec::Bare),
        ("cbb"@, ArgSpec::Bare),
        ("nba"@, ArgSpec::Bare),
        ("wnba"@, ArgSpec::Bare),
        ("nhl"@, ArgSpec::Bare),
        ("mlb"@, ArgSpec::Bare),
        ("epl"@, ArgSpec::Bare),
        ("mls"@, ArgSpec::Bare),
        ("home"@, ArgSpec::Bare),
        ("all"@, ArgSpec::Bare),
        ("plays"@, ArgSpec::Bare),
        ("standings"@, ArgSpec::OptLeague),
        ("config"@, ArgSpec::Bare),
        ("theme"@, ArgSpec::Theme),
        ("sort"@, ArgSpec::Sort),
        ("tv"@, ArgSpec::Bare),
        ("pin"@, ArgSpec::Abbr),
        ("notify"@, ArgSpec::NotifyTest),
        ("help"@, ArgSpec::Bare),
        ("q"@, ArgSpec::Bare),
        ("quit"@, ArgSpec::Bare),
    ]
}

pub open spec fn registry_names() -> Seq<Seq<char>> {
    registry_spec().map_values(|e: (Seq<char>, ArgSpec)| e.0)
}

/// Registry entry `i`.
pub fn registry(i: usize) -> (r: (&'static str, ArgSpec))
    requires
        i < REGISTRY_LEN,
    ensures
        (r.0@, r.1) == registry_spec()[i as int],
{
    match i {
        0 => ("nfl", ArgSpec::Bare),
        1 => ("cfb", ArgSpec::Bare),
        2 => ("cbb", ArgSpec::Bare),
        3 => ("nba", ArgSpec::Bare),
        4 => ("wnba", ArgSpec::Bare),
        5 => ("nhl", ArgSpec::Bare),
        6 => ("mlb", ArgSpec::Bare),
        7 => ("epl", ArgSpec::Bare),
        8 => ("mls", ArgSpec::Bare),
        9 => ("home", ArgSpec::Bare),
        10 => ("all", ArgSpec::Bare),
        11 => ("plays", ArgSpec::Bare),
        12 => ("standings", ArgSpec::OptLeague),
        13 => ("config", ArgSpec::Bare),
        14 => ("theme", ArgSpec::Theme),
        15 => ("sort", ArgSpec::Sort),
        16 => ("tv", ArgSpec::Bare),
        17 => ("pin", ArgSpec::Abbr),
        18 => ("notify", ArgSpec::NotifyTest),
        19 => ("help", ArgSpec::Bare),
        20 => ("q", ArgSpec::Bare),
        _ => ("quit", ArgSpec::Bare),
    }
}

/// The registry's names as owned strings.
fn registry_name_strings() -> (v: Vec<String>)
    ensures
        string_views(v@) == registry_names(),
{
    let mut v: Vec<String> = Vec::new();
    let mut i: usize = 0;
    while i < REGISTRY_LEN
        invariant
            i <= REGISTRY_LEN,
            string_views(v@) == registry_names().take(i as int),
        decreases REGISTRY_LEN - i,
    {
        let ghost prev = v@;
        let n = owned(registry(i).0);
        v.push(n);
        assert(string_views(v@) =~= string_views(prev).push(n@));
        assert(registry_names().take(i + 1) =~= registry_names().take(i as int).push(
            registry_names()[i as int],
        ));
        i += 1;
    }
    assert(registry_names().take(REGISTRY_LEN as int) =~= registry_names());
    v
}

pub open spec fn valid_names_spec() -> Seq<char> {
    join(registry_names(), "|"@)
}

/// `nfl|cfb|…|quit`: every command name, in registry order.
pub fn valid_names() -> (s: String)
    ensures
        s@ == valid_names_spec(),
{
    join_strings(&registry_name_strings(), "|")
}

pub open spec fn league_slugs_spec() -> Seq<char> {
    join(all_leagues().map_values(|l: League| slug_of(l)), "|"@)
}

fn slug_strings() -> (v: Vec<String>)
    ensures
        string_views(v@) == all_leagues().map_values(|l: League| slug_of(l)),
{
    let all = League::all();
    let mut v: Vec<String> = Vec::new();
    let mut i: usize = 0;
    while i < all.len()
        invariant
            i <= all.len(),
            all@ == all_leagues(),
            string_views(v@) == all_leagues().map_values(|l: League| slug_of(l)).take(i as int),
        decreases all.len() - i,
    {
        let ghost prev = v@;
        let n = owned(all[i].slug());
        v.push(n);
        assert(string_views(v@) =~= string_views(prev).push(n@));
        assert(all_leagues().map_values(|l: League| slug_of(l)).take(i + 1) =~= all_leagues().map_values(
            |l: League| slug_of(l),
        ).take(i as int).push(slug_of(all_leagues()[i as int])));
        i += 1;
    }
    assert(all_leagues().map_values(|l: League| slug_of(l)).take(9) =~= all_leagues().map_values(
        |l: League| slug_of(l),
    ));
    v
}

/// `nfl|cfb|…|mls`.
pub fn league_slugs() -> (s: String)
    ensures
        s@ == league_slugs_spec(),
{
    join_strings(&slug_strings(), "|")
}

/// Every loaded theme name, joined with `|`.
pub fn theme_names(themes: &Vec<String>) -> (s: String)
    ensures
        s@ == join(string_views(themes@), "|"@),
{
    join_strings(themes, "|")
}

pub open spec fn sort_values_spec() -> Seq<Seq<char>> {
    seq!["watch"@, "time"@, "league"@]
}

/// Candidate argument values for completion. Abbr is free text — nothing
/// to complete. Theme names are the loaded set, so completion and the error
/// text always agree.
pub open spec fn arg_values_spec(spec: ArgSpec, themes: Seq<Seq<char>>) -> Seq<Seq<char>> {
    match spec {
        ArgSpec::Bare | ArgSpec::Abbr => Seq::empty(),
        ArgSpec::OptLeague => all_leagues().map_values(|l: League| slug_of(l)),
        ArgSpec::Theme => themes,
        ArgSpec::Sort => sort_values_spec(),
        ArgSpec::NotifyTest => seq!["test"@],
    }
}

pub fn arg_values(spec: ArgSpec, themes: &Vec<String>) -> (v: Vec<String>)
    ensures
        string_views(v@) == arg_values_spec(spec, string_views(themes@)),
{
    match spec {
        ArgSpec::Bare | ArgSpec::Abbr => {
            let v: Vec<String> = Vec::new();
            assert(string_views(v@) =~= Seq::<Seq<char>>::empty());
            v
        },
        ArgSpec::OptLeague => slug_strings(),
        ArgSpec::Theme => themes.clone(),
        ArgSpec::Sort => {
            let v = vec![owned("watch"), owned("time"), owned("league")];
            assert(string_views(v@) =~= sort_values_spec());
            v
        },
        ArgSpec::NotifyTest => {
            let v = vec![owned("test")];
            assert(string_views(v@) =~= seq!["test"@]);
            v
        },
    }
}

/// The index of the registry entry named exactly `name`, if any.
pub open spec fn registry_index(name: Seq<char>) -> Option<int> {
    if exists|i: int| 0 <= i < REGISTRY_LEN && registry_spec()[i].0 == name {
        Some(choose|i: int| 0 <= i < REGISTRY_LEN && registry_spec()[i].0 == name)
    } else {
        None
    }
}

/// `{:?}` of an optional string: `None` or `Some("…")`.
pub open spec fn debug_opt(a: Option<Seq<char>>) -> Seq<char> {
    match a {
        None => "None"@,
        Some(s) => "Some("@ + debug_quoted(s) + ")"@,
    }
}

/// What a bare command (no argument) means.
pub open spec fn bare_cmd(i: int) -> CmdV {
    if i < 9 {
        CmdV::GoLeague(all_leagues()[i])
    } else if i == 9 || i == 10 {
        CmdV::GoHome
    } else if i == 11 {
        CmdV::Plays
    } else if i == 13 {
        CmdV::ConfigView
    } else if i == 16 {
        CmdV::Tv
    } else if i == 19 {
        CmdV::Help
    } else {
        CmdV::Quit
    }
}

/// The grammar: the first word names a command (ASCII case ignored), at
/// most one argument follows, and the entry's argument shape decides the
/// rest. Every error names the offending value and the valid set.
pub open spec fn parse_spec(input: Seq<char>, themes: Seq<Seq<char>>) -> Result<CmdV, Seq<char>> {
    let ws = words(input);
    if ws.len() == 0 {
        Err("empty command, valid: "@ + valid_names_spec())
    } else {
        let raw = ws[0];
        let name = lower_ascii_seq(raw);
        match registry_index(name) {
            None => Err("unknown command "@ + debug_quoted(raw) + ", valid: "@ + valid_names_spec()),
            Some(i) => if ws.len() > 2 {
                Err("too many arguments: "@ + debug_quoted(name) + " got extra "@ + debug_quoted(ws[2]))
            } else {
                let arg: Option<Seq<char>> = if ws.len() == 2 { Some(ws[1]) } else { None };
                match registry_spec()[i].1 {
                    ArgSpec::Bare => match arg {
                        Some(a) => Err(debug_quoted(name) + " takes no argument, got "@ + debug_quoted(a)),
                        None => Ok(bare_cmd(i)),
                    },
                    ArgSpec::OptLeague => match arg {
                        None => Ok(CmdV::Standings(None)),
                        Some(a) => match crate::domain::league_of_slug(lower_ascii_seq(a)) {
                            Some(l) => Ok(CmdV::Standings(Some(l))),
                            None => Err("unknown league "@ + debug_quoted(a) + ", valid: "@ + league_slugs_spec()),
                        },
                    },
                    ArgSpec::Theme => match arg {
                        None => Ok(CmdV::Theme(None)),
                        Some(a) => match lookup_spec(themes, a) {
                            Some(n) => Ok(CmdV::Theme(Some(n))),
                            None => Err("unknown theme "@ + debug_quoted(a) + ", valid: "@ + join(themes, "|"@)),
                        },
                    },
                    ArgSpec::Sort => match arg {
                        None => Ok(CmdV::Sort(None)),
                        Some(a) => if lower_ascii_seq(a) == "watch"@ {
                            Ok(CmdV::Sort(Some(SortKey::Watch)))
                        } else if lower_ascii_seq(a) == "time"@ {
                            Ok(CmdV::Sort(Some(SortKey::Time)))
                        } else if lower_ascii_seq(a) == "league"@ {
                            Ok(CmdV::Sort(Some(SortKey::League)))
                        } else {
                            Err("unknown sort "@ + debug_quoted(lower_ascii_seq(a)) + ", valid: "@ + join(
                                sort_values_spec(),
                                "|"@,
                            ))
                        },
                    },
                    ArgSpec::Abbr => match arg {
                        None => Err(debug_quoted(name) + " needs a team abbr, e.g. :pin kc"@),
                        Some(a) => Ok(CmdV::Pin(a)),
                    },
                    ArgSpec::NotifyTest => if arg == Some("test"@) {
                        Ok(CmdV::NotifyTest)
                    } else {
                        Err(debug_quoted(name) + " takes \"test\", got "@ + debug_opt(arg))
                    },
                }
            },
        }
    }
}

/// The registry entry named exactly `name`.
fn find_entry(name: &Vec<char>) -> (r: Option<usize>)
    ensures
        match (r, registry_index(name@)) {
            (Some(i), Some(j)) => i == j && i < REGISTRY_LEN,
            (None, None) => true,
            _ => false,
        },
{
    let mut i: usize = 0;
    while i < REGISTRY_LEN
        invariant
            i <= REGISTRY_LEN,
            forall|j: int| 0 <= j < i ==> registry_spec()[j].0 != name@,
        decreases REGISTRY_LEN - i,
    {
        if chars_eq(&chars_of(registry(i).0), name) {
            proof {
                lemma_registry_names_distinct();
            }
            return Some(i);
        }
        i += 1;
    }
    None
}

/// No two registry entries share a name.
pub proof fn lemma_registry_names_distinct()
    ensures
        forall|i: int, j: int|
            0 <= i < REGISTRY_LEN && 0 <= j < REGISTRY_LEN && registry_spec()[i].0 == registry_spec()[j].0
                ==> i == j,
{
    reveal_strlit("nfl");
    reveal_strlit("cfb");
    reveal_strlit("cbb");
    reveal_strlit("nba");
    reveal_strlit("wnba");
    reveal_strlit("nhl");
    reveal_strlit("mlb");
    reveal_strlit("epl");
    reveal_strlit("mls");
    reveal_strlit("home");
    reveal_strlit("all");
    reveal_strlit("plays");
    reveal_strlit("standings");
    reveal_strlit("config");
    reveal_strlit("theme");
    reveal_strlit("sort");
    reveal_strlit("tv");
    reveal_strlit("pin");
    reveal_strlit("notify");
    reveal_strlit("help");
    reveal_strlit("q");
    reveal_strlit("quit");
    assert forall|i: int, j: int|
        0 <= i < REGISTRY_LEN && 0 <= j < REGISTRY_LEN && registry_spec()[i].0 == registry_spec()[j].0 implies i
        == j by {
        let (a, b) = (registry_spec()[i].0, registry_spec()[j].0);
        assert(a.len() == b.len());
        if a.len() > 0 {
            assert(a[0] == b[0]);
        }
        if a.len() > 1 {
            assert(a[1] == b[1]);
        }
        if a.len() > 2 {
            assert(a[2] == b[2]);
        }
    }
}

fn bare(i: usize) -> (c: Cmd)
    requires
        i < REGISTRY_LEN,
    ensures
        c@ == bare_cmd(i as int),
{
    if i < 9 {
        let all = League::all();
        Cmd::GoLeague(all[i])
    } else if i == 9 || i == 10 {
        Cmd::GoHome
    } else if i == 11 {
        Cmd::Plays
    } else if i == 13 {
        Cmd::ConfigView
    } else if i == 16 {
        Cmd::Tv
    } else if i == 19 {
        Cmd::Help
    } else {
        Cmd::Quit
    }
}

/// `a + b` as a new string.
fn cat(a: &str, b: &str) -> (s: String)
    ensures
        s@ == a@ + b@,
{
    let mut s = owned(a);
    append(&mut s, b);
    s
}

/// Parses one `:` command line against the loaded theme names.
pub fn parse(input: &str, themes: &Vec<String>) -> (r: Result<Cmd, String>)
    ensures
        match (r, parse_spec(input@, string_views(themes@))) {
            (Ok(c), Ok(v)) => c@ == v,
            (Err(e), Err(m)) => e@ == m,
            _ => false,
        },
{
    let ghost tv = string_views(themes@);
    let v = chars_of(input);
    let ws = split_ws(&v);
    proof {
        assert(views(ws@).len() == ws@.len());
    }
    if ws.len() == 0 {
        return Err(cat("empty command, valid: ", valid_names().as_str()));
    }
    proof {
        assert(views(ws@)[0] == ws@[0]@);
    }
    let raw = string_of(&ws[0]);
    let name = lower_ascii_chars(&ws[0]);
    let found = find_entry(&name);
    if found.is_none() {
        let mut e = cat("unknown command ", debug_str(raw.as_str()).as_str());
        append(&mut e, ", valid: ");
        append(&mut e, valid_names().as_str());
        return Err(e);
    }
    let i = found.unwrap();
    let (nm, spec) = registry(i);
    if ws.len() > 2 {
        proof {
            assert(views(ws@)[2] == ws@[2]@);
        }
        let mut e = cat("too many arguments: ", debug_str(nm).as_str());
        append(&mut e, " got extra ");
        append(&mut e, debug_str(string_of(&ws[2]).as_str()).as_str());
        return Err(e);
    }
    let arg: Option<String> = if ws.len() == 2 {
        proof {
            assert(views(ws@)[1] == ws@[1]@);
        }
        Some(string_of(&ws[1]))
    } else {
        None
    };
    let ghost argv: Option<Seq<char>> = if ws.len() == 2 { Some(words(input@)[1]) } else { None };
    assert(match arg { Some(a) => argv == Some(a@), None => argv.is_none() });
    match spec {
        ArgSpec::Bare => match arg {
            Some(a) => {
                let mut e = cat(debug_str(nm).as_str(), " takes no argument, got ");
                append(&mut e, debug_str(a.as_str()).as_str());
                Err(e)
            },
            None => Ok(bare(i)),
        },
        ArgSpec::OptLeague => match arg {
            None => Ok(Cmd::Standings(None)),
            Some(a) => {
                let la = string_of(&lower_ascii_chars(&chars_of(a.as_str())));
                match League::from_slug(la.as_str()) {
                    Some(l) => Ok(Cmd::Standings(Some(l))),
                    None => {
                        let mut e = cat("unknown league ", debug_str(a.as_str()).as_str());
                        append(&mut e, ", valid: ");
                        append(&mut e, league_slugs().as_str());
                        Err(e)
                    },
                }
            },
        },
        ArgSpec::Theme => match arg {
            None => Ok(Cmd::Theme(None)),
            Some(a) => match lookup(themes, a.as_str()) {
                Some(n) => Ok(Cmd::Theme(Some(n))),
                None => {
                    let mut e = cat("unknown theme ", debug_str(a.as_str()).as_str());
                    append(&mut e, ", valid: ");
                    append(&mut e, theme_names(themes).as_str());
                    Err(e)
                },
            },
        },
        ArgSpec::Sort => match arg {
            None => Ok(Cmd::Sort(None)),
            Some(a) => {
                let la = lower_ascii_chars(&chars_of(a.as_str()));
                if chars_eq(&la, &chars_of("watch")) {
                    Ok(Cmd::Sort(Some(SortKey::Watch)))
                } else if chars_eq(&la, &chars_of("time")) {
                    Ok(Cmd::Sort(Some(SortKey::Time)))
                } else if chars_eq(&la, &chars_of("league")) {
                    Ok(Cmd::Sort(Some(SortKey::League)))
                } else {
                    let mut e = cat("unknown sort ", debug_str(string_of(&la).as_str()).as_str());
                    append(&mut e, ", valid: ");
                    let sv = vec![owned("watch"), owned("time"), owned("league")];
                    assert(string_views(sv@) =~= sort_values_spec());
                    append(&mut e, join_strings(&sv, "|").as_str());
                    Err(e)
                }
            },
        },
        ArgSpec::Abbr => match arg {
            None => Err(cat(debug_str(nm).as_str(), " needs a team abbr, e.g. :pin kc")),
            Some(a) => Ok(Cmd::Pin(a)),
        },
        ArgSpec::NotifyTest => {
            let is_test = match &arg {
                Some(a) => crate::text::str_eq(a.as_str(), "test"),
                None => false,
            };
            if is_test {
                Ok(Cmd::NotifyTest)
            } else {
                let mut e = cat(debug_str(nm).as_str(), " takes \"test\", got ");
                match &arg {
                    None => append(&mut e, "None"),
                    Some(a) => {
                        append(&mut e, "Some(");
                        append(&mut e, debug_str(a.as_str()).as_str());
                        append(&mut e, ")");
                    },
                }
                Err(e)
            }
        },
    }
}

/// The candidates a completion keeps: those whose ASCII-lowercase form
/// starts with `frag`.
pub open spec fn keep_spec(cands: Seq<Seq<char>>, frag: Seq<char>) -> Seq<Seq<char>> {
    cands.filter(|c: Seq<char>| frag.is_prefix_of(lower_ascii_seq(c)))
}

/// Completions for a partial prompt line, as full replacement lines.
/// Before the first space: command names by prefix. After it: the argument
/// values the command's shape allows, by prefix, each behind the name.
pub open spec fn complete_spec(input: Seq<char>, themes: Seq<Seq<char>>) -> Seq<Seq<char>> {
    let lc = lower_ascii_seq(input);
    match lc.index_of_first(' ') {
        None => registry_names().filter(|n: Seq<char>| lc.is_prefix_of(n)),
        Some(k) => {
            let raw_name = lc.take(k);
            let frag = ltrim(lc.skip(k + 1));
            match registry_index(raw_name) {
                None => Seq::empty(),
                Some(i) => keep_spec(arg_values_spec(registry_spec()[i].1, themes), frag).map_values(
                    |v: Seq<char>| raw_name + " "@ + v,
                ),
            }
        },
    }
}

pub fn complete(input: &str, themes: &Vec<String>) -> (r: Vec<String>)
    ensures
        string_views(r@) == complete_spec(input@, string_views(themes@)),
{
    let lc = lower_ascii_chars(&chars_of(input));
    let ghost lcs = lc@;
    let mut out: Vec<String> = Vec::new();
    let mut k: usize = 0;
    while k < lc.len() && lc[k] != ' '
        invariant
            k <= lc.len(),
            forall|j: int| 0 <= j < k ==> lc@[j] != ' ',
        decreases lc.len() - k,
    {
        k += 1;
    }
    proof {
        lcs.index_of_first_ensures(' ');
        if k < lc.len() {
            assert(lcs.contains(' ')) by {
                assert(lcs[k as int] == ' ');
            }
        } else if lcs.contains(' ') {
            let j = choose|j: int| 0 <= j < lcs.len() && lcs[j] == ' ';
            assert(lcs[j] != ' ');
        }
    }
    if k == lc.len() {
        let names = registry_name_strings();
        let ghost pred = |n: Seq<char>| lcs.is_prefix_of(n);
        let mut i: usize = 0;
        while i < names.len()
            invariant
                i <= names.len(),
                string_views(names@) == registry_names(),
                pred == (|n: Seq<char>| lcs.is_prefix_of(n)),
                lcs == lc@,
                string_views(out@) == registry_names().take(i as int).filter(pred),
            decreases names.len() - i,
        {
            reveal_with_fuel(Seq::<_>::filter, 1);
            assert(registry_names().take(i + 1).drop_last() =~= registry_names().take(i as int));
            assert(registry_names()[i as int] == names@[i as int]@);
            let ghost prev = out@;
            if starts_with(&chars_of(names[i].as_str()), &lc) {
                let n = names[i].clone();
                out.push(n);
                assert(string_views(out@) =~= string_views(prev).push(n@));
            }
            i += 1;
        }
        assert(registry_names().take(names.len() as int) =~= registry_names());
        return out;
    }
    let raw_name = slice_chars(&lc, 0, k);
    let (fa, _fb) = trim_bounds(&lc, k + 1, lc.len());
    let frag = slice_chars(&lc, fa, lc.len());
    proof {
        assert(lcs.take(k as int) =~= raw_name@);
        assert(lcs.skip(k + 1) =~= lcs.subrange(k + 1, lcs.len() as int));
    }
    let found = find_entry(&raw_name);
    if found.is_none() {
        assert(string_views(out@) =~= Seq::<Seq<char>>::empty());
        return out;
    }
    let i0 = found.unwrap();
    let (nm, spec) = registry(i0);
    let cands = arg_values(spec, themes);
    let ghost cv = string_views(cands@);
    let ghost pred = |c: Seq<char>| frag@.is_prefix_of(lower_ascii_seq(c));
    let ghost f = |v: Seq<char>| raw_name@ + " "@ + v;
    let mut i: usize = 0;
    while i < cands.len()
        invariant
            i <= cands.len(),
            cv == string_views(cands@),
            pred == (|c: Seq<char>| frag@.is_prefix_of(lower_ascii_seq(c))),
            f == (|v: Seq<char>| raw_name@ + " "@ + v),
            nm@ == raw_name@,
            string_views(out@) == cv.take(i as int).filter(pred).map_values(f),
        decreases cands.len() - i,
    {
        reveal_with_fuel(Seq::<_>::filter, 1);
        assert(cv.take(i + 1).drop_last() =~= cv.take(i as int));
        assert(cv[i as int] == cands@[i as int]@);
        let ghost prev = out@;
        let lv = lower_ascii_chars(&chars_of(cands[i].as_str()));
        if starts_with(&lv, &frag) {
            let mut line = owned(nm);
            append(&mut line, " ");
            append(&mut line, cands[i].as_str());
            out.push(line);
            assert(string_views(out@) =~= string_views(prev).push(line@));
            assert(cv.take(i + 1).filter(pred) =~= cv.take(i as int).filter(pred).push(cv[i as int]));
            assert(cv.take(i + 1).filter(pred).map_values(f) =~= cv.take(i as int).filter(pred).map_values(
                f,
            ).push(f(cv[i as int])));
        } else {
            assert(cv.take(i + 1).filter(pred) =~= cv.take(i as int).filter(pred));
        }
        i += 1;
    }
    assert(cv.take(cands.len() as int) =~= cv);
    out
}

/// Registry names are lowercase ASCII letters: none is whitespace and each
/// is its own ASCII lowercase.
proof fn lemma_registry_name_shape(i: int)
    requires
        0 <= i < REGISTRY_LEN,
    ensures
        registry_spec()[i].0.len() > 0,
        forall|j: int| 0 <= j < registry_spec()[i].0.len() ==> !is_white(#[trigger] registry_spec()[i].0[j]),
        lower_ascii_seq(registry_spec()[i].0) == registry_spec()[i].0,
{
    reveal_strlit("nfl");
    reveal_strlit("cfb");
    reveal_strlit("cbb");
    reveal_strlit("nba");
    reveal_strlit("wnba");
    reveal_strlit("nhl");
    reveal_strlit("mlb");
    reveal_strlit("epl");
    reveal_strlit("mls");
    reveal_strlit("home");
    reveal_strlit("all");
    reveal_strlit("plays");
    reveal_strlit("standings");
    reveal_strlit("config");
    reveal_strlit("theme");
    reveal_strlit("sort");
    reveal_strlit("tv");
    reveal_strlit("pin");
    reveal_strlit("notify");
    reveal_strlit("help");
    reveal_strlit("q");
    reveal_strlit("quit");
    let n = registry_spec()[i].0;
    assert forall|j: int| 0 <= j < n.len() implies 'a' <= #[trigger] n[j] <= 'z' by {
    }
    assert(lower_ascii_seq(n) =~= n);
}

/// Every name the registry lists is a command: typed alone, a bare entry
/// parses to its own command and a league slug jumps to that league.
pub proof fn lemma_every_bare_name_parses(i: int, themes: Seq<Seq<char>>)
    requires
        0 <= i < REGISTRY_LEN,
        registry_spec()[i].1 == ArgSpec::Bare,
    ensures
        parse_spec(registry_spec()[i].0, themes) == Ok::<CmdV, Seq<char>>(bare_cmd(i)),
        i < 9 ==> bare_cmd(i) == CmdV::GoLeague(all_leagues()[i]),
{
    let n = registry_spec()[i].0;
    lemma_registry_name_shape(i);
    lemma_words_of_unbroken(n);
    lemma_registry_names_distinct();
    assert(registry_spec()[i].0 == n);
}

/// Every league's slug is a command that jumps to that league.
pub proof fn lemma_every_league_slug_is_a_command(l: League, themes: Seq<Seq<char>>)
    ensures
        parse_spec(slug_of(l), themes) == Ok::<CmdV, Seq<char>>(CmdV::GoLeague(l)),
{
    crate::domain::lemma_all_leagues_complete(l);
    let k = choose|k: int| 0 <= k < 9 && all_leagues()[k] == l;
    reveal_strlit("nfl");
    reveal_strlit("cfb");
    reveal_strlit("cbb");
    reveal_strlit("nba");
    reveal_strlit("wnba");
    reveal_strlit("nhl");
    reveal_strlit("mlb");
    reveal_strlit("epl");
    reveal_strlit("mls");
    assert(registry_spec()[k].0 == slug_of(l));
    lemma_every_bare_name_parses(k, themes);
}

/// A league's slug jumps to that league in any ASCII case and with any
/// whitespace around it: an input whose one word lowercases to the slug
/// parses to the jump.
pub proof fn lemma_league_slug_parses_in_any_case(l: League, input: Seq<char>, themes: Seq<Seq<char>>)
    requires
        words(input).len() == 1,
        lower_ascii_seq(words(input)[0]) == slug_of(l),
    ensures
        parse_spec(input, themes) == Ok::<CmdV, Seq<char>>(CmdV::GoLeague(l)),
{
    crate::domain::lemma_all_leagues_complete(l);
    let k = choose|k: int| 0 <= k < 9 && all_leagues()[k] == l;
    reveal_strlit("nfl");
    reveal_strlit("cfb");
    reveal_strlit("cbb");
    reveal_strlit("nba");
    reveal_strlit("wnba");
    reveal_strlit("nhl");
    reveal_strlit("mlb");
    reveal_strlit("epl");
    reveal_strlit("mls");
    assert(registry_spec()[k].0 == slug_of(l));
    lemma_every_bare_name_parses(k, themes);
    lemma_registry_names_distinct();
}

/// What is refused before any argument is read: an input with no word is
/// an empty command, and one whose first word, lowercased, names no command
/// is unknown, quoted as typed; both refusals list every valid name.
pub proof fn lemma_refusals_list_the_valid_names(input: Seq<char>, themes: Seq<Seq<char>>)
    ensures
        words(input).len() == 0 ==> parse_spec(input, themes) == Err::<CmdV, Seq<char>>(
            "empty command, valid: "@ + valid_names_spec(),
        ),
        words(input).len() > 0 && (forall|i: int|
            0 <= i < REGISTRY_LEN ==> #[trigger] registry_spec()[i].0 != lower_ascii_seq(words(input)[0]))
            ==> parse_spec(input, themes) == Err::<CmdV, Seq<char>>(
            "unknown command "@ + debug_quoted(words(input)[0]) + ", valid: "@ + valid_names_spec(),
        ),
{
}

proof fn lemma_filter_keeps_all(s: Seq<Seq<char>>, pred: spec_fn(Seq<char>) -> bool)
    requires
        forall|i: int| 0 <= i < s.len() ==> #[trigger] pred(s[i]),
    ensures
        s.filter(pred) == s,
    decreases s.len(),
{
    reveal(Seq::filter);
    if s.len() > 0 {
        lemma_filter_keeps_all(s.drop_last(), pred);
        assert(s.drop_last().push(s.last()) =~= s);
    }
}

/// With nothing typed, completion offers every command name, all of them,
/// in registry order.
pub proof fn lemma_empty_input_offers_every_name(themes: Seq<Seq<char>>)
    ensures
        complete_spec(Seq::empty(), themes) == registry_names(),
        registry_names().len() == REGISTRY_LEN,
{
    let lc = lower_ascii_seq(Seq::<char>::empty());
    assert(lc =~= Seq::<char>::empty());
    assert(lc.index_of_first(' ') is None) by {
        lc.index_of_first_ensures(' ');
    }
    let pred = |n: Seq<char>| lc.is_prefix_of(n);
    assert forall|i: int| 0 <= i < registry_names().len() implies #[trigger] pred(registry_names()[i]) by {
        assert(lc.is_prefix_of(registry_names()[i]));
    }
    lemma_filter_keeps_all(registry_names(), pred);
}

proof fn lemma_filter_keeps_distinct(s: Seq<Seq<char>>, pred: spec_fn(Seq<char>) -> bool)
    requires
        s.no_duplicates(),
    ensures
        s.filter(pred).no_duplicates(),
    decreases s.len(),
{
    reveal(Seq::filter);
    if s.len() > 0 {
        let d = s.drop_last();
        assert(d.no_duplicates()) by {
            assert forall|a: int, b: int| 0 <= a < d.len() && 0 <= b < d.len() && a != b implies d[a] != d[b] by {
                assert(d[a] == s[a] && d[b] == s[b]);
            }
        }
        lemma_filter_keeps_distinct(d, pred);
        let f = d.filter(pred);
        if pred(s.last()) {
            assert(!f.contains(s.last())) by {
                if f.contains(s.last()) {
                    d.lemma_filter_contains_rev(pred, s.last());
                    let j = choose|j: int| 0 <= j < d.len() && d[j] == s.last();
                    assert(s[j] == s[s.len() - 1]);
                }
            }
            let r = f.push(s.last());
            assert forall|a: int, b: int| 0 <= a < r.len() && 0 <= b < r.len() && a != b implies r[a] != r[b] by {
                if a == f.len() {
                    assert(f.contains(f[b]));
                } else if b == f.len() {
                    assert(f.contains(f[a]));
                }
            }
        }
    }
}

/// With no space typed, completion offers the command names that start
/// with what was typed (ASCII case ignored), in registry order, each once.
pub proof fn lemma_bare_completion_filters_the_registry(input: Seq<char>, themes: Seq<Seq<char>>)
    requires
        !input.contains(' '),
    ensures
        complete_spec(input, themes) == registry_names().filter(
            |n: Seq<char>| lower_ascii_seq(input).is_prefix_of(n),
        ),
        complete_spec(input, themes).no_duplicates(),
{
    let lc = lower_ascii_seq(input);
    assert(!lc.contains(' ')) by {
        if lc.contains(' ') {
            let j = choose|j: int| 0 <= j < lc.len() && lc[j] == ' ';
            assert(lc[j] == crate::text::lower_ascii(input[j]));
            assert(input[j] == ' ');
        }
    }
    lc.index_of_first_ensures(' ');
    lemma_registry_names_distinct();
    let names = registry_names();
    assert(names.no_duplicates()) by {
        assert forall|a: int, b: int| 0 <= a < names.len() && 0 <= b < names.len() && a != b implies names[a]
            != names[b] by {
            assert(names[a] == registry_spec()[a].0 && names[b] == registry_spec()[b].0);
        }
    }
    lemma_filter_keeps_distinct(names, |n: Seq<char>| lc.is_prefix_of(n));
}

/// A league's slug, typed in capitals with a space on either side, is
/// still the jump to that league (` NFL ` parses as `nfl`).
pub proof fn lemma_padded_capital_slug_is_a_command(l: League, themes: Seq<Seq<char>>)
    ensures
        parse_spec(seq![' '] + crate::text::upper_ascii_seq(slug_of(l)) + seq![' '], themes) == Ok::<CmdV, Seq<char>>(
            CmdV::GoLeague(l),
        ),
{
    crate::domain::lemma_all_leagues_complete(l);
    let k = choose|k: int| 0 <= k < 9 && all_leagues()[k] == l;
    reveal_strlit("nfl");
    reveal_strlit("cfb");
    reveal_strlit("cbb");
    reveal_strlit("nba");
    reveal_strlit("wnba");
    reveal_strlit("nhl");
    reveal_strlit("mlb");
    reveal_strlit("epl");
    reveal_strlit("mls");
    assert(registry_spec()[k].0 == slug_of(l));
    lemma_registry_name_shape(k);
    let n = slug_of(l);
    let u = crate::text::upper_ascii_seq(n);
    assert forall|i: int| 0 <= i < u.len() implies !is_white(#[trigger] u[i]) by {
        assert(!is_white(n[i]));
        crate::text::lemma_upper_keeps_white(n[i]);
    }
    crate::text::lemma_words_of_padded(u);
    crate::text::lemma_lower_of_upper(n);
    lemma_league_slug_parses_in_any_case(l, seq![' '] + u + seq![' '], themes);
}

proof fn lemma_sort_is_registered()
    ensures
        registry_index("sort"@) == Some(15int),
        registry_spec()[15].1 == ArgSpec::Sort,
{
    lemma_registry_names_distinct();
    reveal_strlit("sort");
    assert(registry_spec()[15].0 == "sort"@);
}

/// `sort` with a value sets that order: `watch`, `time` and `league` (in
/// any ASCII case) name the watchability, start-time and league keys; only
/// a bare `sort` leaves the key to cycle, and a value never does.
pub proof fn lemma_sort_value_sets_its_key(input: Seq<char>, themes: Seq<Seq<char>>)
    requires
        words(input).len() >= 1,
        lower_ascii_seq(words(input)[0]) == "sort"@,
    ensures
        words(input).len() == 1 ==> parse_spec(input, themes) == Ok::<CmdV, Seq<char>>(CmdV::Sort(None)),
        words(input).len() == 2 && lower_ascii_seq(words(input)[1]) == "watch"@ ==> parse_spec(input, themes)
            == Ok::<CmdV, Seq<char>>(CmdV::Sort(Some(SortKey::Watch))),
        words(input).len() == 2 && lower_ascii_seq(words(input)[1]) == "time"@ ==> parse_spec(input, themes)
            == Ok::<CmdV, Seq<char>>(CmdV::Sort(Some(SortKey::Time))),
        words(input).len() == 2 && lower_ascii_seq(words(input)[1]) == "league"@ ==> parse_spec(input, themes)
            == Ok::<CmdV, Seq<char>>(CmdV::Sort(Some(SortKey::League))),
        words(input).len() >= 2 ==> parse_spec(input, themes) != Ok::<CmdV, Seq<char>>(CmdV::Sort(None)),
{
    lemma_sort_is_registered();
    reveal_strlit("watch");
    reveal_strlit("time");
    reveal_strlit("league");
    assert("time"@.len() != "watch"@.len());
    assert("league"@.len() != "watch"@.len());
    assert("league"@.len() != "time"@.len());
}

} // verus!
