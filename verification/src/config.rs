//! What the user configured — enabled tabs, favorites, theme, sort — and
//! the pins beside it; where those files live, and what a load that failed
//! leaves behind.
use vstd::prelude::*;
use crate::domain::{all_leagues, slug_of, League};
use crate::rank::SortKey;
use crate::text::{append, append_dec, chars_of, dec, join, owned};
use crate::theme::default_theme;

verus! {

broadcast use vstd::seq_lib::group_seq_properties;

/// A favorited team, by league and abbr.
#[derive(Clone, Debug, PartialEq, Eq)]
pub struct Favorite {
    pub league: League,
    pub team_abbr: String,
}

/// A pinned game. `final_at` is when the board first saw it final, in
/// seconds since the Unix epoch.
#[derive(Clone, Debug, PartialEq, Eq)]
pub struct Pin {
    pub game_id: String,
    pub league: League,
    pub final_at: Option<i64>,
}

/// The user's configuration.
#[derive(Clone, Debug, PartialEq, Eq)]
pub struct Config {
    pub enabled_tabs: Vec<League>,
    pub favorites: Vec<Favorite>,
    /// Theme name: any loaded theme. Kept as a string so an unknown value
    /// degrades to the default instead of failing the whole config load.
    pub theme: String,
    /// Board order: watch (watchability, default) | time | league.
    pub sort: SortKey,
}

impl Config {
    /// Every league enabled, no favorites, the default theme, watch order.
    pub fn default_all() -> (c: Config)
        ensures
            c.enabled_tabs@ == all_leagues(),
            c.favorites@.len() == 0,
            c.theme@ == "broadcast"@,
            c.sort == SortKey::Watch,
    {
        Config {
            enabled_tabs: League::all(),
            favorites: Vec::new(),
            theme: default_theme(),
            sort: SortKey::Watch,
        }
    }
}

/// A copy of a pin, field for field.
pub fn copy_pin(p: &Pin) -> (r: Pin)
    ensures
        r == *p,
{
    Pin { game_id: p.game_id.clone(), league: p.league, final_at: p.final_at }
}

/// Pins drop six hours after their game goes final.
pub const PIN_HOLD_SECS: i64 = 6 * 60 * 60;

/// A pin is kept while its game is not final, or went final less than six
/// hours before `now`.
pub open spec fn pin_holds(p: Pin, now: i64) -> bool {
    match p.final_at {
        Some(t) => now - t < PIN_HOLD_SECS,
        None => true,
    }
}

/// The pins still held at `now`, in order.
pub fn prune_pins(pins: Vec<Pin>, now: i64) -> (r: Vec<Pin>)
    ensures
        r@ == pins@.filter(|p: Pin| pin_holds(p, now)),
{
    let ghost pred = |p: Pin| pin_holds(p, now);
    let mut out: Vec<Pin> = Vec::new();
    let mut i: usize = 0;
    while i < pins.len()
        invariant
            i <= pins.len(),
            pred == (|p: Pin| pin_holds(p, now)),
            out@ == pins@.take(i as int).filter(pred),
        decreases pins.len() - i,
    {
        reveal_with_fuel(Seq::<_>::filter, 1);
        assert(pins@.take(i + 1).drop_last() =~= pins@.take(i as int));
        let keep = match pins[i].final_at {
            Some(t) => (now as i128) - (t as i128) < (PIN_HOLD_SECS as i128),
            None => true,
        };
        if keep {
            out.push(copy_pin(&pins[i]));
        }
        i += 1;
    }
    assert(pins@.take(pins.len() as int) =~= pins@);
    out
}

/// Where gameday reads and writes. `dir` is the only place writes ever land;
/// `legacy_read_from`, when set, is a pre-v3 directory reads come from until
/// the user moves it.
#[derive(Clone, Debug, PartialEq, Eq)]
pub struct DirResolution {
    pub dir: String,
    pub legacy_read_from: Option<String>,
}

/// `base` joined with `seg` as a path (`Path::join`).
pub uninterp spec fn path_join(base: Seq<char>, seg: Seq<char>) -> Seq<char>;

/// Whether two paths name the same path, component by component
/// (`<Path as PartialEq>::eq`).
pub uninterp spec fn same_path(a: Seq<char>, b: Seq<char>) -> bool;

/// `Path::join`: `seg` appended to `base` as a path, named `path_join`.
#[verifier::external_body]
pub fn join_path(base: &str, seg: &str) -> (r: String)
    ensures
        r@ == path_join(base@, seg@),
{
    std::path::Path::new(base).join(seg).to_string_lossy().into_owned()
}

/// `<Path as PartialEq>::eq`: component-wise path equality, named `same_path`.
#[verifier::external_body]
pub fn paths_equal(a: &str, b: &str) -> (r: bool)
    ensures
        r == same_path(a@, b@),
{
    std::path::Path::new(a) == std::path::Path::new(b)
}

/// `$XDG_CONFIG_HOME/gameday`, else `~/.config/gameday`.
pub open spec fn config_dir_spec(home: Seq<char>, xdg: Option<Seq<char>>) -> Seq<char> {
    match xdg {
        Some(x) => path_join(x, "gameday"@),
        None => path_join(path_join(home, ".config"@), "gameday"@),
    }
}

pub fn config_dir(home: &str, xdg: Option<&str>) -> (r: String)
    ensures
        r@ == config_dir_spec(home@, match xdg {
            Some(x) => Some(x@),
            None => None,
        }),
{
    match xdg {
        Some(x) => join_path(x, "gameday"),
        None => {
            let c = join_path(home, ".config");
            join_path(c.as_str(), "gameday")
        },
    }
}

/// `--config-dir` > `$XDG_CONFIG_HOME/gameday` > `~/.config/gameday`. When
/// the chosen dir has no config.toml but the pre-v3 location does, reads
/// come from there. An explicit `--config-dir` never consults the legacy
/// location, and a legacy path equal to the resolved dir is not legacy.
///
/// `dir_has_config` and `legacy_has_config` are whether `config.toml`
/// exists in `config_dir(home, xdg)` and in `legacy`: the caller looks.
pub fn resolve_dir(
    override_dir: Option<String>,
    home: &str,
    xdg: Option<&str>,
    legacy: Option<&str>,
    dir_has_config: bool,
    legacy_has_config: bool,
) -> (r: DirResolution)
    ensures
        match override_dir {
            Some(d) => r.dir == d && r.legacy_read_from.is_none(),
            None => {
                let dir = config_dir_spec(home@, match xdg {
                    Some(x) => Some(x@),
                    None => None,
                });
                &&& r.dir@ == dir
                &&& match legacy {
                    Some(l) if !same_path(l@, dir) && !dir_has_config && legacy_has_config => r.legacy_read_from.is_some()
                        && r.legacy_read_from.unwrap()@ == l@,
                    _ => r.legacy_read_from.is_none(),
                }
            },
        },
{
    if let Some(dir) = override_dir {
        return DirResolution { dir, legacy_read_from: None };
    }
    let dir = config_dir(home, xdg);
    let legacy_read_from = match legacy {
        Some(l) => if !paths_equal(l, dir.as_str()) && !dir_has_config && legacy_has_config {
            Some(owned(l))
        } else {
            None
        },
        None => None,
    };
    DirResolution { dir, legacy_read_from }
}

/// Where reads come from: the legacy directory while one is in effect,
/// else the resolved dir.
pub fn read_dir(r: &DirResolution) -> (d: &String)
    ensures
        match r.legacy_read_from {
            Some(l) => *d == l,
            None => *d == r.dir,
        },
{
    match &r.legacy_read_from {
        Some(l) => l,
        None => &r.dir,
    }
}

/// A load that never fails: a broken file yields defaults plus a
/// human-readable error naming the file, so the caller can refuse to
/// overwrite what it could not parse.
#[derive(Clone, Debug, PartialEq, Eq)]
pub struct LoadOutcome<T> {
    pub value: T,
    pub error: Option<String>,
}

/// What reading one of the directory's files found: no file, a parsed
/// value, a TOML error (its message and, when the parser gave a span, the
/// line it starts on), or another failure (unreadable, bad JSON) with its
/// text.
#[derive(Clone, Debug)]
pub enum FileRead<T> {
    Absent,
    Parsed(T),
    BadToml { message: String, line: Option<u64> },
    Failed { message: String },
}

/// The message a failed read leaves: the file's name first, then the line
/// when there is one and the parser's message (TOML), or the failure's own
/// text.
pub open spec fn read_error_spec<T>(file: Seq<char>, read: FileRead<T>) -> Option<Seq<char>> {
    match read {
        FileRead::BadToml { message, line } => Some(describe_spec(file, message@, line)),
        FileRead::Failed { message } => Some(file + ": "@ + message@),
        _ => None,
    }
}

/// Every default: all leagues, no favorites, the broadcast theme,
/// watchability order.
pub open spec fn is_default_config(c: Config) -> bool {
    &&& c.enabled_tabs@ == all_leagues()
    &&& c.favorites@.len() == 0
    &&& c.theme@ == "broadcast"@
    &&& c.sort == SortKey::Watch
}

fn read_error<T>(file: &str, read: &FileRead<T>) -> (r: Option<String>)
    ensures
        match r {
            Some(m) => read_error_spec(file@, *read) == Some(m@),
            None => read_error_spec(file@, *read).is_none(),
        },
{
    match read {
        FileRead::BadToml { message, line } => Some(describe_toml_error(file, message.as_str(), *line)),
        FileRead::Failed { message } => Some(describe_other_error(file, message.as_str())),
        _ => None,
    }
}

/// Loading config.toml never fails: no file is every default and no error,
/// a parsed file is itself, and a file that could not be read or parsed is
/// every default plus a message that starts with `config.toml`.
pub fn load_config(read: FileRead<Config>) -> (o: LoadOutcome<Config>)
    ensures
        match read {
            FileRead::Parsed(c) => o.value == c,
            _ => is_default_config(o.value),
        },
        match o.error {
            Some(m) => read_error_spec("config.toml"@, read) == Some(m@),
            None => read_error_spec("config.toml"@, read).is_none(),
        },
{
    let error = read_error("config.toml", &read);
    match read {
        FileRead::Parsed(c) => LoadOutcome { value: c, error },
        _ => LoadOutcome { value: Config::default_all(), error },
    }
}

/// Loading pins.json never fails either: no file or a bad one is no pins,
/// a bad one with a message that starts with `pins.json`.
pub fn load_pins_outcome(read: FileRead<Vec<Pin>>) -> (o: LoadOutcome<Vec<Pin>>)
    ensures
        match read {
            FileRead::Parsed(p) => o.value == p,
            _ => o.value@.len() == 0,
        },
        match o.error {
            Some(m) => read_error_spec("pins.json"@, read) == Some(m@),
            None => read_error_spec("pins.json"@, read).is_none(),
        },
{
    let error = read_error("pins.json", &read);
    match read {
        FileRead::Parsed(p) => LoadOutcome { value: p, error },
        _ => LoadOutcome { value: Vec::new(), error },
    }
}

/// Every message a failed read leaves starts with the file's name.
pub proof fn lemma_read_errors_name_the_file<T>(file: Seq<char>, read: FileRead<T>)
    ensures
        match read_error_spec(file, read) {
            Some(m) => file.is_prefix_of(m),
            None => true,
        },
{
    match read {
        FileRead::BadToml { message, line } => {
            let m = describe_spec(file, message@, line);
            assert(m.take(file.len() as int) =~= file);
        },
        FileRead::Failed { message } => {
            assert((file + ": "@ + message@).take(file.len() as int) =~= file);
        },
        _ => {},
    }
}

/// How many `\n` sit in `s`.
pub open spec fn newlines(s: Seq<char>) -> nat
    decreases s.len(),
{
    if s.len() == 0 {
        0
    } else {
        newlines(s.drop_last()) + if s.last() == '\n' { 1nat } else { 0 }
    }
}

/// The 1-based line holding char offset `at` of `text` (an offset past the
/// end counts as the end).
pub fn line_of(text: &str, at: usize) -> (line: u64)
    requires
        text@.len() < u64::MAX,
    ensures
        line == newlines(text@.take(if at < text@.len() { at as int } else { text@.len() as int })) + 1,
{
    let v = chars_of(text);
    let end = if at < v.len() { at } else { v.len() };
    let mut n: u64 = 0;
    let mut i: usize = 0;
    while i < end
        invariant
            i <= end,
            end <= v.len(),
            v@ == text@,
            n == newlines(v@.take(i as int)),
            n <= i,
        decreases end - i,
    {
        assert(v@.take(i + 1).drop_last() =~= v@.take(i as int));
        if v[i] == '\n' {
            n += 1;
        }
        i += 1;
    }
    n + 1
}

/// Whether `needle` occurs in `s` as a contiguous run.
pub open spec fn contains_run(s: Seq<char>, needle: Seq<char>) -> bool {
    exists|i: int| 0 <= i && i + needle.len() <= s.len() && #[trigger] s.subrange(i, i + needle.len()) == needle
}

fn has_run(s: &Vec<char>, needle: &Vec<char>) -> (r: bool)
    ensures
        r == contains_run(s@, needle@),
{
    if needle.len() > s.len() {
        return false;
    }
    let mut i: usize = 0;
    while i <= s.len() - needle.len()
        invariant
            needle.len() <= s.len(),
            i <= s.len() - needle.len() + 1,
            forall|k: int| 0 <= k < i ==> #[trigger] s@.subrange(k, k + needle@.len()) != needle@,
        decreases s.len() - i,
    {
        let mut j: usize = 0;
        let mut same = true;
        while j < needle.len()
            invariant
                j <= needle.len(),
                i + needle.len() <= s.len(),
                same == forall|m: int| 0 <= m < j ==> s@[i + m] == needle@[m],
            decreases needle.len() - j,
        {
            if s[i + j] != needle[j] {
                same = false;
            }
            j += 1;
        }
        if same {
            assert(s@.subrange(i as int, i + needle@.len()) =~= needle@);
            return true;
        }
        assert(s@.subrange(i as int, i + needle@.len()) != needle@) by {
            let m = choose|m: int| 0 <= m < needle.len() && s@[i + m] != needle@[m];
            assert(s@.subrange(i as int, i + needle@.len())[m] != needle@[m]);
        }
        i += 1;
    }
    false
}

/// `config.toml:1: unknown variant … — valid leagues: nfl|cfb|…`: the file
/// name, the line when the parser reported one, the parser's message, and
/// the valid leagues when the message is about a league value.
pub open spec fn describe_spec(file: Seq<char>, msg: Seq<char>, line: Option<u64>) -> Seq<char> {
    let hint = if contains_run(msg, "League"@) || contains_run(msg, "variant"@) {
        " — valid leagues: "@ + join(all_leagues().map_values(|l: League| slug_of(l)), "|"@)
    } else {
        Seq::<char>::empty()
    };
    match line {
        Some(l) => file + ":"@ + dec(l as nat) + ": "@ + msg + hint,
        None => file + ": "@ + msg + hint,
    }
}

/// Describes a TOML parse error for the user.
pub fn describe_toml_error(file: &str, msg: &str, line: Option<u64>) -> (s: String)
    ensures
        s@ == describe_spec(file@, msg@, line),
{
    let mv = chars_of(msg);
    let hinted = has_run(&mv, &chars_of("League")) || has_run(&mv, &chars_of("variant"));
    let mut out = owned(file);
    match line {
        Some(l) => {
            append(&mut out, ":");
            append_dec(&mut out, l);
            append(&mut out, ": ");
        },
        None => append(&mut out, ": "),
    }
    append(&mut out, msg);
    if hinted {
        append(&mut out, " — valid leagues: ");
        let slugs = crate::command::league_slugs();
        append(&mut out, slugs.as_str());
    }
    out
}

/// `pins.json: …`: a non-TOML error is named by its file and its own text.
pub fn describe_other_error(file: &str, msg: &str) -> (s: String)
    ensures
        s@ == file@ + ": "@ + msg@,
{
    let mut out = owned(file);
    append(&mut out, ": ");
    append(&mut out, msg);
    out
}

} // verus!
