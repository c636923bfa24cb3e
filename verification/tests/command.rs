use gameday::command::{complete, parse, valid_names, Cmd, REGISTRY_LEN};
use gameday::domain::League;
use gameday::rank::SortKey;
use gameday::theme::{builtin_names, BUILTIN_NAMES};

fn themes() -> Vec<String> {
    builtin_names()
}

fn themes_with_zebra() -> Vec<String> {
    let mut t = builtin_names();
    t.push("zebra".to_string());
    t
}

#[test]
fn parses_league_theme_pin_and_errors() {
    let t = themes();
    assert_eq!(parse("nfl", &t).unwrap(), Cmd::GoLeague(League::Nfl));
    assert_eq!(parse("standings nba", &t).unwrap(), Cmd::Standings(Some(League::Nba)));
    assert_eq!(parse("standings", &t).unwrap(), Cmd::Standings(None));
    assert_eq!(parse("theme gruvbox", &t).unwrap(), Cmd::Theme(Some("gruvbox".into())));
    assert_eq!(parse("theme", &t).unwrap(), Cmd::Theme(None), "bare :theme opens the picker");
    assert_eq!(parse("pin kc", &t).unwrap(), Cmd::Pin("kc".into()));
    let err = parse("foo", &t).unwrap_err();
    assert!(err.contains("\"foo\"") && err.contains("nfl") && err.contains("standings"), "{err}");
}

#[test]
fn completes_prefixes() {
    let t = themes();
    assert!(complete("st", &t).contains(&"standings".to_string()));
    assert!(complete("theme ", &t).contains(&"theme gruvbox".to_string()));
}

#[test]
fn theme_completion_lists_every_loaded_name() {
    let t = themes();
    let all = complete("theme ", &t);
    assert_eq!(all.len(), t.len(), "{all:?}");
    for name in BUILTIN_NAMES {
        assert!(all.contains(&format!("theme {name}")), "missing {name}: {all:?}");
    }
    assert_eq!(complete("theme gr", &t), vec!["theme gruvbox"]);
    assert_eq!(complete("theme STUD", &t), vec!["theme studio"], "case-insensitive");
    // A user theme installed alongside the built-ins completes too.
    let z = themes_with_zebra();
    assert_eq!(complete("theme z", &z), vec!["theme zebra"]);
    assert_eq!(parse("theme Zebra", &z).unwrap(), Cmd::Theme(Some("zebra".into())));
}

#[test]
fn every_league_slug_is_a_command() {
    let t = themes();
    for league in League::ALL {
        assert_eq!(
            parse(league.slug(), &t).unwrap(),
            Cmd::GoLeague(league),
            "league {} missing from the registry",
            league.slug()
        );
    }
}

#[test]
fn parses_remaining_commands() {
    let t = themes();
    assert_eq!(parse("home", &t).unwrap(), Cmd::GoHome);
    assert_eq!(parse("all", &t).unwrap(), Cmd::GoHome);
    assert_eq!(parse("plays", &t).unwrap(), Cmd::Plays);
    assert_eq!(parse("config", &t).unwrap(), Cmd::ConfigView);
    assert_eq!(parse("sort league", &t).unwrap(), Cmd::Sort(Some(SortKey::League)));
    assert_eq!(parse("tv", &t).unwrap(), Cmd::Tv);
    assert_eq!(parse("q", &t).unwrap(), Cmd::Quit);
    assert_eq!(parse("quit", &t).unwrap(), Cmd::Quit);
    // Case-insensitive, whitespace-tolerant.
    assert_eq!(parse("  THEME Gruvbox ", &t).unwrap(), Cmd::Theme(Some("gruvbox".into())));
}

#[test]
fn sort_and_tv_parse_and_layout_score_are_gone() {
    let t = themes();
    assert_eq!(parse("sort", &t).unwrap(), Cmd::Sort(None));
    assert_eq!(parse("sort time", &t).unwrap(), Cmd::Sort(Some(SortKey::Time)));
    assert!(parse("sort sideways", &t).unwrap_err().contains("watch|time|league"));
    assert_eq!(parse("tv", &t).unwrap(), Cmd::Tv);
    let err = parse("layout", &t).unwrap_err();
    assert!(err.contains("unknown command"), "{err}");
    assert!(!valid_names().contains("score"), "registry cleaned");
}

#[test]
fn argument_errors_name_the_value_and_the_valid_set() {
    let t = themes();
    let err = parse("theme solarized", &t).unwrap_err();
    assert!(err.contains("\"solarized\"") && err.contains("broadcast|studio|gruvbox"), "{err}");
    // The valid set is the whole loaded list, not just the built-ins.
    let z = themes_with_zebra();
    let err = parse("theme solarized", &z).unwrap_err();
    assert!(err.contains("zebra"), "the valid set is the whole loaded list: {err}");
    let err = parse("standings xfl", &t).unwrap_err();
    assert!(err.contains("\"xfl\"") && err.contains("nfl") && err.contains("mls"), "{err}");
    let err = parse("sort sideways", &t).unwrap_err();
    assert!(err.contains("\"sideways\"") && err.contains("watch|time|league"), "{err}");
    let err = parse("pin", &t).unwrap_err();
    assert!(err.contains("abbr"), "{err}");
    let err = parse("nfl extra", &t).unwrap_err();
    assert!(err.contains("\"extra\""), "{err}");
    let err = parse("", &t).unwrap_err();
    assert!(err.contains("nfl"), "{err}");
}

#[test]
fn completion_covers_names_and_args() {
    let t = themes();
    assert_eq!(complete("nf", &t), vec!["nfl".to_string()]);
    let n: Vec<String> = complete("n", &t);
    assert!(n.contains(&"nfl".into()) && n.contains(&"nba".into()) && n.contains(&"nhl".into()));
    assert_eq!(complete("standings n", &t), vec!["standings nfl", "standings nba", "standings nhl"]);
    assert_eq!(complete("sort ", &t), vec!["sort watch", "sort time", "sort league"]);
    assert!(complete("pin k", &t).is_empty(), "abbrs are free text");
    assert!(complete("bogus x", &t).is_empty());
    assert_eq!(complete("", &t).len(), REGISTRY_LEN, "empty prompt offers everything");
}

#[test]
fn notify_test_parses_and_completes() {
    let t = themes();
    assert_eq!(parse("notify test", &t).unwrap(), Cmd::NotifyTest);
    let err = parse("notify", &t).unwrap_err();
    assert!(err.contains("test"), "{err}");
    let err = parse("notify foo", &t).unwrap_err();
    assert!(err.contains("test"), "{err}");
    assert_eq!(complete("notify ", &t), vec!["notify test"]);
}

#[test]
fn an_unknown_theme_in_a_pin_free_prompt_is_the_registry_message() {
    let t = themes();
    let err = parse("zzz", &t).unwrap_err();
    assert!(err.contains("unknown command"), "{err}");
    assert!(err.contains("\"zzz\""), "{err}");
}
