use gameday::app::Tab;
use gameday::config::{Favorite, Pin};
use gameday::domain::{Game, League, Team};
use gameday::edit::{add_favorite, toggle_favorite, toggle_pin, toggle_tab};

fn team(abbr: &str) -> Team {
    Team { abbr: abbr.into(), name: abbr.into(), ..Default::default() }
}

fn g(id: &str, league: League, away: &str, home: &str) -> Game {
    Game { id: id.into(), league, away: team(away), home: team(home), ..Game::default() }
}

#[test]
fn space_pins_then_unpins_the_selected_game() {
    let mut pins: Vec<Pin> = Vec::new();
    let game = g("401", League::Nfl, "KC", "TB");
    assert_eq!(toggle_pin(&mut pins, &game), "pinned KC@TB");
    assert_eq!(pins, vec![Pin { game_id: "401".into(), league: League::Nfl, final_at: None }]);
    assert_eq!(toggle_pin(&mut pins, &game), "unpinned KC@TB");
    assert!(pins.is_empty(), "the second press undoes the first");
}

#[test]
fn unpinning_keeps_the_other_pins_in_order() {
    let mut pins = vec![
        Pin { game_id: "1".into(), league: League::Nba, final_at: None },
        Pin { game_id: "2".into(), league: League::Nfl, final_at: Some(5) },
        Pin { game_id: "3".into(), league: League::Nhl, final_at: None },
    ];
    assert_eq!(toggle_pin(&mut pins, &g("2", League::Nfl, "DAL", "PHI")), "unpinned DAL@PHI");
    let ids: Vec<&str> = pins.iter().map(|p| p.game_id.as_str()).collect();
    assert_eq!(ids, vec!["1", "3"]);
}

#[test]
fn t_favorites_the_home_team_and_again_unfavorites_it() {
    let mut favs: Vec<Favorite> = Vec::new();
    let game = g("1", League::Nfl, "KC", "TB");
    assert_eq!(toggle_favorite(&mut favs, &game), "favorited NFL TB");
    assert_eq!(favs, vec![Favorite { league: League::Nfl, team_abbr: "TB".into() }]);
    assert_eq!(toggle_favorite(&mut favs, &game), "unfavorited NFL TB");
    assert!(favs.is_empty());
}

#[test]
fn a_favorite_matches_its_abbr_in_any_case_but_only_in_its_league() {
    let mut favs = vec![Favorite { league: League::Nfl, team_abbr: "tb".into() }];
    assert_eq!(toggle_favorite(&mut favs, &g("1", League::Nhl, "FLA", "TB")), "favorited NHL TB");
    assert_eq!(favs.len(), 2);
    assert_eq!(toggle_favorite(&mut favs, &g("2", League::Nfl, "KC", "TB")), "unfavorited NFL TB");
    assert_eq!(favs, vec![Favorite { league: League::Nhl, team_abbr: "TB".into() }]);
}

#[test]
fn toggling_a_tab_keeps_the_league_order() {
    let mut enabled = vec![League::Nfl, League::Nba, League::Mlb];
    let shown = toggle_tab(&mut enabled, League::Nhl, Tab::Home);
    assert_eq!(shown, Tab::Home);
    assert_eq!(enabled, vec![League::Nfl, League::Nba, League::Nhl, League::Mlb], "a tab returns to its place");
    let shown = toggle_tab(&mut enabled, League::Nba, Tab::League(League::Nba));
    assert_eq!(shown, Tab::Home, "switching off the shown tab goes home");
    assert_eq!(enabled, vec![League::Nfl, League::Nhl, League::Mlb]);
    let shown = toggle_tab(&mut enabled, League::Nfl, Tab::League(League::Mlb));
    assert_eq!(shown, Tab::League(League::Mlb), "another tab stays shown");
    assert_eq!(enabled, vec![League::Nhl, League::Mlb]);
}

fn boards() -> Vec<(League, Vec<Game>)> {
    vec![
        (League::Nfl, vec![g("1", League::Nfl, "KC", "BUF")]),
        (League::Nhl, vec![g("2", League::Nhl, "EDM", "TOR")]),
    ]
}

#[test]
fn add_favorite_finds_a_bare_abbr_on_the_enabled_boards() {
    let mut favs: Vec<Favorite> = Vec::new();
    let enabled = vec![League::Nfl, League::Nhl];
    let (msg, added) = add_favorite(&mut favs, &enabled, &boards(), "edm");
    assert_eq!(msg, "favorited NHL EDM");
    assert!(added);
    assert_eq!(favs, vec![Favorite { league: League::Nhl, team_abbr: "EDM".into() }]);
    let (msg, added) = add_favorite(&mut favs, &enabled, &boards(), "EDM");
    assert_eq!(msg, "NHL EDM is already a favorite");
    assert!(!added);
    assert_eq!(favs.len(), 1);
}

#[test]
fn add_favorite_takes_a_league_and_an_abbr() {
    let mut favs: Vec<Favorite> = Vec::new();
    let (msg, added) = add_favorite(&mut favs, &vec![League::Nfl], &boards(), "  nhl   cgy ");
    assert_eq!(msg, "favorited NHL CGY", "a named league need not be on a board");
    assert!(added);
    assert_eq!(favs, vec![Favorite { league: League::Nhl, team_abbr: "CGY".into() }]);
}

#[test]
fn add_favorite_names_each_refusal() {
    let mut favs: Vec<Favorite> = Vec::new();
    let enabled = vec![League::Nfl];
    let (msg, added) = add_favorite(&mut favs, &enabled, &boards(), "edm");
    assert_eq!(msg, "no team \"edm\" on enabled boards; use \"<league> <abbr>\" like \"nfl kc\"");
    assert!(!added);
    let (msg, _) = add_favorite(&mut favs, &enabled, &boards(), "xfl kc");
    assert_eq!(msg, "unknown league \"xfl\", valid: nfl|cfb|cbb|nba|wnba|nhl|mlb|epl|mls");
    let (msg, _) = add_favorite(&mut favs, &enabled, &boards(), "a b c");
    assert_eq!(msg, "expected \"<abbr>\" or \"<league> <abbr>\", got \"a b c\"");
    assert!(favs.is_empty(), "a refusal changes nothing");
}

#[test]
fn a_tab_switched_off_and_on_returns_to_its_place() {
    let start = vec![League::Nfl, League::Nba, League::Nhl, League::Mlb];
    let mut enabled = start.clone();
    toggle_tab(&mut enabled, League::Nba, Tab::Home);
    assert_eq!(enabled, vec![League::Nfl, League::Nhl, League::Mlb]);
    toggle_tab(&mut enabled, League::Nba, Tab::Home);
    assert_eq!(enabled, start);
    toggle_tab(&mut enabled, League::Epl, Tab::Home);
    toggle_tab(&mut enabled, League::Epl, Tab::Home);
    assert_eq!(enabled, start, "on then off is no change either");
}
