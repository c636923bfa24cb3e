use gameday::config::{load_config, load_pins_outcome, Config, FileRead, Pin};
use gameday::domain::League;

#[test]
fn an_absent_config_is_every_default_and_no_error() {
    let o = load_config(FileRead::Absent);
    assert_eq!(o.value, Config::default_all());
    assert!(o.error.is_none());
}

#[test]
fn a_parsed_config_is_itself() {
    let mut c = Config::default_all();
    c.theme = "studio".into();
    let o = load_config(FileRead::Parsed(c.clone()));
    assert_eq!(o.value, c);
    assert!(o.error.is_none());
}

#[test]
fn a_broken_config_is_defaults_and_names_the_file_and_line() {
    let o = load_config(FileRead::BadToml { message: "unknown variant `NFLL`".into(), line: Some(3) });
    assert_eq!(o.value, Config::default_all());
    let e = o.error.expect("an error");
    assert!(e.starts_with("config.toml:3: unknown variant `NFLL`"), "{e}");
    assert!(e.contains("valid leagues: nfl|cfb|cbb|nba|wnba|nhl|mlb|epl|mls"), "{e}");
    let o = load_config(FileRead::Failed { message: "io permission denied".into() });
    assert_eq!(o.error.as_deref(), Some("config.toml: io permission denied"));
}

#[test]
fn pins_load_the_same_way() {
    assert!(load_pins_outcome(FileRead::Absent).value.is_empty());
    let p = vec![Pin { game_id: "1".into(), league: League::Nfl, final_at: None }];
    assert_eq!(load_pins_outcome(FileRead::Parsed(p.clone())).value, p);
    let o = load_pins_outcome(FileRead::Failed { message: "json expected value".into() });
    assert!(o.value.is_empty());
    assert_eq!(o.error.as_deref(), Some("pins.json: json expected value"));
}
