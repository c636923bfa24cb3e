use gameday::domain::{Game, League, Team};
use gameday::filter::{starts_a_word, Query};

fn game(league: League, away: (&str, &str, &str), home: (&str, &str, &str)) -> Game {
    let t = |(abbr, location, name): (&str, &str, &str)| Team {
        abbr: abbr.into(),
        location: location.into(),
        name: name.into(),
        ..Default::default()
    };
    Game { league, away: t(away), home: t(home), ..Default::default() }
}

#[test]
fn a_token_starts_a_word_and_never_sits_inside_one() {
    let q = Query::parse("ore");
    assert!(q.matches(&game(League::Cfb, ("ORST", "Oregon State", "Beavers"), ("BOIS", "Boise State", "Broncos"))));
    assert!(
        !q.matches(&game(League::Nfl, ("BAL", "Baltimore", "Ravens"), ("KC", "Kansas City", "Chiefs"))),
        "ore inside baltimORE"
    );
    assert!(!q.matches(&game(
        League::Cfb,
        ("WAKE", "Wake Forest", "Demon Deacons"),
        ("VAN", "Vanderbilt", "Commodores")
    )));
}

#[test]
fn a_league_slug_scopes_and_the_rest_must_all_match() {
    let q = Query::parse("nfl kc");
    assert!(q.matches(&game(League::Nfl, ("KC", "Kansas City", "Chiefs"), ("TB", "Tampa Bay", "Buccaneers"))));
    assert!(
        !q.matches(&game(League::Cbb, ("KC", "Kansas City", "Roos"), ("UNI", "Northern Iowa", "Panthers"))),
        "wrong league"
    );
    let both = Query::parse("kc tb");
    assert!(both.matches(&game(League::Nfl, ("KC", "Kansas City", "Chiefs"), ("TB", "Tampa Bay", "Buccaneers"))));
    assert!(
        !both.matches(&game(League::Nfl, ("KC", "Kansas City", "Chiefs"), ("BUF", "Buffalo", "Bills"))),
        "every token must land"
    );
}

#[test]
fn an_empty_query_matches_everything_and_case_is_ignored() {
    assert!(Query::parse("").is_empty());
    assert!(Query::parse("  ").matches(&game(League::Mlb, ("NYY", "New York", "Yankees"), ("BOS", "Boston", "Red Sox"))));
    assert!(Query::parse("RED").matches(&game(League::Mlb, ("NYY", "New York", "Yankees"), ("BOS", "Boston", "Red Sox"))));
}

#[test]
fn a_word_matches_past_its_own_punctuation() {
    let q = Query::parse("hawaii");
    assert!(q.matches(&game(League::Cbb, ("HAW", "Hawai'i", "Rainbow Warriors"), ("BOIS", "Boise State", "Broncos"))));
    let q = Query::parse("oh");
    assert!(q.matches(&game(League::Cbb, ("M-OH", "Miami (OH)", "RedHawks"), ("BOIS", "Boise State", "Broncos"))));
}

#[test]
fn a_bare_league_slug_scopes_every_game_in_it_and_only_it() {
    let q = Query::parse("nfl");
    assert!(!q.is_empty());
    assert!(q.matches(&game(League::Nfl, ("KC", "Kansas City", "Chiefs"), ("TB", "Tampa Bay", "Buccaneers"))));
    assert!(
        !q.matches(&game(League::Cfb, ("KC", "Kansas City", "Chiefs"), ("TB", "Tampa Bay", "Buccaneers"))),
        "the slug scopes to its own league even with identical team words"
    );
}

#[test]
fn a_league_slug_reads_case_insensitively_like_every_other_token() {
    let q = Query::parse("NFL kc");
    assert!(q.matches(&game(League::Nfl, ("KC", "Kansas City", "Chiefs"), ("TB", "Tampa Bay", "Buccaneers"))));
}

#[test]
fn fewer_tokens_match_at_least_as_much() {
    let g = game(League::Nfl, ("KC", "Kansas City", "Chiefs"), ("TB", "Tampa Bay", "Buccaneers"));
    assert!(Query::parse("kansas tampa").matches(&g));
    assert!(Query::parse("kansas").matches(&g));
    assert!(!Query::parse("kansas buffalo").matches(&g));
}

#[test]
fn a_team_word_start_is_checked_on_abbr_location_and_name() {
    let t = Team { abbr: "KC".into(), location: "Kansas City".into(), name: "Chiefs".into(), ..Default::default() };
    assert!(starts_a_word(&t, "city"));
    assert!(starts_a_word(&t, "chi"));
    assert!(!starts_a_word(&t, "ity"));
}

#[test]
fn a_filter_and_its_uppercase_read_the_same() {
    for s in ["nfl kc", "red sox", "  oh hawaii ", "nba den bos"] {
        assert_eq!(Query::parse(&s.to_ascii_uppercase()), Query::parse(s), "{s:?}");
    }
}
