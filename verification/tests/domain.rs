use gameday::app::live_pulse_bright;
use gameday::domain::{Extras, Game, HockeyStrength, League, Meter, PenaltyEvent, Play, Situation, Status, Team};

fn chiefs() -> Team {
    Team {
        id: "12".into(),
        abbr: "KC".into(),
        name: "Chiefs".into(),
        location: "Kansas City".into(),
        record: "11-6".into(),
        color: [227, 24, 55],
        alt_color: [255, 184, 28],
        logo_key: "nfl/kc".into(),
        ..Default::default()
    }
}

#[test]
fn nfl_espn_path() {
    assert_eq!(League::Nfl.espn_path(), ("football", "nfl"));
    assert_eq!(League::Cfb.espn_path(), ("football", "college-football"));
    assert_eq!(League::Nba.espn_path(), ("basketball", "nba"));
    assert_eq!(League::Wnba.espn_path(), ("basketball", "wnba"));
    assert_eq!(League::Nhl.espn_path(), ("hockey", "nhl"));
    assert_eq!(League::Cbb.espn_path(), ("basketball", "mens-college-basketball"));
    assert_eq!(League::Mlb.espn_path(), ("baseball", "mlb"));
    assert_eq!(League::Epl.espn_path(), ("soccer", "eng.1"));
    assert_eq!(League::Mls.espn_path(), ("soccer", "usa.1"));
}

#[test]
fn slugs() {
    assert_eq!(League::Nfl.slug(), "nfl");
    assert_eq!(League::Cfb.slug(), "cfb");
    assert_eq!(League::Wnba.slug(), "wnba");
    assert_eq!(League::Epl.slug(), "epl");
    assert_eq!(League::Mls.slug(), "mls");
}

#[test]
fn from_slug_roundtrips_every_league() {
    for l in League::ALL {
        assert_eq!(League::from_slug(l.slug()), Some(l), "slug {}", l.slug());
    }
    assert_eq!(League::from_slug("xfl"), None);
}

#[test]
fn all_lists_every_league_once_in_order() {
    let all = League::all();
    assert_eq!(all, League::ALL.to_vec());
    assert_eq!(all.len(), 9);
}

#[test]
fn mlb_count_headline_formats_and_pluralizes() {
    let sit = |b, s, o| Situation { balls: Some(b), strikes: Some(s), outs: Some(o), ..Default::default() };
    assert_eq!(sit(1, 2, 2).mlb_count_headline().as_deref(), Some("2 OUT · 1-2"));
    assert_eq!(sit(3, 2, 1).mlb_count_headline().as_deref(), Some("1 OUT · 3-2"));
    assert_eq!(sit(0, 0, 0).mlb_count_headline().as_deref(), Some("0 OUT · 0-0"));
    let partial = Situation { balls: Some(1), strikes: Some(2), ..Default::default() };
    assert_eq!(partial.mlb_count_headline(), None);
    assert_eq!(Situation::default().mlb_count_headline(), None);
}

#[test]
fn game_default_is_an_empty_pregame() {
    let g = Game::default();
    assert_eq!(g.status, Status::Pre);
    assert_eq!(g.league, League::Nfl);
    assert!(g.scoring_plays.is_empty() && g.linescore.is_empty() && g.last_plays.is_empty());
    assert_eq!(g.start, None);
    assert_eq!(g.timeouts, None);
    assert_eq!(g.extras, Extras::Empty);
    assert_eq!(g.away.rank, None);
    let p = Play { period: "B9".into(), ..Default::default() };
    assert_eq!(p.period, "B9");
}

#[test]
fn live_game_holds_situation_and_plays() {
    let g = Game {
        id: "401".into(),
        league: League::Nfl,
        away: chiefs(),
        home: Team {
            id: "27".into(),
            abbr: "TB".into(),
            name: "Buccaneers".into(),
            location: "Tampa Bay".into(),
            record: "11-6".into(),
            color: [213, 10, 10],
            alt_color: [52, 48, 43],
            logo_key: "nfl/tb".into(),
            ..Default::default()
        },
        away_score: 27,
        home_score: 24,
        status: Status::Live,
        period: "Q4".into(),
        clock: "1:27".into(),
        situation: Some(Situation {
            down_distance: "1st & Goal".into(),
            possession: Some("KC".into()),
            ball_on: Some("TB 3".into()),
            ..Default::default()
        }),
        last_plays: vec![Play {
            clock: "1:27".into(),
            team: "KC".into(),
            text: "Mahomes pass to Kelce for 3 yards".into(),
            ..Default::default()
        }],
        meter: Some(Meter::RedZone { yards_to_goal: 3 }),
        broadcast: Some("CBS".into()),
        ..Game::default()
    };
    assert_eq!(g.status, Status::Live);
    assert_eq!(g.meter, Some(Meter::RedZone { yards_to_goal: 3 }));
    assert_eq!(g.away.logo_key, "nfl/kc");
}

#[test]
fn live_pulse_is_a_pure_one_second_cadence() {
    // 10 render ticks bright, 10 dim, repeating.
    assert!(live_pulse_bright(0));
    assert!(live_pulse_bright(9));
    assert!(!live_pulse_bright(10));
    assert!(!live_pulse_bright(19));
    assert!(live_pulse_bright(20));
}

#[test]
fn the_pulse_repeats_every_twenty_ticks() {
    for t in 0..200u64 {
        assert_eq!(live_pulse_bright(t), live_pulse_bright(t + 20));
        assert_eq!(live_pulse_bright(t), t % 20 < 10);
    }
}

fn pen(team: &str, minutes: u8) -> PenaltyEvent {
    PenaltyEvent { team: team.into(), minutes, kind: "Tripping".into(), period: 2, clock: "4:00".into() }
}

#[test]
fn a_power_play_meters_the_newest_penalty() {
    let e = Extras::Hockey { strength: HockeyStrength::PowerPlay, penalties: vec![pen("EDM", 2), pen("DAL", 5)] };
    assert_eq!(e.penalty_meter(), Some(Meter::Penalty { team_abbr: "DAL".into(), seconds: 300 }));
    let even = Extras::Hockey { strength: HockeyStrength::Even, penalties: vec![pen("EDM", 2)] };
    assert_eq!(even.penalty_meter(), None);
    let none = Extras::Hockey { strength: HockeyStrength::Shorthanded, penalties: vec![] };
    assert_eq!(none.penalty_meter(), None);
    assert_eq!(Extras::Empty.penalty_meter(), None);
}
