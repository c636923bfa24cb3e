use gameday::cut::{
    band_head, band_tail, chip_text, detail_text, is_person, split_surname, strip_text, timer_text, Cut, CutState,
    BAND_TICKS, CUT_TICKS,
};
use gameday::domain::{Game, League, Play, PlayKind, Status, Team};

fn play(text: &str) -> Play {
    Play {
        clock: "1:52".into(),
        period: "Q4".into(),
        team: "KC".into(),
        text: text.into(),
        scoring: true,
        kind: PlayKind::Other,
        ..Default::default()
    }
}

fn game() -> Game {
    Game {
        id: "1".into(),
        league: League::Nfl,
        away: Team { abbr: "KC".into(), name: "Chiefs".into(), ..Default::default() },
        home: Team { abbr: "BUF".into(), name: "Bills".into(), ..Default::default() },
        away_score: 24,
        home_score: 21,
        status: Status::Live,
        period: "Q4".into(),
        clock: "1:52".into(),
        ..Game::default()
    }
}

#[test]
fn fire_scoping_and_expiry() {
    let mut cuts = CutState::default();
    assert!(cuts.active(0).is_none(), "nothing fired, nothing on screen");

    cuts.fire("1", &play("Butker 41 yd field goal"), false, 100);
    let band = cuts.active(100).expect("the band is up");
    assert!(!band.full);
    assert_eq!(band.until_tick, 100 + BAND_TICKS);
    assert_eq!(band.game_id, "1");

    cuts.fire("2", &play("Someone else scores"), false, 105);
    assert_eq!(cuts.active(105).unwrap().game_id, "1", "a band does not preempt a band");

    cuts.fire("2", &play("Mahomes 12 yd pass"), true, 106);
    let cut = cuts.active(106).expect("the takeover replaced the band");
    assert!(cut.full);
    assert_eq!(cut.game_id, "2");
    assert_eq!(cut.until_tick, 106 + CUT_TICKS);

    cuts.fire("3", &play("A quieter score"), false, 110);
    assert_eq!(cuts.active(110).unwrap().game_id, "2", "a takeover is never downgraded");

    assert!(cuts.active(106 + CUT_TICKS - 1).is_some());
    assert!(cuts.active(106 + CUT_TICKS).is_none(), "the cut ends on its deadline");

    cuts.fire("3", &play("Later score"), false, 200);
    assert_eq!(cuts.active(200).unwrap().game_id, "3");
}

#[test]
fn the_detail_line_is_built_from_the_play_alone() {
    let text = detail_text(&play("Mahomes pass to Kelce for 3 yards"));
    assert_eq!(text, "MAHOMES · PASS TO KELCE FOR 3 YARDS · Q4 1:52");
    let text = detail_text(&play("3 yard rush, touchdown"));
    assert_eq!(text, "3 YARD RUSH, TOUCHDOWN · Q4 1:52");
}

#[test]
fn a_capitalized_non_name_is_never_painted_as_a_scorer() {
    for text in [
        "Safety, snap out of the end zone",
        "End of quarter",
        "Blocked Field Goal returned 62 yards for a TOUCHDOWN",
    ] {
        assert_eq!(split_surname(text).0, None, "{text:?} has no scorer to name");
        assert_eq!(split_surname(text).1, text, "the whole sentence survives: {text:?}");
    }
    assert_eq!(split_surname("Mahomes 12 Yd pass").0, Some("Mahomes"));
}

#[test]
fn mlbs_dash_form_names_the_player_not_the_play_type() {
    for (text, name, rest) in [
        ("Strikeout — J. Ortiz", "J. Ortiz", "Strikeout"),
        ("Walk — J. Sanoja", "J. Sanoja", "Walk"),
        ("Play Result — J. Marsee", "J. Marsee", "Play Result"),
        ("Sacrifice Fly — M. Betts", "M. Betts", "Sacrifice Fly"),
        ("Single – W. Contreras", "W. Contreras", "Single"),
    ] {
        assert_eq!(split_surname(text), (Some(name), rest), "{text:?}");
    }
    assert_eq!(split_surname("Mahomes 12 Yd pass to Kelce"), (Some("Mahomes"), "12 Yd pass to Kelce"));
    let clause = "Kelce 3 Yd pass — no flag on the play";
    assert_eq!(split_surname(clause).0, Some("Kelce"));
    assert_eq!(split_surname("End of inning — runners left on"), (None, "End of inning — runners left on"));
}

#[test]
fn a_person_is_capitalized_name_tokens() {
    assert!(is_person("J. Ortiz"));
    assert!(is_person("M. Betts"));
    assert!(!is_person("no flag on the play"));
    assert!(!is_person(""));
}

#[test]
fn the_mlb_dash_detail_reads_player_then_play() {
    let mut p = play("Strikeout — J. Ortiz");
    p.team = "CHC".into();
    p.period = "T9".into();
    p.clock = String::new();
    assert_eq!(detail_text(&p), "J. ORTIZ · STRIKEOUT · T9");
}

#[test]
fn the_band_head_names_word_team_scorer_and_score() {
    let s = band_head(&game(), &play("Mahomes 12 Yd pass to Kelce"), "TOUCHDOWN");
    assert_eq!(s, "▲ TOUCHDOWN · KC MAHOMES · KC 24 BUF 21");
    let mut anon = play("3 yard rush");
    anon.team = String::new();
    assert_eq!(band_head(&game(), &anon, "TOUCHDOWN"), "▲ TOUCHDOWN · KC 24 BUF 21");
}

#[test]
fn the_countdown_rounds_up_and_the_band_offers_the_jump() {
    let cut = Cut { game_id: "1".into(), play: play("x"), full: true, until_tick: 130 };
    assert_eq!(timer_text(&cut, 100), "clears in 3s");
    assert_eq!(timer_text(&cut, 121), "clears in 1s");
    assert_eq!(cut.remaining_secs(130), 0);
    assert_eq!(band_tail(&cut, 115, "enter"), "enter jump · clears in 2s");
}

#[test]
fn the_chip_and_strip_spell_out_the_moment() {
    assert_eq!(chip_text(&play("x")), " ▲ SCORING PLAY · KC ");
    let mut p = play("x");
    p.team = String::new();
    assert_eq!(chip_text(&p), " ▲ SCORING PLAY ");
    assert_eq!(strip_text(&game()), "CHIEFS AT BILLS");
}
