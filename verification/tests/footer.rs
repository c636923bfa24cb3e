use gameday::footer::{footer_line, footer_right, prompt_line, shed_chords};

fn chords(v: &[(&str, &str)]) -> Vec<(String, String)> {
    v.iter().map(|(k, a)| (k.to_string(), a.to_string())).collect()
}

fn actions(v: &[(String, String)]) -> Vec<&str> {
    v.iter().map(|(_, a)| a.as_str()).collect()
}

#[test]
fn chords_shed_in_the_drop_order_until_the_row_fits() {
    let all = chords(&[("j/k", "move"), ("z", "zoom"), ("?", "help"), ("q", "quit")]);
    let drops = vec!["zoom".to_string(), "move".to_string()];
    assert_eq!(actions(&shed_chords(&all, &drops, 0, 44)), vec!["move", "zoom", "help", "quit"], "43 cells fit 44");
    assert_eq!(actions(&shed_chords(&all, &drops, 0, 43)), vec!["move", "help", "quit"]);
    assert_eq!(actions(&shed_chords(&all, &drops, 0, 30)), vec!["help", "quit"]);
    assert_eq!(actions(&shed_chords(&all, &drops, 0, 10)), vec!["help", "quit"], "help and quit are never shed");
    assert_eq!(actions(&shed_chords(&all, &drops, 5, 44)), vec!["move", "help", "quit"], "the filter takes cells too");
}

#[test]
fn the_right_status_sheds_game_first_then_page() {
    let keys = chords(&[("?", "help"), ("q", "quit")]);
    let right = vec!["GAME 3/8".to_string(), "PAGE 1/2".to_string(), "UPD 5s".to_string()];
    let left = " NAV: [?] help [q] quit";
    assert_eq!(footer_line(None, &keys, &right, 60), format!("{left}{}GAME 3/8  PAGE 1/2  UPD 5s", " ".repeat(10)));
    assert_eq!(footer_line(None, &keys, &right, 45), format!("{left}{}PAGE 1/2  UPD 5s", " ".repeat(5)));
    assert_eq!(footer_line(None, &keys, &right, 30), left, "nothing fits, nothing is cut mid-word");
    assert_eq!(footer_line(Some("kc"), &keys, &vec![], 80), format!(" /kc{left}"), "an active filter stays in view");
}

#[test]
fn the_right_status_names_the_game_page_and_age() {
    let upd = Some("UPD 5s".to_string());
    assert_eq!(footer_right(false, None, 2, 8, 0, 2, upd), vec!["GAME 3/8", "PAGE 1/2", "UPD 5s"]);
    assert_eq!(footer_right(true, Some(("KC", "BUF")), 0, 8, 5, 2, None), vec!["FOCUS KC@BUF"], "zoomed: no GAME, no PAGE");
    assert_eq!(footer_right(false, None, 0, 1, 7, 3, None), vec!["PAGE 3/3"], "one row: no GAME; the page clamps");
    assert!(footer_right(false, None, 0, 0, 0, 1, None).is_empty());
}

#[test]
fn a_prompt_owns_the_footer_and_lists_its_completions() {
    assert_eq!(prompt_line('/', "kc", &vec![]), " /kc▌");
    assert_eq!(prompt_line(':', "th", &vec!["theme".to_string(), "the".to_string()]), " :th▌  ▸ theme  the ");
}
