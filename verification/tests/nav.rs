use gameday::alerts::Alert;
use gameday::app::Tab;
use gameday::domain::League;
use gameday::nav::{
    clamp_selected, current_tab_index, CalendarDate, cycle_tab, date_label, expire_alert, failure_line, label_of,
    move_selected, step_offset, tab_list,
};

#[test]
fn enabled_cfb_tab_appears() {
    assert_eq!(
        tab_list(&vec![League::Nfl, League::Cfb]),
        vec![Tab::Home, Tab::League(League::Nfl), Tab::League(League::Cfb)]
    );
}

#[test]
fn tab_cycles_home_then_nfl() {
    let tabs = tab_list(&vec![League::Nfl, League::Nba]);
    assert_eq!(cycle_tab(&tabs, Tab::Home, 1), Some(Tab::League(League::Nfl)));
    assert_eq!(cycle_tab(&tabs, Tab::League(League::Nba), 1), Some(Tab::Home), "wraps forward");
    assert_eq!(cycle_tab(&tabs, Tab::Home, -1), Some(Tab::League(League::Nba)), "wraps back");
    assert_eq!(cycle_tab(&vec![], Tab::Home, 1), None);
    assert_eq!(current_tab_index(&tabs, Tab::League(League::Mlb)), 0, "a tab off the strip reads as Home");
}

#[test]
fn paging_wraps_instead_of_blanking() {
    assert_eq!(move_selected(0, -1, 4), 3);
    assert_eq!(move_selected(3, 1, 4), 0);
    assert_eq!(move_selected(1, 1, 4), 2);
    assert_eq!(move_selected(5, 1, 0), 0);
    assert_eq!(move_selected(0, -9, 4), 3);
}

#[test]
fn shrinking_board_clamps_the_selection() {
    assert_eq!(clamp_selected(7, 3), 2);
    assert_eq!(clamp_selected(1, 3), 1);
    assert_eq!(clamp_selected(4, 0), 0);
}

#[test]
fn date_travel_is_clamped_to_a_week() {
    assert_eq!(step_offset(0, 1), 1);
    assert_eq!(step_offset(7, 1), 7);
    assert_eq!(step_offset(-7, -1), -7);
    assert_eq!(step_offset(3, -1), 2);
}

#[test]
fn the_banner_is_one_shot() {
    let a = Alert { text: "★ KC SCORES  27-24".into(), until_tick: 10 };
    assert!(expire_alert(Some(Alert { text: a.text.clone(), until_tick: 10 }), 9).is_some());
    assert!(expire_alert(Some(a), 10).is_none());
    assert!(expire_alert(None, 0).is_none());
}

#[test]
fn a_failed_fetch_names_league_error_and_retry() {
    assert_eq!(failure_line(League::Nfl, "ESPN 403 nfl scoreboard", Some(40)), "nfl · ESPN 403 nfl scoreboard · retry in 40s");
    assert_eq!(failure_line(League::Nba, "timeout", None), "nba · timeout");
}

#[test]
fn traveled_dates_read_weekday_month_day() {
    assert_eq!(label_of(4, 8, 29), "FRI AUG 29");
    assert_eq!(date_label(CalendarDate { year: 2025, month: 8, day: 29 }), "FRI AUG 29");
    assert_eq!(date_label(CalendarDate { year: 2026, month: 9, day: 13 }), "SUN SEP 13");
}

#[test]
fn leap_days_and_year_ends_read_their_weekday() {
    assert_eq!(date_label(CalendarDate { year: 2024, month: 2, day: 29 }), "THU FEB 29");
    assert_eq!(date_label(CalendarDate { year: 2000, month: 1, day: 1 }), "SAT JAN 1");
    assert_eq!(date_label(CalendarDate { year: 1999, month: 12, day: 31 }), "FRI DEC 31");
}

#[test]
fn scrolling_clamps_to_the_list() {
    assert_eq!(gameday::nav::scroll_by(0, 1, Some(4)), 1);
    assert_eq!(gameday::nav::scroll_by(4, 1, Some(4)), 4, "the last row holds");
    assert_eq!(gameday::nav::scroll_by(1, -5, Some(4)), 0, "the first row holds");
    assert_eq!(gameday::nav::scroll_by(3, 1, None), 0, "nothing to scroll rests at the top");
}
