use gameday::merge::stale_after;
use gameday::net::{short_age, NetChip, NetStatus};

/// The live-cadence threshold while something is live: 3 × 15 s.
const LIVE: u64 = 45_000;
/// And the idle one: a 60 s cadence plus one live window of slack.
const IDLE: u64 = 75_000;
const T0: u64 = 1_000_000;

fn secs(s: u64) -> u64 {
    s * 1000
}

#[test]
fn chip_walks_no_data_live_stale_offline_and_back() {
    let t0 = T0;
    let mut n = NetStatus::default();
    assert!(matches!(n.chip(t0, LIVE), NetChip::NoDataYet));
    assert_eq!(n.upd_label(t0, LIVE), None);
    n.ok(t0, false);
    assert!(matches!(n.chip(t0 + secs(10), LIVE), NetChip::Live));
    assert_eq!(n.upd_label(t0 + secs(10), LIVE).as_deref(), Some("UPD 10s"));
    let later = t0 + LIVE + secs(1);
    assert!(matches!(n.chip(later, LIVE), NetChip::Stale { .. }));
    assert_eq!(n.upd_label(later, LIVE).as_deref(), Some("UPD 46s ·"), "frozen marker while stale");
    n.failed(later, "ESPN 403 nfl scoreboard".into(), Some(secs(40)));
    match n.chip(later, LIVE) {
        NetChip::Offline { retry_in, error } => {
            assert_eq!(retry_in, Some(secs(40)));
            assert!(error.contains("403"));
        }
        other => panic!("{other:?}"),
    }
    n.ok(later + secs(5), false);
    assert!(matches!(n.chip(later + secs(6), LIVE), NetChip::Live), "recovery clears offline");
}

#[test]
fn the_idle_cadence_does_not_call_a_healthy_board_stale() {
    let t0 = T0;
    let mut n = NetStatus::default();
    n.ok(t0, false);
    let at = |s: u64| t0 + secs(s);
    assert!(matches!(n.chip(at(60), IDLE), NetChip::Live), "one idle poll");
    assert!(matches!(n.chip(at(76), IDLE), NetChip::Stale { .. }), "a poll plus a cadence");
    assert!(matches!(n.chip(at(60), LIVE), NetChip::Stale { .. }));
}

#[test]
fn a_cached_apply_is_stale_immediately() {
    let t0 = T0;
    let mut n = NetStatus::default();
    n.ok(t0, true);
    assert!(matches!(n.chip(t0, LIVE), NetChip::Stale { .. }));
}

#[test]
fn labels_read_like_the_header() {
    let t0 = T0;
    let mut n = NetStatus::default();
    assert_eq!(n.chip(t0, LIVE).label().as_deref(), Some("NO DATA YET"));
    n.ok(t0, false);
    assert_eq!(n.chip(t0, LIVE).label(), None, "the tiles already say LIVE");
    assert_eq!(n.chip(t0 + secs(240), LIVE).label().as_deref(), Some("STALE 4m"));
    n.failed(t0 + secs(240), "ESPN 403 nfl scoreboard".into(), Some(secs(40)));
    assert_eq!(n.chip(t0 + secs(240), LIVE).label().as_deref(), Some("OFFLINE · retry 40s"));
}

#[test]
fn the_stale_threshold_follows_the_cadence_in_use() {
    assert_eq!(stale_after(true), LIVE);
    assert_eq!(stale_after(false), IDLE);
}

#[test]
fn short_ages_read_seconds_then_minutes() {
    assert_eq!(short_age(0), "0s");
    assert_eq!(short_age(59), "59s");
    assert_eq!(short_age(60), "1m");
    assert_eq!(short_age(240), "4m");
}

#[test]
fn an_outage_has_a_bare_word_form() {
    let c = NetChip::Offline { retry_in: None, error: "x".into() };
    assert_eq!(c.label().as_deref(), Some("OFFLINE"));
    assert_eq!(c.short_label().as_deref(), Some("OFFLINE"));
    let s = NetChip::Stale { age: secs(12) };
    assert_eq!(s.short_label().as_deref(), Some("STALE 12s"));
    assert_eq!(NetChip::Live.short_label(), None);
}
