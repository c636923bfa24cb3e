use gameday::chrome::{chip_forms, header_fit, tab_zones, HeaderRung};
use gameday::net::NetChip;

fn lens() -> Vec<usize> {
    // ALL NFL NBA MLB NHL EPL
    vec![3, 3, 3, 3, 3, 3]
}

#[test]
fn a_wide_header_keeps_everything() {
    let forms = chip_forms(&NetChip::NoDataYet);
    assert_eq!(forms, vec!["  NO DATA YET  ", " NO DATA YET ", "NO DATA YET"]);
    let f = header_fit(&lens(), 1, 0, &forms, 12, 9, 200);
    assert_eq!(f.rung, HeaderRung { short_mark: false, filter: true, bracketed: true, start: 0, end: 6 });
    assert_eq!(f.chip, Some(0));
    assert!(f.show_date);
}

#[test]
fn the_left_side_sheds_first_and_the_clock_stands_last() {
    let forms = chip_forms(&NetChip::Offline { retry_in: None, error: "x".into() });
    assert_eq!(forms, vec!["  OFFLINE  ", " OFFLINE ", "OFFLINE"]);
    // 9 (mark) + 6 × 4 (bare chips) = 33 on the left; the right wants
    // 11 + 12 + 9 = 32: brackets go, the tabs stay.
    let f = header_fit(&lens(), 1, 0, &forms, 12, 9, 65);
    assert!(!f.rung.bracketed && !f.rung.filter && !f.rung.short_mark);
    assert_eq!((f.rung.start, f.rung.end), (0, 6));
    assert!(f.show_date);
    // Narrower: trailing tabs go, never past the selected one.
    let f = header_fit(&lens(), 1, 0, &forms, 12, 9, 50);
    assert!(f.rung.end >= 2 && f.show_date);
    // Far too narrow: the GD mark, the date gone.
    let f = header_fit(&lens(), 1, 0, &forms, 12, 9, 20);
    assert!(f.rung.short_mark && !f.show_date);
}

#[test]
fn a_live_connection_has_no_chip() {
    let forms = chip_forms(&NetChip::Live);
    assert!(forms.is_empty());
    let f = header_fit(&lens(), 0, 0, &forms, 12, 9, 200);
    assert_eq!(f.chip, None);
    assert!(f.show_date);
}

#[test]
fn a_date_wider_than_any_row_drops_the_date_and_keeps_the_clock_rule() {
    let forms = chip_forms(&NetChip::Live);
    let f = header_fit(&lens(), 1, 0, &forms, u64::MAX, 9, 200);
    assert!(!f.show_date);
    assert!(f.rung.short_mark);
    let f = header_fit(&lens(), 1, 0, &forms, 12, u64::MAX, 200);
    assert!(!f.show_date);
}

#[test]
fn rendered_tabs_are_click_zones_at_their_columns() {
    let r = HeaderRung { short_mark: false, filter: true, bracketed: true, start: 0, end: 6 };
    let z = tab_zones(r, &lens(), 1, 200);
    assert_eq!(&z[..3], &[(0, 19, 7), (1, 27, 5), (2, 33, 7)]);
    assert_eq!(z.len(), 6);
    // A tab that would end past the row is not clickable.
    let z = tab_zones(r, &lens(), 1, 40);
    assert_eq!(z, vec![(0, 19, 7), (1, 27, 5), (2, 33, 7)]);
}
