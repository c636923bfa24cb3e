use gameday::frame::{footer_at, frame_layout, FrameLayout};
use gameday::rect::Rect;

#[test]
fn a_small_screen_names_both_sizes() {
    match frame_layout(39, 30, true, 0, 0, 0, 0, 1, None, false) {
        FrameLayout::TooSmall { message } => assert_eq!(message, "need 40×12, have 39×30"),
        other => panic!("{other:?}"),
    }
    match frame_layout(80, 11, true, 0, 0, 0, 0, 1, None, false) {
        FrameLayout::TooSmall { message } => assert_eq!(message, "need 40×12, have 80×11"),
        other => panic!("{other:?}"),
    }
}

#[test]
fn a_full_cut_owns_everything_under_the_header() {
    match frame_layout(120, 36, true, 3, 0, 0, 0, 1, Some(true), true) {
        FrameLayout::Takeover { header, below } => {
            assert_eq!(header, Rect { x: 0, y: 0, width: 120, height: 1 });
            assert_eq!(below, Rect { x: 0, y: 1, width: 120, height: 35 });
        }
        other => panic!("{other:?}"),
    }
    // A takeover whose game left the board never degrades into a band.
    match frame_layout(120, 36, true, 3, 0, 0, 0, 1, Some(true), false) {
        FrameLayout::Split { band, body, .. } => {
            assert!(band.is_none());
            assert_eq!(body, Rect { x: 0, y: 1, width: 120, height: 34 });
        }
        other => panic!("{other:?}"),
    }
}

#[test]
fn a_band_is_reserved_on_the_board_and_costs_other_views_two_rows() {
    match frame_layout(120, 36, true, 3, 0, 0, 0, 1, Some(false), true) {
        FrameLayout::Split { header, body, lane, footer, band } => {
            assert_eq!(header, Rect { x: 0, y: 0, width: 120, height: 1 });
            assert_eq!(band, Some(Rect { x: 0, y: 1, width: 120, height: 2 }));
            assert_eq!(body, Rect { x: 0, y: 1, width: 120, height: 34 });
            assert_eq!(lane.height, 0);
            assert_eq!(footer, Rect { x: 0, y: 35, width: 120, height: 1 });
        }
        other => panic!("{other:?}"),
    }
    match frame_layout(120, 36, false, 0, 0, 0, 0, 1, Some(false), true) {
        FrameLayout::Split { body, band, .. } => {
            assert_eq!(band, Some(Rect { x: 0, y: 1, width: 120, height: 2 }));
            assert_eq!(body, Rect { x: 0, y: 3, width: 120, height: 32 });
        }
        other => panic!("{other:?}"),
    }
}

#[test]
fn other_views_get_the_lane_when_the_board_would_truncate() {
    match frame_layout(120, 14, false, 20, 5, 5, 0, 1, None, false) {
        FrameLayout::Split { lane, body, .. } => {
            assert_eq!(lane, Rect { x: 0, y: 12, width: 120, height: 1 });
            assert_eq!(body, Rect { x: 0, y: 1, width: 120, height: 11 });
        }
        other => panic!("{other:?}"),
    }
    match frame_layout(120, 14, true, 20, 5, 5, 0, 1, None, false) {
        FrameLayout::Split { lane, .. } => assert_eq!(lane.height, 0, "the board draws its own lane"),
        other => panic!("{other:?}"),
    }
}

#[test]
fn a_measured_view_keeps_its_key_bar_under_its_content() {
    let footer = Rect { x: 0, y: 35, width: 120, height: 1 };
    assert_eq!(footer_at(Some(10), 0, footer), Rect { x: 0, y: 11, width: 120, height: 1 });
    assert_eq!(footer_at(Some(10), 1, footer), footer, "a lane owns the bottom");
    assert_eq!(footer_at(Some(34), 0, footer), footer);
    assert_eq!(footer_at(None, 0, footer), footer);
}
