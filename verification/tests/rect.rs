use gameday::rect::{hit_at, Rect};

#[test]
fn a_rect_holds_its_cells_and_nothing_past_its_edges() {
    let r = Rect { x: 2, y: 1, width: 3, height: 2 };
    assert!(r.contains(2, 1));
    assert!(r.contains(4, 2));
    assert!(!r.contains(5, 1), "the right edge is outside");
    assert!(!r.contains(2, 3), "the bottom edge is outside");
    assert!(!r.contains(1, 1));
    assert_eq!((r.right(), r.bottom()), (5, 3));
    let edge = Rect { x: 65_534, y: 0, width: 5, height: 1 };
    assert!(edge.contains(65_534, 0));
    assert!(!edge.contains(65_535, 0), "the far edge stops at the last cell");
}

#[test]
fn the_last_zone_drawn_takes_the_click() {
    let zones = vec![
        (Rect { x: 0, y: 0, width: 80, height: 24 }, 1u8),
        (Rect { x: 10, y: 5, width: 10, height: 2 }, 2u8),
    ];
    assert_eq!(hit_at(&zones, 12, 6), Some(2));
    assert_eq!(hit_at(&zones, 0, 0), Some(1));
    assert_eq!(hit_at(&zones, 90, 0), None);
    assert_eq!(hit_at(&Vec::<(Rect, u8)>::new(), 0, 0), None);
}
