use ratatui_tools::layout::{Position, Rect};

#[test]
fn positions_row_major() {
    let r = Rect::new(1, 2, 2, 2);
    let p: Vec<(u16, u16)> = r.positions().iter().map(|p| (p.x, p.y)).collect();
    assert_eq!(p, vec![(1, 2), (2, 2), (1, 3), (2, 3)]);
}

#[test]
fn positions_empty_rect() {
    assert!(Rect::new(3, 3, 0, 4).positions().is_empty());
    assert!(Rect::new(3, 3, 4, 0).positions().is_empty());
}

#[test]
fn new_clamps_to_u16() {
    let r = Rect::new(u16::MAX - 1, 0, 10, 3);
    assert_eq!(r.width, 1);
    assert_eq!(r.right(), u16::MAX);
    assert_eq!(Rect::new(0, u16::MAX, 1, 1).height, 0);
}

#[test]
fn contains_border_and_outside() {
    let r = Rect::new(1, 2, 3, 4);
    assert!(r.contains(Position::new(1, 2)));
    assert!(r.contains(Position::new(3, 5)));
    assert!(!r.contains(Position::new(4, 2)));
    assert!(!r.contains(Position::new(1, 6)));
    assert!(!r.contains(Position::new(0, 3)));
}

#[test]
fn matches_ratatui_rect() {
    for (x, y, w, h) in [(0u16, 0u16, 3u16, 2u16), (5, 1, 0, 2), (65534, 3, 4, 1)] {
        let ours = Rect { x, y, width: w, height: h };
        let theirs = ratatui_core::layout::Rect { x, y, width: w, height: h };
        let a: Vec<(u16, u16)> = ours.positions().iter().map(|p| (p.x, p.y)).collect();
        let b: Vec<(u16, u16)> = theirs.positions().map(|p| (p.x, p.y)).collect();
        assert_eq!(a, b);
        assert_eq!(ours.right(), theirs.right());
        assert_eq!(ours.bottom(), theirs.bottom());
    }
}
