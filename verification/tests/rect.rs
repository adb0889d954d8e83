use tui_core::rect::{Position, Rect};

#[test]
fn new_keeps_the_far_edges_in_range() {
    assert_eq!(Rect::new(1, 2, 3, 4), Rect { x: 1, y: 2, width: 3, height: 4 });
    assert_eq!(
        Rect::new(65530, 65535, 10, 10),
        Rect { x: 65530, y: 65535, width: 5, height: 0 }
    );
}

#[test]
fn edges_area_and_emptiness() {
    let r = Rect::new(1, 2, 3, 4);
    assert_eq!((r.left(), r.right(), r.top(), r.bottom()), (1, 4, 2, 6));
    assert_eq!(r.area(), 12);
    assert!(!r.is_empty());
    assert!(Rect::new(1, 2, 0, 4).is_empty());
    assert!(Rect::new(1, 2, 3, 0).is_empty());
    assert_eq!(Rect { x: 65535, y: 0, width: 65535, height: 65535 }.right(), 65535);
    assert_eq!(Rect { x: 0, y: 0, width: 65535, height: 65535 }.area(), 65535 * 65535);
}

#[test]
fn contains_the_cells_inside() {
    let r = Rect::new(1, 2, 3, 4);
    assert!(r.contains(Position { x: 1, y: 2 }));
    assert!(r.contains(Position { x: 3, y: 5 }));
    assert!(!r.contains(Position { x: 4, y: 5 }));
    assert!(!r.contains(Position { x: 3, y: 6 }));
    assert!(!r.contains(Position { x: 0, y: 2 }));
}

#[test]
fn intersection_of_two_rectangles() {
    let a = Rect::new(0, 0, 10, 10);
    let b = Rect::new(5, 7, 10, 10);
    assert_eq!(a.intersection(&b), Rect { x: 5, y: 7, width: 5, height: 3 });
    assert!(a.intersects(&b));
    let c = Rect::new(10, 0, 5, 5);
    assert!(!a.intersects(&c));
    assert!(a.intersection(&c).is_empty());
    assert!(!a.intersects(&Rect::new(2, 2, 0, 3)));
}
