use bntm::geometry::{div_toward_zero, integer_sqrt, Rect, Vec2};

#[test]
fn integer_sqrt_rounds_down() {
    assert_eq!(integer_sqrt(0), 0);
    assert_eq!(integer_sqrt(1), 1);
    assert_eq!(integer_sqrt(8), 2);
    assert_eq!(integer_sqrt(9), 3);
    assert_eq!(integer_sqrt(5_000_000_000), 70_710);
    assert_eq!(integer_sqrt(u128::MAX), u64::MAX);
}

#[test]
fn division_rounds_toward_zero() {
    assert_eq!(div_toward_zero(7, 2), 3);
    assert_eq!(div_toward_zero(-7, 2), -3);
    assert_eq!(div_toward_zero(-1, 1000), 0);
}

#[test]
fn touching_is_not_overlapping() {
    let a = Rect::new(0, 0, 10, 10);
    assert!(!a.overlaps(&Rect::new(10, 0, 10, 10)));
    assert!(!a.overlaps(&Rect::new(0, 10, 10, 10)));
    assert!(!a.overlaps(&Rect::new(-10, -10, 10, 10)));
    assert!(a.overlaps(&Rect::new(9, 9, 10, 10)));
    assert!(a.overlaps(&Rect::new(2, 2, 1, 1)));
    assert!(Rect::new(9, 9, 10, 10).overlaps(&a));
}

#[test]
fn offset_moves_rectangle() {
    let a = Rect::new(1, 2, 3, 4).offset(Vec2::new(-5, 6));
    assert_eq!(a, Rect::new(-4, 8, 3, 4));
    assert_eq!(a.left(), -4);
    assert_eq!(a.right(), -1);
    assert_eq!(a.top(), 8);
    assert_eq!(a.bottom(), 12);
}

#[test]
fn validity_of_rectangles() {
    assert!(Rect::new(0, 0, 10, 10).valid());
    assert!(Rect::new(0, 0, 0, 0).valid());
    assert!(!Rect::new(0, 0, -1, 10).valid());
    assert!(!Rect::new(i64::MAX, 0, 1, 1).valid());
}
