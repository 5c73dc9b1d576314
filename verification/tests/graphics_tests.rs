use platformer::graphics::{Color, DrawMode, Flip, LoadError, Pattern, Rect, Solid};

#[test]
fn solid_color_constructors() {
    assert_eq!(Color::black(), Color::Solid(Solid::Black));
    assert_eq!(Color::white(), Color::Solid(Solid::White));
    assert_eq!(Color::clear(), Color::Solid(Solid::Clear));
    assert_eq!(Color::xor(), Color::Solid(Solid::Xor));
}

#[test]
fn pattern_from_black_is_fully_opaque() {
    let checker = [0xAA, 0x55, 0xAA, 0x55, 0xAA, 0x55, 0xAA, 0x55];
    let pattern = Pattern::from_black(checker);
    assert_eq!(&pattern.0[0..8], &checker);
    assert_eq!(&pattern.0[8..16], &[0xFF; 8]);
}

#[test]
fn pattern_from_black_and_mask_keeps_both() {
    let black = [1, 2, 3, 4, 5, 6, 7, 8];
    let mask = [9, 10, 11, 12, 13, 14, 15, 16];
    let pattern = Pattern::from_black_and_mask(black, mask);
    assert_eq!(&pattern.0[0..8], &black);
    assert_eq!(&pattern.0[8..16], &mask);
}

#[test]
fn flip_new_covers_all_mirrorings() {
    assert_eq!(Flip::new(false, false), Flip::Unflipped);
    assert_eq!(Flip::new(true, false), Flip::FlippedX);
    assert_eq!(Flip::new(false, true), Flip::FlippedY);
    assert_eq!(Flip::new(true, true), Flip::FlippedXY);
    assert_eq!(Flip::default(), Flip::Unflipped);
}

#[test]
fn draw_mode_defaults_to_copy() {
    assert_eq!(DrawMode::default(), DrawMode::Copy);
}

#[test]
fn rect_new_keeps_corner_and_size() {
    let rect = Rect::new([3, 4], [10, 20]);
    assert_eq!(rect.top_left, [3, 4]);
    assert_eq!(rect.size, [10, 20]);
}

#[test]
fn load_error_messages() {
    assert_eq!(LoadError::InvalidPath.message(), "Invalid path");
    assert_eq!(LoadError::NotFound.message(), "File not found");
}
