//! The hyphenated text form of ids.

use blkcapt::ids::Uuid;

#[test]
fn id_renders_lowercase_hyphenated() {
    let u = Uuid::from_value(0x123e4567e89b12d3a456426614174000);
    assert_eq!(u.to_text(), "123e4567-e89b-12d3-a456-426614174000");
}

#[test]
fn id_text_parses_back_to_its_value() {
    let u = Uuid::from_value(0xfedcba9876543210fedcba9876543210);
    let text = u.to_text();
    assert_eq!(Uuid::parse_text(&text), Some(u));
}

#[test]
fn the_nil_id_is_all_zeros() {
    assert_eq!(Uuid::nil().to_text(), "00000000-0000-0000-0000-000000000000");
}

#[test]
fn bad_id_texts_are_rejected() {
    assert_eq!(Uuid::parse_text("123e4567e89b12d3a456426614174000"), None); // no hyphens
    assert_eq!(Uuid::parse_text("123E4567-E89B-12D3-A456-426614174000"), None); // uppercase
    assert_eq!(Uuid::parse_text("123e4567-e89b-12d3-a456-42661417400"), None); // short
    assert_eq!(Uuid::parse_text("123e4567-e89b-12d3-a456-42661417400g"), None); // bad digit
}
