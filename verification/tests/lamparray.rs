use lamparray::descriptor::USAGE_PAGE_LIGHTING;
use lamparray::{contains, parse_hid_id, Rgb};

#[test]
fn hex_round_trip() {
    assert_eq!(Rgb::from_hex("#00E5FF"), Some(Rgb::new(0, 0xE5, 0xFF)));
    assert_eq!(Rgb::from_hex("ffffff"), Some(Rgb::white()));
    assert_eq!(Rgb::from_hex("nope"), None);
    assert_eq!(Rgb::from_hex("12345"), None);
}

#[test]
fn scaling() {
    assert_eq!(Rgb::white().scaled(0), Rgb::black());
    assert_eq!(Rgb::white().scaled(255), Rgb::white());
    assert_eq!(Rgb::new(200, 100, 0).scaled(128).r, 100);
}

#[test]
fn subslice_search() {
    assert!(contains(&[1, 2, 0x05, 0x59, 9], &USAGE_PAGE_LIGHTING));
    assert!(!contains(&[1, 2, 3], &USAGE_PAGE_LIGHTING));
}

#[test]
fn hid_id_parsing() {
    assert_eq!(
        parse_hid_id("0018:00000B05:000019B6"),
        Some((0x0B05, 0x19B6))
    );
    assert_eq!(parse_hid_id("garbage"), None);
}
