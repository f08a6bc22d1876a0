use lamparray::Rgb;

#[test]
fn from_hex_trims_whitespace_and_one_hash() {
    assert_eq!(Rgb::from_hex("  #00e5ff\n"), Some(Rgb::new(0, 0xE5, 0xFF)));
    assert_eq!(Rgb::from_hex("\u{3000}AbCdEf\t"), Some(Rgb::new(0xAB, 0xCD, 0xEF)));
    assert_eq!(Rgb::from_hex("##102030"), None);
    assert_eq!(Rgb::from_hex("# 102030"), None);
}

#[test]
fn from_hex_wants_six_hex_digits() {
    assert_eq!(Rgb::from_hex("+f+f+f"), None);
    assert_eq!(Rgb::from_hex("-f0000"), None);
    assert_eq!(Rgb::from_hex("1234567"), None);
    assert_eq!(Rgb::from_hex("12345"), None);
    assert_eq!(Rgb::from_hex(""), None);
    assert_eq!(Rgb::from_hex("#"), None);
    assert_eq!(Rgb::from_hex("12 456"), None);
    assert_eq!(Rgb::from_hex("12345g"), None);
}

#[test]
fn from_hex_rejects_non_ascii() {
    assert_eq!(Rgb::from_hex("\u{e9}\u{e9}\u{e9}"), None);
    assert_eq!(Rgb::from_hex("ab\u{e9}cd"), None);
    assert_eq!(Rgb::from_hex("a\u{e9}bcd"), None);
    assert_eq!(Rgb::from_hex("zza\u{e9}b"), None);
    assert_eq!(Rgb::from_hex("\u{ff11}23456"), None);
}

#[test]
fn scaled_rounds_down() {
    assert_eq!(Rgb::new(255, 128, 1).scaled(128), Rgb::new(128, 64, 0));
    assert_eq!(Rgb::new(10, 20, 30).scaled(255), Rgb::new(10, 20, 30));
    assert_eq!(Rgb::new(254, 3, 77).scaled(1), Rgb::new(0, 0, 0));
    assert_eq!(Rgb::new(255, 255, 255).scaled(254), Rgb::new(254, 254, 254));
}

#[test]
fn black_and_white() {
    assert_eq!(Rgb::black(), Rgb::new(0, 0, 0));
    assert_eq!(Rgb::white(), Rgb::new(255, 255, 255));
}
