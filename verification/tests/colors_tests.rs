use sonate::colors::{hex_color_splits_char, named_color, named_color_from_table, parse_hex_color};
use sonate::style::Rgba;

fn rgba(r: u8, g: u8, b: u8, a: u8) -> Rgba {
    Rgba { r, g, b, a }
}

#[test]
fn hex_three_six_eight_digits() {
    assert_eq!(parse_hex_color("#f00"), Ok(rgba(255, 0, 0, 255)));
    assert_eq!(parse_hex_color("#ff0000"), Ok(rgba(255, 0, 0, 255)));
    assert_eq!(parse_hex_color("#ff000080"), Ok(rgba(255, 0, 0, 128)));
    assert_eq!(parse_hex_color("0056b3"), Ok(rgba(0, 0x56, 0xb3, 255)));
    assert_eq!(parse_hex_color("##AbC"), Ok(rgba(0xaa, 0xbb, 0xcc, 255)));
}

#[test]
fn hex_errors() {
    assert_eq!(parse_hex_color("#ff00"), Err("Invalid hex color length"));
    assert_eq!(parse_hex_color("#"), Err("Invalid hex color length"));
    assert_eq!(parse_hex_color("#ggg"), Err("Invalid hex digit"));
    assert_eq!(parse_hex_color("#12345z"), Err("Invalid hex digit"));
    assert_eq!(parse_hex_color("#+f+"), Err("Invalid hex digit"));
}

#[test]
fn hex_plus_sign_before_single_digit() {
    // `u8::from_str_radix("+f", 16)` is 15.
    assert_eq!(parse_hex_color("#+f+f+f"), Ok(rgba(15, 15, 15, 255)));
    assert_eq!(u8::from_str_radix("+f", 16), Ok(15));
}

#[test]
fn hex_non_ascii() {
    // Six bytes made of three two-byte characters: no cut inside a character.
    assert!(!hex_color_splits_char("#ééé"));
    assert_eq!(parse_hex_color("#ééé"), Err("Invalid hex digit"));
    // A cut would fall inside a character.
    assert!(hex_color_splits_char("#aé"));
    assert!(!hex_color_splits_char("#zé"));
}

#[test]
fn named_colors() {
    assert_eq!(named_color("AliceBlue"), Some(rgba(240, 248, 255, 255)));
    assert_eq!(named_color("rebeccapurple"), Some(rgba(102, 51, 153, 255)));
    assert_eq!(named_color("gray"), Some(rgba(128, 128, 128, 255)));
    assert_eq!(named_color("grey"), named_color("gray"));
    assert_eq!(named_color("transparent"), Some(rgba(0, 0, 0, 0)));
    assert_eq!(named_color("TRANSPARENT"), Some(rgba(0, 0, 0, 0)));
    assert_eq!(named_color("red"), Some(rgba(255, 0, 0, 255)));
    assert_eq!(named_color("notacolor"), None);
}

#[test]
fn named_color_from_table_values() {
    assert_eq!(named_color_from_table("x", Some((1, 2, 3))), Some(rgba(1, 2, 3, 255)));
    assert_eq!(named_color_from_table("x", None), None);
    assert_eq!(named_color_from_table("Transparent", Some((1, 2, 3))), Some(rgba(0, 0, 0, 0)));
}

#[test]
fn hex_round_trip() {
    for &(r, g, b, a) in &[(0u8, 0u8, 0u8, 0u8), (255, 128, 7, 200), (18, 52, 86, 120), (171, 205, 239, 1)] {
        let c = Rgba { r, g, b, a };
        assert_eq!(parse_hex_color(&format!("#{:02x}{:02x}{:02x}{:02x}", r, g, b, a)), Ok(c));
        assert_eq!(parse_hex_color(&format!("{:02X}{:02X}{:02X}", r, g, b)), Ok(Rgba { r, g, b, a: 255 }));
        assert_eq!(parse_hex_color(&format!("##{:02X}{:02X}{:02X}{:02X}", r, g, b, a)), Ok(c));
    }
}
