use kenjutu::color::css_hex_to_color;
use kenjutu::services::highlight::color_to_hex;
use kenjutu::style::Color;

#[test]
fn parses_valid_hex() {
    assert_eq!(css_hex_to_color("#ff0000"), Some(Color::Rgb(255, 0, 0)));
    assert_eq!(css_hex_to_color("#00ff00"), Some(Color::Rgb(0, 255, 0)));
    assert_eq!(css_hex_to_color("#0000ff"), Some(Color::Rgb(0, 0, 255)));
}

#[test]
fn returns_none_for_invalid() {
    assert_eq!(css_hex_to_color("not a color"), None);
    assert_eq!(css_hex_to_color("#fff"), None);
    assert_eq!(css_hex_to_color(""), None);
}

#[test]
fn hex_edge_cases() {
    assert_eq!(css_hex_to_color("#CF222e"), Some(Color::Rgb(0xcf, 0x22, 0x2e)));
    assert_eq!(css_hex_to_color("#+f+f+f"), Some(Color::Rgb(15, 15, 15)));
    assert_eq!(css_hex_to_color("ff0000"), None);
    assert_eq!(css_hex_to_color("#gg0000"), None);
    assert_eq!(css_hex_to_color("#ff00é"), None);
}

#[test]
fn hex_written_then_read_back() {
    for (r, g, b) in [(0u8, 0u8, 0u8), (255, 128, 7), (0xcf, 0x22, 0x2e)] {
        assert_eq!(css_hex_to_color(&color_to_hex(r, g, b)), Some(Color::Rgb(r, g, b)));
    }
}
