use swiftfetch::color::{hex_to_ansi, get_ansi_color_code, color_resolution_warning};

#[test]
fn hex_literal_resolves_to_truecolor() {
    assert_eq!(hex_to_ansi("#FF0000"), "\x1b[38;2;255;0;0m");
    assert_eq!(hex_to_ansi("#00ff7f"), "\x1b[38;2;0;255;127m");
}

#[test]
fn named_color_resolves_to_fixed_escape() {
    assert_eq!(hex_to_ansi("red"), "\x1b[31m");
    assert_eq!(hex_to_ansi("RED"), "\x1b[31m");
    assert_eq!(hex_to_ansi("bright_cyan"), "\x1b[96m");
}

#[test]
fn unknown_color_resolves_to_reset_with_diagnostic() {
    assert_eq!(hex_to_ansi("not-a-color"), "\x1b[0m");
    let warning = color_resolution_warning("not-a-color");
    assert!(warning.is_some());
    let text = warning.unwrap();
    assert!(text.starts_with("Unknown color 'not-a-color'"));
    assert!(text.contains("bright_magenta"));
    assert!(text.contains("#FF0000"));
}

#[test]
fn usable_colors_earn_no_diagnostic() {
    assert_eq!(color_resolution_warning("red"), None);
    assert_eq!(color_resolution_warning("#123abc"), None);
}

#[test]
fn aliases_map_to_their_escapes() {
    assert_eq!(get_ansi_color_code("grey"), Some("\x1b[90m".to_string()));
    assert_eq!(get_ansi_color_code("orange"), Some("\x1b[91m".to_string()));
    assert_eq!(get_ansi_color_code("purple"), Some("\x1b[35m".to_string()));
    assert_eq!(get_ansi_color_code("violet"), Some("\x1b[95m".to_string()));
    assert_eq!(get_ansi_color_code("default"), Some("\x1b[0m".to_string()));
    assert_eq!(get_ansi_color_code("#FF0000"), None);
}

#[test]
fn malformed_hex_literals_fall_back_to_reset() {
    assert_eq!(hex_to_ansi("#FF000"), "\x1b[0m");
    assert_eq!(hex_to_ansi("#GG0000"), "\x1b[0m");
    assert_eq!(hex_to_ansi("FF0000"), "\x1b[0m");
    // a sign is not a hexadecimal digit here
    assert_eq!(hex_to_ansi("#+10000"), "\x1b[0m");
}

#[test]
fn hex_digits_may_mix_case() {
    assert_eq!(hex_to_ansi("#FfA000"), "\x1b[38;2;255;160;0m");
}
