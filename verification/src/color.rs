//! Color resolution: fixed ANSI color names and aliases first, then
//! `#RRGGBB` truecolor literals, then the reset escape as a last resort.

use vstd::prelude::*;
use crate::strutil::{spec_lower, spec_dec, to_lower, str_eq, fmt_u64, push_char};

verus! {

/// The escape sequence a lower-cased ANSI color name stands for.
pub open spec fn spec_ansi_code(s: Seq<char>) -> Option<Seq<char>> {
    if s == "black"@ { Some("\u{1b}[30m"@) }
    else if s == "red"@ { Some("\u{1b}[31m"@) }
    else if s == "green"@ { Some("\u{1b}[32m"@) }
    else if s == "yellow"@ { Some("\u{1b}[33m"@) }
    else if s == "blue"@ { Some("\u{1b}[34m"@) }
    else if s == "magenta"@ { Some("\u{1b}[35m"@) }
    else if s == "cyan"@ { Some("\u{1b}[36m"@) }
    else if s == "white"@ { Some("\u{1b}[37m"@) }
    else if s == "bright_black"@ || s == "gray"@ || s == "grey"@ { Some("\u{1b}[90m"@) }
    else if s == "bright_red"@ { Some("\u{1b}[91m"@) }
    else if s == "bright_green"@ { Some("\u{1b}[92m"@) }
    else if s == "bright_yellow"@ { Some("\u{1b}[93m"@) }
    else if s == "bright_blue"@ { Some("\u{1b}[94m"@) }
    else if s == "bright_magenta"@ { Some("\u{1b}[95m"@) }
    else if s == "bright_cyan"@ { Some("\u{1b}[96m"@) }
    else if s == "bright_white"@ { Some("\u{1b}[97m"@) }
    else if s == "orange"@ { Some("\u{1b}[91m"@) }
    else if s == "purple"@ { Some("\u{1b}[35m"@) }
    else if s == "violet"@ { Some("\u{1b}[95m"@) }
    else if s == "reset"@ || s == "default"@ { Some("\u{1b}[0m"@) }
    else { None }
}

/// Resolve a fixed ANSI color name or alias, case-insensitively.
pub fn get_ansi_color_code(color_name: &str) -> (r: Option<String>)
    ensures
        match r {
            Some(v) => spec_ansi_code(spec_lower(color_name@)) == Some(v@),
            None => spec_ansi_code(spec_lower(color_name@)) is None,
        },
{
    let l = to_lower(color_name);
    let s = l.as_str();
    if str_eq(s, "black") { Some("\u{1b}[30m".to_owned()) }
    else if str_eq(s, "red") { Some("\u{1b}[31m".to_owned()) }
    else if str_eq(s, "green") { Some("\u{1b}[32m".to_owned()) }
    else if str_eq(s, "yellow") { Some("\u{1b}[33m".to_owned()) }
    else if str_eq(s, "blue") { Some("\u{1b}[34m".to_owned()) }
    else if str_eq(s, "magenta") { Some("\u{1b}[35m".to_owned()) }
    else if str_eq(s, "cyan") { Some("\u{1b}[36m".to_owned()) }
    else if str_eq(s, "white") { Some("\u{1b}[37m".to_owned()) }
    else if str_eq(s, "bright_black") || str_eq(s, "gray") || str_eq(s, "grey") {
        Some("\u{1b}[90m".to_owned())
    }
    else if str_eq(s, "bright_red") { Some("\u{1b}[91m".to_owned()) }
    else if str_eq(s, "bright_green") { Some("\u{1b}[92m".to_owned()) }
    else if str_eq(s, "bright_yellow") { Some("\u{1b}[93m".to_owned()) }
    else if str_eq(s, "bright_blue") { Some("\u{1b}[94m".to_owned()) }
    else if str_eq(s, "bright_magenta") { Some("\u{1b}[95m".to_owned()) }
    else if str_eq(s, "bright_cyan") { Some("\u{1b}[96m".to_owned()) }
    else if str_eq(s, "bright_white") { Some("\u{1b}[97m".to_owned()) }
    else if str_eq(s, "orange") { Some("\u{1b}[91m".to_owned()) }
    else if str_eq(s, "purple") { Some("\u{1b}[35m".to_owned()) }
    else if str_eq(s, "violet") { Some("\u{1b}[95m".to_owned()) }
    else if str_eq(s, "reset") || str_eq(s, "default") { Some("\u{1b}[0m".to_owned()) }
    else { None }
}

/// A hexadecimal digit.
pub open spec fn spec_is_hex(c: char) -> bool {
    (48 <= c as u32 && c as u32 <= 57) || (97 <= c as u32 && c as u32 <= 102)
        || (65 <= c as u32 && c as u32 <= 70)
}

/// The value of a hexadecimal digit (zero for anything else).
pub open spec fn spec_hex_val(c: char) -> nat {
    if 48 <= c as u32 && c as u32 <= 57 { (c as u32 - 48) as nat }
    else if 97 <= c as u32 && c as u32 <= 102 { (c as u32 - 87) as nat }
    else if 65 <= c as u32 && c as u32 <= 70 { (c as u32 - 55) as nat }
    else { 0 }
}

fn hex_val(c: char) -> (r: Option<u64>)
    ensures
        match r {
            Some(v) => spec_is_hex(c) && v == spec_hex_val(c) && v < 16,
            None => !spec_is_hex(c),
        },
{
    let u = c as u32;
    if 48 <= u && u <= 57 {
        Some((u - 48) as u64)
    } else if 97 <= u && u <= 102 {
        Some((u - 87) as u64)
    } else if 65 <= u && u <= 70 {
        Some((u - 55) as u64)
    } else {
        None
    }
}

/// A seven-character `#RRGGBB` literal made of hexadecimal digits.
pub open spec fn spec_is_hex_literal(s: Seq<char>) -> bool {
    s.len() == 7 && s[0] == '#' && spec_is_hex(s[1]) && spec_is_hex(s[2])
        && spec_is_hex(s[3]) && spec_is_hex(s[4]) && spec_is_hex(s[5]) && spec_is_hex(s[6])
}

/// The channel value of two hexadecimal digits.
pub open spec fn spec_hex_pair(hi: char, lo: char) -> nat {
    spec_hex_val(hi) * 16 + spec_hex_val(lo)
}

/// The 24-bit truecolor escape for the given channel values.
pub open spec fn spec_truecolor(r: nat, g: nat, b: nat) -> Seq<char> {
    "\u{1b}[38;2;"@ + spec_dec(r) + ";"@ + spec_dec(g) + ";"@ + spec_dec(b) + "m"@
}

/// What color resolution yields for a name or literal: a fixed name
/// first, then a `#RRGGBB` literal, then the reset escape.
pub open spec fn spec_hex_to_ansi(s: Seq<char>) -> Seq<char> {
    match spec_ansi_code(spec_lower(s)) {
        Some(code) => code,
        None => {
            if spec_is_hex_literal(s) {
                spec_truecolor(spec_hex_pair(s[1], s[2]), spec_hex_pair(s[3], s[4]),
                    spec_hex_pair(s[5], s[6]))
            } else {
                "\u{1b}[0m"@
            }
        },
    }
}

/// Resolve a color name or `#RRGGBB` literal to its escape sequence.
pub fn hex_to_ansi(color: &str) -> (r: String)
    ensures
        r@ == spec_hex_to_ansi(color@),
{
    match get_ansi_color_code(color) {
        Some(code) => code,
        None => {
            let n = color.unicode_len();
            if n == 7 && color.get_char(0) == '#' {
                let d1 = hex_val(color.get_char(1));
                let d2 = hex_val(color.get_char(2));
                let d3 = hex_val(color.get_char(3));
                let d4 = hex_val(color.get_char(4));
                let d5 = hex_val(color.get_char(5));
                let d6 = hex_val(color.get_char(6));
                match (d1, d2, d3, d4, d5, d6) {
                    (Some(a), Some(b), Some(c), Some(d), Some(e), Some(f)) => {
                        let mut out = String::new();
                        out.append("\u{1b}[38;2;");
                        let rs = fmt_u64(a * 16 + b);
                        out.append(rs.as_str());
                        out.append(";");
                        let gs = fmt_u64(c * 16 + d);
                        out.append(gs.as_str());
                        out.append(";");
                        let bs = fmt_u64(e * 16 + f);
                        out.append(bs.as_str());
                        out.append("m");
                        proof {
                            assert(out@ =~= spec_truecolor(
                                spec_hex_pair(color@[1], color@[2]),
                                spec_hex_pair(color@[3], color@[4]),
                                spec_hex_pair(color@[5], color@[6])));
                        }
                        out
                    },
                    _ => "\u{1b}[0m".to_owned(),
                }
            } else {
                "\u{1b}[0m".to_owned()
            }
        },
    }
}

/// Whether resolution of this name or literal falls through to the reset
/// escape: neither a fixed name nor a hexadecimal literal.
pub open spec fn spec_color_unknown(s: Seq<char>) -> bool {
    spec_ansi_code(spec_lower(s)) is None && !spec_is_hex_literal(s)
}

/// The diagnostic shown for an unrecognised color, listing what is valid.
pub open spec fn spec_color_warning(s: Seq<char>) -> Seq<char> {
    "Unknown color '"@ + s + "'. Available colors:\n"@
        + "  Standard: black, red, green, yellow, blue, magenta, cyan, white\n"@
        + "  Bright:   bright_black, bright_red, bright_green, bright_yellow, bright_blue, bright_magenta, bright_cyan, bright_white\n"@
        + "  Aliases:  gray/grey, orange, purple, violet, reset/default\n"@
        + "  Or use hex colors like #FF0000"@
}

/// The diagnostic an unresolvable color earns; nothing for a usable one.
pub fn color_resolution_warning(color: &str) -> (r: Option<String>)
    ensures
        match r {
            Some(w) => spec_color_unknown(color@) && w@ == spec_color_warning(color@),
            None => !spec_color_unknown(color@),
        },
{
    match get_ansi_color_code(color) {
        Some(_) => None,
        None => {
            let n = color.unicode_len();
            let is_hex_lit = if n == 7 && color.get_char(0) == '#' {
                let d1 = hex_val(color.get_char(1));
                let d2 = hex_val(color.get_char(2));
                let d3 = hex_val(color.get_char(3));
                let d4 = hex_val(color.get_char(4));
                let d5 = hex_val(color.get_char(5));
                let d6 = hex_val(color.get_char(6));
                match (d1, d2, d3, d4, d5, d6) {
                    (Some(_), Some(_), Some(_), Some(_), Some(_), Some(_)) => true,
                    _ => false,
                }
            } else {
                false
            };
            if is_hex_lit {
                None
            } else {
                let mut w = String::new();
                w.append("Unknown color '");
                w.append(color);
                w.append("'. Available colors:\n");
                w.append("  Standard: black, red, green, yellow, blue, magenta, cyan, white\n");
                w.append("  Bright:   bright_black, bright_red, bright_green, bright_yellow, bright_blue, bright_magenta, bright_cyan, bright_white\n");
                w.append("  Aliases:  gray/grey, orange, purple, violet, reset/default\n");
                w.append("  Or use hex colors like #FF0000");
                proof {
                    assert(w@ =~= spec_color_warning(color@));
                }
                Some(w)
            }
        },
    }
}

} // verus!
