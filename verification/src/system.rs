//! Parsers and decision rules for the system-identity facts: the
//! `os-release`, version, uptime and hostname files, the machine's age,
//! and the environment-derived session facts.
//!
//! Every function here is a pure function of the text or values handed in;
//! reading the files, environment and process table is the caller's part.

use vstd::prelude::*;
use crate::error::SwiftfetchError;
use crate::strutil::{
    spec_trim, spec_find_char, spec_starts_with, spec_lower, spec_capitalized,
    spec_nth_token, spec_all_digits, spec_dec_val, spec_dec_i64, spec_replace_all,
    spec_basename, str_trim, str_starts_with, find_char, nth_token, parse_u64,
    to_lower, str_eq, str_replace_all, str_basename, split_lines, spec_lines,
    fmt_i64,
};
use crate::parsing::spec_after_colon;

verus! {

/// The first `Some` that `f` yields on a line, scanning top to bottom.
pub open spec fn spec_first_line_hit(
    ls: Seq<Seq<char>>,
    f: spec_fn(Seq<char>) -> Option<Seq<char>>,
) -> Option<Seq<char>>
    decreases ls.len(),
{
    if ls.len() == 0 {
        None
    } else {
        match f(ls[0]) {
            Some(v) => Some(v),
            None => spec_first_line_hit(ls.subrange(1, ls.len() as int), f),
        }
    }
}

proof fn lemma_first_line_hit_skip(
    ls: Seq<Seq<char>>,
    f: spec_fn(Seq<char>) -> Option<Seq<char>>,
    i: int,
)
    requires
        0 <= i <= ls.len(),
        forall|j: int| 0 <= j < i ==> f(ls[j]) is None,
    ensures
        spec_first_line_hit(ls, f) == spec_first_line_hit(
            ls.subrange(i, ls.len() as int), f),
    decreases i,
{
    if i == 0 {
        assert(ls.subrange(0, ls.len() as int) =~= ls);
    } else {
        assert(ls.subrange(1, ls.len() as int).subrange(i - 1, ls.len() - 1)
            =~= ls.subrange(i, ls.len() as int));
        lemma_first_line_hit_skip(ls.subrange(1, ls.len() as int), f, i - 1);
    }
}

/// Drop every leading and trailing double-quote character.
pub open spec fn spec_trim_quote_start(s: Seq<char>) -> Seq<char>
    decreases s.len(),
{
    if s.len() > 0 && s[0] == '"' {
        spec_trim_quote_start(s.subrange(1, s.len() as int))
    } else {
        s
    }
}

/// Drop trailing double-quote characters.
pub open spec fn spec_trim_quote_end(s: Seq<char>) -> Seq<char>
    decreases s.len(),
{
    if s.len() > 0 && s[s.len() - 1] == '"' {
        spec_trim_quote_end(s.subrange(0, s.len() - 1))
    } else {
        s
    }
}

/// What `trim_matches('"')` leaves: quotes stripped from both ends.
pub open spec fn spec_trim_quotes(s: Seq<char>) -> Seq<char> {
    spec_trim_quote_end(spec_trim_quote_start(s))
}

proof fn lemma_trim_quote_start_subrange(s: Seq<char>, i: int)
    requires
        0 <= i <= s.len(),
        forall|j: int| 0 <= j < i ==> s[j] == '"',
    ensures
        spec_trim_quote_start(s) == spec_trim_quote_start(s.subrange(i, s.len() as int)),
    decreases i,
{
    if i == 0 {
        assert(s.subrange(0, s.len() as int) =~= s);
    } else {
        assert(s.subrange(1, s.len() as int).subrange(i - 1, s.len() - 1)
            =~= s.subrange(i, s.len() as int));
        lemma_trim_quote_start_subrange(s.subrange(1, s.len() as int), i - 1);
    }
}

proof fn lemma_trim_quote_end_subrange(s: Seq<char>, i: int)
    requires
        0 <= i <= s.len(),
        forall|j: int| i <= j < s.len() ==> s[j] == '"',
    ensures
        spec_trim_quote_end(s) == spec_trim_quote_end(s.subrange(0, i)),
    decreases s.len() - i,
{
    if i == s.len() {
        assert(s.subrange(0, s.len() as int) =~= s);
    } else {
        assert(s.subrange(0, s.len() - 1).subrange(0, i) =~= s.subrange(0, i));
        lemma_trim_quote_end_subrange(s.subrange(0, s.len() - 1), i);
    }
}

/// Strip double quotes from both ends of `s`.
pub fn trim_quotes<'a>(s: &'a str) -> (r: &'a str)
    ensures
        r@ == spec_trim_quotes(s@),
{
    let n = s.unicode_len();
    let mut a: usize = 0;
    while a < n && s.get_char(a) == '"'
        invariant
            n == s@.len(),
            a <= n,
            forall|j: int| 0 <= j < a ==> s@[j] == '"',
        decreases n - a,
    {
        a = a + 1;
    }
    proof {
        lemma_trim_quote_start_subrange(s@, a as int);
    }
    let mut b: usize = n;
    while b > a && s.get_char(b - 1) == '"'
        invariant
            n == s@.len(),
            a <= b <= n,
            forall|j: int| b <= j < n ==> s@[j] == '"',
        decreases b,
    {
        b = b - 1;
    }
    let ghost t = s@.subrange(a as int, n as int);
    proof {
        if b == a {
            assert(forall|j: int| 0 <= j < t.len() ==> t[j] == '"');
            lemma_trim_quote_end_subrange(t, 0);
            assert(t.subrange(0, 0) =~= s@.subrange(a as int, b as int));
        } else {
            assert(forall|j: int| b - a <= j < t.len() ==> t[j] == '"');
            lemma_trim_quote_end_subrange(t, b - a);
            assert(t.subrange(0, b - a) =~= s@.subrange(a as int, b as int));
        }
    }
    s.substring_char(a, b)
}

/// What one `os-release` line contributes: for a `PRETTY_NAME` line with
/// an equals sign, the value trimmed and unquoted.
pub open spec fn spec_pretty_name_line(l: Seq<char>) -> Option<Seq<char>> {
    if spec_starts_with(l, "PRETTY_NAME"@) && spec_find_char(l, '=') < l.len() {
        Some(spec_trim_quotes(spec_trim(
            l.subrange(spec_find_char(l, '=') as int + 1, l.len() as int))))
    } else {
        None
    }
}

/// The OS display name in an `os-release` file.
pub open spec fn spec_os_name(content: Seq<char>) -> Option<Seq<char>> {
    spec_first_line_hit(spec_lines(content), |l: Seq<char>| spec_pretty_name_line(l))
}

/// Extract the `PRETTY_NAME` value from `os-release` content.
pub fn read_os_name(content: &str) -> (r: Result<String, SwiftfetchError>)
    ensures
        match r {
            Ok(v) => spec_os_name(content@) == Some(v@),
            Err(e) => spec_os_name(content@) is None
                && (e matches SwiftfetchError::Detection(m) && m@ == "OS name not found"@),
        },
{
    let ghost f = |l: Seq<char>| spec_pretty_name_line(l);
    let lines = split_lines(content);
    let n = lines.len();
    let mut i: usize = 0;
    while i < n
        invariant
            n == lines@.len(),
            i <= n,
            lines@.len() == spec_lines(content@).len(),
            forall|k: int| 0 <= k < n ==> lines@[k]@ == spec_lines(content@)[k],
            forall|j: int| 0 <= j < i ==> f(spec_lines(content@)[j]) is None,
        decreases n - i,
    {
        let line = &lines[i];
        if str_starts_with(line.as_str(), "PRETTY_NAME") {
            let nl = line.as_str().unicode_len();
            match find_char(line.as_str(), '=') {
                Some(eq) => {
                    let value = line.as_str().substring_char(eq + 1, nl);
                    let trimmed = trim_quotes(str_trim(value));
                    let mut owned = String::new();
                    owned.append(trimmed);
                    proof {
                        assert(f(spec_lines(content@)[i as int]) == Some(owned@));
                        lemma_first_line_hit_skip(spec_lines(content@), f, i as int);
                    }
                    return Ok(owned);
                },
                None => {
                    assert(f(spec_lines(content@)[i as int]) is None);
                },
            }
        } else {
            assert(f(spec_lines(content@)[i as int]) is None);
        }
        i = i + 1;
    }
    proof {
        lemma_first_line_hit_skip(spec_lines(content@), f, n as int);
    }
    Err(SwiftfetchError::Detection("OS name not found".to_owned()))
}

/// The kernel release: the third whitespace-separated token of the
/// version line.
pub fn read_kernel_version(content: &str) -> (r: Result<String, SwiftfetchError>)
    ensures
        match r {
            Ok(v) => spec_nth_token(content@, 2) == Some(v@),
            Err(e) => spec_nth_token(content@, 2) is None
                && (e matches SwiftfetchError::Detection(m)
                    && m@ == "Kernel version not found"@),
        },
{
    match nth_token(content, 2) {
        Some(t) => {
            let mut owned = String::new();
            owned.append(t);
            Ok(owned)
        },
        None => Err(SwiftfetchError::Detection("Kernel version not found".to_owned())),
    }
}

/// What one `cpuinfo` line contributes: for a `model name` line, the text
/// after the colon, or a fixed fallback when that is empty.
pub open spec fn spec_cpu_line(l: Seq<char>) -> Option<Seq<char>> {
    if spec_starts_with(l, "model name"@) {
        match spec_after_colon(l) {
            Some(v) => Some(v),
            None => Some("Unknown CPU"@),
        }
    } else {
        None
    }
}

/// The CPU brand string in `cpuinfo` content.
pub open spec fn spec_cpu_brand(content: Seq<char>) -> Option<Seq<char>> {
    spec_first_line_hit(spec_lines(content), |l: Seq<char>| spec_cpu_line(l))
}

/// Extract the first `model name` value from `cpuinfo` content.
pub fn read_cpu_info(content: &str) -> (r: Result<String, SwiftfetchError>)
    ensures
        match r {
            Ok(v) => spec_cpu_brand(content@) == Some(v@),
            Err(e) => spec_cpu_brand(content@) is None
                && (e matches SwiftfetchError::Detection(m)
                    && m@ == "CPU info not found"@),
        },
{
    let ghost f = |l: Seq<char>| spec_cpu_line(l);
    let lines = split_lines(content);
    let n = lines.len();
    let mut i: usize = 0;
    while i < n
        invariant
            n == lines@.len(),
            i <= n,
            lines@.len() == spec_lines(content@).len(),
            forall|k: int| 0 <= k < n ==> lines@[k]@ == spec_lines(content@)[k],
            forall|j: int| 0 <= j < i ==> f(spec_lines(content@)[j]) is None,
        decreases n - i,
    {
        let line = &lines[i];
        if str_starts_with(line.as_str(), "model name") {
            let got = match crate::parsing::extract_after_colon(line.as_str()) {
                Some(v) => v,
                None => "Unknown CPU".to_owned(),
            };
            proof {
                assert(f(spec_lines(content@)[i as int]) == Some(got@));
                lemma_first_line_hit_skip(spec_lines(content@), f, i as int);
            }
            return Ok(got);
        }
        assert(f(spec_lines(content@)[i as int]) is None);
        i = i + 1;
    }
    proof {
        lemma_first_line_hit_skip(spec_lines(content@), f, n as int);
    }
    Err(SwiftfetchError::Detection("CPU info not found".to_owned()))
}

/// The uptime in whole seconds encoded by the first token of the uptime
/// file: the leading-digit value of a `digits[.digits]` token, zero when
/// the token is missing or has any other shape, saturated at `u64::MAX`.
pub open spec fn spec_uptime_seconds(content: Seq<char>) -> nat {
    match spec_nth_token(content, 0) {
        None => 0,
        Some(tok) => {
            let dot = spec_find_char(tok, '.');
            let ip = tok.subrange(0, dot as int);
            let fp = if dot < tok.len() {
                tok.subrange(dot as int + 1, tok.len() as int)
            } else {
                Seq::empty()
            };
            if (ip.len() > 0 || fp.len() > 0) && spec_all_digits(ip) && spec_all_digits(fp) {
                if spec_dec_val(ip) > u64::MAX {
                    u64::MAX as nat
                } else {
                    spec_dec_val(ip)
                }
            } else {
                0
            }
        },
    }
}

fn all_digits_check(s: &str) -> (r: bool)
    ensures
        r == spec_all_digits(s@),
{
    let n = s.unicode_len();
    let mut i: usize = 0;
    while i < n
        invariant
            n == s@.len(),
            i <= n,
            forall|j: int| 0 <= j < i ==> crate::strutil::is_digit(s@[j]),
        decreases n - i,
    {
        let u = s.get_char(i) as u32;
        if u < 48 || u > 57 {
            assert(!crate::strutil::is_digit(s@[i as int]));
            return false;
        }
        i = i + 1;
    }
    true
}

/// Read the uptime file's first token as whole seconds.
pub fn read_uptime(content: &str) -> (r: u64)
    ensures
        r as nat == spec_uptime_seconds(content@),
{
    match nth_token(content, 0) {
        None => 0,
        Some(tok) => {
            let nt = tok.unicode_len();
            let dot = match find_char(tok, '.') {
                Some(d) => d,
                None => nt,
            };
            let ip = tok.substring_char(0, dot);
            let fp = if dot < nt {
                tok.substring_char(dot + 1, nt)
            } else {
                proof {
                    assert(Seq::<char>::empty() =~= tok@.subrange(
                        tok@.len() as int, tok@.len() as int));
                }
                tok.substring_char(nt, nt)
            };
            let ip_digits = all_digits_check(ip);
            let fp_digits = all_digits_check(fp);
            let ip_n = ip.unicode_len();
            let fp_n = fp.unicode_len();
            if (ip_n > 0 || fp_n > 0) && ip_digits && fp_digits {
                if ip_n == 0 {
                    assert(spec_dec_val(ip@) == 0);
                    0
                } else {
                    match parse_u64(ip) {
                        Some(v) => v,
                        None => u64::MAX,
                    }
                }
            } else {
                0
            }
        },
    }
}

/// The first line of the hostname file, trimmed.
pub open spec fn spec_first_line_trimmed(s: Seq<char>) -> Seq<char> {
    spec_trim(s.subrange(0, spec_find_char(s, '\n') as int))
}

/// The hostname: the first line of the hostname file, trimmed.
pub fn get_hostname(content: &str) -> (r: String)
    ensures
        r@ == spec_first_line_trimmed(content@),
{
    let n = content.unicode_len();
    let cut = match find_char(content, '\n') {
        Some(i) => i,
        None => n,
    };
    let first = content.substring_char(0, cut);
    let t = str_trim(first);
    let mut owned = String::new();
    owned.append(t);
    owned
}

/// Signed division that truncates toward zero, as the machine's does.
pub open spec fn spec_div_trunc(a: int, b: int) -> int {
    if a >= 0 { a / b } else { -((-a) / b) }
}

/// How the machine's age is displayed for a given birth timestamp:
/// day count since birth, with the singular form at exactly one day,
/// or `Unsupported` when no birth time is known.
pub open spec fn spec_os_age(now: int, birth: int) -> Seq<char> {
    if birth > 0 {
        let days = spec_div_trunc(now - birth, 86400);
        if days == 1 {
            "1 day"@
        } else {
            spec_dec_i64(days) + " days"@
        }
    } else {
        "Unsupported"@
    }
}

/// Format the machine's age from the current time and the root
/// filesystem's birth time, both in seconds since the epoch.
pub fn format_os_age(now: i64, birth: i64) -> (r: String)
    requires
        -0x2000_0000_0000_0000 < now < 0x2000_0000_0000_0000,
        -0x2000_0000_0000_0000 < birth < 0x2000_0000_0000_0000,
    ensures
        r@ == spec_os_age(now as int, birth as int),
{
    if birth > 0 {
        let diff = now - birth;
        let days: i64 = if diff >= 0 { diff / 86400 } else { -((-diff) / 86400) };
        if days == 1 {
            let r = "1 day".to_owned();
            r
        } else {
            let mut r = fmt_i64(days);
            r.append(" days");
            r
        }
    } else {
        "Unsupported".to_owned()
    }
}

/// The user's name: the `USER` variable, or a fixed fallback.
pub fn get_username(user_env: Option<String>) -> (r: String)
    ensures
        match user_env {
            Some(v) => r@ == v@,
            None => r@ == "Unknown"@,
        },
{
    match user_env {
        Some(v) => v,
        None => "Unknown".to_owned(),
    }
}

/// The editor: the `EDITOR` variable, or the traditional default.
pub fn get_editor(editor_env: Option<String>) -> (r: String)
    ensures
        match editor_env {
            Some(v) => r@ == v@,
            None => r@ == "nano"@,
        },
{
    match editor_env {
        Some(v) => v,
        None => "nano".to_owned(),
    }
}

/// The terminal: the `TERM` variable with any `xterm-` prefix text
/// removed, or a fixed fallback.
pub fn get_terminal(term_env: Option<String>) -> (r: String)
    ensures
        match term_env {
            Some(v) => r@ == spec_replace_all(v@, "xterm-"@, ""@),
            None => r@ == spec_replace_all("Unknown"@, "xterm-"@, ""@),
        },
{
    let base = match term_env {
        Some(v) => v,
        None => "Unknown".to_owned(),
    };
    str_replace_all(base.as_str(), "xterm-", "")
}

/// Which init-system marker paths exist on the host, and whether the
/// systemd version query succeeds.
#[derive(Debug, Clone, Copy, PartialEq, Eq, Structural)]
pub struct InitMarkers {
    pub run_systemd: bool,
    pub usr_lib_systemd: bool,
    pub etc_systemd: bool,
    pub systemctl_ok: bool,
    pub sbin_openrc: bool,
    pub usr_sbin_openrc: bool,
    pub etc_runit: bool,
    pub etc_initd: bool,
    pub etc_s6: bool,
}

/// The init system the markers identify, in the fixed priority order.
pub open spec fn spec_init_system(m: InitMarkers) -> Seq<char> {
    if m.run_systemd || m.usr_lib_systemd || m.etc_systemd { "systemd"@ }
    else if m.systemctl_ok { "systemd"@ }
    else if m.sbin_openrc || m.usr_sbin_openrc { "OpenRC"@ }
    else if m.etc_runit { "runit"@ }
    else if m.etc_initd { "SysV"@ }
    else if m.etc_s6 { "s6"@ }
    else { "Unknown"@ }
}

/// Name the init system from its marker paths.
pub fn detect_init_system(m: &InitMarkers) -> (r: String)
    ensures
        r@ == spec_init_system(*m),
{
    if m.run_systemd || m.usr_lib_systemd || m.etc_systemd {
        "systemd".to_owned()
    } else if m.systemctl_ok {
        "systemd".to_owned()
    } else if m.sbin_openrc || m.usr_sbin_openrc {
        "OpenRC".to_owned()
    } else if m.etc_runit {
        "runit".to_owned()
    } else if m.etc_initd {
        "SysV".to_owned()
    } else if m.etc_s6 {
        "s6".to_owned()
    } else {
        "Unknown".to_owned()
    }
}

/// One entry of the power-supply directory: its name and the contents of
/// its capacity and status files, where those could be read.
#[derive(Debug, Clone)]
pub struct PowerSupplyEntry {
    pub name: String,
    pub capacity: Option<String>,
    pub status: Option<String>,
}

/// The glyph shown for a battery status line.
pub open spec fn spec_battery_icon(status: Seq<char>) -> Seq<char> {
    if status == "Charging"@ { "\u{26A1}"@ }
    else if status == "Not charging"@ { "\u{1F50C}"@ }
    else { "\u{1F50B}"@ }
}

fn battery_icon(status: &str) -> (r: &'static str)
    ensures
        r@ == spec_battery_icon(status@),
{
    if str_eq(status, "Charging") {
        "\u{26A1}"
    } else if str_eq(status, "Not charging") {
        "\u{1F50C}"
    } else {
        "\u{1F50B}"
    }
}

/// What a battery entry reports: readable, named `BAT*`, with both files.
pub open spec fn spec_battery_usable(e: PowerSupplyEntry) -> bool {
    spec_starts_with(e.name@, "BAT"@) && e.capacity is Some && e.status is Some
}

/// The display string for one battery entry.
pub open spec fn spec_battery_line(e: PowerSupplyEntry) -> Seq<char>
    recommends
        spec_battery_usable(e),
{
    let cap = spec_trim(e.capacity.unwrap()@);
    let st = spec_trim(e.status.unwrap()@);
    cap + "% "@ + spec_battery_icon(st)
}

/// Index of the first usable battery entry.
pub open spec fn spec_first_battery(entries: Seq<PowerSupplyEntry>) -> Option<int> {
    if exists|i: int| 0 <= i < entries.len() && spec_battery_usable(entries[i]) {
        Some(choose|i: int| 0 <= i < entries.len() && spec_battery_usable(entries[i])
            && forall|j: int| 0 <= j < i ==> !spec_battery_usable(entries[j]))
    } else {
        None
    }
}

/// Report the first battery's charge and status, or that none is present.
pub fn get_battery_info(entries: &Vec<PowerSupplyEntry>) -> (r: Result<
    String,
    SwiftfetchError,
>)
    ensures
        match r {
            Ok(v) => exists|i: int|
                0 <= i < entries@.len() && spec_battery_usable(entries@[i])
                    && v@ == spec_battery_line(entries@[i])
                    && forall|j: int| 0 <= j < i ==> !spec_battery_usable(entries@[j]),
            Err(e) => (forall|i: int|
                0 <= i < entries@.len() ==> !spec_battery_usable(entries@[i]))
                && (e matches SwiftfetchError::Detection(m)
                    && m@ == "No battery found"@),
        },
{
    let n = entries.len();
    let mut i: usize = 0;
    while i < n
        invariant
            n == entries@.len(),
            i <= n,
            forall|j: int| 0 <= j < i ==> !spec_battery_usable(entries@[j]),
        decreases n - i,
    {
        let e = &entries[i];
        if str_starts_with(e.name.as_str(), "BAT") {
            match (&e.capacity, &e.status) {
                (Some(cap), Some(st)) => {
                    let cap_t = str_trim(cap.as_str());
                    let st_t = str_trim(st.as_str());
                    let icon = battery_icon(st_t);
                    let mut out = String::new();
                    out.append(cap_t);
                    out.append("% ");
                    out.append(icon);
                    proof {
                        assert(spec_battery_usable(entries@[i as int]));
                        assert(out@ =~= spec_battery_line(entries@[i as int]));
                    }
                    return Ok(out);
                },
                _ => {
                    assert(!spec_battery_usable(entries@[i as int]));
                },
            }
        } else {
            assert(!spec_battery_usable(entries@[i as int]));
        }
        i = i + 1;
    }
    Err(SwiftfetchError::Detection("No battery found".to_owned()))
}

/// A window-manager process name the scanner recognises.
pub open spec fn spec_is_wm_cmd(cmd: Seq<char>) -> bool {
    spec_starts_with(cmd, "sway"@) || spec_starts_with(cmd, "hyprland"@)
        || spec_starts_with(cmd, "kwin_wayland"@) || spec_starts_with(cmd, "kwin_x11"@)
        || spec_starts_with(cmd, "niri"@) || spec_starts_with(cmd, "mutter"@)
        || spec_starts_with(cmd, "xfwm4"@) || spec_starts_with(cmd, "openbox"@)
        || spec_starts_with(cmd, "i3"@) || spec_starts_with(cmd, "bspwm"@)
        || spec_starts_with(cmd, "awesome"@) || spec_starts_with(cmd, "weston"@)
        || spec_starts_with(cmd, "gnome-session"@)
}

/// What one process name contributes to desktop detection.
pub open spec fn spec_wm_from_cmd(cmd: Seq<char>) -> Option<Seq<char>> {
    if spec_is_wm_cmd(cmd) {
        if cmd == "gnome-session"@ || spec_starts_with(cmd, "gnome-session-"@) {
            Some("GNOME"@)
        } else {
            Some(spec_capitalized(cmd))
        }
    } else {
        None
    }
}

fn wm_from_cmd(cmd: &str) -> (r: Option<String>)
    ensures
        match r {
            Some(v) => spec_wm_from_cmd(cmd@) == Some(v@),
            None => spec_wm_from_cmd(cmd@) is None,
        },
{
    let hit = str_starts_with(cmd, "sway") || str_starts_with(cmd, "hyprland")
        || str_starts_with(cmd, "kwin_wayland") || str_starts_with(cmd, "kwin_x11")
        || str_starts_with(cmd, "niri") || str_starts_with(cmd, "mutter")
        || str_starts_with(cmd, "xfwm4") || str_starts_with(cmd, "openbox")
        || str_starts_with(cmd, "i3") || str_starts_with(cmd, "bspwm")
        || str_starts_with(cmd, "awesome") || str_starts_with(cmd, "weston")
        || str_starts_with(cmd, "gnome-session");
    if !hit {
        return None;
    }
    if str_eq(cmd, "gnome-session") || str_starts_with(cmd, "gnome-session-") {
        Some("GNOME".to_owned())
    } else {
        Some(crate::strutil::capitalize_first_letter(cmd))
    }
}

/// What desktop detection yields for given environment values and
/// process names (each process name is trimmed before matching).
pub open spec fn spec_wm_or_de(
    xdg: Option<Seq<char>>,
    desktop_session: Option<Seq<char>>,
    wayland: bool,
    procs: Seq<Seq<char>>,
) -> Seq<char>
    decreases procs.len(),
{
    let envv: Option<Seq<char>> = if xdg is Some { xdg } else { desktop_session };
    match envv {
        Some(v) => {
            if v.len() > 0 {
                spec_capitalized(v)
            } else if wayland {
                "Wayland"@
            } else {
                spec_wm_scan(procs)
            }
        },
        None => {
            if wayland {
                "Wayland"@
            } else {
                spec_wm_scan(procs)
            }
        },
    }
}

/// First recognised window-manager name among the process names.
pub open spec fn spec_wm_scan(procs: Seq<Seq<char>>) -> Seq<char>
    decreases procs.len(),
{
    if procs.len() == 0 {
        "Unknown"@
    } else {
        match spec_wm_from_cmd(spec_trim(procs[0])) {
            Some(v) => v,
            None => spec_wm_scan(procs.subrange(1, procs.len() as int)),
        }
    }
}

proof fn lemma_wm_scan_skip(procs: Seq<Seq<char>>, i: int)
    requires
        0 <= i <= procs.len(),
        forall|j: int| 0 <= j < i ==> spec_wm_from_cmd(spec_trim(procs[j])) is None,
    ensures
        spec_wm_scan(procs) == spec_wm_scan(procs.subrange(i, procs.len() as int)),
    decreases i,
{
    if i == 0 {
        assert(procs.subrange(0, procs.len() as int) =~= procs);
    } else {
        assert(procs.subrange(1, procs.len() as int).subrange(i - 1, procs.len() - 1)
            =~= procs.subrange(i, procs.len() as int));
        lemma_wm_scan_skip(procs.subrange(1, procs.len() as int), i - 1);
    }
}

/// Name the window manager or desktop environment: environment variables
/// first, then the Wayland display, then a scan of process names.
pub fn detect_wm_or_de(
    xdg: &Option<String>,
    desktop_session: &Option<String>,
    wayland: bool,
    procs: &Vec<String>,
) -> (r: String)
    ensures
        r@ == spec_wm_or_de(
            match xdg { Some(v) => Some(v@), None => None },
            match desktop_session { Some(v) => Some(v@), None => None },
            wayland,
            Seq::new(procs@.len(), |i: int| procs@[i]@),
        ),
{
    let ghost procs_v = Seq::new(procs@.len(), |i: int| procs@[i]@);
    let envv: Option<&String> = match xdg {
        Some(v) => Some(v),
        None => match desktop_session {
            Some(v) => Some(v),
            None => None,
        },
    };
    match envv {
        Some(v) => {
            if v.as_str().unicode_len() > 0 {
                return crate::strutil::capitalize_first_letter(v.as_str());
            }
        },
        None => {},
    }
    if wayland {
        return "Wayland".to_owned();
    }
    let n = procs.len();
    let mut i: usize = 0;
    while i < n
        invariant
            n == procs@.len(),
            i <= n,
            procs_v == Seq::new(procs@.len(), |k: int| procs@[k]@),
            forall|j: int| 0 <= j < i ==> spec_wm_from_cmd(spec_trim(procs_v[j])) is None,
        decreases n - i,
    {
        let cmd = str_trim(procs[i].as_str());
        match wm_from_cmd(cmd) {
            Some(v) => {
                proof {
                    lemma_wm_scan_skip(procs_v, i as int);
                }
                return v;
            },
            None => {},
        }
        i = i + 1;
    }
    proof {
        lemma_wm_scan_skip(procs_v, n as int);
    }
    "Unknown".to_owned()
}

/// One process-table row: the process id, its parent's id, and the name
/// of its executable where the link could be read.
#[derive(Debug, Clone)]
pub struct ProcEntry {
    pub pid: u64,
    pub ppid: u64,
    pub exe: Option<String>,
}

/// The first table row for a given pid.
pub open spec fn spec_proc_lookup(tbl: Seq<ProcEntry>, pid: u64) -> Option<ProcEntry>
    decreases tbl.len(),
{
    if tbl.len() == 0 {
        None
    } else if tbl[0].pid == pid {
        Some(tbl[0])
    } else {
        spec_proc_lookup(tbl.subrange(1, tbl.len() as int), pid)
    }
}

proof fn lemma_proc_lookup_skip(tbl: Seq<ProcEntry>, pid: u64, i: int)
    requires
        0 <= i <= tbl.len(),
        forall|j: int| 0 <= j < i ==> tbl[j].pid != pid,
    ensures
        spec_proc_lookup(tbl, pid) == spec_proc_lookup(
            tbl.subrange(i, tbl.len() as int), pid),
    decreases i,
{
    if i == 0 {
        assert(tbl.subrange(0, tbl.len() as int) =~= tbl);
    } else {
        assert(tbl.subrange(1, tbl.len() as int).subrange(i - 1, tbl.len() - 1)
            =~= tbl.subrange(i, tbl.len() as int));
        lemma_proc_lookup_skip(tbl.subrange(1, tbl.len() as int), pid, i - 1);
    }
}

fn proc_lookup<'a>(tbl: &'a Vec<ProcEntry>, pid: u64) -> (r: Option<&'a ProcEntry>)
    ensures
        match r {
            Some(e) => spec_proc_lookup(tbl@, pid) == Some(*e),
            None => spec_proc_lookup(tbl@, pid) is None,
        },
{
    let n = tbl.len();
    let mut i: usize = 0;
    while i < n
        invariant
            n == tbl@.len(),
            i <= n,
            forall|j: int| 0 <= j < i ==> tbl@[j].pid != pid,
        decreases n - i,
    {
        if tbl[i].pid == pid {
            proof {
                lemma_proc_lookup_skip(tbl@, pid, i as int);
            }
            return Some(&tbl[i]);
        }
        i = i + 1;
    }
    proof {
        lemma_proc_lookup_skip(tbl@, pid, n as int);
    }
    None
}

/// An executable name that is a known shell, after lower-casing. The
/// generic wrappers `sh` and `dash` are not in this set: the walk passes
/// them by to find the shell that spawned them.
pub open spec fn spec_is_shell_name(name: Seq<char>) -> bool {
    name == "moonsh"@ || name == "nushell"@ || name == "fish"@ || name == "bash"@
        || name == "zsh"@ || name == "ksh"@ || name == "csh"@
        || name == "tcsh"@ || name == "nu"@
}

fn is_shell_name(name: &str) -> (r: bool)
    ensures
        r == spec_is_shell_name(name@),
{
    str_eq(name, "moonsh") || str_eq(name, "nushell") || str_eq(name, "fish")
        || str_eq(name, "bash") || str_eq(name, "zsh")
        || str_eq(name, "ksh") || str_eq(name, "csh") || str_eq(name, "tcsh")
        || str_eq(name, "nu")
}

/// Walk at most `fuel` steps up the ancestry from `pid`, returning the
/// first lower-cased executable name that is a known shell. Any row whose
/// executable is unreadable or not a shell passes the walk to its parent;
/// a missing row or exhausted fuel ends it empty-handed.
pub open spec fn spec_shell_walk(tbl: Seq<ProcEntry>, pid: u64, fuel: nat) -> Option<
    Seq<char>,
>
    decreases fuel,
{
    if fuel == 0 {
        None
    } else {
        match spec_proc_lookup(tbl, pid) {
            None => None,
            Some(e) => match e.exe {
                Some(x) => {
                    if spec_is_shell_name(spec_lower(x@)) {
                        Some(spec_lower(x@))
                    } else {
                        spec_shell_walk(tbl, e.ppid, (fuel - 1) as nat)
                    }
                },
                None => spec_shell_walk(tbl, e.ppid, (fuel - 1) as nat),
            },
        }
    }
}

/// The shell fallback: the basename of the `SHELL` variable's value.
pub open spec fn spec_shell_fallback(shell_env: Option<Seq<char>>) -> Seq<char> {
    match shell_env {
        Some(v) => spec_basename(v),
        None => spec_basename("Unknown"@),
    }
}

/// Name the user's shell: walk up to ten ancestors of the starting
/// process looking for a known shell, then fall back to `SHELL`.
pub fn get_shell(
    table: &Vec<ProcEntry>,
    start_pid: Option<u64>,
    shell_env: &Option<String>,
) -> (r: String)
    ensures
        r@ == match start_pid {
            Some(p) => match spec_shell_walk(table@, p, 10) {
                Some(name) => name,
                None => spec_shell_fallback(
                    match shell_env { Some(v) => Some(v@), None => None }),
            },
            None => spec_shell_fallback(
                match shell_env { Some(v) => Some(v@), None => None }),
        },
{
    match start_pid {
        Some(p) => {
            let mut cur: u64 = p;
            let mut fuel: u64 = 10;
            while fuel > 0
                invariant
                    fuel <= 10,
                    spec_shell_walk(table@, p, 10) == spec_shell_walk(
                        table@, cur, fuel as nat),
                decreases fuel,
            {
                match proc_lookup(table, cur) {
                    None => {
                        break;
                    },
                    Some(e) => {
                        let next = e.ppid;
                        match &e.exe {
                            Some(x) => {
                                let lowered = to_lower(x.as_str());
                                if is_shell_name(lowered.as_str()) {
                                    return lowered;
                                }
                            },
                            None => {},
                        }
                        cur = next;
                    },
                }
                fuel = fuel - 1;
            }
            shell_env_fallback(shell_env)
        },
        None => shell_env_fallback(shell_env),
    }
}

fn shell_env_fallback(shell_env: &Option<String>) -> (r: String)
    ensures
        r@ == spec_shell_fallback(match shell_env { Some(v) => Some(v@), None => None }),
{
    match shell_env {
        Some(v) => str_basename(v.as_str()),
        None => str_basename("Unknown"),
    }
}

/// Assemble the user identity, with the bold `user@host` display string.
pub fn collect_user_info(username: String, hostname: String) -> (r: crate::data::UserInfo)
    ensures
        r.username@ == username@,
        r.hostname@ == hostname@,
        r.formatted_user_info@ == "\u{1b}[1m"@ + username@ + "@"@
            + spec_trim(hostname@) + "\u{1b}[0m"@,
{
    let mut formatted = String::new();
    formatted.append("\u{1b}[1m");
    formatted.append(username.as_str());
    formatted.append("@");
    let ht = str_trim(hostname.as_str());
    formatted.append(ht);
    formatted.append("\u{1b}[0m");
    proof {
        assert(formatted@ =~= "\u{1b}[1m"@ + username@ + "@"@
            + spec_trim(hostname@) + "\u{1b}[0m"@);
    }
    crate::data::UserInfo { username, hostname, formatted_user_info: formatted }
}

/// Assemble the status block, formatting the uptime on the way.
pub fn collect_system_status(
    uptime_seconds: u64,
    init_system: String,
    battery_info: String,
    desktop_environment: String,
    editor: String,
    shell: String,
    terminal: String,
) -> (r: crate::data::SystemStatus)
    ensures
        r.uptime_seconds == uptime_seconds,
        r.uptime_formatted@ == crate::parsing::spec_format_uptime(uptime_seconds as nat),
        r.init_system@ == init_system@,
        r.battery_info@ == battery_info@,
        r.desktop_environment@ == desktop_environment@,
        r.editor@ == editor@,
        r.shell@ == shell@,
        r.terminal@ == terminal@,
{
    let uptime_formatted = crate::parsing::format_uptime(uptime_seconds);
    crate::data::SystemStatus {
        uptime_seconds,
        uptime_formatted,
        init_system,
        battery_info,
        desktop_environment,
        editor,
        shell,
        terminal,
    }
}

} // verus!
