//! Hardware facts: memory amounts from the meminfo listing, disk usage
//! from filesystem statistics, and the GPU detection heuristics.

use vstd::prelude::*;
use crate::error::SwiftfetchError;
use crate::strutil::{
    spec_trim, spec_starts_with, spec_find_sub, spec_all_digits, spec_dec_val,
    spec_dec, spec_dec2, digit_char, spec_lower, spec_replace_all, spec_contains,
    spec_lines,
    str_trim, str_starts_with, str_contains, str_find_first, str_eq, str_replace_all,
    split_lines, parse_u64, fmt_u64, push_char, to_lower, nth_token, spec_nth_token,
    spec_lines_view,
};
use crate::parsing::spec_after_colon;

verus! {

/// The kilobyte count on a meminfo line: the digits after the colon,
/// once trimmed and with a ` kB` suffix removed; zero for any other shape.
pub open spec fn spec_mem_kb_of_line(l: Seq<char>) -> nat {
    let i = crate::strutil::spec_find_char(l, ':');
    if i >= l.len() {
        0
    } else {
        let v = spec_replace_all(spec_trim(l.subrange(i as int + 1, l.len() as int)),
            " kB"@, ""@);
        if v.len() > 0 && spec_all_digits(v) && spec_dec_val(v) <= u64::MAX {
            spec_dec_val(v)
        } else {
            0
        }
    }
}

/// Read the numeric value of a `key: value kB` line.
pub fn extract_memory_from_line(line: &str) -> (r: u64)
    ensures
        r as nat == spec_mem_kb_of_line(line@),
{
    let n = line.unicode_len();
    match crate::strutil::find_char(line, ':') {
        None => 0,
        Some(i) => {
            let rest = line.substring_char(i + 1, n);
            let t = str_trim(rest);
            let v = str_replace_all(t, " kB", "");
            match parse_u64(v.as_str()) {
                Some(x) => x,
                None => 0,
            }
        },
    }
}

/// The first line starting with `key`, if any.
pub open spec fn spec_first_line_with_prefix(
    ls: Seq<Seq<char>>,
    key: Seq<char>,
) -> Option<Seq<char>>
    decreases ls.len(),
{
    if ls.len() == 0 {
        None
    } else if spec_starts_with(ls[0], key) {
        Some(ls[0])
    } else {
        spec_first_line_with_prefix(ls.subrange(1, ls.len() as int), key)
    }
}

proof fn lemma_first_prefix_skip(ls: Seq<Seq<char>>, key: Seq<char>, i: int)
    requires
        0 <= i <= ls.len(),
        forall|j: int| 0 <= j < i ==> !spec_starts_with(ls[j], key),
    ensures
        spec_first_line_with_prefix(ls, key) == spec_first_line_with_prefix(
            ls.subrange(i, ls.len() as int), key),
    decreases i,
{
    if i == 0 {
        assert(ls.subrange(0, ls.len() as int) =~= ls);
    } else {
        assert(ls.subrange(1, ls.len() as int).subrange(i - 1, ls.len() - 1)
            =~= ls.subrange(i, ls.len() as int));
        lemma_first_prefix_skip(ls.subrange(1, ls.len() as int), key, i - 1);
    }
}

fn find_line_with_prefix(lines: &Vec<String>, key: &str, ghost_all: Ghost<Seq<Seq<char>>>)
    -> (r: Option<usize>)
    requires
        lines@.len() == ghost_all@.len(),
        forall|k: int| 0 <= k < lines@.len() ==> lines@[k]@ == ghost_all@[k],
    ensures
        match r {
            Some(i) => i < lines@.len()
                && spec_first_line_with_prefix(ghost_all@, key@) == Some(ghost_all@[i as int]),
            None => spec_first_line_with_prefix(ghost_all@, key@) is None,
        },
{
    let n = lines.len();
    let mut i: usize = 0;
    while i < n
        invariant
            n == lines@.len(),
            i <= n,
            lines@.len() == ghost_all@.len(),
            forall|k: int| 0 <= k < n ==> lines@[k]@ == ghost_all@[k],
            forall|j: int| 0 <= j < i ==> !spec_starts_with(ghost_all@[j], key@),
        decreases n - i,
    {
        if str_starts_with(lines[i].as_str(), key) {
            proof {
                lemma_first_prefix_skip(ghost_all@, key@, i as int);
            }
            return Some(i);
        }
        i = i + 1;
    }
    proof {
        lemma_first_prefix_skip(ghost_all@, key@, n as int);
    }
    None
}

/// The total and available kilobyte counts a meminfo listing reports
/// (zero where the line is missing or malformed).
pub open spec fn spec_meminfo(content: Seq<char>) -> (nat, nat) {
    let ls = spec_lines(content);
    let total = match spec_first_line_with_prefix(ls, "MemTotal"@) {
        Some(l) => spec_mem_kb_of_line(l),
        None => 0,
    };
    let avail = match spec_first_line_with_prefix(ls, "MemAvailable"@) {
        Some(l) => spec_mem_kb_of_line(l),
        None => 0,
    };
    (total, avail)
}

/// Read total and available memory, in kilobytes, from meminfo content.
pub fn read_memory_info(content: &str) -> (r: (u64, u64))
    ensures
        r.0 as nat == spec_meminfo(content@).0,
        r.1 as nat == spec_meminfo(content@).1,
{
    let lines = split_lines(content);
    let ghost all = Seq::new(lines@.len(), |i: int| lines@[i]@);
    proof {
        assert forall|k: int| 0 <= k < lines@.len()
            implies lines@[k]@ == all[k] by {}
        assert(all =~= spec_lines(content@));
    }
    let total = match find_line_with_prefix(&lines, "MemTotal", Ghost(all)) {
        Some(i) => extract_memory_from_line(lines[i].as_str()),
        None => 0,
    };
    let avail = match find_line_with_prefix(&lines, "MemAvailable", Ghost(all)) {
        Some(i) => extract_memory_from_line(lines[i].as_str()),
        None => 0,
    };
    (total, avail)
}

/// A kilobyte count shown in binary gigabytes with two decimals, rounding
/// half up: the value of `kb / 1024 / 1024` to two places.
pub open spec fn spec_gb_2dp(kb: nat) -> Seq<char> {
    let h = (kb * 100 + 524288) / 1048576;
    spec_dec(h / 100) + seq!['.'] + spec_dec2(h % 100)
}

/// Format a kilobyte count as gigabytes with two decimals.
pub fn format_gb(kb: u64) -> (r: String)
    ensures
        r@ == spec_gb_2dp(kb as nat),
{
    let wide: u128 = ((kb as u128) * 100 + 524288) / 1048576;
    proof {
        let ki = kb as int;
        assert((ki * 100 + 524288) / 1048576 < 0x10000000000000000) by (nonlinear_arith)
            requires
                0 <= ki <= 0xFFFF_FFFF_FFFF_FFFFi128,
        ;
    }
    let h: u64 = wide as u64;
    let mut r = fmt_u64(h / 100);
    push_char(&mut r, '.');
    let frac = crate::strutil::fmt_u64_pad2(h % 100);
    r.append(frac.as_str());
    proof {
        assert(r@ =~= spec_gb_2dp(kb as nat));
    }
    r
}

/// The memory display string: used and total, both in gigabytes.
pub open spec fn spec_memory_formatted(used_kb: nat, total_kb: nat) -> Seq<char> {
    spec_gb_2dp(used_kb) + " GB / "@ + spec_gb_2dp(total_kb) + " GB"@
}

/// Assemble the memory fact from meminfo content: used is total minus
/// available (never below zero).
pub fn collect_memory_info(content: &str) -> (r: crate::data::MemoryInfo)
    ensures
        r.total_kb as nat == spec_meminfo(content@).0,
        r.used_kb as nat == if spec_meminfo(content@).0 >= spec_meminfo(content@).1 {
            spec_meminfo(content@).0 - spec_meminfo(content@).1
        } else {
            0
        },
        r.formatted@ == spec_memory_formatted(r.used_kb as nat, r.total_kb as nat),
{
    let (total, avail) = read_memory_info(content);
    let used: u64 = if total >= avail { total - avail } else { 0 };
    let mut formatted = format_gb(used);
    formatted.append(" GB / ");
    let t = format_gb(total);
    formatted.append(t.as_str());
    formatted.append(" GB");
    proof {
        assert(formatted@ =~= spec_memory_formatted(used as nat, total as nat));
    }
    crate::data::MemoryInfo { used_kb: used, total_kb: total, formatted }
}

/// A byte count shown with one decimal against a decimal divisor,
/// rounding half up, carrying into the whole part when the tenths reach
/// ten.
pub open spec fn spec_size_1dp(bytes: nat, div: nat) -> Seq<char>
    recommends
        div > 0,
{
    let wh = bytes / div;
    let rem = bytes % div;
    let t = (rem * 10 + div / 2) / div;
    if t >= 10 {
        spec_dec(wh + 1) + seq!['.'] + seq![digit_char(0)]
    } else {
        spec_dec(wh) + seq!['.'] + seq![digit_char(t)]
    }
}

/// How a byte count is displayed: `T`, `G` or `M` with one decimal at the
/// decimal thresholds, else whole binary kilobytes with `K`.
pub open spec fn spec_format_size(bytes: nat) -> Seq<char> {
    if bytes >= 1_000_000_000_000 {
        spec_size_1dp(bytes, 1_000_000_000_000) + seq!['T']
    } else if bytes >= 1_000_000_000 {
        spec_size_1dp(bytes, 1_000_000_000) + seq!['G']
    } else if bytes >= 1_000_000 {
        spec_size_1dp(bytes, 1_000_000) + seq!['M']
    } else {
        spec_dec(bytes / 1024) + seq!['K']
    }
}

fn size_1dp(bytes: u64, div: u64, unit: char) -> (r: String)
    requires
        div >= 1_000_000,
        div <= 1_000_000_000_000,
    ensures
        r@ == spec_size_1dp(bytes as nat, div as nat) + seq![unit],
{
    let wh = bytes / div;
    let rem = bytes % div;
    let t = (rem * 10 + div / 2) / div;
    proof {
        let remi = rem as int;
        let divi = div as int;
        assert(remi < divi);
        assert(remi * 10 + divi / 2 < divi * 11) by (nonlinear_arith)
            requires
                remi < divi,
                divi >= 1_000_000,
        ;
        assert((remi * 10 + divi / 2) / divi < 11) by (nonlinear_arith)
            requires
                remi * 10 + divi / 2 < divi * 11,
                divi > 0,
                remi >= 0,
        ;
        assert(t < 11);
        assert((bytes as int) / divi < 0xFFFF_FFFF_FFFF_FFFFu64 as int) by (nonlinear_arith)
            requires
                divi >= 1_000_000,
                0 <= bytes as int <= 0xFFFF_FFFF_FFFF_FFFFi128,
        ;
    }
    let mut r = if t >= 10 {
        let mut r = fmt_u64(wh + 1);
        push_char(&mut r, '.');
        push_char(&mut r, '0');
        r
    } else {
        let mut r = fmt_u64(wh);
        push_char(&mut r, '.');
        push_char(&mut r, crate::strutil::digit_of(t));
        r
    };
    push_char(&mut r, unit);
    proof {
        assert(r@ =~= spec_size_1dp(bytes as nat, div as nat) + seq![unit]);
    }
    r
}

/// Format a byte count for the disk summary.
pub fn format_size(bytes: u64) -> (r: String)
    ensures
        r@ == spec_format_size(bytes as nat),
{
    if bytes >= 1_000_000_000_000 {
        size_1dp(bytes, 1_000_000_000_000, 'T')
    } else if bytes >= 1_000_000_000 {
        size_1dp(bytes, 1_000_000_000, 'G')
    } else if bytes >= 1_000_000 {
        size_1dp(bytes, 1_000_000, 'M')
    } else {
        let mut r = fmt_u64(bytes / 1024);
        push_char(&mut r, 'K');
        assert(r@ =~= spec_format_size(bytes as nat));
        r
    }
}

/// The whole-percent share of `used` in `total`, truncated.
pub open spec fn spec_percent(used: nat, total: nat) -> nat {
    if total > 0 { used * 100 / total } else { 0 }
}

/// The disk summary line for the given byte counts: used and total
/// formatted, and the truncated percentage.
pub open spec fn spec_disk_usage(total_bytes: nat, available_bytes: nat) -> Seq<char> {
    let used: nat = if total_bytes >= available_bytes {
        (total_bytes - available_bytes) as nat
    } else {
        0
    };
    spec_format_size(used) + " / "@ + spec_format_size(total_bytes) + " ("@
        + spec_dec(spec_percent(used, total_bytes)) + "%)"@
}

/// Format the disk summary from filesystem statistics.
pub fn format_disk_usage(total_bytes: u64, available_bytes: u64) -> (r: String)
    ensures
        r@ == spec_disk_usage(total_bytes as nat, available_bytes as nat),
{
    let used: u64 = if total_bytes >= available_bytes {
        total_bytes - available_bytes
    } else {
        0
    };
    let percent: u64 = if total_bytes > 0 {
        let wide: u128 = (used as u128) * 100 / (total_bytes as u128);
        proof {
            assert((used as nat) * 100 / (total_bytes as nat) <= (used as nat) * 100)
                by (nonlinear_arith)
                requires total_bytes > 0;
            assert((used as nat) * 100 <= u64::MAX as nat * 100) by (nonlinear_arith)
                requires used <= u64::MAX;
            assert(used as nat * 100 / (total_bytes as nat) <= 100) by (nonlinear_arith)
                requires total_bytes > 0 && used <= total_bytes;
        }
        wide as u64
    } else {
        0
    };
    let mut r = format_size(used);
    r.append(" / ");
    let t = format_size(total_bytes);
    r.append(t.as_str());
    r.append(" (");
    let p = fmt_u64(percent);
    r.append(p.as_str());
    r.append("%)");
    proof {
        assert(r@ =~= spec_disk_usage(total_bytes as nat, available_bytes as nat));
    }
    r
}

/// A listing line with enough columns to read used, total and percent.
pub open spec fn spec_df_line_ok(l: Seq<char>) -> bool {
    spec_nth_token(l, 1) is Some && spec_nth_token(l, 2) is Some
        && spec_nth_token(l, 4) is Some
}

/// The summary a usable listing line yields.
pub open spec fn spec_df_render(l: Seq<char>) -> Seq<char>
    recommends
        spec_df_line_ok(l),
{
    spec_nth_token(l, 2).unwrap() + " / "@ + spec_nth_token(l, 1).unwrap() + " ("@
        + spec_nth_token(l, 4).unwrap() + ")"@
}

/// The summary of the first usable line of the given lines.
pub open spec fn spec_df_scan(ls: Seq<Seq<char>>) -> Option<Seq<char>>
    decreases ls.len(),
{
    if ls.len() == 0 {
        None
    } else if spec_df_line_ok(ls[0]) {
        Some(spec_df_render(ls[0]))
    } else {
        spec_df_scan(ls.subrange(1, ls.len() as int))
    }
}

/// What parsing a tabular disk-usage listing yields: the summary of the
/// first usable line after the header.
pub open spec fn spec_df_result(content: Seq<char>) -> Option<Seq<char>> {
    let ls = spec_lines(content);
    if ls.len() <= 1 {
        None
    } else {
        spec_df_scan(ls.subrange(1, ls.len() as int))
    }
}

proof fn lemma_df_scan_skip(ls: Seq<Seq<char>>, i: int)
    requires
        0 <= i <= ls.len(),
        forall|j: int| 0 <= j < i ==> !spec_df_line_ok(ls[j]),
    ensures
        spec_df_scan(ls) == spec_df_scan(ls.subrange(i, ls.len() as int)),
    decreases i,
{
    if i == 0 {
        assert(ls.subrange(0, ls.len() as int) =~= ls);
    } else {
        assert(ls.subrange(1, ls.len() as int).subrange(i - 1, ls.len() - 1)
            =~= ls.subrange(i, ls.len() as int));
        lemma_df_scan_skip(ls.subrange(1, ls.len() as int), i - 1);
    }
}

/// Read the second line of a tabular disk-usage listing, rendered as
/// `used / total (percent)`.
pub fn parse_df_output(output: &str) -> (r: Option<String>)
    ensures
        match r {
            Some(v) => spec_df_result(output@) == Some(v@),
            None => spec_df_result(output@) is None,
        },
{
    let ghost all = spec_lines(output@);
    let lines = split_lines(output);
    let n = lines.len();
    if n <= 1 {
        return None;
    }
    let ghost tail = all.subrange(1, all.len() as int);
    let mut i: usize = 1;
    while i < n
        invariant
            n == lines@.len(),
            n == all.len(),
            n > 1,
            1 <= i <= n,
            tail == all.subrange(1, all.len() as int),
            forall|k: int| 0 <= k < n ==> lines@[k]@ == all[k],
            forall|j: int| 0 <= j < i - 1 ==> !spec_df_line_ok(tail[j]),
        decreases n - i,
    {
        let line = lines[i].as_str();
        assert(line@ == tail[i - 1]);
        let t1 = nth_token(line, 1);
        let t2 = nth_token(line, 2);
        let t4 = nth_token(line, 4);
        match (t1, t2, t4) {
            (Some(total), Some(used), Some(pct)) => {
                let mut r = String::new();
                r.append(used);
                r.append(" / ");
                r.append(total);
                r.append(" (");
                r.append(pct);
                r.append(")");
                proof {
                    lemma_df_scan_skip(tail, i - 1);
                    assert(r@ =~= spec_df_render(tail[i - 1]));
                }
                return Some(r);
            },
            _ => {
                assert(!spec_df_line_ok(tail[i - 1]));
            },
        }
        i = i + 1;
    }
    proof {
        lemma_df_scan_skip(tail, n - 1);
    }
    None
}

/// Assemble the disk fact from filesystem statistics.
pub fn collect_disk_info(total_bytes: u64, available_bytes: u64) -> (r: crate::data::DiskInfo)
    ensures
        r.usage@ == spec_disk_usage(total_bytes as nat, available_bytes as nat),
{
    crate::data::DiskInfo { usage: format_disk_usage(total_bytes, available_bytes) }
}

/// Assemble the CPU fact from cpuinfo content.
pub fn collect_cpu_info(content: &str) -> (r: Result<crate::data::CpuInfo, SwiftfetchError>)
    ensures
        match r {
            Ok(c) => crate::system::spec_cpu_brand(content@) == Some(c.brand@),
            Err(_) => crate::system::spec_cpu_brand(content@) is None,
        },
{
    match crate::system::read_cpu_info(content) {
        Ok(brand) => Ok(crate::data::CpuInfo { brand }),
        Err(e) => Err(e),
    }
}

/// The content of the last square-bracket pair of `s`: the text between
/// the last `[` and the first `]` after it.
pub open spec fn spec_last_bracket(s: Seq<char>) -> Option<Seq<char>> {
    let bs = crate::strutil::spec_rfind_char(s, '[');
    if bs < 0 {
        None
    } else {
        let after = s.subrange(bs, s.len() as int);
        let e = crate::strutil::spec_find_char(after, ']');
        if e >= after.len() {
            None
        } else {
            Some(s.subrange(bs + 1, bs + e))
        }
    }
}

/// Extract the last bracketed piece of a device description.
pub fn last_bracket(s: &str) -> (r: Option<String>)
    ensures
        match r {
            Some(v) => spec_last_bracket(s@) == Some(v@),
            None => spec_last_bracket(s@) is None,
        },
{
    let n = s.unicode_len();
    match crate::strutil::rfind_char(s, '[') {
        None => None,
        Some(bs) => {
            let after = s.substring_char(bs, n);
            match crate::strutil::find_char(after, ']') {
                None => None,
                Some(e) => {
                    proof {
                        assert(s@.subrange(bs as int, n as int)
                            .subrange(1, e as int)
                            =~= s@.subrange(bs as int + 1, bs as int + e as int));
                    }
                    let piece = after.substring_char(1, e);
                    let mut owned = String::new();
                    owned.append(piece);
                    Some(owned)
                },
            }
        },
    }
}

/// The description cut at the first ` [` and then at the first ` (`.
pub open spec fn spec_cut_brackets_parens(s: Seq<char>) -> Seq<char> {
    let s1 = s.subrange(0, spec_find_sub(s, " ["@) as int);
    s1.subrange(0, spec_find_sub(s1, " ("@) as int)
}

fn cut_brackets_parens<'a>(s: &'a str) -> (r: &'a str)
    ensures
        r@ == spec_cut_brackets_parens(s@),
{
    let n = s.unicode_len();
    let c1 = match str_find_first(s, " [") {
        Some(i) => i,
        None => n,
    };
    let s1 = s.substring_char(0, c1);
    let n1 = s1.unicode_len();
    let c2 = match str_find_first(s1, " (") {
        Some(i) => i,
        None => n1,
    };
    s1.substring_char(0, c2)
}

/// The last `X / Y` alternative of a dual-SKU bracket, trimmed; the text
/// unchanged when there is no ` / `.
pub open spec fn spec_amd_range(c: Seq<char>) -> Seq<char> {
    if spec_contains(c, " / "@) {
        spec_trim(crate::strutil::spec_after_last_sep(c, " / "@))
    } else {
        c
    }
}

/// Resolve a dual-SKU bracket such as `X / Y` to its trailing
/// (higher-end) alternative.
pub fn resolve_amd_gpu_range(bracket_content: &str) -> (r: String)
    ensures
        r@ == spec_amd_range(bracket_content@),
{
    if str_contains(bracket_content, " / ") {
        proof {
            reveal_strlit(" / ");
        }
        let last = crate::strutil::str_after_last_sep(bracket_content, " / ");
        let t = str_trim(last);
        let mut owned = String::new();
        owned.append(t);
        owned
    } else {
        let mut owned = String::new();
        owned.append(bracket_content);
        owned
    }
}

/// The marketing name an AMD device description yields: a `Radeon`
/// bracket first (resolving dual-SKU brackets), then a `Radeon` run in
/// the main text, then known integrated codenames, then any other usable
/// bracket, then a generic label.
pub open spec fn spec_parse_amd(d: Seq<char>) -> Seq<char> {
    let b = spec_last_bracket(d);
    if b is Some && spec_contains(b.unwrap(), "Radeon"@) {
        "AMD "@ + spec_amd_range(b.unwrap())
    } else if spec_contains(d, "Radeon"@) {
        let after = d.subrange(spec_find_sub(d, "Radeon"@) as int, d.len() as int);
        "AMD "@ + spec_trim(spec_cut_brackets_parens(after))
    } else if spec_contains(d, "Raphael"@) || spec_contains(d, "Renoir"@)
        || spec_contains(d, "Cezanne"@) || spec_contains(d, "Barcelo"@) {
        "AMD Raphael"@
    } else if b is Some && !spec_contains(b.unwrap(), "/"@) && b.unwrap().len() > 2 {
        "AMD "@ + b.unwrap()
    } else {
        "AMD GPU"@
    }
}

/// Name an AMD GPU from its device description.
pub fn parse_amd_gpu(description: &str) -> (r: Option<String>)
    ensures
        match r {
            Some(v) => v@ == spec_parse_amd(description@),
            None => false,
        },
{
    let n = description.unicode_len();
    let b = last_bracket(description);
    match &b {
        Some(c) => {
            if str_contains(c.as_str(), "Radeon") {
                let mut r = String::new();
                r.append("AMD ");
                let resolved = resolve_amd_gpu_range(c.as_str());
                r.append(resolved.as_str());
                proof {
                    assert(r@ =~= "AMD "@ + spec_amd_range(c@));
                }
                return Some(r);
            }
        },
        None => {},
    }
    match str_find_first(description, "Radeon") {
        Some(pos) => {
            let after = description.substring_char(pos, n);
            let part = cut_brackets_parens(after);
            let t = str_trim(part);
            let mut r = String::new();
            r.append("AMD ");
            r.append(t);
            proof {
                assert(r@ =~= "AMD "@ + spec_trim(spec_cut_brackets_parens(
                    description@.subrange(
                        spec_find_sub(description@, "Radeon"@) as int,
                        description@.len() as int))));
            }
            return Some(r);
        },
        None => {},
    }
    if str_contains(description, "Raphael") || str_contains(description, "Renoir")
        || str_contains(description, "Cezanne") || str_contains(description, "Barcelo") {
        return Some("AMD Raphael".to_owned());
    }
    match &b {
        Some(c) => {
            if !str_contains(c.as_str(), "/") && c.as_str().unicode_len() > 2 {
                let mut r = String::new();
                r.append("AMD ");
                r.append(c.as_str());
                proof {
                    assert(r@ =~= "AMD "@ + c@);
                }
                return Some(r);
            }
        },
        None => {},
    }
    Some("AMD GPU".to_owned())
}

/// Trailing `]` characters dropped, as `trim_end_matches(']')` leaves it.
pub open spec fn spec_trim_end_bracket(s: Seq<char>) -> Seq<char>
    decreases s.len(),
{
    if s.len() > 0 && s[s.len() - 1] == ']' {
        spec_trim_end_bracket(s.subrange(0, s.len() - 1))
    } else {
        s
    }
}

proof fn lemma_trim_end_bracket_subrange(s: Seq<char>, i: int)
    requires
        0 <= i <= s.len(),
        forall|j: int| i <= j < s.len() ==> s[j] == ']',
    ensures
        spec_trim_end_bracket(s) == spec_trim_end_bracket(s.subrange(0, i)),
    decreases s.len() - i,
{
    if i == s.len() {
        assert(s.subrange(0, s.len() as int) =~= s);
    } else {
        assert(s.subrange(0, s.len() - 1).subrange(0, i) =~= s.subrange(0, i));
        lemma_trim_end_bracket_subrange(s.subrange(0, s.len() - 1), i);
    }
}

fn trim_end_bracket<'a>(s: &'a str) -> (r: &'a str)
    ensures
        r@ == spec_trim_end_bracket(s@),
{
    let n = s.unicode_len();
    let mut b: usize = n;
    while b > 0 && s.get_char(b - 1) == ']'
        invariant
            n == s@.len(),
            b <= n,
            forall|j: int| b <= j < n ==> s@[j] == ']',
        decreases b,
    {
        b = b - 1;
    }
    proof {
        lemma_trim_end_bracket_subrange(s@, b as int);
    }
    s.substring_char(0, b)
}

/// The marketing name an NVIDIA device description yields: the `GeForce`
/// run of the main text, else a bracket naming GeForce, RTX or GTX, else
/// a generic label.
pub open spec fn spec_parse_nvidia(d: Seq<char>) -> Seq<char> {
    if spec_contains(d, "GeForce"@) {
        let after = d.subrange(spec_find_sub(d, "GeForce"@) as int, d.len() as int);
        spec_trim_end_bracket(spec_trim(spec_cut_brackets_parens(after)))
    } else {
        let b = spec_last_bracket(d);
        if b is Some && (spec_contains(b.unwrap(), "GeForce"@)
            || spec_contains(b.unwrap(), "RTX"@) || spec_contains(b.unwrap(), "GTX"@)) {
            b.unwrap()
        } else {
            "NVIDIA GPU"@
        }
    }
}

/// Name an NVIDIA GPU from its device description.
pub fn parse_nvidia_gpu(description: &str) -> (r: Option<String>)
    ensures
        match r {
            Some(v) => v@ == spec_parse_nvidia(description@),
            None => false,
        },
{
    let n = description.unicode_len();
    match str_find_first(description, "GeForce") {
        Some(pos) => {
            let after = description.substring_char(pos, n);
            let part = trim_end_bracket(str_trim(cut_brackets_parens(after)));
            let mut owned = String::new();
            owned.append(part);
            return Some(owned);
        },
        None => {},
    }
    match last_bracket(description) {
        Some(c) => {
            if str_contains(c.as_str(), "GeForce") || str_contains(c.as_str(), "RTX")
                || str_contains(c.as_str(), "GTX") {
                return Some(c);
            }
        },
        None => {},
    }
    Some("NVIDIA GPU".to_owned())
}

/// The marketing name an Intel device description yields: the vendor
/// prefix dropped, cut at a bracket when a known family term occurs.
pub open spec fn spec_parse_intel(d: Seq<char>) -> Seq<char> {
    let cleaned = spec_replace_all(d, "Intel Corporation "@, ""@);
    if spec_contains(cleaned, "UHD Graphics"@) || spec_contains(cleaned, "HD Graphics"@)
        || spec_contains(cleaned, "Iris"@) || spec_contains(cleaned, "Arc"@) {
        "Intel "@ + spec_trim(cleaned.subrange(
            0, spec_find_sub(cleaned, " ["@) as int))
    } else {
        "Intel "@ + spec_trim(cleaned)
    }
}

/// Name an Intel GPU from its device description.
pub fn parse_intel_gpu(description: &str) -> (r: Option<String>)
    ensures
        match r {
            Some(v) => v@ == spec_parse_intel(description@),
            None => false,
        },
{
    let cleaned = str_replace_all(description, "Intel Corporation ", "");
    let nc = cleaned.as_str().unicode_len();
    let mut r = String::new();
    r.append("Intel ");
    if str_contains(cleaned.as_str(), "UHD Graphics")
        || str_contains(cleaned.as_str(), "HD Graphics")
        || str_contains(cleaned.as_str(), "Iris")
        || str_contains(cleaned.as_str(), "Arc") {
        let cut = match str_find_first(cleaned.as_str(), " [") {
            Some(i) => i,
            None => nc,
        };
        let piece = cleaned.as_str().substring_char(0, cut);
        let t = str_trim(piece);
        r.append(t);
        proof {
            assert(r@ =~= spec_parse_intel(description@));
        }
        Some(r)
    } else {
        let t = str_trim(cleaned.as_str());
        r.append(t);
        proof {
            assert(r@ =~= spec_parse_intel(description@));
        }
        Some(r)
    }
}

/// The model name a cleaned device description yields, dispatching on the
/// vendor named in it; a non-vendor bracket or the raw text otherwise.
pub open spec fn spec_extract_gpu_model(d: Seq<char>) -> Seq<char> {
    if spec_contains(d, "AMD"@) || spec_contains(d, "Advanced Micro Devices"@) {
        spec_parse_amd(d)
    } else if spec_contains(d, "NVIDIA"@) || spec_contains(d, "GeForce"@) {
        spec_parse_nvidia(d)
    } else if spec_contains(d, "Intel"@) {
        spec_parse_intel(d)
    } else {
        let b = spec_last_bracket(d);
        if b is Some && !spec_contains(b.unwrap(), "/"@) && b.unwrap().len() > 3 {
            b.unwrap()
        } else {
            d
        }
    }
}

/// Extract the GPU model name from a cleaned device description.
pub fn extract_gpu_model_name(gpu_description: &str) -> (r: Option<String>)
    ensures
        match r {
            Some(v) => v@ == spec_extract_gpu_model(gpu_description@),
            None => false,
        },
{
    if str_contains(gpu_description, "AMD")
        || str_contains(gpu_description, "Advanced Micro Devices") {
        parse_amd_gpu(gpu_description)
    } else if str_contains(gpu_description, "NVIDIA")
        || str_contains(gpu_description, "GeForce") {
        parse_nvidia_gpu(gpu_description)
    } else if str_contains(gpu_description, "Intel") {
        parse_intel_gpu(gpu_description)
    } else {
        match last_bracket(gpu_description) {
            Some(c) => {
                if !str_contains(c.as_str(), "/") && c.as_str().unicode_len() > 3 {
                    return Some(c);
                }
                let mut owned = String::new();
                owned.append(gpu_description);
                Some(owned)
            },
            None => {
                let mut owned = String::new();
                owned.append(gpu_description);
                Some(owned)
            },
        }
    }
}

/// Whether a listing line and extracted name point at integrated
/// graphics: an `integrated` mention, a known integrated family or
/// codename, or the typical integrated bus address on an Intel line.
pub open spec fn spec_is_integrated(line: Seq<char>, name: Seq<char>) -> bool {
    let ll = spec_lower(line);
    let nl = spec_lower(name);
    spec_contains(ll, "integrated"@) || spec_contains(nl, "integrated"@)
        || spec_contains(nl, "raphael"@) || spec_contains(nl, "renoir"@)
        || spec_contains(nl, "cezanne"@) || spec_contains(nl, "iris"@)
        || spec_contains(nl, "uhd"@) || spec_contains(nl, "hd graphics"@)
        || (spec_starts_with(line, "00:02.0"@) && spec_contains(ll, "intel"@))
}

/// The classification tag for one listing line and name.
pub open spec fn spec_gpu_type_tag(line: Seq<char>, name: Seq<char>) -> Seq<char> {
    if spec_is_integrated(line, name) { " [Integrated]"@ } else { " [Discrete]"@ }
}

/// Tag a GPU as integrated or discrete.
pub fn detect_gpu_type(lspci_line: &str, gpu_name: &str) -> (r: String)
    ensures
        r@ == spec_gpu_type_tag(lspci_line@, gpu_name@),
{
    let ll = to_lower(lspci_line);
    let nl = to_lower(gpu_name);
    if str_contains(ll.as_str(), "integrated") || str_contains(nl.as_str(), "integrated")
        || str_contains(nl.as_str(), "raphael") || str_contains(nl.as_str(), "renoir")
        || str_contains(nl.as_str(), "cezanne") || str_contains(nl.as_str(), "iris")
        || str_contains(nl.as_str(), "uhd") || str_contains(nl.as_str(), "hd graphics")
        || (str_starts_with(lspci_line, "00:02.0") && str_contains(ll.as_str(), "intel")) {
        " [Integrated]".to_owned()
    } else {
        " [Discrete]".to_owned()
    }
}

/// What one listing line contributes: the text after the last colon with
/// revision trailers dropped, named and tagged.
pub open spec fn spec_gpu_from_lspci(line: Seq<char>) -> Option<Seq<char>> {
    let cp = crate::strutil::spec_rfind_char(line, ':');
    if cp < 0 {
        None
    } else {
        let part = spec_trim(line.subrange(cp + 1, line.len() as int));
        let cleaned = spec_trim(part.subrange(0, spec_find_sub(part, " (rev "@) as int));
        let name = spec_extract_gpu_model(cleaned);
        Some(name + spec_gpu_type_tag(line, name))
    }
}

/// Parse one listing line into a tagged GPU name.
pub fn parse_gpu_from_lspci(line: &str) -> (r: Option<String>)
    ensures
        match r {
            Some(v) => spec_gpu_from_lspci(line@) == Some(v@),
            None => spec_gpu_from_lspci(line@) is None,
        },
{
    let n = line.unicode_len();
    match crate::strutil::rfind_char(line, ':') {
        None => None,
        Some(cp) => {
            let part = str_trim(line.substring_char(cp + 1, n));
            let np = part.unicode_len();
            let cut = match str_find_first(part, " (rev ") {
                Some(i) => i,
                None => np,
            };
            let cleaned = str_trim(part.substring_char(0, cut));
            match extract_gpu_model_name(cleaned) {
                Some(name) => {
                    let tag = detect_gpu_type(line, name.as_str());
                    let mut out = name;
                    out.append(tag.as_str());
                    Some(out)
                },
                None => None,
            }
        },
    }
}

/// One graphics-card entry of the DRM device tree: its directory name
/// and the contents of the files under it that could be read.
#[derive(Debug, Clone)]
pub struct DrmCard {
    pub dir_name: String,
    pub name: Option<String>,
    pub vendor: Option<String>,
    pub device_id: Option<String>,
    pub bus: Option<String>,
}

/// A directory entry that names a whole card: `card` followed by no dash.
pub open spec fn spec_is_card_dir(n: Seq<char>) -> bool {
    spec_starts_with(n, "card"@) && !spec_contains(n, "-"@)
}

/// Whether a DRM card is integrated: an Intel vendor id, or the typical
/// integrated bus address.
pub open spec fn spec_card_integrated(c: DrmCard) -> bool {
    (c.vendor is Some && spec_trim(c.vendor.unwrap()@) == "0x8086"@)
        || (c.bus is Some && spec_contains(c.bus.unwrap()@, "0000:00:02"@))
}

fn card_integrated(c: &DrmCard) -> (r: bool)
    ensures
        r == spec_card_integrated(*c),
{
    match &c.vendor {
        Some(v) => {
            if str_eq(str_trim(v.as_str()), "0x8086") {
                return true;
            }
        },
        None => {},
    }
    match &c.bus {
        Some(b) => str_contains(b.as_str(), "0000:00:02"),
        None => false,
    }
}

/// What one DRM card contributes: its trimmed device name, tagged.
pub open spec fn spec_card_gpu(c: DrmCard) -> Option<Seq<char>> {
    if spec_is_card_dir(c.dir_name@) && c.name is Some
        && spec_trim(c.name.unwrap()@).len() > 0 {
        let tag: Seq<char> = if spec_card_integrated(c) {
            " [Integrated]"@
        } else {
            " [Discrete]"@
        };
        Some(spec_trim(c.name.unwrap()@) + tag)
    } else {
        None
    }
}

/// The tagged names all the DRM cards contribute, in order.
pub open spec fn spec_sysfs_gpus(cards: Seq<DrmCard>) -> Seq<Seq<char>>
    decreases cards.len(),
{
    if cards.len() == 0 {
        Seq::empty()
    } else {
        let rest = spec_sysfs_gpus(cards.subrange(0, cards.len() - 1));
        match spec_card_gpu(cards[cards.len() - 1]) {
            Some(g) => rest.push(g),
            None => rest,
        }
    }
}

/// A listing line that names a graphics device.
pub open spec fn spec_is_gpu_line(l: Seq<char>) -> bool {
    spec_contains(l, "VGA compatible controller"@) || spec_contains(l, "3D controller"@)
        || spec_contains(l, "Display controller"@)
}

/// The tagged names the listing lines contribute, in order.
pub open spec fn spec_lspci_gpus(ls: Seq<Seq<char>>) -> Seq<Seq<char>>
    decreases ls.len(),
{
    if ls.len() == 0 {
        Seq::empty()
    } else {
        let rest = spec_lspci_gpus(ls.subrange(0, ls.len() - 1));
        let l = ls[ls.len() - 1];
        if spec_is_gpu_line(l) {
            match spec_gpu_from_lspci(l) {
                Some(g) => rest.push(g),
                None => rest,
            }
        } else {
            rest
        }
    }
}

/// The elements for which membership of the `Integrated` tag matches
/// `want`, in their original order.
pub open spec fn spec_keep_by_tag(s: Seq<Seq<char>>, want: bool) -> Seq<Seq<char>>
    decreases s.len(),
{
    if s.len() == 0 {
        Seq::empty()
    } else {
        let rest = spec_keep_by_tag(s.subrange(0, s.len() - 1), want);
        if spec_contains(s[s.len() - 1], "Integrated"@) == want {
            rest.push(s[s.len() - 1])
        } else {
            rest
        }
    }
}

/// The discrete-first order: every entry without the `Integrated` tag,
/// in order, then every entry with it, in order.
pub open spec fn spec_sorted_gpus(s: Seq<Seq<char>>) -> Seq<Seq<char>> {
    spec_keep_by_tag(s, false) + spec_keep_by_tag(s, true)
}

/// Order a GPU list discrete-first, keeping the relative order within
/// each class.
pub fn sort_gpus(gpus: Vec<String>) -> (r: Vec<String>)
    ensures
        spec_lines_view(r@) == spec_sorted_gpus(spec_lines_view(gpus@)),
{
    let ghost views = spec_lines_view(gpus@);
    let n = gpus.len();
    let mut discrete: Vec<String> = Vec::new();
    let mut integrated: Vec<String> = Vec::new();
    let mut i: usize = 0;
    while i < n
        invariant
            n == gpus@.len(),
            i <= n,
            views == spec_lines_view(gpus@),
            discrete@.len() == spec_keep_by_tag(views.subrange(0, i as int), false).len(),
            forall|k: int| 0 <= k < discrete@.len() ==> discrete@[k]@ == spec_keep_by_tag(
                views.subrange(0, i as int), false)[k],
            integrated@.len() == spec_keep_by_tag(views.subrange(0, i as int), true).len(),
            forall|k: int| 0 <= k < integrated@.len() ==> integrated@[k]@ == spec_keep_by_tag(
                views.subrange(0, i as int), true)[k],
        decreases n - i,
    {
        let item = gpus[i].clone();
        proof {
            assert(item@ == views[i as int]);
            assert(views.subrange(0, i + 1).subrange(0, i as int)
                =~= views.subrange(0, i as int));
            assert(views.subrange(0, i + 1)[i as int] == views[i as int]);
        }
        if str_contains(item.as_str(), "Integrated") {
            integrated.push(item);
        } else {
            discrete.push(item);
        }
        i = i + 1;
    }
    proof {
        assert(views.subrange(0, n as int) =~= views);
    }
    let mut r = discrete;
    let nd = r.len();
    let mut j: usize = 0;
    let ni = integrated.len();
    while j < ni
        invariant
            ni == integrated@.len(),
            j <= ni,
            r@.len() == nd + j,
            nd == spec_keep_by_tag(views, false).len(),
            forall|k: int| 0 <= k < nd ==> r@[k]@ == spec_keep_by_tag(views, false)[k],
            forall|k: int| 0 <= k < ni ==> integrated@[k]@ == spec_keep_by_tag(views, true)[k],
            forall|k: int| 0 <= k < j ==> r@[nd + k]@ == spec_keep_by_tag(views, true)[k],
        decreases ni - j,
    {
        let item = integrated[j].clone();
        r.push(item);
        j = j + 1;
    }
    proof {
        assert(spec_keep_by_tag(views, true).len() + spec_keep_by_tag(views, false).len()
            == r@.len()) by {
            lemma_keep_lens(views);
        }
        assert(spec_lines_view(r@) =~= spec_sorted_gpus(views));
    }
    r
}

proof fn lemma_keep_lens(s: Seq<Seq<char>>)
    ensures
        spec_keep_by_tag(s, false).len() + spec_keep_by_tag(s, true).len() == s.len(),
    decreases s.len(),
{
    if s.len() > 0 {
        lemma_keep_lens(s.subrange(0, s.len() - 1));
    }
}

proof fn lemma_keep_members(s: Seq<Seq<char>>, want: bool)
    ensures
        forall|k: int| 0 <= k < spec_keep_by_tag(s, want).len()
            ==> spec_contains(#[trigger] spec_keep_by_tag(s, want)[k], "Integrated"@)
                == want,
    decreases s.len(),
{
    if s.len() > 0 {
        let front = s.subrange(0, s.len() - 1);
        lemma_keep_members(front, want);
        let kept = spec_keep_by_tag(s, want);
        let kf = spec_keep_by_tag(front, want);
        assert forall|k: int| 0 <= k < kept.len()
            implies spec_contains(#[trigger] kept[k], "Integrated"@) == want by {
            if spec_contains(s[s.len() - 1], "Integrated"@) == want {
                assert(kept == kf.push(s[s.len() - 1]));
                if k < kf.len() {
                    assert(kept[k] == kf[k]);
                } else {
                    assert(kept[k] == s[s.len() - 1]);
                }
            } else {
                assert(kept == kf);
                assert(kept[k] == kf[k]);
            }
        }
    }
}

/// Discrete entries sort before integrated ones: in the sorted list, no
/// entry tagged `Integrated` ever precedes one that is not.
pub proof fn lemma_sorted_gpus_discrete_first(s: Seq<Seq<char>>, i: int, j: int)
    requires
        0 <= i < j < spec_sorted_gpus(s).len(),
        spec_contains(spec_sorted_gpus(s)[i], "Integrated"@),
    ensures
        spec_contains(spec_sorted_gpus(s)[j], "Integrated"@),
{
    lemma_keep_members(s, false);
    lemma_keep_members(s, true);
    let nd = spec_keep_by_tag(s, false).len();
    if i < nd {
        assert(spec_sorted_gpus(s)[i] == spec_keep_by_tag(s, false)[i]);
        assert(false);
    }
    assert(spec_sorted_gpus(s)[j] == spec_keep_by_tag(s, true)[j - nd]);
}

/// Detect the GPUs: the DRM device tree first, tagged and sorted
/// discrete-first; the device listing as a fallback; empty when both are
/// silent.
pub fn detect_all_gpus(cards: &Vec<DrmCard>, lspci_output: &Option<String>) -> (r: Vec<
    String,
>)
    ensures
        ({
            let from_sysfs = spec_sysfs_gpus(cards@);
            let from_lspci = match lspci_output {
                Some(out) => spec_lspci_gpus(spec_lines(out@)),
                None => Seq::<Seq<char>>::empty(),
            };
            let picked = if from_sysfs.len() > 0 {
                spec_sorted_gpus(from_sysfs)
            } else if from_lspci.len() > 0 {
                spec_sorted_gpus(from_lspci)
            } else {
                Seq::<Seq<char>>::empty()
            };
            spec_lines_view(r@) == picked
        }),
{
    let ghost from_sysfs = spec_sysfs_gpus(cards@);
    let n = cards.len();
    let mut gpus: Vec<String> = Vec::new();
    let mut i: usize = 0;
    while i < n
        invariant
            n == cards@.len(),
            i <= n,
            gpus@.len() == spec_sysfs_gpus(cards@.subrange(0, i as int)).len(),
            forall|k: int| 0 <= k < gpus@.len() ==> gpus@[k]@ == spec_sysfs_gpus(
                cards@.subrange(0, i as int))[k],
        decreases n - i,
    {
        let c = &cards[i];
        proof {
            assert(cards@.subrange(0, i + 1).subrange(0, i as int)
                =~= cards@.subrange(0, i as int));
            assert(cards@.subrange(0, i + 1)[i as int] == cards@[i as int]);
        }
        if str_starts_with(c.dir_name.as_str(), "card")
            && !str_contains(c.dir_name.as_str(), "-") {
            match &c.name {
                Some(nm) => {
                    let t = str_trim(nm.as_str());
                    if t.unicode_len() > 0 {
                        let mut entry = String::new();
                        entry.append(t);
                        if card_integrated(c) {
                            entry.append(" [Integrated]");
                        } else {
                            entry.append(" [Discrete]");
                        }
                        proof {
                            assert(entry@ =~= spec_card_gpu(cards@[i as int]).unwrap());
                        }
                        gpus.push(entry);
                    }
                },
                None => {},
            }
        }
        i = i + 1;
    }
    proof {
        assert(cards@.subrange(0, n as int) =~= cards@);
    }
    if gpus.len() > 0 {
        proof {
            assert(spec_lines_view(gpus@) =~= from_sysfs);
        }
        return sort_gpus(gpus);
    }
    match lspci_output {
        Some(out) => {
            let ghost all = spec_lines(out@);
            let lines = split_lines(out.as_str());
            let m = lines.len();
            let mut found: Vec<String> = Vec::new();
            let mut j: usize = 0;
            while j < m
                invariant
                    m == lines@.len(),
                    j <= m,
                    m == all.len(),
                    forall|k: int| 0 <= k < m ==> lines@[k]@ == all[k],
                    found@.len() == spec_lspci_gpus(all.subrange(0, j as int)).len(),
                    forall|k: int| 0 <= k < found@.len() ==> found@[k]@ == spec_lspci_gpus(
                        all.subrange(0, j as int))[k],
                decreases m - j,
            {
                let line = lines[j].as_str();
                proof {
                    assert(all.subrange(0, j + 1).subrange(0, j as int)
                        =~= all.subrange(0, j as int));
                    assert(all.subrange(0, j + 1)[j as int] == all[j as int]);
                }
                if str_contains(line, "VGA compatible controller")
                    || str_contains(line, "3D controller")
                    || str_contains(line, "Display controller") {
                    match parse_gpu_from_lspci(line) {
                        Some(g) => {
                            found.push(g);
                        },
                        None => {},
                    }
                }
                j = j + 1;
            }
            proof {
                assert(all.subrange(0, m as int) =~= all);
            }
            if found.len() > 0 {
                proof {
                    assert(spec_lines_view(found@) =~= spec_lspci_gpus(all));
                }
                sort_gpus(found)
            } else {
                let r: Vec<String> = Vec::new();
                proof {
                    assert(spec_lines_view(r@) =~= Seq::<Seq<char>>::empty());
                }
                r
            }
        },
        None => {
            let r: Vec<String> = Vec::new();
            proof {
                assert(spec_lines_view(r@) =~= Seq::<Seq<char>>::empty());
            }
            r
        },
    }
}

/// What one DRM card contributes to the exact AMD model lookup: a whole
/// card with an AMD vendor id whose device id the marketing table knows.
pub open spec fn spec_card_amd_model(c: DrmCard) -> Option<Seq<char>> {
    if spec_is_card_dir(c.dir_name@) && c.vendor is Some && c.device_id is Some
        && spec_trim(c.vendor.unwrap()@) == "0x1002"@ {
        match spec_amd_device_name(spec_trim(c.device_id.unwrap()@)) {
            Some(m) => Some("AMD "@ + m),
            None => None,
        }
    } else {
        None
    }
}

/// The first exact AMD model the DRM cards yield.
pub open spec fn spec_exact_amd_model(cards: Seq<DrmCard>) -> Option<Seq<char>> {
    if exists|i: int| 0 <= i < cards.len() && spec_card_amd_model(cards[i]) is Some {
        spec_card_amd_model(cards[choose|i: int|
            0 <= i < cards.len() && spec_card_amd_model(cards[i]) is Some
                && forall|j: int| 0 <= j < i ==> spec_card_amd_model(cards[j]) is None])
    } else {
        None
    }
}

/// Name the exact AMD model from the DRM cards' vendor and device ids.
pub fn get_exact_amd_model_from_sysfs(cards: &Vec<DrmCard>) -> (r: Result<
    String,
    SwiftfetchError,
>)
    ensures
        match r {
            Ok(v) => exists|i: int|
                0 <= i < cards@.len() && spec_card_amd_model(cards@[i]) == Some(v@)
                    && forall|j: int| 0 <= j < i ==> spec_card_amd_model(cards@[j]) is None,
            Err(e) => (forall|i: int|
                0 <= i < cards@.len() ==> spec_card_amd_model(cards@[i]) is None)
                && (e matches SwiftfetchError::Detection(m)
                    && m@ == "AMD GPU not found in sysfs"@),
        },
{
    let n = cards.len();
    let mut i: usize = 0;
    while i < n
        invariant
            n == cards@.len(),
            i <= n,
            forall|j: int| 0 <= j < i ==> spec_card_amd_model(cards@[j]) is None,
        decreases n - i,
    {
        let c = &cards[i];
        if str_starts_with(c.dir_name.as_str(), "card")
            && !str_contains(c.dir_name.as_str(), "-") {
            match (&c.vendor, &c.device_id) {
                (Some(vendor), Some(device)) => {
                    if str_eq(str_trim(vendor.as_str()), "0x1002") {
                        match amd_device_id_to_name(str_trim(device.as_str())) {
                            Some(model) => {
                                let mut out = String::new();
                                out.append("AMD ");
                                out.append(model.as_str());
                                proof {
                                    assert(out@ =~= spec_card_amd_model(
                                        cards@[i as int]).unwrap());
                                }
                                return Ok(out);
                            },
                            None => {
                                assert(spec_card_amd_model(cards@[i as int]) is None);
                            },
                        }
                    } else {
                        assert(spec_card_amd_model(cards@[i as int]) is None);
                    }
                },
                _ => {
                    assert(spec_card_amd_model(cards@[i as int]) is None);
                },
            }
        } else {
            assert(spec_card_amd_model(cards@[i as int]) is None);
        }
        i = i + 1;
    }
    Err(SwiftfetchError::Detection("AMD GPU not found in sysfs".to_owned()))
}

/// The marketing names of a few known AMD device ids.
pub open spec fn spec_amd_device_name(id: Seq<char>) -> Option<Seq<char>> {
    if id == "0x7480"@ { Some("Radeon RX 7800 XT"@) }
    else if id == "0x7479"@ { Some("Radeon RX 7700 XT"@) }
    else if id == "0x73bf"@ { Some("Radeon RX 6800 XT"@) }
    else if id == "0x73df"@ { Some("Radeon RX 6700 XT"@) }
    else { None }
}

/// Look a known AMD device id up in the small marketing-name table.
pub fn amd_device_id_to_name(device_id: &str) -> (r: Option<String>)
    ensures
        match r {
            Some(v) => spec_amd_device_name(device_id@) == Some(v@),
            None => spec_amd_device_name(device_id@) is None,
        },
{
    if str_eq(device_id, "0x7480") {
        Some("Radeon RX 7800 XT".to_owned())
    } else if str_eq(device_id, "0x7479") {
        Some("Radeon RX 7700 XT".to_owned())
    } else if str_eq(device_id, "0x73bf") {
        Some("Radeon RX 6800 XT".to_owned())
    } else if str_eq(device_id, "0x73df") {
        Some("Radeon RX 6700 XT".to_owned())
    } else {
        None
    }
}

/// The label a vendor/device id pair yields.
pub open spec fn spec_gpu_by_ids(vendor: Seq<char>, device: Seq<char>) -> Seq<char> {
    if vendor == "0x10de"@ {
        "NVIDIA GPU ("@ + device + ")"@
    } else if vendor == "0x1002"@ {
        match spec_amd_device_name(device) {
            Some(m) => "AMD "@ + m,
            None => "AMD GPU ("@ + device + ")"@,
        }
    } else if vendor == "0x8086"@ {
        "Intel GPU ("@ + device + ")"@
    } else {
        "GPU ("@ + vendor + "/"@ + device + ")"@
    }
}

/// Name a GPU from its vendor and device ids alone.
pub fn lookup_gpu_by_ids(vendor_id: &str, device_id: &str) -> (r: Option<String>)
    ensures
        match r {
            Some(v) => v@ == spec_gpu_by_ids(vendor_id@, device_id@),
            None => false,
        },
{
    let mut out = String::new();
    if str_eq(vendor_id, "0x10de") {
        out.append("NVIDIA GPU (");
        out.append(device_id);
        out.append(")");
        proof {
            assert(out@ =~= spec_gpu_by_ids(vendor_id@, device_id@));
        }
        Some(out)
    } else if str_eq(vendor_id, "0x1002") {
        match amd_device_id_to_name(device_id) {
            Some(m) => {
                out.append("AMD ");
                out.append(m.as_str());
                proof {
                    assert(out@ =~= spec_gpu_by_ids(vendor_id@, device_id@));
                }
                Some(out)
            },
            None => {
                out.append("AMD GPU (");
                out.append(device_id);
                out.append(")");
                proof {
                    assert(out@ =~= spec_gpu_by_ids(vendor_id@, device_id@));
                }
                Some(out)
            },
        }
    } else if str_eq(vendor_id, "0x8086") {
        out.append("Intel GPU (");
        out.append(device_id);
        out.append(")");
        proof {
            assert(out@ =~= spec_gpu_by_ids(vendor_id@, device_id@));
        }
        Some(out)
    } else {
        out.append("GPU (");
        out.append(vendor_id);
        out.append("/");
        out.append(device_id);
        out.append(")");
        proof {
            assert(out@ =~= spec_gpu_by_ids(vendor_id@, device_id@));
        }
        Some(out)
    }
}

/// The primary GPU: the first of the detected list, or the sentinel.
pub fn detect_gpu(gpus: &Vec<String>) -> (r: String)
    ensures
        gpus@.len() == 0 ==> r@ == "Unknown GPU"@,
        gpus@.len() > 0 ==> r@ == gpus@[0]@,
{
    if gpus.len() == 0 {
        "Unknown GPU".to_owned()
    } else {
        gpus[0].clone()
    }
}

/// Assemble the GPU fact from the detected list. The fact's list is
/// never empty: total detection failure leaves the single sentinel
/// entry, and the primary GPU is always the list's first element.
pub fn collect_gpu_info(all_gpus: Vec<String>) -> (r: crate::data::GpuInfo)
    ensures
        all_gpus@.len() == 0 ==> spec_lines_view(r.all_gpus@) == seq!["Unknown GPU"@],
        all_gpus@.len() > 0 ==> spec_lines_view(r.all_gpus@) == spec_lines_view(all_gpus@),
        r.all_gpus@.len() >= 1,
        r.primary@ == r.all_gpus@[0]@,
{
    if all_gpus.len() == 0 {
        let mut list: Vec<String> = Vec::new();
        list.push("Unknown GPU".to_owned());
        let primary = list[0].clone();
        proof {
            assert(spec_lines_view(list@) =~= seq!["Unknown GPU"@]);
        }
        crate::data::GpuInfo { primary, all_gpus: list }
    } else {
        let primary = all_gpus[0].clone();
        crate::data::GpuInfo { primary, all_gpus }
    }
}

} // verus!
