//! Small text utilities shared by the collectors: key/value extraction,
//! uptime formatting and GPU-name cleanup.

use vstd::prelude::*;
use crate::strutil::{
    spec_dec, spec_dec2, spec_trim, spec_find_char, spec_find_sub, spec_replace_all,
    fmt_u64, fmt_u64_pad2, push_char, find_char, str_find_first, str_trim, str_replace_all,
};

verus! {

/// What `extract_after_colon` yields: the trimmed text between the first
/// colon and the one after it (or the end), unless that is empty or there
/// is no colon at all.
pub open spec fn spec_after_colon(s: Seq<char>) -> Option<Seq<char>> {
    let i = spec_find_char(s, ':');
    if i >= s.len() {
        None
    } else {
        let rest = s.subrange(i as int + 1, s.len() as int);
        let j = spec_find_char(rest, ':');
        let t = spec_trim(rest.subrange(0, j as int));
        if t.len() == 0 {
            None
        } else {
            Some(t)
        }
    }
}

/// The value part of a `key: value` line.
pub fn extract_after_colon(line: &str) -> (r: Option<String>)
    ensures
        match r {
            Some(v) => spec_after_colon(line@) == Some(v@),
            None => spec_after_colon(line@) is None,
        },
{
    let n = line.unicode_len();
    match find_char(line, ':') {
        None => None,
        Some(i) => {
            let rest = line.substring_char(i + 1, n);
            let nr = n - (i + 1);
            let j = match find_char(rest, ':') {
                Some(j) => j,
                None => nr,
            };
            let piece = rest.substring_char(0, j);
            proof {
                assert(piece@ =~= rest@.subrange(0, spec_find_char(rest@, ':') as int));
            }
            let t = str_trim(piece);
            if t.unicode_len() == 0 {
                None
            } else {
                let mut owned = String::new();
                owned.append(t);
                Some(owned)
            }
        },
    }
}

/// How an uptime in seconds is displayed: `"{h}h {mm:02}m"` when there is
/// at least a full hour, else just `"{m}m"`.
pub open spec fn spec_format_uptime(seconds: nat) -> Seq<char> {
    let hours = seconds / 3600;
    let minutes = (seconds % 3600) / 60;
    if hours > 0 {
        spec_dec(hours) + seq!['h', ' '] + spec_dec2(minutes) + seq!['m']
    } else {
        spec_dec(minutes) + seq!['m']
    }
}

/// Format an uptime given in whole seconds.
pub fn format_uptime(seconds: u64) -> (r: String)
    ensures
        r@ == spec_format_uptime(seconds as nat),
{
    let hours = seconds / 3600;
    let minutes = (seconds % 3600) / 60;
    if hours > 0 {
        let mut r = fmt_u64(hours);
        push_char(&mut r, 'h');
        push_char(&mut r, ' ');
        let mm = fmt_u64_pad2(minutes);
        r.append(mm.as_str());
        push_char(&mut r, 'm');
        assert(r@ =~= spec_format_uptime(seconds as nat));
        r
    } else {
        let mut r = fmt_u64(minutes);
        push_char(&mut r, 'm');
        assert(r@ =~= spec_format_uptime(seconds as nat));
        r
    }
}

/// What `clean_gpu_name` yields: vendor boilerplate replaced, the text cut
/// at the first ` [`, and the result trimmed.
pub open spec fn spec_clean_gpu_name(s: Seq<char>) -> Seq<char> {
    let s1 = spec_replace_all(s, "Corporation"@, ""@);
    let s2 = spec_replace_all(s1, "Advanced Micro Devices, Inc."@, "AMD"@);
    spec_trim(s2.subrange(0, spec_find_sub(s2, " ["@) as int))
}

/// Strip vendor boilerplate and bracketed trailers from a raw GPU name.
pub fn clean_gpu_name(raw_name: &str) -> (r: String)
    ensures
        r@ == spec_clean_gpu_name(raw_name@),
{
    let s1 = str_replace_all(raw_name, "Corporation", "");
    let s2 = str_replace_all(s1.as_str(), "Advanced Micro Devices, Inc.", "AMD");
    let n2 = s2.as_str().unicode_len();
    let cut = match str_find_first(s2.as_str(), " [") {
        Some(i) => i,
        None => n2,
    };
    let piece = s2.as_str().substring_char(0, cut);
    let t = str_trim(piece);
    let mut owned = String::new();
    owned.append(t);
    owned
}

} // verus!
