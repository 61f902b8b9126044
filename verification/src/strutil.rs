//! Verified helpers for the character-sequence work the rest of the crate
//! builds on: decimal rendering, case folding, searching and trimming.

use vstd::prelude::*;

verus! {

/// The decimal digit character for a value below ten.
pub open spec fn digit_char(d: nat) -> char {
    if d == 0 { '0' }
    else if d == 1 { '1' }
    else if d == 2 { '2' }
    else if d == 3 { '3' }
    else if d == 4 { '4' }
    else if d == 5 { '5' }
    else if d == 6 { '6' }
    else if d == 7 { '7' }
    else if d == 8 { '8' }
    else { '9' }
}

/// The usual base-ten rendering of `n`, with no leading zeros
/// (a single `'0'` for zero itself).
pub open spec fn spec_dec(n: nat) -> Seq<char>
    decreases n,
{
    if n < 10 {
        seq![digit_char(n)]
    } else {
        spec_dec(n / 10).push(digit_char(n % 10))
    }
}

/// The character for a single decimal digit.
pub fn digit_of(d: u64) -> (c: char)
    requires
        d < 10,
    ensures
        c == digit_char(d as nat),
{
    if d == 0 { '0' }
    else if d == 1 { '1' }
    else if d == 2 { '2' }
    else if d == 3 { '3' }
    else if d == 4 { '4' }
    else if d == 5 { '5' }
    else if d == 6 { '6' }
    else if d == 7 { '7' }
    else if d == 8 { '8' }
    else { '9' }
}

/// Relies on `String::push`: appends one character at the end.
#[verifier::external_body]
pub fn push_char(s: &mut String, c: char)
    ensures
        final(s)@ == old(s)@.push(c),
{
    s.push(c);
}

/// Render `n` in decimal.
pub fn fmt_u64(n: u64) -> (s: String)
    ensures
        s@ == spec_dec(n as nat),
    decreases n,
{
    if n < 10 {
        let mut s = String::new();
        push_char(&mut s, digit_of(n));
        assert(s@ =~= spec_dec(n as nat));
        s
    } else {
        let mut s = fmt_u64(n / 10);
        push_char(&mut s, digit_of(n % 10));
        s
    }
}

/// Decimal rendering padded with a leading zero to at least two digits.
pub open spec fn spec_dec2(n: nat) -> Seq<char> {
    if n < 10 { seq!['0', digit_char(n)] } else { spec_dec(n) }
}

/// Render `n` in decimal, zero-padded to at least two digits.
pub fn fmt_u64_pad2(n: u64) -> (s: String)
    ensures
        s@ == spec_dec2(n as nat),
{
    if n < 10 {
        let mut s = String::new();
        push_char(&mut s, '0');
        push_char(&mut s, digit_of(n));
        assert(s@ =~= spec_dec2(n as nat));
        s
    } else {
        fmt_u64(n)
    }
}

/// Signed decimal rendering: a minus sign before the magnitude.
pub open spec fn spec_dec_i64(n: int) -> Seq<char> {
    if n < 0 { seq!['-'] + spec_dec((-n) as nat) } else { spec_dec(n as nat) }
}

/// Render a signed value in decimal.
pub fn fmt_i64(n: i64) -> (s: String)
    ensures
        s@ == spec_dec_i64(n as int),
{
    if n >= 0 {
        fmt_u64(n as u64)
    } else {
        let mut s = String::new();
        push_char(&mut s, '-');
        let mag: u64 = if n == i64::MIN {
            0x8000_0000_0000_0000u64
        } else {
            (-n) as u64
        };
        let t = fmt_u64(mag);
        s.append(t.as_str());
        assert(s@ =~= spec_dec_i64(n as int));
        s
    }
}

/// ASCII lower-casing of a single character; anything outside `A`..`Z`
/// is left unchanged.
pub open spec fn lower_char(c: char) -> char {
    if c == 'A' { 'a' } else if c == 'B' { 'b' } else if c == 'C' { 'c' }
    else if c == 'D' { 'd' } else if c == 'E' { 'e' } else if c == 'F' { 'f' }
    else if c == 'G' { 'g' } else if c == 'H' { 'h' } else if c == 'I' { 'i' }
    else if c == 'J' { 'j' } else if c == 'K' { 'k' } else if c == 'L' { 'l' }
    else if c == 'M' { 'm' } else if c == 'N' { 'n' } else if c == 'O' { 'o' }
    else if c == 'P' { 'p' } else if c == 'Q' { 'q' } else if c == 'R' { 'r' }
    else if c == 'S' { 's' } else if c == 'T' { 't' } else if c == 'U' { 'u' }
    else if c == 'V' { 'v' } else if c == 'W' { 'w' } else if c == 'X' { 'x' }
    else if c == 'Y' { 'y' } else if c == 'Z' { 'z' } else { c }
}

/// ASCII upper-casing of a single character.
pub open spec fn upper_char(c: char) -> char {
    if c == 'a' { 'A' } else if c == 'b' { 'B' } else if c == 'c' { 'C' }
    else if c == 'd' { 'D' } else if c == 'e' { 'E' } else if c == 'f' { 'F' }
    else if c == 'g' { 'G' } else if c == 'h' { 'H' } else if c == 'i' { 'I' }
    else if c == 'j' { 'J' } else if c == 'k' { 'K' } else if c == 'l' { 'L' }
    else if c == 'm' { 'M' } else if c == 'n' { 'N' } else if c == 'o' { 'O' }
    else if c == 'p' { 'P' } else if c == 'q' { 'Q' } else if c == 'r' { 'R' }
    else if c == 's' { 'S' } else if c == 't' { 'T' } else if c == 'u' { 'U' }
    else if c == 'v' { 'V' } else if c == 'w' { 'W' } else if c == 'x' { 'X' }
    else if c == 'y' { 'Y' } else if c == 'z' { 'Z' } else { c }
}

/// ASCII lower-casing applied to every character.
pub open spec fn spec_lower(s: Seq<char>) -> Seq<char> {
    Seq::new(s.len(), |i: int| lower_char(s[i]))
}

fn lower_char_of(c: char) -> (r: char)
    ensures
        r == lower_char(c),
{
    if c == 'A' { 'a' } else if c == 'B' { 'b' } else if c == 'C' { 'c' }
    else if c == 'D' { 'd' } else if c == 'E' { 'e' } else if c == 'F' { 'f' }
    else if c == 'G' { 'g' } else if c == 'H' { 'h' } else if c == 'I' { 'i' }
    else if c == 'J' { 'j' } else if c == 'K' { 'k' } else if c == 'L' { 'l' }
    else if c == 'M' { 'm' } else if c == 'N' { 'n' } else if c == 'O' { 'o' }
    else if c == 'P' { 'p' } else if c == 'Q' { 'q' } else if c == 'R' { 'r' }
    else if c == 'S' { 's' } else if c == 'T' { 't' } else if c == 'U' { 'u' }
    else if c == 'V' { 'v' } else if c == 'W' { 'w' } else if c == 'X' { 'x' }
    else if c == 'Y' { 'y' } else if c == 'Z' { 'z' } else { c }
}

/// ASCII lower-casing of a whole string.
pub fn to_lower(s: &str) -> (r: String)
    ensures
        r@ == spec_lower(s@),
{
    let n = s.unicode_len();
    let mut r = String::new();
    let mut i: usize = 0;
    while i < n
        invariant
            n == s@.len(),
            i <= n,
            r@ == spec_lower(s@).subrange(0, i as int),
        decreases n - i,
    {
        let c = s.get_char(i);
        push_char(&mut r, lower_char_of(c));
        assert(r@ =~= spec_lower(s@).subrange(0, i + 1));
        i = i + 1;
    }
    assert(r@ =~= spec_lower(s@));
    r
}

/// The Unicode uppercase mapping of one character: one or more
/// characters.
pub uninterp spec fn upper_of(c: char) -> Seq<char>;

/// Relies on `char::to_uppercase`: the Unicode uppercase mapping of the
/// character, one or more characters; an ASCII lowercase letter maps to
/// its single ASCII uppercase form.
#[verifier::external_body]
fn char_to_upper(c: char) -> (r: String)
    ensures
        r@ == upper_of(c),
        r@.len() >= 1,
        97 <= c as u32 && c as u32 <= 122 ==> r@ == seq![upper_char(c)],
{
    c.to_uppercase().collect()
}

/// What capitalisation yields: the first character replaced by its
/// Unicode uppercase mapping (which may expand), and the rest unchanged.
pub open spec fn spec_capitalized(s: Seq<char>) -> Seq<char> {
    if s.len() == 0 {
        s
    } else {
        upper_of(s[0]) + s.subrange(1, s.len() as int)
    }
}

/// Upper-case the first character and keep the rest.
pub fn capitalize_first_letter(s: &str) -> (r: String)
    ensures
        r@ == spec_capitalized(s@),
{
    let n = s.unicode_len();
    if n == 0 {
        let r = String::new();
        assert(r@ =~= s@);
        r
    } else {
        let mut r = char_to_upper(s.get_char(0));
        r.append(s.substring_char(1, n));
        assert(r@ =~= upper_of(s@[0]) + s@.subrange(1, s@.len() as int));
        r
    }
}

/// The character sequences of a list of lines.
pub open spec fn spec_lines_view(ls: Seq<String>) -> Seq<Seq<char>> {
    Seq::new(ls.len(), |i: int| ls[i]@)
}

/// The whitespace characters the parsers recognise.
pub open spec fn is_ws(c: char) -> bool {
    c == ' ' || c == '\t' || c == '\n' || c == '\r'
}

fn is_ws_char(c: char) -> (r: bool)
    ensures
        r == is_ws(c),
{
    c == ' ' || c == '\t' || c == '\n' || c == '\r'
}

/// `s` without its leading whitespace.
pub open spec fn spec_trim_start(s: Seq<char>) -> Seq<char>
    decreases s.len(),
{
    if s.len() > 0 && is_ws(s[0]) {
        spec_trim_start(s.subrange(1, s.len() as int))
    } else {
        s
    }
}

/// `s` without its trailing whitespace.
pub open spec fn spec_trim_end(s: Seq<char>) -> Seq<char>
    decreases s.len(),
{
    if s.len() > 0 && is_ws(s[s.len() - 1]) {
        spec_trim_end(s.subrange(0, s.len() - 1))
    } else {
        s
    }
}

/// `s` without leading and trailing whitespace.
pub open spec fn spec_trim(s: Seq<char>) -> Seq<char> {
    spec_trim_end(spec_trim_start(s))
}

proof fn lemma_trim_start_subrange(s: Seq<char>, i: int)
    requires
        0 <= i <= s.len(),
        forall|j: int| 0 <= j < i ==> is_ws(s[j]),
    ensures
        spec_trim_start(s) == spec_trim_start(s.subrange(i, s.len() as int)),
    decreases i,
{
    if i == 0 {
        assert(s.subrange(0, s.len() as int) =~= s);
    } else {
        assert(s.subrange(1, s.len() as int).subrange(i - 1, s.len() - 1)
            =~= s.subrange(i, s.len() as int));
        lemma_trim_start_subrange(s.subrange(1, s.len() as int), i - 1);
    }
}

proof fn lemma_trim_end_subrange(s: Seq<char>, i: int)
    requires
        0 <= i <= s.len(),
        forall|j: int| i <= j < s.len() ==> is_ws(s[j]),
    ensures
        spec_trim_end(s) == spec_trim_end(s.subrange(0, i)),
    decreases s.len() - i,
{
    if i == s.len() {
        assert(s.subrange(0, s.len() as int) =~= s);
    } else {
        assert(s.subrange(0, s.len() - 1).subrange(0, i) =~= s.subrange(0, i));
        lemma_trim_end_subrange(s.subrange(0, s.len() - 1), i);
    }
}

/// Remove leading and trailing whitespace.
pub fn str_trim<'a>(s: &'a str) -> (r: &'a str)
    ensures
        r@ == spec_trim(s@),
{
    let n = s.unicode_len();
    let mut a: usize = 0;
    while a < n && is_ws_char(s.get_char(a))
        invariant
            n == s@.len(),
            a <= n,
            forall|j: int| 0 <= j < a ==> is_ws(s@[j]),
        decreases n - a,
    {
        a = a + 1;
    }
    proof {
        lemma_trim_start_subrange(s@, a as int);
    }
    let mut b: usize = n;
    while b > a && is_ws_char(s.get_char(b - 1))
        invariant
            n == s@.len(),
            a <= b <= n,
            forall|j: int| b <= j < n ==> is_ws(s@[j]),
        decreases b,
    {
        b = b - 1;
    }
    let ghost t = s@.subrange(a as int, n as int);
    proof {
        if b == a {
            // the remaining piece is all whitespace
            assert(forall|j: int| 0 <= j < t.len() ==> is_ws(t[j]));
            lemma_trim_end_subrange(t, 0);
            assert(t.subrange(0, 0) =~= s@.subrange(a as int, b as int));
        } else {
            assert(!is_ws(s@[b - 1]));
            assert(forall|j: int| b - a <= j < t.len() ==> is_ws(t[j]));
            lemma_trim_end_subrange(t, b - a);
            assert(t.subrange(0, b - a) =~= s@.subrange(a as int, b as int));
            assert(spec_trim_end(s@.subrange(a as int, b as int))
                == s@.subrange(a as int, b as int));
        }
    }
    s.substring_char(a, b)
}

/// Character-wise equality of two string slices.
pub fn str_eq(a: &str, b: &str) -> (r: bool)
    ensures
        r == (a@ == b@),
{
    let na = a.unicode_len();
    let nb = b.unicode_len();
    if na != nb {
        assert(a@ != b@);
        return false;
    }
    let mut i: usize = 0;
    while i < na
        invariant
            na == a@.len(),
            na == b@.len(),
            i <= na,
            forall|j: int| 0 <= j < i ==> a@[j] == b@[j],
        decreases na - i,
    {
        if a.get_char(i) != b.get_char(i) {
            assert(a@ != b@);
            return false;
        }
        i = i + 1;
    }
    assert(a@ =~= b@);
    true
}

/// `p` stands at the front of `s`.
pub open spec fn spec_starts_with(s: Seq<char>, p: Seq<char>) -> bool {
    p.len() <= s.len() && s.subrange(0, p.len() as int) == p
}

/// Does `s` start with `p`?
pub fn str_starts_with(s: &str, p: &str) -> (r: bool)
    ensures
        r == spec_starts_with(s@, p@),
{
    let ns = s.unicode_len();
    let np = p.unicode_len();
    if np > ns {
        return false;
    }
    let mut i: usize = 0;
    while i < np
        invariant
            ns == s@.len(),
            np == p@.len(),
            np <= ns,
            i <= np,
            forall|j: int| 0 <= j < i ==> s@[j] == p@[j],
        decreases np - i,
    {
        if s.get_char(i) != p.get_char(i) {
            assert(s@.subrange(0, p@.len() as int)[i as int] != p@[i as int]);
            return false;
        }
        i = i + 1;
    }
    assert(s@.subrange(0, p@.len() as int) =~= p@);
    true
}

/// `p` stands at the end of `s`.
pub open spec fn spec_ends_with(s: Seq<char>, p: Seq<char>) -> bool {
    p.len() <= s.len() && s.subrange(s.len() - p.len(), s.len() as int) == p
}

/// Does `s` end with `p`?
pub fn str_ends_with(s: &str, p: &str) -> (r: bool)
    ensures
        r == spec_ends_with(s@, p@),
{
    let ns = s.unicode_len();
    let np = p.unicode_len();
    if np > ns {
        return false;
    }
    let base = ns - np;
    let mut i: usize = 0;
    while i < np
        invariant
            ns == s@.len(),
            np == p@.len(),
            np <= ns,
            base == ns - np,
            i <= np,
            forall|j: int| 0 <= j < i ==> s@[base + j] == p@[j],
        decreases np - i,
    {
        if s.get_char(base + i) != p.get_char(i) {
            assert(s@.subrange(s@.len() - p@.len(), s@.len() as int)[i as int]
                != p@[i as int]);
            return false;
        }
        i = i + 1;
    }
    assert(s@.subrange(s@.len() - p@.len(), s@.len() as int) =~= p@);
    true
}

/// `sub` occurs in `s` at position `i`.
pub open spec fn spec_match_at(s: Seq<char>, sub: Seq<char>, i: int) -> bool {
    0 <= i && i + sub.len() <= s.len() && s.subrange(i, i + sub.len()) == sub
}

/// `sub` occurs somewhere in `s`.
pub open spec fn spec_contains(s: Seq<char>, sub: Seq<char>) -> bool {
    exists|i: int| spec_match_at(s, sub, i)
}

fn match_at(s: &str, sub: &str, i: usize) -> (r: bool)
    requires
        i + sub@.len() <= s@.len(),
    ensures
        r == spec_match_at(s@, sub@, i as int),
{
    let ns = s.unicode_len();
    let np = sub.unicode_len();
    let mut j: usize = 0;
    while j < np
        invariant
            ns == s@.len(),
            np == sub@.len(),
            i + np <= s@.len(),
            j <= np,
            forall|k: int| 0 <= k < j ==> s@[i + k] == sub@[k],
        decreases np - j,
    {
        if s.get_char(i + j) != sub.get_char(j) {
            assert(s@.subrange(i as int, i + sub@.len())[j as int] != sub@[j as int]);
            return false;
        }
        j = j + 1;
    }
    assert(s@.subrange(i as int, i + sub@.len()) =~= sub@);
    true
}

/// The position of the first occurrence of `sub` in `s`.
pub fn str_find(s: &str, sub: &str) -> (r: Option<usize>)
    ensures
        match r {
            Some(i) => spec_match_at(s@, sub@, i as int)
                && forall|j: int| 0 <= j < i ==> !spec_match_at(s@, sub@, j),
            None => !spec_contains(s@, sub@),
        },
{
    let ns = s.unicode_len();
    let np = sub.unicode_len();
    if np > ns {
        assert(forall|i: int| !spec_match_at(s@, sub@, i));
        return None;
    }
    if np == 0 {
        assert(s@.subrange(0, 0) =~= sub@);
        return Some(0);
    }
    let mut i: usize = 0;
    while i <= ns - np
        invariant
            ns == s@.len(),
            np == sub@.len(),
            np <= ns,
            i <= ns - np + 1,
            forall|j: int| 0 <= j < i ==> !spec_match_at(s@, sub@, j),
        decreases ns - i,
    {
        if match_at(s, sub, i) {
            return Some(i);
        }
        i = i + 1;
    }
    assert(forall|j: int| 0 <= j ==> j + np > ns ==> !spec_match_at(s@, sub@, j));
    None
}

/// The position of the last occurrence of `sub` in `s`.
pub fn str_rfind(s: &str, sub: &str) -> (r: Option<usize>)
    ensures
        match r {
            Some(i) => spec_match_at(s@, sub@, i as int)
                && forall|j: int| i < j ==> !spec_match_at(s@, sub@, j),
            None => !spec_contains(s@, sub@),
        },
{
    let ns = s.unicode_len();
    let np = sub.unicode_len();
    if np > ns {
        assert(forall|i: int| !spec_match_at(s@, sub@, i));
        return None;
    }
    let mut i: usize = ns - np;
    loop
        invariant
            ns == s@.len(),
            np == sub@.len(),
            np <= ns,
            i + np <= ns,
            forall|j: int| i < j ==> !spec_match_at(s@, sub@, j),
        decreases i,
    {
        if match_at(s, sub, i) {
            return Some(i);
        }
        if i == 0 {
            assert(forall|j: int| !spec_match_at(s@, sub@, j));
            return None;
        }
        i = i - 1;
    }
}

/// Does `sub` occur in `s`?
pub fn str_contains(s: &str, sub: &str) -> (r: bool)
    ensures
        r == spec_contains(s@, sub@),
{
    match str_find(s, sub) {
        Some(_) => true,
        None => false,
    }
}

/// `s` with every (left-to-right, non-overlapping) occurrence of `p`
/// replaced by `rep`.
pub open spec fn spec_replace_all(s: Seq<char>, p: Seq<char>, rep: Seq<char>) -> Seq<char>
    decreases s.len(),
{
    if p.len() == 0 || s.len() == 0 {
        s
    } else if spec_starts_with(s, p) {
        rep + spec_replace_all(s.subrange(p.len() as int, s.len() as int), p, rep)
    } else {
        seq![s[0]] + spec_replace_all(s.subrange(1, s.len() as int), p, rep)
    }
}

/// Replace every occurrence of `p` in `s` by `rep`.
pub fn str_replace_all(s: &str, p: &str, rep: &str) -> (r: String)
    ensures
        r@ == spec_replace_all(s@, p@, rep@),
{
    let ns = s.unicode_len();
    let np = p.unicode_len();
    let mut r = String::new();
    if np == 0 {
        r.append(s);
        return r;
    }
    proof {
        assert(s@.subrange(0, ns as int) =~= s@);
        assert(r@ + spec_replace_all(s@, p@, rep@) =~= spec_replace_all(s@, p@, rep@));
    }
    let mut i: usize = 0;
    while i < ns
        invariant
            ns == s@.len(),
            np == p@.len(),
            np > 0,
            i <= ns,
            spec_replace_all(s@, p@, rep@) == r@ + spec_replace_all(
                s@.subrange(i as int, ns as int), p@, rep@),
        decreases ns - i,
    {
        let ghost rest = s@.subrange(i as int, ns as int);
        if np <= ns - i && match_at(s, p, i) {
            proof {
                assert(rest.subrange(0, np as int) =~= s@.subrange(i as int, i + np));
                assert(spec_starts_with(rest, p@));
                assert(rest.subrange(np as int, rest.len() as int)
                    =~= s@.subrange(i + np, ns as int));
            }
            r.append(rep);
            proof {
                let tail_old = spec_replace_all(rest, p@, rep@);
                let tail_new = spec_replace_all(s@.subrange(i + np, ns as int), p@, rep@);
                assert(tail_old == rep@ + tail_new);
                assert((r@ + tail_new) =~= (r@.subrange(0, r@.len() - rep@.len()) + tail_old));
            }
            i = i + np;
        } else {
            proof {
                if np <= ns - i {
                    assert(!spec_match_at(s@, p@, i as int));
                    if spec_starts_with(rest, p@) {
                        assert(rest.subrange(0, np as int)
                            =~= s@.subrange(i as int, i + np));
                        assert(false);
                    }
                } else {
                    assert(!spec_starts_with(rest, p@));
                }
                assert(rest.subrange(1, rest.len() as int)
                    =~= s@.subrange(i + 1, ns as int));
            }
            push_char(&mut r, s.get_char(i));
            i = i + 1;
        }
    }
    proof {
        assert(s@.subrange(ns as int, ns as int) =~= Seq::<char>::empty());
        assert(r@ + Seq::<char>::empty() =~= r@);
    }
    r
}

/// Index of the first match of `p` in `s`, or the length of `s` when
/// there is none.
pub open spec fn spec_find_sub(s: Seq<char>, p: Seq<char>) -> nat
    decreases s.len(),
{
    if spec_starts_with(s, p) {
        0
    } else if s.len() == 0 {
        0
    } else {
        1 + spec_find_sub(s.subrange(1, s.len() as int), p)
    }
}

proof fn lemma_shift_match(s: Seq<char>, p: Seq<char>, j: int)
    requires
        s.len() > 0,
        0 <= j,
        j + p.len() + 1 <= s.len(),
    ensures
        spec_match_at(s, p, j + 1) == spec_match_at(s.subrange(1, s.len() as int), p, j),
{
    assert(s.subrange(1, s.len() as int).subrange(j, j + p.len())
        =~= s.subrange(j + 1, j + 1 + p.len()));
}

proof fn lemma_find_sub_at(s: Seq<char>, p: Seq<char>, i: int)
    requires
        spec_match_at(s, p, i),
        forall|j: int| 0 <= j < i ==> !spec_match_at(s, p, j),
    ensures
        spec_find_sub(s, p) == i,
    decreases i,
{
    if i == 0 {
        assert(spec_starts_with(s, p));
    } else {
        assert(!spec_match_at(s, p, 0));
        if spec_starts_with(s, p) {
            assert(spec_match_at(s, p, 0));
        }
        let t = s.subrange(1, s.len() as int);
        lemma_shift_match(s, p, i - 1);
        assert forall|j: int| 0 <= j < i - 1 implies !spec_match_at(t, p, j) by {
            lemma_shift_match(s, p, j);
        }
        lemma_find_sub_at(t, p, i - 1);
    }
}

proof fn lemma_find_sub_absent(s: Seq<char>, p: Seq<char>)
    requires
        !spec_contains(s, p),
    ensures
        spec_find_sub(s, p) == s.len(),
    decreases s.len(),
{
    if spec_starts_with(s, p) {
        assert(spec_match_at(s, p, 0));
    }
    if s.len() > 0 {
        let t = s.subrange(1, s.len() as int);
        assert forall|j: int| 0 <= j && j + p.len() <= t.len()
            implies !spec_match_at(t, p, j) by {
            lemma_shift_match(s, p, j);
        }
        lemma_find_sub_absent(t, p);
    }
}

/// Find the first occurrence of `p`, tied to `spec_find_sub`.
pub fn str_find_first(s: &str, p: &str) -> (r: Option<usize>)
    ensures
        match r {
            Some(i) => spec_find_sub(s@, p@) == i && spec_match_at(s@, p@, i as int),
            None => spec_find_sub(s@, p@) == s@.len() && !spec_contains(s@, p@),
        },
{
    match str_find(s, p) {
        Some(i) => {
            proof {
                lemma_find_sub_at(s@, p@, i as int);
            }
            Some(i)
        },
        None => {
            proof {
                lemma_find_sub_absent(s@, p@);
            }
            None
        },
    }
}

/// The piece of `s` after its last `/`, or all of `s` if there is none.
pub open spec fn spec_basename(s: Seq<char>) -> Seq<char> {
    if spec_contains(s, seq!['/']) {
        s.subrange(spec_last_index(s, '/') + 1, s.len() as int)
    } else {
        s
    }
}

/// The largest index at which `c` occurs (unspecified when it does not).
pub open spec fn spec_last_index(s: Seq<char>, c: char) -> int {
    choose|i: int| 0 <= i < s.len() && s[i] == c
        && forall|j: int| i < j < s.len() ==> s[j] != c
}

/// Length of the leading run of non-whitespace characters.
pub open spec fn spec_tok_len(s: Seq<char>) -> nat
    decreases s.len(),
{
    if s.len() > 0 && !is_ws(s[0]) {
        1 + spec_tok_len(s.subrange(1, s.len() as int))
    } else {
        0
    }
}

proof fn lemma_trim_start_len(s: Seq<char>)
    ensures
        spec_trim_start(s).len() <= s.len(),
        spec_trim_start(s).len() > 0 ==> !is_ws(spec_trim_start(s)[0]),
    decreases s.len(),
{
    if s.len() > 0 && is_ws(s[0]) {
        lemma_trim_start_len(s.subrange(1, s.len() as int));
    }
}

proof fn lemma_tok_len_at(s: Seq<char>, k: int)
    requires
        0 <= k <= s.len(),
        forall|j: int| 0 <= j < k ==> !is_ws(s[j]),
        k == s.len() || is_ws(s[k]),
    ensures
        spec_tok_len(s) == k,
    decreases k,
{
    if k > 0 {
        lemma_tok_len_at(s.subrange(1, s.len() as int), k - 1);
    }
}

/// The whitespace-separated token at position `n`, counting from zero.
pub open spec fn spec_nth_token(s: Seq<char>, n: nat) -> Option<Seq<char>>
    decreases s.len(), n,
    via spec_nth_token_dec
{
    let t = spec_trim_start(s);
    if t.len() == 0 {
        None
    } else if n == 0 {
        Some(t.subrange(0, spec_tok_len(t) as int))
    } else {
        spec_nth_token(t.subrange(spec_tok_len(t) as int, t.len() as int), (n - 1) as nat)
    }
}

#[via_fn]
proof fn spec_nth_token_dec(s: Seq<char>, n: nat) {
    lemma_trim_start_len(s);
    let t = spec_trim_start(s);
    if t.len() > 0 {
        assert(spec_tok_len(t) >= 1);
        assert(spec_tok_len(t) <= t.len()) by {
            lemma_tok_len_le(t);
        }
    }
}

proof fn lemma_tok_len_le(s: Seq<char>)
    ensures
        spec_tok_len(s) <= s.len(),
    decreases s.len(),
{
    if s.len() > 0 && !is_ws(s[0]) {
        lemma_tok_len_le(s.subrange(1, s.len() as int));
    }
}

/// Extract the `n`th whitespace-separated token.
pub fn nth_token<'a>(s: &'a str, n: usize) -> (r: Option<&'a str>)
    ensures
        match r {
            Some(t) => spec_nth_token(s@, n as nat) == Some(t@),
            None => spec_nth_token(s@, n as nat) is None,
        },
    decreases s@.len(), n,
{
    let ns = s.unicode_len();
    let mut a: usize = 0;
    while a < ns && is_ws_char(s.get_char(a))
        invariant
            ns == s@.len(),
            a <= ns,
            forall|j: int| 0 <= j < a ==> is_ws(s@[j]),
        decreases ns - a,
    {
        a = a + 1;
    }
    proof {
        lemma_trim_start_subrange(s@, a as int);
    }
    let t = s.substring_char(a, ns);
    proof {
        assert(spec_trim_start(t@) == t@);
        assert(spec_trim_start(s@) == t@);
    }
    let nt = ns - a;
    if nt == 0 {
        assert(spec_trim_start(s@).len() == 0);
        return None;
    }
    let mut k: usize = 0;
    while k < nt && !is_ws_char(t.get_char(k))
        invariant
            nt == t@.len(),
            k <= nt,
            forall|j: int| 0 <= j < k ==> !is_ws(t@[j]),
        decreases nt - k,
    {
        k = k + 1;
    }
    proof {
        lemma_tok_len_at(t@, k as int);
    }
    if n == 0 {
        Some(t.substring_char(0, k))
    } else {
        proof {
            lemma_trim_start_len(s@);
            assert(k >= 1);
        }
        let rest = t.substring_char(k, nt);
        nth_token(rest, n - 1)
    }
}

/// Index of the first occurrence of `c`, or the length of `s` when absent.
pub open spec fn spec_find_char(s: Seq<char>, c: char) -> nat
    decreases s.len(),
{
    if s.len() == 0 {
        0
    } else if s[0] == c {
        0
    } else {
        1 + spec_find_char(s.subrange(1, s.len() as int), c)
    }
}

proof fn lemma_find_char_at(s: Seq<char>, c: char, i: int)
    requires
        0 <= i < s.len(),
        s[i] == c,
        forall|j: int| 0 <= j < i ==> s[j] != c,
    ensures
        spec_find_char(s, c) == i,
    decreases i,
{
    if i > 0 {
        lemma_find_char_at(s.subrange(1, s.len() as int), c, i - 1);
    }
}

proof fn lemma_find_char_absent(s: Seq<char>, c: char)
    requires
        forall|j: int| 0 <= j < s.len() ==> s[j] != c,
    ensures
        spec_find_char(s, c) == s.len(),
    decreases s.len(),
{
    if s.len() > 0 {
        lemma_find_char_absent(s.subrange(1, s.len() as int), c);
    }
}

/// Find the first occurrence of a single character.
pub fn find_char(s: &str, c: char) -> (r: Option<usize>)
    ensures
        match r {
            Some(i) => i < s@.len() && s@[i as int] == c && spec_find_char(s@, c) == i,
            None => spec_find_char(s@, c) == s@.len(),
        },
{
    let ns = s.unicode_len();
    let mut i: usize = 0;
    while i < ns
        invariant
            ns == s@.len(),
            i <= ns,
            forall|j: int| 0 <= j < i ==> s@[j] != c,
        decreases ns - i,
    {
        if s.get_char(i) == c {
            proof {
                lemma_find_char_at(s@, c, i as int);
            }
            return Some(i);
        }
        i = i + 1;
    }
    proof {
        lemma_find_char_absent(s@, c);
    }
    None
}

/// Index of the last occurrence of `c`, or `-1` when absent.
pub open spec fn spec_rfind_char(s: Seq<char>, c: char) -> int
    decreases s.len(),
{
    if s.len() == 0 {
        -1
    } else if s[s.len() - 1] == c {
        s.len() - 1
    } else {
        spec_rfind_char(s.subrange(0, s.len() - 1), c)
    }
}

proof fn lemma_rfind_char_at(s: Seq<char>, c: char, i: int)
    requires
        0 <= i < s.len(),
        s[i] == c,
        forall|j: int| i < j < s.len() ==> s[j] != c,
    ensures
        spec_rfind_char(s, c) == i,
    decreases s.len(),
{
    if i < s.len() - 1 {
        lemma_rfind_char_at(s.subrange(0, s.len() - 1), c, i);
    }
}

proof fn lemma_rfind_char_absent(s: Seq<char>, c: char)
    requires
        forall|j: int| 0 <= j < s.len() ==> s[j] != c,
    ensures
        spec_rfind_char(s, c) == -1,
    decreases s.len(),
{
    if s.len() > 0 {
        lemma_rfind_char_absent(s.subrange(0, s.len() - 1), c);
    }
}

/// Find the last occurrence of a single character.
pub fn rfind_char(s: &str, c: char) -> (r: Option<usize>)
    ensures
        match r {
            Some(i) => i < s@.len() && s@[i as int] == c && spec_rfind_char(s@, c) == i,
            None => spec_rfind_char(s@, c) == -1,
        },
{
    let ns = s.unicode_len();
    let mut i: usize = ns;
    while i > 0
        invariant
            ns == s@.len(),
            i <= ns,
            forall|j: int| i <= j < ns ==> s@[j] != c,
        decreases i,
    {
        i = i - 1;
        if s.get_char(i) == c {
            proof {
                lemma_rfind_char_at(s@, c, i as int);
            }
            return Some(i);
        }
    }
    proof {
        lemma_rfind_char_absent(s@, c);
    }
    None
}

/// The text after the last occurrence of `sep`, scanning separators from
/// the left without overlap; all of `s` when `sep` does not occur.
pub open spec fn spec_after_last_sep(s: Seq<char>, sep: Seq<char>) -> Seq<char>
    decreases s.len(),
    via spec_after_last_sep_dec
{
    if sep.len() == 0 || !spec_contains(s, sep) {
        s
    } else {
        spec_after_last_sep(
            s.subrange(spec_find_sub(s, sep) as int + sep.len() as int, s.len() as int), sep)
    }
}

proof fn lemma_find_sub_in_range(s: Seq<char>, p: Seq<char>)
    requires
        p.len() > 0,
        spec_contains(s, p),
    ensures
        spec_find_sub(s, p) + p.len() <= s.len(),
        spec_match_at(s, p, spec_find_sub(s, p) as int),
    decreases s.len(),
{
    if spec_starts_with(s, p) {
        assert(s.subrange(0, p.len() as int) == p);
    } else {
        assert(s.len() > 0) by {
            let w = choose|i: int| spec_match_at(s, p, i);
        }
        let t = s.subrange(1, s.len() as int);
        let w = choose|i: int| spec_match_at(s, p, i);
        assert(w > 0) by {
            if w == 0 {
                assert(spec_starts_with(s, p));
            }
        }
        assert(spec_match_at(t, p, w - 1)) by {
            assert(t.subrange(w - 1, w - 1 + p.len()) =~= s.subrange(w, w + p.len()));
        }
        lemma_find_sub_in_range(t, p);
        assert(s.subrange(1 + spec_find_sub(t, p) as int, 1 + spec_find_sub(t, p) as int + p.len() as int)
            =~= t.subrange(spec_find_sub(t, p) as int, spec_find_sub(t, p) as int + p.len() as int));
    }
}

#[via_fn]
proof fn spec_after_last_sep_dec(s: Seq<char>, sep: Seq<char>) {
    if sep.len() > 0 && spec_contains(s, sep) {
        lemma_find_sub_in_range(s, sep);
    }
}

/// The text after the last occurrence of `sep`.
pub fn str_after_last_sep<'a>(s: &'a str, sep: &str) -> (r: &'a str)
    requires
        sep@.len() > 0,
    ensures
        r@ == spec_after_last_sep(s@, sep@),
    decreases s@.len(),
{
    let ns = s.unicode_len();
    match str_find_first(s, sep) {
        None => s,
        Some(i) => {
            proof {
                lemma_find_sub_in_range(s@, sep@);
            }
            let np = sep.unicode_len();
            let rest = s.substring_char(i + np, ns);
            str_after_last_sep(rest, sep)
        },
    }
}

/// A line with a final carriage return dropped.
pub open spec fn spec_strip_cr(l: Seq<char>) -> Seq<char> {
    if l.len() > 0 && l[l.len() - 1] == '\r' {
        l.subrange(0, l.len() - 1)
    } else {
        l
    }
}

/// The lines of `s`: pieces separated by `\n`, each with a trailing `\r`
/// removed; a final unterminated piece is kept as it stands.
pub open spec fn spec_lines(s: Seq<char>) -> Seq<Seq<char>>
    decreases s.len(),
{
    if s.len() == 0 {
        Seq::empty()
    } else {
        let i = spec_find_char(s, '\n');
        if i >= s.len() {
            seq![s]
        } else {
            seq![spec_strip_cr(s.subrange(0, i as int))] + spec_lines(
                s.subrange(i as int + 1, s.len() as int))
        }
    }
}

/// Split into lines, as `spec_lines` describes.
pub fn split_lines(s: &str) -> (r: Vec<String>)
    ensures
        r@.len() == spec_lines(s@).len(),
        forall|i: int| 0 <= i < r@.len() ==> r@[i]@ == spec_lines(s@)[i],
    decreases s@.len(),
{
    let ns = s.unicode_len();
    if ns == 0 {
        let r: Vec<String> = Vec::new();
        return r;
    }
    match find_char(s, '\n') {
        None => {
            let mut owned = String::new();
            owned.append(s);
            let mut r: Vec<String> = Vec::new();
            r.push(owned);
            r
        },
        Some(i) => {
            let line = if i > 0 && s.get_char(i - 1) == '\r' {
                proof {
                    assert(s@.subrange(0, i as int).subrange(0, i - 1)
                        =~= s@.subrange(0, i - 1));
                }
                s.substring_char(0, i - 1)
            } else {
                proof {
                    let piece = s@.subrange(0, i as int);
                    if piece.len() > 0 {
                        assert(piece[piece.len() - 1] == s@[i - 1]);
                    }
                }
                s.substring_char(0, i)
            };
            assert(line@ == spec_strip_cr(s@.subrange(0, i as int)));
            let rest = s.substring_char(i + 1, ns);
            let tail = split_lines(rest);
            let mut owned = String::new();
            owned.append(line);
            let mut r: Vec<String> = Vec::new();
            r.push(owned);
            let mut j: usize = 0;
            let nt = tail.len();
            while j < nt
                invariant
                    nt == tail@.len(),
                    j <= nt,
                    r@.len() == j + 1,
                    r@[0]@ == spec_strip_cr(s@.subrange(0, spec_find_char(s@, '\n') as int)),
                    forall|k: int| 0 <= k < j ==> r@[k + 1]@ == tail@[k]@,
                decreases nt - j,
            {
                let mut item = String::new();
                item.append(tail[j].as_str());
                r.push(item);
                j = j + 1;
            }
            r
        },
    }
}

/// A decimal digit.
pub open spec fn is_digit(c: char) -> bool {
    48 <= c as u32 && c as u32 <= 57
}

/// The numeric value of a digit character (zero for anything else).
pub open spec fn digit_val(c: char) -> nat {
    if is_digit(c) { (c as u32 - 48) as nat } else { 0 }
}

/// The value of a digit string read in base ten.
pub open spec fn spec_dec_val(s: Seq<char>) -> nat
    decreases s.len(),
{
    if s.len() == 0 {
        0
    } else {
        spec_dec_val(s.subrange(0, s.len() - 1)) * 10 + digit_val(s[s.len() - 1])
    }
}

/// Every character is a decimal digit.
pub open spec fn spec_all_digits(s: Seq<char>) -> bool {
    forall|i: int| 0 <= i < s.len() ==> is_digit(s[i])
}

proof fn lemma_dec_val_step_mono(s: Seq<char>, i: int, j: int)
    requires
        0 <= i <= j <= s.len(),
    ensures
        spec_dec_val(s.subrange(0, i)) <= spec_dec_val(s.subrange(0, j)),
    decreases j - i,
{
    if i < j {
        lemma_dec_val_step_mono(s, i, j - 1);
        assert(s.subrange(0, j).subrange(0, j - 1) =~= s.subrange(0, j - 1));
        assert(spec_dec_val(s.subrange(0, j))
            == spec_dec_val(s.subrange(0, j - 1)) * 10 + digit_val(s[j - 1]));
    }
}

/// Parse an unsigned decimal number; `None` on an empty string, a
/// non-digit, or a value that does not fit in a `u64`.
pub fn parse_u64(s: &str) -> (r: Option<u64>)
    ensures
        match r {
            Some(v) => s@.len() > 0 && spec_all_digits(s@) && v == spec_dec_val(s@),
            None => s@.len() == 0 || !spec_all_digits(s@) || spec_dec_val(s@) > u64::MAX,
        },
{
    let ns = s.unicode_len();
    if ns == 0 {
        return None;
    }
    let mut v: u64 = 0;
    let mut i: usize = 0;
    while i < ns
        invariant
            ns == s@.len(),
            i <= ns,
            spec_all_digits(s@.subrange(0, i as int)),
            v == spec_dec_val(s@.subrange(0, i as int)),
        decreases ns - i,
    {
        let c = s.get_char(i);
        let u = c as u32;
        if u < 48 || u > 57 {
            assert(!is_digit(s@[i as int]));
            return None;
        }
        let d = (u - 48) as u64;
        let wide: u128 = (v as u128) * 10 + (d as u128);
        proof {
            assert(s@.subrange(0, i + 1).subrange(0, i as int) =~= s@.subrange(0, i as int));
            assert(spec_dec_val(s@.subrange(0, i + 1))
                == spec_dec_val(s@.subrange(0, i as int)) * 10 + digit_val(s@[i as int]));
        }
        if wide > 0xFFFF_FFFF_FFFF_FFFFu128 {
            proof {
                lemma_dec_val_step_mono(s@, i + 1, ns as int);
                assert(s@.subrange(0, ns as int) =~= s@);
            }
            return None;
        }
        v = wide as u64;
        i = i + 1;
    }
    proof {
        assert(s@.subrange(0, ns as int) =~= s@);
    }
    Some(v)
}

/// The final path component: what follows the last `/`.
pub fn str_basename(s: &str) -> (r: String)
    ensures
        r@ == spec_basename(s@),
{
    proof {
        reveal_strlit("/");
    }
    let n = s.unicode_len();
    match str_rfind(s, "/") {
        Some(i) => {
            let ghost sl = seq!['/'];
            proof {
                assert("/"@ =~= sl);
                assert(spec_match_at(s@, sl, i as int));
                assert(s@.subrange(i as int, i + 1) =~= seq![s@[i as int]]);
                assert(seq![s@[i as int]] == sl);
                assert(s@[i as int] == sl[0]);
                assert(s@[i as int] == '/');
                assert(forall|j: int| i < j < s@.len() ==> s@[j] != '/') by {
                    assert forall|j: int| i < j < s@.len() && s@[j] == '/'
                        implies false by {
                        assert(s@.subrange(j, j + 1) =~= sl);
                        assert(spec_match_at(s@, sl, j));
                    }
                }
                assert(spec_last_index(s@, '/') == i as int) by {
                    let k = spec_last_index(s@, '/');
                    assert(0 <= i < s@.len() && s@[i as int] == '/'
                        && forall|j: int| i < j < s@.len() ==> s@[j] != '/');
                }
            }
            let piece = s.substring_char(i + 1, n);
            let mut r = String::new();
            r.append(piece);
            proof {
                assert(r@ =~= s@.subrange(i + 1, s@.len() as int));
            }
            r
        },
        None => {
            proof {
                assert("/"@ =~= seq!['/']);
            }
            let mut r = String::new();
            r.append(s);
            proof {
                assert(r@ =~= s@);
            }
            r
        },
    }
}

} // verus!
