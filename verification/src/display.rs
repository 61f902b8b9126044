//! The renderer: pair each configured display item with an artwork line,
//! substitute the collected values, align the text block on the
//! Unicode display width of the artwork, and colorize everything.

use vstd::prelude::*;
use crate::config::{Config, ConfigEntry, spec_color_lookup, spec_color_table, color_lookup};
use crate::color::{spec_hex_to_ansi, spec_color_unknown, spec_color_warning, hex_to_ansi,
    color_resolution_warning};
use crate::strutil::{
    spec_trim, spec_lower, spec_dec, spec_lines, spec_lines_view, str_trim, str_eq,
    to_lower, split_lines, fmt_u64, push_char,
};

verus! {

/// What `unicode_width` reports for one character.
pub uninterp spec fn uw_char_width(c: char) -> Option<usize>;

/// A printable ASCII character.
pub open spec fn is_ascii_printable(c: char) -> bool {
    32 <= c as u32 && (c as u32) < 127
}

/// Relies on `unicode_width`'s `UnicodeWidthChar::width`: the column
/// count of one character, `None` for a control character, printable
/// ASCII always a single column, and never more than three columns.
#[verifier::external_body]
fn char_width(c: char) -> (r: Option<usize>)
    ensures
        r == uw_char_width(c),
        is_ascii_printable(c) ==> r == Some(1usize),
        match r {
            Some(w) => w <= 3,
            None => true,
        },
{
    unicode_width::UnicodeWidthChar::width(c)
}

/// The column count of one character: one for printable ASCII, what the
/// width tables say otherwise, zero for control characters.
pub open spec fn char_cols(c: char) -> nat {
    if is_ascii_printable(c) {
        1
    } else {
        match uw_char_width(c) {
            Some(w) => w as nat,
            None => 0,
        }
    }
}

/// The display width of a line: the sum of its characters' columns.
pub open spec fn spec_line_width(s: Seq<char>) -> nat
    decreases s.len(),
{
    if s.len() == 0 {
        0
    } else {
        spec_line_width(s.subrange(0, s.len() - 1)) + char_cols(s[s.len() - 1])
    }
}

/// Measure the display width of a line.
pub fn line_width(s: &str) -> (r: u128)
    ensures
        r == spec_line_width(s@),
{
    let n = s.unicode_len();
    let mut acc: u128 = 0;
    let mut i: usize = 0;
    while i < n
        invariant
            n == s@.len(),
            i <= n,
            acc == spec_line_width(s@.subrange(0, i as int)),
            acc <= 3 * (i as int),
        decreases n - i,
    {
        let c = s.get_char(i);
        let w: u128 = match char_width(c) {
            Some(w) => w as u128,
            None => 0,
        };
        proof {
            assert(s@.subrange(0, i + 1).subrange(0, i as int) =~= s@.subrange(0, i as int));
            assert(s@.subrange(0, i + 1)[i as int] == s@[i as int]);
            assert(w == char_cols(s@[i as int]));
        }
        acc = acc + w;
        i = i + 1;
    }
    proof {
        assert(s@.subrange(0, n as int) =~= s@);
    }
    acc
}

/// A run of spaces.
pub open spec fn spec_spaces(k: nat) -> Seq<char> {
    Seq::new(k, |i: int| ' ')
}

/// A line padded with spaces up to the target width; a line already at
/// or over it is untouched.
pub open spec fn spec_pad_line(l: Seq<char>, target: nat) -> Seq<char> {
    if spec_line_width(l) < target {
        l + spec_spaces((target - spec_line_width(l)) as nat)
    } else {
        l
    }
}

proof fn lemma_width_append_spaces(l: Seq<char>, k: nat)
    ensures
        spec_line_width(l + spec_spaces(k)) == spec_line_width(l) + k,
    decreases k,
{
    if k == 0 {
        assert(l + spec_spaces(0) =~= l);
    } else {
        let whole = l + spec_spaces(k);
        assert(whole.subrange(0, whole.len() - 1) =~= l + spec_spaces((k - 1) as nat));
        assert(whole[whole.len() - 1] == ' ');
        assert(char_cols(' ') == 1);
        lemma_width_append_spaces(l, (k - 1) as nat);
    }
}

/// Every padded line reaches exactly the target width: padding restores
/// the alignment column whatever the line's own width was, as long as it
/// does not already exceed the target.
pub proof fn lemma_padded_line_width(l: Seq<char>, target: nat)
    requires
        spec_line_width(l) <= target,
    ensures
        spec_line_width(spec_pad_line(l, target)) == target,
{
    if spec_line_width(l) < target {
        lemma_width_append_spaces(l, (target - spec_line_width(l)) as nat);
    }
}

/// Pad a line with spaces to the target display width.
pub fn pad_line(line: &str, target: u128) -> (r: String)
    ensures
        r@ == spec_pad_line(line@, target as nat),
{
    let w = line_width(line);
    let mut r = String::new();
    r.append(line);
    if w < target {
        let mut k: u128 = 0;
        let need = target - w;
        while k < need
            invariant
                k <= need,
                r@ == line@ + spec_spaces(k as nat),
            decreases need - k,
        {
            push_char(&mut r, ' ');
            proof {
                assert(r@ =~= line@ + spec_spaces(k as nat + 1));
            }
            k = k + 1;
        }
        proof {
            assert(r@ =~= spec_pad_line(line@, target as nat));
        }
    } else {
        proof {
            assert(r@ =~= spec_pad_line(line@, target as nat));
        }
    }
    r
}

/// The widest display width among the lines (zero when there are none).
pub open spec fn spec_max_width(ls: Seq<Seq<char>>) -> nat
    decreases ls.len(),
{
    if ls.len() == 0 {
        0
    } else {
        let rest = spec_max_width(ls.subrange(0, ls.len() - 1));
        let w = spec_line_width(ls[ls.len() - 1]);
        if w > rest { w } else { rest }
    }
}

fn max_width(lines: &Vec<String>) -> (r: u128)
    ensures
        r == spec_max_width(Seq::new(lines@.len(), |i: int| lines@[i]@)),
{
    let ghost views = Seq::new(lines@.len(), |i: int| lines@[i]@);
    let n = lines.len();
    let mut best: u128 = 0;
    let mut i: usize = 0;
    while i < n
        invariant
            n == lines@.len(),
            i <= n,
            views == Seq::new(lines@.len(), |k: int| lines@[k]@),
            best == spec_max_width(views.subrange(0, i as int)),
        decreases n - i,
    {
        proof {
            assert(views.subrange(0, i + 1).subrange(0, i as int)
                =~= views.subrange(0, i as int));
            assert(views.subrange(0, i + 1)[i as int] == views[i as int]);
        }
        let w = line_width(lines[i].as_str());
        if w > best {
            best = w;
        }
        i = i + 1;
    }
    proof {
        assert(views.subrange(0, n as int) =~= views);
    }
    best
}

proof fn lemma_max_width_ge(ls: Seq<Seq<char>>, i: int)
    requires
        0 <= i < ls.len(),
    ensures
        spec_line_width(ls[i]) <= spec_max_width(ls),
    decreases ls.len(),
{
    if i < ls.len() - 1 {
        lemma_max_width_ge(ls.subrange(0, ls.len() - 1), i);
        assert(ls.subrange(0, ls.len() - 1)[i] == ls[i]);
    }
}

/// Artwork alignment: in a render every artwork line is padded to
/// exactly the display width of the widest artwork line, so the text
/// block starts in one consistent column.
pub proof fn lemma_artwork_alignment(ascii: Seq<Seq<char>>, i: int)
    requires
        0 <= i < ascii.len(),
    ensures
        spec_line_width(spec_pad_line(ascii[i], spec_max_width(ascii)))
            == spec_max_width(ascii),
{
    lemma_max_width_ge(ascii, i);
    lemma_padded_line_width(ascii[i], spec_max_width(ascii));
}

/// Everything the renderer substitutes into the configured items.
#[derive(Debug, Clone)]
pub struct SystemData {
    pub os_name: String,
    pub kernel_version: String,
    pub cpu_brand: String,
    pub gpu: String,
    pub all_gpus: Vec<String>,
    pub username: String,
    pub hostname: String,
    pub wm_de: String,
    pub memory: String,
    pub pkg_count: usize,
    pub flatpak_pkg_count: usize,
    pub uptime_formatted: String,
    pub os_age: String,
    pub editor: String,
    pub shell: String,
    pub terminal: String,
    pub user_info: String,
    pub disk_usage: String,
    pub init_system: String,
    pub battery_info: String,
}

pub const ARCH_ASCII: &'static str = "      /\\\n     /  \\\n    /\\   \\\n   /  __  \\\n  /  (  )  \\\n / __|  |__ \\\n/.`        `.\\";

pub const UBUNTU_ASCII: &'static str = "         _\n     ---(_)\n _/  ---  \\\n(_) |   |\n  \\  --- _/\n     ---(_)";

pub const CACHYOS_ASCII: &'static str = "   /''''''''''''/\n  /''''''''''''/\n /''''''/\n/''''''/\n\\......\\\n \\......\\\n  \\.............../\n   \\............./";

pub const DEBIAN_ASCII: &'static str = "  _____\n /  __ \\\n|  /    |\n|  \\___-\n-_\n  --_";

pub const FEDORA_ASCII: &'static str = "        ,'''''.\n       |   ,.  |\n       |  |  '_'\n  ,....|  |..\n.'  ,_;|   ..'\n|  |   |  |\n|  ',_,'  |\n '.     ,'\n   '''''";

pub const GENTOO_ASCII: &'static str = " _-----_\n(       \\\n\\    0   \\\n \\        )\n /      _/\n(     _-\n\\____-";

pub const VOID_ASCII: &'static str = "    _______\n _ \\______ -\n| \\  ___  \\ |\n| | /   \\ | |\n| | \\___/ | |\n| \\______ \\_|\n -_______\\";

pub const NIXOS_ASCII: &'static str = "  \\\\  \\\\ //\n ==\\\\__\\\\/ //\n   //   \\\\//\n==//     //==\n //\\\\___//\n// /\\\\  \\\\==\n  // \\\\  \\\\";

pub const PIKA_ASCII: &'static str = "   /\\___/\\\n  ( o   o )\n  (  =^=  )\n  (        )\n  (         )\n  (          )))))))))))";

/// The compiled-in art block for a lower-cased distribution name.
pub open spec fn spec_default_ascii(low: Seq<char>) -> Option<Seq<char>> {
    if low == "arch"@ { Some(ARCH_ASCII@) }
    else if low == "ubuntu"@ { Some(UBUNTU_ASCII@) }
    else if low == "cachyos"@ { Some(CACHYOS_ASCII@) }
    else if low == "debian"@ { Some(DEBIAN_ASCII@) }
    else if low == "fedora"@ { Some(FEDORA_ASCII@) }
    else if low == "gentoo"@ { Some(GENTOO_ASCII@) }
    else if low == "void"@ { Some(VOID_ASCII@) }
    else if low == "nixos"@ { Some(NIXOS_ASCII@) }
    else if low == "pika"@ { Some(PIKA_ASCII@) }
    else { None }
}

/// The compiled-in art block for a distribution, matched
/// case-insensitively.
pub fn get_default_ascii(distro: &str) -> (r: Option<&'static str>)
    ensures
        match r {
            Some(v) => spec_default_ascii(spec_lower(distro@)) == Some(v@),
            None => spec_default_ascii(spec_lower(distro@)) is None,
        },
{
    let l = to_lower(distro);
    let s = l.as_str();
    if str_eq(s, "arch") { Some(ARCH_ASCII) }
    else if str_eq(s, "ubuntu") { Some(UBUNTU_ASCII) }
    else if str_eq(s, "cachyos") { Some(CACHYOS_ASCII) }
    else if str_eq(s, "debian") { Some(DEBIAN_ASCII) }
    else if str_eq(s, "fedora") { Some(FEDORA_ASCII) }
    else if str_eq(s, "gentoo") { Some(GENTOO_ASCII) }
    else if str_eq(s, "void") { Some(VOID_ASCII) }
    else if str_eq(s, "nixos") { Some(NIXOS_ASCII) }
    else if str_eq(s, "pika") { Some(PIKA_ASCII) }
    else { None }
}

/// The artwork lines the configuration selects: a configured art file's
/// lines when its path is set and it could be read, else the
/// compiled-in block for the OS when defaults are allowed, else nothing.
pub open spec fn spec_ascii_lines(
    ascii_path_set: bool,
    file_lines: Option<Seq<Seq<char>>>,
    use_default: bool,
    os_low: Seq<char>,
) -> Seq<Seq<char>> {
    let fallback: Seq<Seq<char>> = if use_default {
        match spec_default_ascii(os_low) {
            Some(art) => spec_lines(art),
            None => Seq::empty(),
        }
    } else {
        Seq::empty()
    };
    if ascii_path_set {
        match file_lines {
            Some(ls) => ls,
            None => fallback,
        }
    } else {
        fallback
    }
}

/// Select the artwork lines: the configured file's lines, the built-in
/// block, or none.
pub fn load_ascii_lines(
    config: &Config,
    os_name: &str,
    file_lines: &Option<Vec<String>>,
) -> (r: Vec<String>)
    ensures
        ({
            let path_set = match config.display.ascii_path {
                Some(p) => spec_trim(p@).len() > 0,
                None => false,
            };
            let fl = match file_lines {
                Some(ls) => Some(spec_lines_view(ls@)),
                None => None,
            };
            let use_default = match config.display.use_default_ascii {
                Some(b) => b,
                None => true,
            };
            let want = spec_ascii_lines(path_set, fl, use_default, spec_lower(os_name@));
            spec_lines_view(r@) == want
        }),
{
    let path_set = match &config.display.ascii_path {
        Some(p) => str_trim(p.as_str()).unicode_len() > 0,
        None => false,
    };
    let use_default = match config.display.use_default_ascii {
        Some(b) => b,
        None => true,
    };
    if path_set {
        match file_lines {
            Some(ls) => {
                let mut out: Vec<String> = Vec::new();
                let n = ls.len();
                let mut i: usize = 0;
                while i < n
                    invariant
                        n == ls@.len(),
                        i <= n,
                        out@.len() == i,
                        forall|k: int| 0 <= k < i ==> out@[k]@ == ls@[k]@,
                    decreases n - i,
                {
                    let mut item = String::new();
                    item.append(ls[i].as_str());
                    out.push(item);
                    i = i + 1;
                }
                proof {
                    assert(spec_lines_view(out@) =~= spec_lines_view(ls@));
                }
                return out;
            },
            None => {},
        }
    }
    if use_default {
        match get_default_ascii(os_name) {
            Some(art) => {
                let out = split_lines(art);
                proof {
                    assert(spec_lines_view(out@) =~= spec_lines(art@));
                }
                out
            },
            None => {
                let out: Vec<String> = Vec::new();
                proof {
                    assert(spec_lines_view(out@) =~= Seq::<Seq<char>>::empty());
                }
                out
            },
        }
    } else {
        let out: Vec<String> = Vec::new();
        proof {
            assert(spec_lines_view(out@) =~= Seq::<Seq<char>>::empty());
        }
        out
    }
}

/// The value a `default`-typed item's selector names in the snapshot.
pub open spec fn spec_default_value(value: Seq<char>, d: SystemData) -> Seq<char> {
    if value == "kernel"@ { d.kernel_version@ }
    else if value == "os"@ { d.os_name@ }
    else if value == "cpu"@ { d.cpu_brand@ }
    else if value == "gpu"@ { d.gpu@ }
    else if value == "gpu1"@ {
        if d.all_gpus@.len() > 0 { d.all_gpus@[0]@ } else { "No GPU"@ }
    }
    else if value == "gpu2"@ {
        if d.all_gpus@.len() > 1 { d.all_gpus@[1]@ } else { "No secondary GPU"@ }
    }
    else if value == "gpu3"@ {
        if d.all_gpus@.len() > 2 { d.all_gpus@[2]@ } else { "No third GPU"@ }
    }
    else if value == "wm"@ { d.wm_de@ }
    else if value == "editor"@ { d.editor@ }
    else if value == "shell"@ { d.shell@ }
    else if value == "terminal"@ { d.terminal@ }
    else if value == "username"@ { d.username@ }
    else if value == "hostname"@ { spec_trim(d.hostname@) }
    else if value == "memory"@ { d.memory@ }
    else if value == "pkg_count"@ { spec_dec(d.pkg_count as nat) }
    else if value == "flatpak_pkg_count"@ { spec_dec(d.flatpak_pkg_count as nat) }
    else if value == "uptime_seconds"@ { d.uptime_formatted@ }
    else if value == "os_age"@ { d.os_age@ }
    else if value == "user_info"@ { d.user_info@ }
    else if value == "disk_usage"@ { d.disk_usage@ }
    else if value == "init_system"@ { d.init_system@ }
    else if value == "battery"@ { d.battery_info@ }
    else { "Unknown default value"@ }
}

/// The text an item displays: a snapshot lookup for `default` items, the
/// literal text for `text` items, the trimmed captured output (or a
/// fixed failure note) for `command` items.
pub open spec fn spec_output_value(
    entry_type: Seq<char>,
    value: Seq<char>,
    d: SystemData,
    cmd: Option<Seq<char>>,
) -> Seq<char> {
    if entry_type == "default"@ {
        spec_default_value(value, d)
    } else if entry_type == "text"@ {
        value
    } else if entry_type == "command"@ {
        match cmd {
            Some(out) => spec_trim(out),
            None => "Command failed"@,
        }
    } else {
        "Invalid type"@
    }
}

/// Resolve an item's display value.
pub fn get_output_value(
    entry: &ConfigEntry,
    system_data: &SystemData,
    command_output: &Option<String>,
) -> (r: String)
    ensures
        r@ == spec_output_value(entry.entry_type@, entry.value@, *system_data,
            match command_output { Some(o) => Some(o@), None => None }),
{
    let t = entry.entry_type.as_str();
    if str_eq(t, "default") {
        let v = entry.value.as_str();
        let mut out = String::new();
        if str_eq(v, "kernel") { out.append(system_data.kernel_version.as_str()); }
        else if str_eq(v, "os") { out.append(system_data.os_name.as_str()); }
        else if str_eq(v, "cpu") { out.append(system_data.cpu_brand.as_str()); }
        else if str_eq(v, "gpu") { out.append(system_data.gpu.as_str()); }
        else if str_eq(v, "gpu1") {
            if system_data.all_gpus.len() > 0 {
                out.append(system_data.all_gpus[0].as_str());
            } else {
                out.append("No GPU");
            }
        }
        else if str_eq(v, "gpu2") {
            if system_data.all_gpus.len() > 1 {
                out.append(system_data.all_gpus[1].as_str());
            } else {
                out.append("No secondary GPU");
            }
        }
        else if str_eq(v, "gpu3") {
            if system_data.all_gpus.len() > 2 {
                out.append(system_data.all_gpus[2].as_str());
            } else {
                out.append("No third GPU");
            }
        }
        else if str_eq(v, "wm") { out.append(system_data.wm_de.as_str()); }
        else if str_eq(v, "editor") { out.append(system_data.editor.as_str()); }
        else if str_eq(v, "shell") { out.append(system_data.shell.as_str()); }
        else if str_eq(v, "terminal") { out.append(system_data.terminal.as_str()); }
        else if str_eq(v, "username") { out.append(system_data.username.as_str()); }
        else if str_eq(v, "hostname") { out.append(str_trim(system_data.hostname.as_str())); }
        else if str_eq(v, "memory") { out.append(system_data.memory.as_str()); }
        else if str_eq(v, "pkg_count") {
            let c = fmt_u64(system_data.pkg_count as u64);
            out.append(c.as_str());
        }
        else if str_eq(v, "flatpak_pkg_count") {
            let c = fmt_u64(system_data.flatpak_pkg_count as u64);
            out.append(c.as_str());
        }
        else if str_eq(v, "uptime_seconds") { out.append(system_data.uptime_formatted.as_str()); }
        else if str_eq(v, "os_age") { out.append(system_data.os_age.as_str()); }
        else if str_eq(v, "user_info") { out.append(system_data.user_info.as_str()); }
        else if str_eq(v, "disk_usage") { out.append(system_data.disk_usage.as_str()); }
        else if str_eq(v, "init_system") { out.append(system_data.init_system.as_str()); }
        else if str_eq(v, "battery") { out.append(system_data.battery_info.as_str()); }
        else { out.append("Unknown default value"); }
        proof {
            assert(out@ =~= spec_default_value(entry.value@, *system_data));
        }
        out
    } else if str_eq(t, "text") {
        let mut out = String::new();
        out.append(entry.value.as_str());
        proof {
            assert(out@ =~= entry.value@);
        }
        out
    } else if str_eq(t, "command") {
        match command_output {
            Some(o) => {
                let mut out = String::new();
                out.append(str_trim(o.as_str()));
                proof {
                    assert(out@ =~= spec_trim(o@));
                }
                out
            },
            None => "Command failed".to_owned(),
        }
    } else {
        "Invalid type".to_owned()
    }
}

/// The visible content of one configured item.
pub open spec fn entry_view(e: ConfigEntry) -> (
    Seq<char>,
    Seq<char>,
    Seq<char>,
    Option<Seq<char>>,
    Option<Seq<char>>,
) {
    (
        e.key@,
        e.entry_type@,
        e.value@,
        match e.color {
            Some(c) => Some(c@),
            None => None,
        },
        match e.value_color {
            Some(c) => Some(c@),
            None => None,
        },
    )
}

/// The `gpu` item retargeted at the GPU with one-based index `k`.
pub open spec fn spec_gpu_variant(e: ConfigEntry, k: nat) -> (
    Seq<char>,
    Seq<char>,
    Seq<char>,
    Option<Seq<char>>,
    Option<Seq<char>>,
) {
    (
        e.key@,
        e.entry_type@,
        "gpu"@ + spec_dec(k),
        match e.color {
            Some(c) => Some(c@),
            None => None,
        },
        match e.value_color {
            Some(c) => Some(c@),
            None => None,
        },
    )
}

/// What one configured item expands to: one retargeted copy per detected
/// GPU for a `gpu` item when every GPU is to be shown, else the item
/// itself.
pub open spec fn spec_item_expansion(e: ConfigEntry, show: bool, n_gpus: nat) -> Seq<
    (Seq<char>, Seq<char>, Seq<char>, Option<Seq<char>>, Option<Seq<char>>),
> {
    if e.value@ == "gpu"@ && show {
        Seq::new(n_gpus, |i: int| spec_gpu_variant(e, (i + 1) as nat))
    } else {
        seq![entry_view(e)]
    }
}

/// The whole expanded item list, in order.
pub open spec fn spec_expand(items: Seq<ConfigEntry>, show: bool, n_gpus: nat) -> Seq<
    (Seq<char>, Seq<char>, Seq<char>, Option<Seq<char>>, Option<Seq<char>>),
>
    decreases items.len(),
{
    if items.len() == 0 {
        Seq::empty()
    } else {
        spec_expand(items.subrange(0, items.len() - 1), show, n_gpus)
            + spec_item_expansion(items[items.len() - 1], show, n_gpus)
    }
}

fn clone_entry(e: &ConfigEntry) -> (r: ConfigEntry)
    ensures
        entry_view(r) == entry_view(*e),
{
    ConfigEntry {
        key: e.key.clone(),
        entry_type: e.entry_type.clone(),
        value: e.value.clone(),
        color: match &e.color {
            Some(c) => Some(c.clone()),
            None => None,
        },
        value_color: match &e.value_color {
            Some(c) => Some(c.clone()),
            None => None,
        },
    }
}

/// Expand the configured items before artwork pairing: a `gpu` item
/// becomes one item per detected GPU when every GPU is to be shown.
pub fn expand_items(items: &Vec<ConfigEntry>, show_all_gpus: bool, gpu_count: usize) -> (r:
    Vec<ConfigEntry>)
    ensures
        ({
            let want = spec_expand(items@, show_all_gpus, gpu_count as nat);
            r@.len() == want.len() && forall|i: int|
                0 <= i < r@.len() ==> entry_view(r@[i]) == want[i]
        }),
{
    let n = items.len();
    let mut out: Vec<ConfigEntry> = Vec::new();
    let mut i: usize = 0;
    while i < n
        invariant
            n == items@.len(),
            i <= n,
            out@.len() == spec_expand(items@.subrange(0, i as int), show_all_gpus,
                gpu_count as nat).len(),
            forall|k: int| 0 <= k < out@.len() ==> entry_view(out@[k]) == spec_expand(
                items@.subrange(0, i as int), show_all_gpus, gpu_count as nat)[k],
        decreases n - i,
    {
        let e = &items[i];
        proof {
            assert(items@.subrange(0, i + 1).subrange(0, i as int)
                =~= items@.subrange(0, i as int));
            assert(items@.subrange(0, i + 1)[i as int] == items@[i as int]);
        }
        if str_eq(e.value.as_str(), "gpu") && show_all_gpus {
            let mut k: usize = 0;
            while k < gpu_count
                invariant
                    k <= gpu_count,
                    n == items@.len(),
                    i < n,
                    e == &items@[i as int],
                    out@.len() == spec_expand(items@.subrange(0, i as int), show_all_gpus,
                        gpu_count as nat).len() + k,
                    forall|j: int| 0 <= j < out@.len() - k ==> entry_view(out@[j])
                        == spec_expand(items@.subrange(0, i as int), show_all_gpus,
                            gpu_count as nat)[j],
                    forall|j: int| 0 <= j < k ==> #[trigger] entry_view(
                        out@[out@.len() - k + j]) == spec_gpu_variant(
                        items@[i as int], (j + 1) as nat),
                decreases gpu_count - k,
            {
                let mut value = String::new();
                value.append("gpu");
                let num = fmt_u64((k + 1) as u64);
                value.append(num.as_str());
                let variant = ConfigEntry {
                    key: e.key.clone(),
                    entry_type: e.entry_type.clone(),
                    value,
                    color: match &e.color {
                        Some(c) => Some(c.clone()),
                        None => None,
                    },
                    value_color: match &e.value_color {
                        Some(c) => Some(c.clone()),
                        None => None,
                    },
                };
                proof {
                    assert(variant.value@ =~= "gpu"@ + spec_dec((k + 1) as nat));
                    assert(entry_view(variant) == spec_gpu_variant(items@[i as int],
                        (k + 1) as nat));
                }
                let ghost out_before = out@;
                out.push(variant);
                proof {
                    assert forall|j: int| 0 <= j < k + 1 implies #[trigger] entry_view(
                        out@[out@.len() - (k + 1) + j]) == spec_gpu_variant(
                        items@[i as int], (j + 1) as nat) by {
                        if j == k {
                            assert(out@[out@.len() - 1] == variant);
                        } else {
                            assert(out@[out@.len() - (k + 1) + j]
                                == out_before[out_before.len() - k + j]);
                            assert(entry_view(out_before[out_before.len() - k + j])
                                == spec_gpu_variant(items@[i as int], (j + 1) as nat));
                        }
                    }
                }
                k = k + 1;
            }
            proof {
                let pre = spec_expand(items@.subrange(0, i as int), show_all_gpus,
                    gpu_count as nat);
                let post = spec_expand(items@.subrange(0, i + 1), show_all_gpus,
                    gpu_count as nat);
                let expn = spec_item_expansion(items@[i as int], show_all_gpus,
                    gpu_count as nat);
                assert(post == pre + expn);
                assert forall|k2: int| 0 <= k2 < out@.len() implies entry_view(out@[k2])
                    == post[k2] by {
                    if k2 < pre.len() {
                        assert(post[k2] == pre[k2]);
                        assert(entry_view(out@[k2]) == pre[k2]);
                    } else {
                        assert(post[k2] == expn[k2 - pre.len()]);
                        assert(expn[k2 - pre.len()] == spec_gpu_variant(items@[i as int],
                            (k2 - pre.len() + 1) as nat));
                        assert(out@[k2] == out@[out@.len() - gpu_count + (k2 - pre.len())]);
                        assert(entry_view(out@[out@.len() - gpu_count + (k2 - pre.len())])
                            == spec_gpu_variant(items@[i as int],
                                (k2 - pre.len() + 1) as nat));
                    }
                }
            }
        } else {
            let cloned = clone_entry(e);
            let ghost out_before = out@;
            out.push(cloned);
            proof {
                let pre = spec_expand(items@.subrange(0, i as int), show_all_gpus,
                    gpu_count as nat);
                let post = spec_expand(items@.subrange(0, i + 1), show_all_gpus,
                    gpu_count as nat);
                let expn = spec_item_expansion(items@[i as int], show_all_gpus,
                    gpu_count as nat);
                assert(post == pre + expn);
                assert(expn == seq![entry_view(items@[i as int])]);
                assert forall|k2: int| 0 <= k2 < out@.len() implies entry_view(out@[k2])
                    == post[k2] by {
                    if k2 < pre.len() {
                        assert(out@[k2] == out_before[k2]);
                        assert(entry_view(out_before[k2]) == pre[k2]);
                        assert(post[k2] == pre[k2]);
                    } else {
                        assert(k2 == pre.len());
                        assert(out@[k2] == cloned);
                        assert(post[k2] == expn[0]);
                    }
                }
            }
        }
        i = i + 1;
    }
    proof {
        assert(items@.subrange(0, n as int) =~= items@);
    }
    out
}

/// The escape code a configured color key resolves to: the table's value
/// for the key when it has one, else the key itself, both through the
/// name-then-hex resolution.
pub open spec fn spec_resolved_color(table: Seq<(String, String)>, key: Seq<char>) -> Seq<
    char,
> {
    match spec_color_lookup(spec_color_table(table), key) {
        Some(v) => spec_hex_to_ansi(v),
        None => spec_hex_to_ansi(key),
    }
}

/// The string whose resolution is actually attempted for a key.
pub open spec fn spec_color_attempt(table: Seq<(String, String)>, key: Seq<char>) -> Seq<
    char,
> {
    match spec_color_lookup(spec_color_table(table), key) {
        Some(v) => v,
        None => key,
    }
}

/// Resolve a configured color key against the color table, reporting a
/// diagnostic when the resolution falls through to the reset escape.
pub fn resolve_color_code(config: &Config, key: &str) -> (r: (String, Option<String>))
    ensures
        r.0@ == spec_resolved_color(config.colors@, key@),
        match r.1 {
            Some(w) => spec_color_unknown(spec_color_attempt(config.colors@, key@))
                && w@ == spec_color_warning(spec_color_attempt(config.colors@, key@)),
            None => !spec_color_unknown(spec_color_attempt(config.colors@, key@)),
        },
{
    match color_lookup(&config.colors, key) {
        Some(v) => {
            let code = hex_to_ansi(v.as_str());
            let warning = color_resolution_warning(v.as_str());
            (code, warning)
        },
        None => {
            let code = hex_to_ansi(key);
            let warning = color_resolution_warning(key);
            (code, warning)
        },
    }
}

/// The escape code a configured (optional) color resolves to, reset
/// when none is configured.
pub open spec fn spec_opt_color(cfg: Config, c: Option<Seq<char>>) -> Seq<char> {
    match c {
        Some(key) => spec_resolved_color(cfg.colors@, key),
        None => "\u{1b}[0m"@,
    }
}

/// The key/value separator, with its default.
pub open spec fn spec_separator(cfg: Config) -> Seq<char> {
    match cfg.display.separator {
        Some(s) => s@,
        None => ": "@,
    }
}

/// One line of the rendered body: the colored, padded artwork line, then
/// (for lines that carry an item with a non-empty selector) the colored
/// text. A `text` item shows only its value in the key color; an item
/// with an empty key or the `user_info` key shows only its value in the
/// value color; every other item shows key, separator and value.
pub open spec fn spec_body_line(
    cfg: Config,
    d: SystemData,
    items: Seq<(Seq<char>, Seq<char>, Seq<char>, Option<Seq<char>>, Option<Seq<char>>)>,
    ascii: Seq<Seq<char>>,
    cmds: Seq<Option<Seq<char>>>,
    maxw: nat,
    i: int,
) -> Seq<char> {
    let ascii_code = spec_resolved_color(cfg.colors@, cfg.display.ascii_color@);
    let al: Seq<char> = if i < ascii.len() { ascii[i] } else { Seq::empty() };
    let base = ascii_code + spec_pad_line(al, maxw);
    if i < items.len() {
        let e = items[i];
        if e.2.len() == 0 {
            base + "\n"@
        } else {
            let value = spec_output_value(e.1, e.2, d, cmds[i]);
            if e.1 == "text"@ {
                base + "  "@ + spec_opt_color(cfg, e.3) + value + "\u{1b}[0m\n"@
            } else if e.0.len() == 0 || e.0 == "user_info"@ {
                base + "  "@ + spec_opt_color(cfg, e.4) + value + "\u{1b}[0m\n"@
            } else {
                base + "  "@ + spec_opt_color(cfg, e.3) + e.0 + spec_separator(cfg)
                    + "\u{1b}[0m"@ + spec_opt_color(cfg, e.4) + value
                    + "\u{1b}[0m\n"@
            }
        }
    } else {
        base + "\n"@
    }
}

/// The first `n` body lines, concatenated.
pub open spec fn spec_body_lines_upto(
    cfg: Config,
    d: SystemData,
    items: Seq<(Seq<char>, Seq<char>, Seq<char>, Option<Seq<char>>, Option<Seq<char>>)>,
    ascii: Seq<Seq<char>>,
    cmds: Seq<Option<Seq<char>>>,
    maxw: nat,
    n: int,
) -> Seq<char>
    decreases n,
{
    if n <= 0 {
        Seq::empty()
    } else {
        spec_body_lines_upto(cfg, d, items, ascii, cmds, maxw, n - 1)
            + spec_body_line(cfg, d, items, ascii, cmds, maxw, n - 1)
    }
}

/// The whole rendered body: one line per item, the leftover artwork
/// lines, and the final unconditional reset.
pub open spec fn spec_render_body(
    cfg: Config,
    d: SystemData,
    items: Seq<(Seq<char>, Seq<char>, Seq<char>, Option<Seq<char>>, Option<Seq<char>>)>,
    ascii: Seq<Seq<char>>,
    cmds: Seq<Option<Seq<char>>>,
) -> Seq<char> {
    let maxw = spec_max_width(ascii);
    let total: int = if items.len() > ascii.len() { items.len() as int } else {
        ascii.len() as int
    };
    spec_body_lines_upto(cfg, d, items, ascii, cmds, maxw, total) + "\u{1b}[0m"@
}

/// The color diagnostics one item contributes: its key color's, then its
/// value color's, each only when configured, attempted and unknown;
/// items with an empty selector resolve no colors.
pub open spec fn spec_item_warnings(
    cfg: Config,
    e: (Seq<char>, Seq<char>, Seq<char>, Option<Seq<char>>, Option<Seq<char>>),
) -> Seq<Seq<char>> {
    if e.2.len() == 0 {
        Seq::empty()
    } else {
        let kw: Seq<Seq<char>> = match e.3 {
            Some(c) => {
                if spec_color_unknown(spec_color_attempt(cfg.colors@, c)) {
                    seq![spec_color_warning(spec_color_attempt(cfg.colors@, c))]
                } else {
                    Seq::empty()
                }
            },
            None => Seq::empty(),
        };
        let vw: Seq<Seq<char>> = match e.4 {
            Some(c) => {
                if spec_color_unknown(spec_color_attempt(cfg.colors@, c)) {
                    seq![spec_color_warning(spec_color_attempt(cfg.colors@, c))]
                } else {
                    Seq::empty()
                }
            },
            None => Seq::empty(),
        };
        kw + vw
    }
}

/// The item diagnostics of the first `n` items, concatenated.
pub open spec fn spec_warnings_upto(
    cfg: Config,
    items: Seq<(Seq<char>, Seq<char>, Seq<char>, Option<Seq<char>>, Option<Seq<char>>)>,
    n: int,
) -> Seq<Seq<char>>
    decreases n,
{
    if n <= 0 {
        Seq::empty()
    } else {
        spec_warnings_upto(cfg, items, n - 1) + spec_item_warnings(cfg, items[n - 1])
    }
}

/// Every diagnostic a rendering emits: the artwork color's first, then
/// each item's, in item order.
pub open spec fn spec_render_warnings(
    cfg: Config,
    items: Seq<(Seq<char>, Seq<char>, Seq<char>, Option<Seq<char>>, Option<Seq<char>>)>,
) -> Seq<Seq<char>> {
    let aw: Seq<Seq<char>> = if spec_color_unknown(
        spec_color_attempt(cfg.colors@, cfg.display.ascii_color@)) {
        seq![spec_color_warning(spec_color_attempt(cfg.colors@, cfg.display.ascii_color@))]
    } else {
        Seq::empty()
    };
    aw + spec_warnings_upto(cfg, items, items.len() as int)
}

/// A rendering: the text written to the output, and the diagnostics
/// that go to the error stream.
#[derive(Debug, Clone)]
pub struct RenderResult {
    pub output: String,
    pub warnings: Vec<String>,
}

/// Render the body: the expanded items paired positionally with the
/// artwork lines, every line padded to the artwork's widest display
/// width, colors resolved through the table, and a final reset.
pub fn render_body(
    config: &Config,
    system_data: &SystemData,
    rendered_items: &Vec<ConfigEntry>,
    ascii_lines: &Vec<String>,
    command_outputs: &Vec<Option<String>>,
) -> (r: RenderResult)
    requires
        command_outputs@.len() == rendered_items@.len(),
    ensures
        ({
            let ascii = Seq::new(ascii_lines@.len(), |i: int| ascii_lines@[i]@);
            let items = Seq::new(rendered_items@.len(),
                |i: int| entry_view(rendered_items@[i]));
            let cmds = Seq::new(command_outputs@.len(), |i: int| match command_outputs@[i] {
                Some(o) => Some(o@),
                None => None,
            });
            let want = spec_render_body(*config, *system_data, items, ascii, cmds);
            let warn = spec_render_warnings(*config, items);
            r.output@ == want && r.warnings@.len() == warn.len()
                && forall|i: int| 0 <= i < warn.len() ==> r.warnings@[i]@ == warn[i]
        }),
{
    let ghost ascii = Seq::new(ascii_lines@.len(), |i: int| ascii_lines@[i]@);
    let ghost cfg = *config;
    let ghost d = *system_data;
    let ghost items = Seq::new(rendered_items@.len(),
        |i: int| entry_view(rendered_items@[i]));
    let ghost cmds = Seq::new(command_outputs@.len(), |i: int| match command_outputs@[i] {
        Some(o) => Some(o@),
        None => None,
    });

    let (ascii_code, ascii_warn) = resolve_color_code(
        config, config.display.ascii_color.as_str());
    let mut warnings: Vec<String> = Vec::new();
    match ascii_warn {
        Some(w) => {
            warnings.push(w);
        },
        None => {},
    }
    let ghost aw_seq: Seq<Seq<char>> = if spec_color_unknown(
        spec_color_attempt(cfg.colors@, cfg.display.ascii_color@)) {
        seq![spec_color_warning(spec_color_attempt(cfg.colors@, cfg.display.ascii_color@))]
    } else {
        Seq::empty()
    };
    proof {
        assert(warnings@.len() == aw_seq.len());
        assert(forall|k: int| 0 <= k < warnings@.len() ==> warnings@[k]@ == aw_seq[k]);
    }

    let maxw = max_width(ascii_lines);
    let n_items = rendered_items.len();
    let n_ascii = ascii_lines.len();
    let total = if n_items > n_ascii { n_items } else { n_ascii };
    let ghost maxw_s = maxw as nat;

    let mut out = String::new();
    proof {
        assert(out@ =~= spec_body_lines_upto(cfg, d, items, ascii, cmds, maxw_s, 0));
    }
    let mut i: usize = 0;
    while i < total
        invariant
            n_items == items.len(),
            n_ascii == ascii.len(),
            n_ascii == ascii_lines@.len(),
            cmds.len() == items.len(),
            total == if n_items > n_ascii { n_items } else { n_ascii },
            i <= total,
            cfg == *config,
            d == *system_data,
            items == Seq::new(rendered_items@.len(),
                |k: int| entry_view(rendered_items@[k])),
            cmds == Seq::new(command_outputs@.len(), |k: int| match command_outputs@[k] {
                Some(o) => Some(o@),
                None => None,
            }),
            ascii == Seq::new(ascii_lines@.len(), |k: int| ascii_lines@[k]@),
            maxw_s == spec_max_width(ascii),
            maxw == maxw_s,
            ascii_code@ == spec_resolved_color(cfg.colors@, cfg.display.ascii_color@),
            out@ == spec_body_lines_upto(cfg, d, items, ascii, cmds, maxw_s, i as int),
            aw_seq == (if spec_color_unknown(spec_color_attempt(cfg.colors@,
                cfg.display.ascii_color@)) {
                seq![spec_color_warning(spec_color_attempt(cfg.colors@,
                    cfg.display.ascii_color@))]
            } else {
                Seq::<Seq<char>>::empty()
            }),
            warnings@.len() == (aw_seq + spec_warnings_upto(cfg, items,
                if i < n_items { i as int } else { n_items as int })).len(),
            forall|k: int| 0 <= k < warnings@.len() ==> warnings@[k]@
                == (aw_seq + spec_warnings_upto(cfg, items,
                    if i < n_items { i as int } else { n_items as int }))[k],
        decreases total - i,
    {
        let mut line_out = String::new();
        line_out.append(ascii_code.as_str());
        let padded = if i < n_ascii {
            pad_line(ascii_lines[i].as_str(), maxw)
        } else {
            proof {
                reveal_strlit("");
                assert(""@ =~= Seq::<char>::empty());
            }
            pad_line("", maxw)
        };
        line_out.append(padded.as_str());
        if i < n_items {
            let e = &rendered_items[i];
            if e.value.as_str().unicode_len() == 0 {
                line_out.append("\n");
                proof {
                    assert(line_out@ =~= spec_body_line(cfg, d, items, ascii, cmds,
                        maxw_s, i as int));
                }
            } else {
                line_out.append("  ");
                let value = get_output_value(e, system_data, &command_outputs[i]);
                let (key_color, kw) = match &e.color {
                    Some(c) => {
                        let (code, w) = resolve_color_code(config, c.as_str());
                        (code, w)
                    },
                    None => ("\u{1b}[0m".to_owned(), None),
                };
                let (value_color, vw) = match &e.value_color {
                    Some(c) => {
                        let (code, w) = resolve_color_code(config, c.as_str());
                        (code, w)
                    },
                    None => ("\u{1b}[0m".to_owned(), None),
                };
                let ghost w_before = warnings@;
                match kw {
                    Some(w) => {
                        warnings.push(w);
                    },
                    None => {},
                }
                match vw {
                    Some(w) => {
                        warnings.push(w);
                    },
                    None => {},
                }
                proof {
                    let iw = spec_item_warnings(cfg, items[i as int]);
                    let upto_old = spec_warnings_upto(cfg, items, i as int);
                    let upto_new = spec_warnings_upto(cfg, items, i as int + 1);
                    assert(upto_new == upto_old + iw);
                    assert(warnings@.len() == w_before.len() + iw.len());
                    assert forall|k: int| 0 <= k < warnings@.len() implies warnings@[k]@
                        == (aw_seq + upto_new)[k] by {
                        if k < w_before.len() {
                            assert(warnings@[k] == w_before[k]);
                        } else {
                            let j = k - w_before.len();
                            if iw.len() == 2 {
                                assert(warnings@[k] == warnings@[warnings@.len() - 2 + j]);
                            } else {
                                assert(warnings@[k] == warnings@[warnings@.len() - 1]);
                            }
                        }
                    }
                }
                if str_eq(e.entry_type.as_str(), "text") {
                    line_out.append(key_color.as_str());
                    line_out.append(value.as_str());
                    line_out.append("\u{1b}[0m\n");
                } else if e.key.as_str().unicode_len() == 0
                    || str_eq(e.key.as_str(), "user_info") {
                    line_out.append(value_color.as_str());
                    line_out.append(value.as_str());
                    line_out.append("\u{1b}[0m\n");
                } else {
                    line_out.append(key_color.as_str());
                    line_out.append(e.key.as_str());
                    match &config.display.separator {
                        Some(s) => {
                            line_out.append(s.as_str());
                        },
                        None => {
                            line_out.append(": ");
                        },
                    }
                    line_out.append("\u{1b}[0m");
                    line_out.append(value_color.as_str());
                    line_out.append(value.as_str());
                    line_out.append("\u{1b}[0m\n");
                }
                proof {
                    assert(line_out@ =~= spec_body_line(cfg, d, items, ascii, cmds,
                        maxw_s, i as int));
                }
            }
        } else {
            line_out.append("\n");
            proof {
                assert(line_out@ =~= spec_body_line(cfg, d, items, ascii, cmds, maxw_s,
                    i as int));
            }
        }
        out.append(line_out.as_str());
        proof {
            assert(out@ =~= spec_body_lines_upto(cfg, d, items, ascii, cmds, maxw_s,
                i as int + 1));
        }
        i = i + 1;
    }
    out.append("\u{1b}[0m");
    proof {
        assert(out@ =~= spec_render_body(cfg, d, items, ascii, cmds));
        let warn_all = spec_render_warnings(cfg, items);
        assert forall|k: int| 0 <= k < warnings@.len() implies warnings@[k]@
            == warn_all[k] by {}
        assert(warnings@.len() == warn_all.len());
    }
    RenderResult { output: out, warnings }
}

/// Whether the configuration asks for inline-image artwork.
pub open spec fn spec_wants_image(cfg: Config) -> bool {
    let mode = match cfg.display.display_mode {
        Some(m) => spec_lower(m@),
        None => "ascii"@,
    };
    mode == "image"@ || mode == "kitty"@
}

/// Does the configuration ask for inline-image artwork?
pub fn wants_image(config: &Config) -> (r: bool)
    ensures
        r == spec_wants_image(*config),
{
    let mode = match &config.display.display_mode {
        Some(m) => to_lower(m.as_str()),
        None => "ascii".to_owned(),
    };
    str_eq(mode.as_str(), "image") || str_eq(mode.as_str(), "kitty")
}

/// What the image phase yields: the escape prefix wrapped in cursor
/// save/restore, the padding lines reserving the image's footprint, and
/// its diagnostics; all empty when image mode is off, unattempted or
/// failed.
pub open spec fn spec_image_phase(
    cfg: Config,
    n_items: nat,
    attempt: Option<Result<(Seq<char>, nat, nat), Seq<char>>>,
    kitty_supported: bool,
) -> (Seq<char>, Option<Seq<Seq<char>>>, Seq<Seq<char>>) {
    if !spec_wants_image(cfg) {
        (Seq::empty(), None, Seq::empty())
    } else if cfg.display.image_path is None {
        (
            Seq::empty(),
            None,
            seq![
                "Image display mode was requested but 'image_path' was not set. Falling back to ASCII output."@],
        )
    } else {
        let base_w: Seq<Seq<char>> = if !kitty_supported {
            seq![
                "Image mode requested but the terminal did not advertise Kitty-compatible graphics support. Attempting to transmit anyway (set SWIFTFETCH_FORCE_KITTY=1 to skip this warning)."@]
        } else {
            Seq::empty()
        };
        match attempt {
            Some(Ok((payload, cols, rows))) => {
                let desired: nat = if n_items > rows { n_items } else { rows };
                let desired: nat = if desired > 0 { desired } else { 1 };
                (
                    "\u{1b}[s"@ + payload + "\u{1b}[u"@,
                    Some(Seq::new(desired, |i: int| spec_spaces(cols))),
                    base_w,
                )
            },
            Some(Err(e)) => (
                Seq::empty(),
                None,
                base_w + seq!["Kitty image rendering failed (falling back to ASCII): "@ + e],
            ),
            None => (Seq::empty(), None, base_w),
        }
    }
}

/// The view of an image attempt: the payload and footprint, or the error.
pub open spec fn spec_attempt_view(
    attempt: Option<Result<crate::kitty::KittyImage, String>>,
) -> Option<Result<(Seq<char>, nat, nat), Seq<char>>> {
    match attempt {
        None => None,
        Some(Ok(img)) => Some(Ok((img.payload@, img.info.pad_columns as nat,
            img.info.pad_rows as nat))),
        Some(Err(e)) => Some(Err(e@)),
    }
}

/// The whole run's output: the image prefix (when one was transmitted),
/// then the rendered body over the image padding lines or the selected
/// ASCII artwork; and its diagnostics, the artwork phase's first.
pub fn render_output(
    config: &Config,
    system_data: &SystemData,
    ascii_file_lines: &Option<Vec<String>>,
    command_outputs: &Vec<Option<String>>,
    image_attempt: Option<Result<crate::kitty::KittyImage, String>>,
    kitty_supported: bool,
) -> (r: RenderResult)
    requires
        command_outputs@.len() == spec_expand(
            config.display.items@,
            match config.display.show_all_gpus { Some(b) => b, None => false },
            system_data.all_gpus@.len()).len(),
    ensures
        ({
            let show = match config.display.show_all_gpus { Some(b) => b, None => false };
            let items = spec_expand(config.display.items@, show,
                system_data.all_gpus@.len());
            let cmds = Seq::new(command_outputs@.len(), |i: int| match command_outputs@[i] {
                Some(o) => Some(o@),
                None => None,
            });
            let phase = spec_image_phase(*config, items.len(),
                spec_attempt_view(image_attempt), kitty_supported);
            let path_set = match config.display.ascii_path {
                Some(p) => spec_trim(p@).len() > 0,
                None => false,
            };
            let fl = match ascii_file_lines {
                Some(ls) => Some(spec_lines_view(ls@)),
                None => None,
            };
            let use_default = match config.display.use_default_ascii {
                Some(b) => b,
                None => true,
            };
            let ascii = match phase.1 {
                Some(a) => a,
                None => spec_ascii_lines(path_set, fl, use_default,
                    spec_lower(system_data.os_name@)),
            };
            let warn_all = phase.2 + spec_render_warnings(*config, items);
            r.output@ == phase.0 + spec_render_body(*config, *system_data, items, ascii,
                cmds)
                && r.warnings@.len() == warn_all.len()
                && forall|i: int| 0 <= i < warn_all.len() ==> r.warnings@[i]@ == warn_all[i]
        }),
{
    let ghost cfg = *config;
    let show_all = match config.display.show_all_gpus {
        Some(b) => b,
        None => false,
    };
    let expanded = expand_items(&config.display.items, show_all,
        system_data.all_gpus.len());
    let n_items = expanded.len();
    let ghost items = spec_expand(config.display.items@, show_all,
        system_data.all_gpus@.len());

    let mut warnings: Vec<String> = Vec::new();
    let mut prefix = String::new();
    let mut image_lines: Option<Vec<String>> = None;
    let ghost phase = spec_image_phase(cfg, items.len(), spec_attempt_view(image_attempt),
        kitty_supported);

    if wants_image(config) {
        match &config.display.image_path {
            None => {
                warnings.push(
                    "Image display mode was requested but 'image_path' was not set. Falling back to ASCII output.".to_owned());
            },
            Some(_) => {
                if !kitty_supported {
                    warnings.push(
                        "Image mode requested but the terminal did not advertise Kitty-compatible graphics support. Attempting to transmit anyway (set SWIFTFETCH_FORCE_KITTY=1 to skip this warning).".to_owned());
                }
                match image_attempt {
                    Some(Ok(img)) => {
                        prefix.append("\u{1b}[s");
                        prefix.append(img.payload.as_str());
                        prefix.append("\u{1b}[u");
                        proof {
                            reveal_strlit("");
                            assert(""@ =~= Seq::<char>::empty());
                        }
                        let padding = pad_line("", img.info.pad_columns as u128);
                        proof {
                            assert(padding@ =~= spec_spaces(img.info.pad_columns as nat));
                        }
                        let desired_a = if n_items > img.info.pad_rows {
                            n_items
                        } else {
                            img.info.pad_rows
                        };
                        let desired = if desired_a > 0 { desired_a } else { 1 };
                        let mut lines_vec: Vec<String> = Vec::new();
                        let mut k: usize = 0;
                        while k < desired
                            invariant
                                k <= desired,
                                lines_vec@.len() == k,
                                forall|j: int| 0 <= j < k ==> lines_vec@[j]@ == padding@,
                            decreases desired - k,
                        {
                            let mut one = String::new();
                            one.append(padding.as_str());
                            lines_vec.push(one);
                            k = k + 1;
                        }
                        image_lines = Some(lines_vec);
                    },
                    Some(Err(e)) => {
                        let mut w = String::new();
                        w.append("Kitty image rendering failed (falling back to ASCII): ");
                        w.append(e.as_str());
                        warnings.push(w);
                    },
                    None => {},
                }
            },
        }
    }

    let os_arg = system_data.os_name.as_str();
    let ascii_lines: Vec<String> = match image_lines {
        Some(ls) => ls,
        None => load_ascii_lines(config, os_arg, ascii_file_lines),
    };
    proof {
        let ascii_v = Seq::new(ascii_lines@.len(), |i: int| ascii_lines@[i]@);
        match phase.1 {
            Some(a) => {
                assert(ascii_v =~= a);
            },
            None => {
                let path_set = match &config.display.ascii_path {
                    Some(p) => spec_trim(p@).len() > 0,
                    None => false,
                };
                let fl = match ascii_file_lines {
                    Some(ls) => Some(spec_lines_view(ls@)),
                    None => None,
                };
                let use_default = match config.display.use_default_ascii {
                    Some(b) => b,
                    None => true,
                };
                let want = spec_ascii_lines(path_set, fl, use_default,
                    spec_lower(system_data.os_name@));
                assert(spec_lower(os_arg@) == spec_lower(system_data.os_name@));
                assert(spec_lines_view(ascii_lines@) == want);
                assert(ascii_v =~= spec_lines_view(ascii_lines@));
            },
        }
        assert(Seq::new(expanded@.len(), |i: int| entry_view(expanded@[i])) =~= items);
    }
    proof {
        assert(warnings@.len() == phase.2.len());
        assert(forall|j: int| 0 <= j < warnings@.len() ==> warnings@[j]@ == phase.2[j]);
    }
    let body = render_body(config, system_data, &expanded, &ascii_lines, command_outputs);
    let mut output = prefix;
    output.append(body.output.as_str());
    let mut all_warnings = warnings;
    let nb = body.warnings.len();
    let mut k: usize = 0;
    let ghost w_pre = all_warnings@;
    while k < nb
        invariant
            nb == body.warnings@.len(),
            k <= nb,
            all_warnings@.len() == w_pre.len() + k,
            forall|j: int| 0 <= j < w_pre.len() ==> all_warnings@[j] == w_pre[j],
            forall|j: int| 0 <= j < k ==> all_warnings@[w_pre.len() + j]@
                == body.warnings@[j]@,
        decreases nb - k,
    {
        let mut one = String::new();
        one.append(body.warnings[k].as_str());
        proof {
            assert(one@ == body.warnings@[k as int]@);
        }
        all_warnings.push(one);
        proof {
            assert(all_warnings@[w_pre.len() + k as int]@ == body.warnings@[k as int]@);
        }
        k = k + 1;
    }
    proof {
        let sw = spec_render_warnings(cfg, items);
        assert forall|i: int| 0 <= i < all_warnings@.len() implies all_warnings@[i]@
            == (phase.2 + sw)[i] by {
            if i < w_pre.len() {
                assert(all_warnings@[i] == w_pre[i]);
            }
        }
    }
    RenderResult { output, warnings: all_warnings }
}

/// Rendering is a pure function of the snapshot and configuration: two
/// renders of the same immutable inputs produce byte-identical output.
pub proof fn lemma_render_idempotent(
    cfg: Config,
    d: SystemData,
    items: Seq<(Seq<char>, Seq<char>, Seq<char>, Option<Seq<char>>, Option<Seq<char>>)>,
    ascii: Seq<Seq<char>>,
    cmds: Seq<Option<Seq<char>>>,
    out1: Seq<char>,
    out2: Seq<char>,
)
    requires
        out1 == spec_render_body(cfg, d, items, ascii, cmds),
        out2 == spec_render_body(cfg, d, items, ascii, cmds),
    ensures
        out1 == out2,
{
}

} // verus!
