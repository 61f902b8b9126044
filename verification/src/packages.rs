//! Package counting: which package manager the host runs, and how many
//! packages each manager's database or listing reports.

use vstd::prelude::*;
use crate::error::SwiftfetchError;
use crate::strutil::{
    spec_lines, spec_starts_with, spec_ends_with, split_lines, str_starts_with,
    str_ends_with,
};

verus! {

/// The package managers the detector can name.
#[derive(Debug, Clone, Copy, PartialEq, Eq, Structural)]
pub enum PackageManager {
    Nix,
    Pacman,
    Xbps,
    Apt,
    Dnf,
    Portage,
}

/// Which package-manager marker paths exist, and which manager
/// executables are on the path.
#[derive(Debug, Clone, Copy, PartialEq, Eq, Structural)]
pub struct PackageMarkers {
    pub pacman_db: bool,
    pub dpkg_status: bool,
    pub rpm_db: bool,
    pub xbps_db: bool,
    pub portage_db: bool,
    pub has_nix_store: bool,
    pub has_xbps_query: bool,
    pub has_apt: bool,
    pub has_dnf: bool,
    pub has_yum: bool,
    pub has_emerge: bool,
}

/// The manager the markers identify: database paths first, in the fixed
/// priority order, then executable presence.
pub open spec fn spec_package_manager(m: PackageMarkers) -> Option<PackageManager> {
    if m.pacman_db { Some(PackageManager::Pacman) }
    else if m.dpkg_status { Some(PackageManager::Apt) }
    else if m.rpm_db { Some(PackageManager::Dnf) }
    else if m.xbps_db { Some(PackageManager::Xbps) }
    else if m.portage_db { Some(PackageManager::Portage) }
    else if m.has_nix_store { Some(PackageManager::Nix) }
    else if m.has_xbps_query { Some(PackageManager::Xbps) }
    else if m.has_apt { Some(PackageManager::Apt) }
    else if m.has_dnf || m.has_yum { Some(PackageManager::Dnf) }
    else if m.has_emerge { Some(PackageManager::Portage) }
    else { None }
}

/// Name the active package manager from its markers.
pub fn detect_package_manager(m: &PackageMarkers) -> (r: Option<PackageManager>)
    ensures
        r == spec_package_manager(*m),
{
    if m.pacman_db { Some(PackageManager::Pacman) }
    else if m.dpkg_status { Some(PackageManager::Apt) }
    else if m.rpm_db { Some(PackageManager::Dnf) }
    else if m.xbps_db { Some(PackageManager::Xbps) }
    else if m.portage_db { Some(PackageManager::Portage) }
    else if m.has_nix_store { Some(PackageManager::Nix) }
    else if m.has_xbps_query { Some(PackageManager::Xbps) }
    else if m.has_apt { Some(PackageManager::Apt) }
    else if m.has_dnf || m.has_yum { Some(PackageManager::Dnf) }
    else if m.has_emerge { Some(PackageManager::Portage) }
    else { None }
}

/// The raw material each counting strategy works on: directory listings
/// and command output, where reading or running them succeeded.
#[derive(Debug, Clone)]
pub struct PackageSources {
    pub pacman_dir_count: Option<u64>,
    pub xbps_file_names: Option<Vec<String>>,
    pub xbps_query_output: Option<String>,
    pub dpkg_query_output: Option<String>,
    pub dnf_output: Option<String>,
    pub yum_output: Option<String>,
    pub rpm_output: Option<String>,
    pub nix_output: Option<String>,
    pub portage_subcounts: Option<Vec<u64>>,
}

/// How many of the lines satisfy `p`.
pub open spec fn spec_count_matching(ls: Seq<Seq<char>>, p: spec_fn(Seq<char>) -> bool) -> nat
    decreases ls.len(),
{
    if ls.len() == 0 {
        0
    } else {
        spec_count_matching(ls.subrange(0, ls.len() - 1), p)
            + if p(ls[ls.len() - 1]) { 1nat } else { 0nat }
    }
}

fn count_lines_matching(lines: &Vec<String>, which: u8, ghost_all: Ghost<Seq<Seq<char>>>)
    -> (r: usize)
    requires
        lines@.len() == ghost_all@.len(),
        forall|k: int| 0 <= k < lines@.len() ==> lines@[k]@ == ghost_all@[k],
        which <= 2,
    ensures
        which == 0 ==> r == ghost_all@.len(),
        which == 1 ==> r == spec_count_matching(ghost_all@, |l: Seq<char>| l.len() > 0),
        which == 2 ==> r == spec_count_matching(ghost_all@,
            |l: Seq<char>| l.len() > 0 && !spec_starts_with(l, "Installed Packages"@)),
{
    let ghost p1 = |l: Seq<char>| l.len() > 0;
    let ghost p2 = |l: Seq<char>| l.len() > 0 && !spec_starts_with(l, "Installed Packages"@);
    if which == 0 {
        return lines.len();
    }
    let n = lines.len();
    let mut count: usize = 0;
    let mut i: usize = 0;
    while i < n
        invariant
            n == lines@.len(),
            i <= n,
            lines@.len() == ghost_all@.len(),
            forall|k: int| 0 <= k < n ==> lines@[k]@ == ghost_all@[k],
            1 <= which <= 2,
            which == 1 ==> count == spec_count_matching(
                ghost_all@.subrange(0, i as int), p1),
            which == 2 ==> count == spec_count_matching(
                ghost_all@.subrange(0, i as int), p2),
            count <= i,
        decreases n - i,
    {
        proof {
            assert(ghost_all@.subrange(0, i + 1).subrange(0, i as int)
                =~= ghost_all@.subrange(0, i as int));
            assert(ghost_all@.subrange(0, i + 1)[i as int] == ghost_all@[i as int]);
        }
        let line = lines[i].as_str();
        let hit = if which == 1 {
            line.unicode_len() > 0
        } else {
            line.unicode_len() > 0 && !str_starts_with(line, "Installed Packages")
        };
        if hit {
            count = count + 1;
        }
        i = i + 1;
    }
    proof {
        assert(ghost_all@.subrange(0, n as int) =~= ghost_all@);
    }
    count
}

/// A package-list file name: one ending in `.plist`.
pub open spec fn spec_is_plist(n: Seq<char>) -> bool {
    spec_ends_with(n, ".plist"@)
}

/// How many of the names end in `.plist`.
pub open spec fn spec_plist_count(names: Seq<Seq<char>>) -> nat {
    spec_count_matching(names, |n: Seq<char>| spec_is_plist(n))
}

fn count_plist_names(names: &Vec<String>) -> (r: usize)
    ensures
        r == spec_plist_count(Seq::new(names@.len(), |i: int| names@[i]@)),
{
    let ghost views = Seq::new(names@.len(), |i: int| names@[i]@);
    let ghost p = |n: Seq<char>| spec_is_plist(n);
    let n = names.len();
    let mut count: usize = 0;
    let mut i: usize = 0;
    while i < n
        invariant
            n == names@.len(),
            i <= n,
            views == Seq::new(names@.len(), |k: int| names@[k]@),
            count == spec_count_matching(views.subrange(0, i as int), p),
            count <= i,
        decreases n - i,
    {
        proof {
            assert(views.subrange(0, i + 1).subrange(0, i as int)
                =~= views.subrange(0, i as int));
            assert(views.subrange(0, i + 1)[i as int] == views[i as int]);
        }
        if str_ends_with(names[i].as_str(), ".plist") {
            count = count + 1;
        }
        i = i + 1;
    }
    proof {
        assert(views.subrange(0, n as int) =~= views);
    }
    count
}

/// The sum of the per-category entry counts.
pub open spec fn spec_sum(counts: Seq<u64>) -> int
    decreases counts.len(),
{
    if counts.len() == 0 {
        0
    } else {
        spec_sum(counts.subrange(0, counts.len() - 1)) + counts[counts.len() - 1]
    }
}

/// The count each manager's strategy yields, over the markers and raw
/// sources; `Err` where the needed listing or command output is missing.
pub open spec fn spec_package_count(
    mgr: Option<PackageManager>,
    m: PackageMarkers,
    s: PackageSources,
) -> Option<int> {
    match mgr {
        None => Some(0),
        Some(PackageManager::Pacman) => match s.pacman_dir_count {
            Some(c) => Some(c as int),
            None => None,
        },
        Some(PackageManager::Xbps) => {
            let direct: Option<int> = match s.xbps_file_names {
                Some(names) => {
                    let c = spec_plist_count(
                        Seq::new(names@.len(), |i: int| names@[i]@));
                    if c > 0 { Some(c as int) } else { None }
                },
                None => None,
            };
            if direct is Some {
                direct
            } else {
                match s.xbps_query_output {
                    Some(out) => Some(spec_lines(out@).len() as int),
                    None => None,
                }
            }
        },
        Some(PackageManager::Apt) => match s.dpkg_query_output {
            Some(out) => Some(spec_count_matching(spec_lines(out@),
                |l: Seq<char>| l.len() > 0) as int),
            None => None,
        },
        Some(PackageManager::Dnf) => {
            if m.has_dnf {
                match s.dnf_output {
                    Some(out) => Some(spec_count_matching(spec_lines(out@),
                        |l: Seq<char>| l.len() > 0
                            && !spec_starts_with(l, "Installed Packages"@)) as int),
                    None => None,
                }
            } else if m.has_yum {
                match s.yum_output {
                    Some(out) => Some(spec_count_matching(spec_lines(out@),
                        |l: Seq<char>| l.len() > 0
                            && !spec_starts_with(l, "Installed Packages"@)) as int),
                    None => None,
                }
            } else {
                match s.rpm_output {
                    Some(out) => Some(spec_count_matching(spec_lines(out@),
                        |l: Seq<char>| l.len() > 0) as int),
                    None => None,
                }
            }
        },
        Some(PackageManager::Portage) => match s.portage_subcounts {
            Some(counts) => Some(spec_sum(counts@)),
            None => None,
        },
        Some(PackageManager::Nix) => match s.nix_output {
            Some(out) => Some(spec_lines(out@).len() as int),
            None => None,
        },
    }
}

/// Count the installed packages for the detected manager.
pub fn get_package_count(
    mgr: &Option<PackageManager>,
    m: &PackageMarkers,
    s: &PackageSources,
) -> (r: Result<usize, SwiftfetchError>)
    requires
        match s.pacman_dir_count {
            Some(c) => c <= usize::MAX,
            None => true,
        },
        match s.portage_subcounts {
            Some(counts) => spec_sum(counts@) <= usize::MAX,
            None => true,
        },
    ensures
        match r {
            Ok(c) => spec_package_count(*mgr, *m, *s) == Some(c as int),
            Err(_) => spec_package_count(*mgr, *m, *s) is None,
        },
{
    match mgr {
        None => Ok(0),
        Some(PackageManager::Pacman) => match &s.pacman_dir_count {
            Some(c) => Ok(*c as usize),
            None => Err(SwiftfetchError::Io("package database unreadable".to_owned())),
        },
        Some(PackageManager::Xbps) => {
            match &s.xbps_file_names {
                Some(names) => {
                    let c = count_plist_names(names);
                    if c > 0 {
                        return Ok(c);
                    }
                },
                None => {},
            }
            match &s.xbps_query_output {
                Some(out) => {
                    let lines = split_lines(out.as_str());
                    let ghost all = Seq::new(lines@.len(), |i: int| lines@[i]@);
                    proof {
                        assert(all =~= spec_lines(out@));
                    }
                    Ok(count_lines_matching(&lines, 0, Ghost(all)))
                },
                None => Err(SwiftfetchError::Detection("command failed".to_owned())),
            }
        },
        Some(PackageManager::Apt) => match &s.dpkg_query_output {
            Some(out) => {
                let lines = split_lines(out.as_str());
                let ghost all = Seq::new(lines@.len(), |i: int| lines@[i]@);
                proof {
                    assert(all =~= spec_lines(out@));
                }
                Ok(count_lines_matching(&lines, 1, Ghost(all)))
            },
            None => Err(SwiftfetchError::Detection("command failed".to_owned())),
        },
        Some(PackageManager::Dnf) => {
            let out_opt = if m.has_dnf {
                &s.dnf_output
            } else if m.has_yum {
                &s.yum_output
            } else {
                &s.rpm_output
            };
            let which: u8 = if m.has_dnf || m.has_yum { 2 } else { 1 };
            match out_opt {
                Some(out) => {
                    let lines = split_lines(out.as_str());
                    let ghost all = Seq::new(lines@.len(), |i: int| lines@[i]@);
                    proof {
                        assert(all =~= spec_lines(out@));
                    }
                    Ok(count_lines_matching(&lines, which, Ghost(all)))
                },
                None => Err(SwiftfetchError::Detection("command failed".to_owned())),
            }
        },
        Some(PackageManager::Portage) => match &s.portage_subcounts {
            Some(counts) => {
                let n = counts.len();
                let mut total: usize = 0;
                let mut i: usize = 0;
                while i < n
                    invariant
                        n == counts@.len(),
                        i <= n,
                        total == spec_sum(counts@.subrange(0, i as int)),
                        spec_sum(counts@) <= usize::MAX,
                    decreases n - i,
                {
                    proof {
                        assert(counts@.subrange(0, i + 1).subrange(0, i as int)
                            =~= counts@.subrange(0, i as int));
                        assert(counts@.subrange(0, i + 1)[i as int] == counts@[i as int]);
                        lemma_sum_prefix_le(counts@, i + 1);
                        lemma_sum_nonneg(counts@.subrange(0, i as int));
                    }
                    total = total + (counts[i] as usize);
                    i = i + 1;
                }
                proof {
                    assert(counts@.subrange(0, n as int) =~= counts@);
                }
                Ok(total)
            },
            None => Err(SwiftfetchError::Io("package database unreadable".to_owned())),
        },
        Some(PackageManager::Nix) => match &s.nix_output {
            Some(out) => {
                let lines = split_lines(out.as_str());
                let ghost all = Seq::new(lines@.len(), |i: int| lines@[i]@);
                proof {
                    assert(all =~= spec_lines(out@));
                }
                Ok(count_lines_matching(&lines, 0, Ghost(all)))
            },
            None => Err(SwiftfetchError::Detection("command failed".to_owned())),
        },
    }
}

proof fn lemma_sum_nonneg(counts: Seq<u64>)
    ensures
        spec_sum(counts) >= 0,
    decreases counts.len(),
{
    if counts.len() > 0 {
        lemma_sum_nonneg(counts.subrange(0, counts.len() - 1));
    }
}

proof fn lemma_sum_prefix_le(counts: Seq<u64>, i: int)
    requires
        0 <= i <= counts.len(),
    ensures
        spec_sum(counts.subrange(0, i)) <= spec_sum(counts),
    decreases counts.len() - i,
{
    if i < counts.len() {
        lemma_sum_prefix_le(counts, i + 1);
        assert(counts.subrange(0, i + 1).subrange(0, i) =~= counts.subrange(0, i));
        assert(counts.subrange(0, i + 1)[i] == counts[i]);
    } else {
        assert(counts.subrange(0, counts.len() as int) =~= counts);
    }
}

/// How many of the entry flags mark a directory.
pub open spec fn spec_dir_count(flags: Seq<bool>) -> nat
    decreases flags.len(),
{
    if flags.len() == 0 {
        0
    } else {
        spec_dir_count(flags.subrange(0, flags.len() - 1))
            + if flags[flags.len() - 1] { 1nat } else { 0nat }
    }
}

/// Count the installed flatpak applications: the directory entries of the
/// flatpak apps directory that are themselves directories. An absent
/// directory means zero, never an error; an unreadable one is an error.
pub fn get_flatpak_package_count(
    dir_present: bool,
    entry_is_dir: &Option<Vec<bool>>,
) -> (r: Result<usize, SwiftfetchError>)
    ensures
        !dir_present ==> r == Result::<usize, SwiftfetchError>::Ok(0usize),
        dir_present ==> match r {
            Ok(c) => entry_is_dir is Some
                && c as nat == spec_dir_count(entry_is_dir.unwrap()@),
            Err(_) => entry_is_dir is None,
        },
{
    if !dir_present {
        return Ok(0);
    }
    match entry_is_dir {
        Some(flags) => {
            let n = flags.len();
            let mut count: usize = 0;
            let mut i: usize = 0;
            while i < n
                invariant
                    n == flags@.len(),
                    i <= n,
                    count == spec_dir_count(flags@.subrange(0, i as int)),
                    count <= i,
                decreases n - i,
            {
                proof {
                    assert(flags@.subrange(0, i + 1).subrange(0, i as int)
                        =~= flags@.subrange(0, i as int));
                    assert(flags@.subrange(0, i + 1)[i as int] == flags@[i as int]);
                }
                if flags[i] {
                    count = count + 1;
                }
                i = i + 1;
            }
            proof {
                assert(flags@.subrange(0, n as int) =~= flags@);
            }
            Ok(count)
        },
        None => Err(SwiftfetchError::Io("apps directory unreadable".to_owned())),
    }
}

/// Assemble the package fact, absorbing either count's failure into zero.
pub fn collect_package_info(
    mgr: &Option<PackageManager>,
    m: &PackageMarkers,
    s: &PackageSources,
    flatpak_dir_present: bool,
    flatpak_entry_is_dir: &Option<Vec<bool>>,
) -> (r: crate::data::PackageInfo)
    requires
        match s.pacman_dir_count {
            Some(c) => c <= usize::MAX,
            None => true,
        },
        match s.portage_subcounts {
            Some(counts) => spec_sum(counts@) <= usize::MAX,
            None => true,
        },
    ensures
        r.system_packages as int == match spec_package_count(*mgr, *m, *s) {
            Some(c) => c,
            None => 0,
        },
        r.flatpak_packages as nat == if flatpak_dir_present {
            match flatpak_entry_is_dir {
                Some(flags) => spec_dir_count(flags@),
                None => 0,
            }
        } else {
            0
        },
{
    let system_packages = match get_package_count(mgr, m, s) {
        Ok(c) => c,
        Err(_) => 0,
    };
    let flatpak_packages = match get_flatpak_package_count(
        flatpak_dir_present, flatpak_entry_is_dir) {
        Ok(c) => c,
        Err(_) => 0,
    };
    crate::data::PackageInfo { system_packages, flatpak_packages }
}

} // verus!
