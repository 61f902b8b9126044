use swiftfetch::packages::{
    detect_package_manager, get_package_count, get_flatpak_package_count,
    collect_package_info, PackageManager, PackageMarkers, PackageSources,
};

fn no_markers() -> PackageMarkers {
    PackageMarkers {
        pacman_db: false,
        dpkg_status: false,
        rpm_db: false,
        xbps_db: false,
        portage_db: false,
        has_nix_store: false,
        has_xbps_query: false,
        has_apt: false,
        has_dnf: false,
        has_yum: false,
        has_emerge: false,
    }
}

fn no_sources() -> PackageSources {
    PackageSources {
        pacman_dir_count: None,
        xbps_file_names: None,
        xbps_query_output: None,
        dpkg_query_output: None,
        dnf_output: None,
        yum_output: None,
        rpm_output: None,
        nix_output: None,
        portage_subcounts: None,
    }
}

#[test]
fn database_paths_win_over_executables() {
    let mut m = no_markers();
    m.has_apt = true;
    m.pacman_db = true;
    assert_eq!(detect_package_manager(&m), Some(PackageManager::Pacman));
    m.pacman_db = false;
    assert_eq!(detect_package_manager(&m), Some(PackageManager::Apt));
    assert_eq!(detect_package_manager(&no_markers()), None);
}

#[test]
fn executable_fallback_order() {
    let mut m = no_markers();
    m.has_emerge = true;
    m.has_yum = true;
    assert_eq!(detect_package_manager(&m), Some(PackageManager::Dnf));
    m.has_yum = false;
    assert_eq!(detect_package_manager(&m), Some(PackageManager::Portage));
}

#[test]
fn no_manager_counts_zero() {
    assert_eq!(get_package_count(&None, &no_markers(), &no_sources()).unwrap(), 0);
}

#[test]
fn pacman_counts_directory_entries() {
    let mut s = no_sources();
    s.pacman_dir_count = Some(1234);
    assert_eq!(
        get_package_count(&Some(PackageManager::Pacman), &no_markers(), &s).unwrap(),
        1234
    );
    assert!(get_package_count(&Some(PackageManager::Pacman), &no_markers(), &no_sources())
        .is_err());
}

#[test]
fn xbps_counts_plists_with_query_fallback() {
    let mut s = no_sources();
    s.xbps_file_names = Some(vec![
        "pkgdb-0.38.plist".to_string(),
        "keys".to_string(),
        "other.plist".to_string(),
    ]);
    assert_eq!(
        get_package_count(&Some(PackageManager::Xbps), &no_markers(), &s).unwrap(),
        2
    );
    let mut s2 = no_sources();
    s2.xbps_file_names = Some(vec!["keys".to_string()]);
    s2.xbps_query_output = Some("ii pkg-1\nii pkg-2\nii pkg-3".to_string());
    assert_eq!(
        get_package_count(&Some(PackageManager::Xbps), &no_markers(), &s2).unwrap(),
        3
    );
}

#[test]
fn apt_counts_nonempty_lines() {
    let mut s = no_sources();
    s.dpkg_query_output = Some("bash\ncoreutils\n\ngrep\n".to_string());
    assert_eq!(
        get_package_count(&Some(PackageManager::Apt), &no_markers(), &s).unwrap(),
        3
    );
}

#[test]
fn dnf_family_skips_header_lines() {
    let mut m = no_markers();
    m.has_dnf = true;
    let mut s = no_sources();
    s.dnf_output = Some("Installed Packages\nbash.x86_64\nzsh.x86_64\n".to_string());
    assert_eq!(get_package_count(&Some(PackageManager::Dnf), &m, &s).unwrap(), 2);

    // without dnf or yum present, the plain rpm listing counts every line
    let mut s2 = no_sources();
    s2.rpm_output = Some("bash\nzsh\n\n".to_string());
    assert_eq!(
        get_package_count(&Some(PackageManager::Dnf), &no_markers(), &s2).unwrap(),
        2
    );
}

#[test]
fn portage_sums_category_counts() {
    let mut s = no_sources();
    s.portage_subcounts = Some(vec![10, 0, 32]);
    assert_eq!(
        get_package_count(&Some(PackageManager::Portage), &no_markers(), &s).unwrap(),
        42
    );
}

#[test]
fn nix_counts_listing_lines() {
    let mut s = no_sources();
    s.nix_output = Some("/nix/store/a\n/nix/store/b".to_string());
    assert_eq!(
        get_package_count(&Some(PackageManager::Nix), &no_markers(), &s).unwrap(),
        2
    );
}

#[test]
fn absent_flatpak_directory_counts_zero() {
    assert_eq!(get_flatpak_package_count(false, &None).unwrap(), 0);
}

#[test]
fn empty_flatpak_directory_counts_zero() {
    assert_eq!(get_flatpak_package_count(true, &Some(Vec::new())).unwrap(), 0);
}

#[test]
fn flatpak_counts_only_directories() {
    assert_eq!(
        get_flatpak_package_count(true, &Some(vec![true, false, true])).unwrap(),
        2
    );
    assert!(get_flatpak_package_count(true, &None).is_err());
}

#[test]
fn package_info_absorbs_failures() {
    let info = collect_package_info(
        &Some(PackageManager::Pacman),
        &no_markers(),
        &no_sources(),
        false,
        &None,
    );
    assert_eq!(info.system_packages, 0);
    assert_eq!(info.flatpak_packages, 0);
}
