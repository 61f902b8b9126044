use swiftfetch::system::{
    read_os_name, read_kernel_version, read_cpu_info, detect_init_system, get_battery_info,
    detect_wm_or_de, get_shell, get_username, get_editor, get_terminal, collect_user_info,
    collect_system_status, InitMarkers, PowerSupplyEntry, ProcEntry,
};
use swiftfetch::error::SwiftfetchError;

fn no_init_markers() -> InitMarkers {
    InitMarkers {
        run_systemd: false,
        usr_lib_systemd: false,
        etc_systemd: false,
        systemctl_ok: false,
        sbin_openrc: false,
        usr_sbin_openrc: false,
        etc_runit: false,
        etc_initd: false,
        etc_s6: false,
    }
}

#[test]
fn os_name_from_pretty_name_line() {
    let content = "NAME=\"Arch Linux\"\nPRETTY_NAME=\"Arch Linux\"\nID=arch\n";
    assert_eq!(read_os_name(content).unwrap(), "Arch Linux");
}

#[test]
fn os_name_missing_is_detection_error() {
    let err = read_os_name("ID=arch\n").unwrap_err();
    assert_eq!(err, SwiftfetchError::Detection("OS name not found".to_string()));
}

#[test]
fn kernel_version_is_third_token() {
    let content = "Linux version 6.12.1-arch1-1 (builder@host) #1 SMP\n";
    assert_eq!(read_kernel_version(content).unwrap(), "6.12.1-arch1-1");
    assert!(read_kernel_version("Linux version").is_err());
}

#[test]
fn cpu_brand_from_first_model_name() {
    let content = "processor\t: 0\nmodel name\t: AMD Ryzen 7 7800X3D 8-Core Processor\nprocessor\t: 1\nmodel name\t: other\n";
    assert_eq!(
        read_cpu_info(content).unwrap(),
        "AMD Ryzen 7 7800X3D 8-Core Processor"
    );
    let err = read_cpu_info("flags: fpu\n").unwrap_err();
    assert_eq!(err, SwiftfetchError::Detection("CPU info not found".to_string()));
}

#[test]
fn init_system_priority_order() {
    let mut m = no_init_markers();
    assert_eq!(detect_init_system(&m), "Unknown");
    m.etc_s6 = true;
    assert_eq!(detect_init_system(&m), "s6");
    m.etc_initd = true;
    assert_eq!(detect_init_system(&m), "SysV");
    m.etc_runit = true;
    assert_eq!(detect_init_system(&m), "runit");
    m.sbin_openrc = true;
    assert_eq!(detect_init_system(&m), "OpenRC");
    m.systemctl_ok = true;
    assert_eq!(detect_init_system(&m), "systemd");
    m.run_systemd = true;
    assert_eq!(detect_init_system(&m), "systemd");
}

#[test]
fn battery_reads_first_usable_entry() {
    let entries = vec![
        PowerSupplyEntry {
            name: "AC".to_string(),
            capacity: None,
            status: None,
        },
        PowerSupplyEntry {
            name: "BAT0".to_string(),
            capacity: Some("85\n".to_string()),
            status: Some("Charging\n".to_string()),
        },
    ];
    assert_eq!(get_battery_info(&entries).unwrap(), "85% \u{26A1}");
}

#[test]
fn battery_status_glyphs() {
    let make = |status: &str| {
        vec![PowerSupplyEntry {
            name: "BAT0".to_string(),
            capacity: Some("50".to_string()),
            status: Some(status.to_string()),
        }]
    };
    assert_eq!(get_battery_info(&make("Discharging")).unwrap(), "50% \u{1F50B}");
    assert_eq!(get_battery_info(&make("Full")).unwrap(), "50% \u{1F50B}");
    assert_eq!(get_battery_info(&make("Not charging")).unwrap(), "50% \u{1F50C}");
}

#[test]
fn no_battery_is_detection_error() {
    let err = get_battery_info(&Vec::new()).unwrap_err();
    assert_eq!(err, SwiftfetchError::Detection("No battery found".to_string()));
}

#[test]
fn desktop_from_environment_first() {
    assert_eq!(
        detect_wm_or_de(&Some("plasma".to_string()), &None, false, &Vec::new()),
        "Plasma"
    );
    // a set but empty variable falls through to the Wayland check
    assert_eq!(
        detect_wm_or_de(&Some(String::new()), &Some("ignored".to_string()), true, &Vec::new()),
        "Wayland"
    );
}

#[test]
fn desktop_from_process_scan() {
    let procs = vec!["systemd".to_string(), "sway\n".to_string()];
    assert_eq!(detect_wm_or_de(&None, &None, false, &procs), "Sway");
    let gnome = vec!["gnome-session-binary".to_string()];
    assert_eq!(detect_wm_or_de(&None, &None, false, &gnome), "GNOME");
    assert_eq!(detect_wm_or_de(&None, &None, false, &Vec::new()), "Unknown");
}

#[test]
fn shell_found_walking_ancestry() {
    let table = vec![
        ProcEntry { pid: 100, ppid: 50, exe: Some("cargo".to_string()) },
        ProcEntry { pid: 50, ppid: 10, exe: Some("Zsh".to_string()) },
        ProcEntry { pid: 10, ppid: 1, exe: Some("systemd".to_string()) },
    ];
    assert_eq!(get_shell(&table, Some(100), &None), "zsh");
}

#[test]
fn shell_walk_passes_generic_wrappers_by() {
    // sh and dash are wrappers: the walk continues to the shell above them
    let table = vec![
        ProcEntry { pid: 100, ppid: 50, exe: Some("dash".to_string()) },
        ProcEntry { pid: 50, ppid: 10, exe: Some("sh".to_string()) },
        ProcEntry { pid: 10, ppid: 1, exe: Some("fish".to_string()) },
    ];
    assert_eq!(get_shell(&table, Some(100), &None), "fish");
    // nothing but wrappers: fall back to the environment
    let wrappers = vec![
        ProcEntry { pid: 100, ppid: 1, exe: Some("dash".to_string()) },
    ];
    assert_eq!(
        get_shell(&wrappers, Some(100), &Some("/bin/bash".to_string())),
        "bash"
    );
}

#[test]
fn shell_falls_back_to_environment_basename() {
    let table = vec![
        ProcEntry { pid: 7, ppid: 1, exe: Some("some-terminal".to_string()) },
    ];
    assert_eq!(
        get_shell(&table, Some(7), &Some("/usr/bin/fish".to_string())),
        "fish"
    );
    assert_eq!(get_shell(&Vec::new(), None, &None), "Unknown");
}

#[test]
fn environment_defaults() {
    assert_eq!(get_username(Some("alice".to_string())), "alice");
    assert_eq!(get_username(None), "Unknown");
    assert_eq!(get_editor(None), "nano");
    assert_eq!(get_terminal(Some("xterm-256color".to_string())), "256color");
    assert_eq!(get_terminal(None), "Unknown");
}

#[test]
fn user_info_formats_bold_user_at_host() {
    let info = collect_user_info("alice".to_string(), "box\n".to_string());
    assert_eq!(info.formatted_user_info, "\x1b[1malice@box\x1b[0m");
    assert_eq!(info.username, "alice");
    assert_eq!(info.hostname, "box\n");
}

#[test]
fn status_block_formats_uptime() {
    let status = collect_system_status(
        3661,
        "systemd".to_string(),
        "No battery".to_string(),
        "Sway".to_string(),
        "nano".to_string(),
        "zsh".to_string(),
        "foot".to_string(),
    );
    assert_eq!(status.uptime_seconds, 3661);
    assert_eq!(status.uptime_formatted, "1h 01m");
    assert_eq!(status.init_system, "systemd");
}
