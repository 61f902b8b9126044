use swiftfetch::config::{Config, ConfigEntry, DisplayConfig};
use swiftfetch::display::{
    expand_items, get_output_value, render_body, render_output, load_ascii_lines,
    get_default_ascii, line_width, pad_line, SystemData,
};
use swiftfetch::system::get_battery_info;
use unicode_width::UnicodeWidthStr;

fn entry(key: &str, entry_type: &str, value: &str, color: Option<&str>) -> ConfigEntry {
    ConfigEntry {
        key: key.to_string(),
        entry_type: entry_type.to_string(),
        value: value.to_string(),
        color: color.map(|c| c.to_string()),
        value_color: None,
    }
}

fn config_with(items: Vec<ConfigEntry>, colors: Vec<(&str, &str)>) -> Config {
    Config {
        display: DisplayConfig {
            items,
            separator: None,
            ascii_path: None,
            ascii_color: "reset".to_string(),
            use_default_ascii: Some(false),
            show_all_gpus: Some(false),
            display_mode: None,
            image_path: None,
            image_width: None,
            image_height: None,
            image_padding_columns: None,
            image_rows: None,
            image_offset_columns: None,
            image_offset_rows: None,
        },
        colors: colors
            .into_iter()
            .map(|(k, v)| (k.to_string(), v.to_string()))
            .collect(),
    }
}

fn snapshot() -> SystemData {
    SystemData {
        os_name: "TestOS 1.0".to_string(),
        kernel_version: "6.1.0".to_string(),
        cpu_brand: "Test CPU".to_string(),
        gpu: "A [Discrete]".to_string(),
        all_gpus: vec!["A [Discrete]".to_string(), "B [Integrated]".to_string()],
        username: "alice".to_string(),
        hostname: "box\n".to_string(),
        wm_de: "Sway".to_string(),
        memory: "8.00 GB / 16.00 GB".to_string(),
        pkg_count: 1234,
        flatpak_pkg_count: 7,
        uptime_formatted: "1h 01m".to_string(),
        os_age: "2 days".to_string(),
        editor: "nano".to_string(),
        shell: "zsh".to_string(),
        terminal: "foot".to_string(),
        user_info: "\x1b[1malice@box\x1b[0m".to_string(),
        disk_usage: "60.0G / 100.0G (60%)".to_string(),
        init_system: "systemd".to_string(),
        battery_info: "No battery".to_string(),
    }
}

#[test]
fn default_item_renders_with_exact_escape_ordering() {
    let config = config_with(
        vec![entry("OS", "default", "os", Some("c1"))],
        vec![("c1", "#00FF00")],
    );
    let data = snapshot();
    let items = expand_items(&config.display.items, false, data.all_gpus.len());
    let result = render_body(&config, &data, &items, &Vec::new(), &vec![None]);
    let expected_fragment = "\x1b[38;2;0;255;0mOS: \x1b[0m\x1b[0mTestOS 1.0\x1b[0m";
    assert!(result.output.contains(expected_fragment));
    assert_eq!(
        result.output,
        format!("\x1b[0m  {}\n\x1b[0m", expected_fragment)
    );
    assert!(result.warnings.is_empty());
}

#[test]
fn show_all_gpus_expands_before_artwork_pairing() {
    let items = vec![entry("GPU", "default", "gpu", None)];
    let expanded = expand_items(&items, true, 2);
    assert_eq!(expanded.len(), 2);
    assert_eq!(expanded[0].value, "gpu1");
    assert_eq!(expanded[1].value, "gpu2");
    let data = snapshot();
    assert_eq!(get_output_value(&expanded[0], &data, &None), "A [Discrete]");
    assert_eq!(get_output_value(&expanded[1], &data, &None), "B [Integrated]");
}

#[test]
fn gpu_item_without_expansion_keeps_primary() {
    let items = vec![entry("GPU", "default", "gpu", None)];
    let expanded = expand_items(&items, false, 2);
    assert_eq!(expanded.len(), 1);
    assert_eq!(expanded[0].value, "gpu");
    assert_eq!(get_output_value(&expanded[0], &snapshot(), &None), "A [Discrete]");
}

#[test]
fn missing_battery_reaches_the_final_output() {
    // the collector boundary absorbs the failure into the documented fallback
    let battery = match get_battery_info(&Vec::new()) {
        Ok(v) => v,
        Err(_) => "No battery".to_string(),
    };
    let mut data = snapshot();
    data.battery_info = battery;
    let config = config_with(vec![entry("Battery", "default", "battery", None)], vec![]);
    let items = expand_items(&config.display.items, false, data.all_gpus.len());
    let result = render_output(&config, &data, &None, &vec![None; items.len()], None, false);
    assert!(result.output.contains("No battery"));
}

#[test]
fn two_renders_are_byte_identical() {
    let config = config_with(
        vec![
            entry("OS", "default", "os", Some("c1")),
            entry("", "default", "user_info", None),
            entry("note", "text", "hello", Some("red")),
        ],
        vec![("c1", "cyan")],
    );
    let data = snapshot();
    let items = expand_items(&config.display.items, false, data.all_gpus.len());
    let cmds = vec![None; items.len()];
    let first = render_output(&config, &data, &None, &cmds, None, false);
    let second = render_output(&config, &data, &None, &cmds, None, false);
    assert_eq!(first.output.as_bytes(), second.output.as_bytes());
    assert_eq!(first.warnings, second.warnings);
}

#[test]
fn artwork_lines_share_one_display_width() {
    let config = config_with(vec![], vec![]);
    let data = snapshot();
    let art = vec!["ab".to_string(), "\u{6F22}".to_string(), String::new()];
    let result = render_body(&config, &data, &Vec::new(), &art, &Vec::new());
    let body = result.output.strip_suffix("\x1b[0m").unwrap();
    let mut widths = Vec::new();
    for line in body.lines() {
        let padded = line.strip_prefix("\x1b[0m").unwrap();
        widths.push(UnicodeWidthStr::width(padded));
    }
    assert_eq!(widths, vec![2, 2, 2]);
}

#[test]
fn special_keys_show_only_their_value() {
    let config = config_with(
        vec![
            entry("user_info", "default", "user_info", None),
            entry("", "default", "shell", None),
            entry("skip", "default", "", None),
        ],
        vec![],
    );
    let data = snapshot();
    let items = expand_items(&config.display.items, false, data.all_gpus.len());
    let result = render_body(&config, &data, &items, &Vec::new(), &vec![None; 3]);
    assert!(result.output.contains("alice@box"));
    assert!(result.output.contains("zsh"));
    assert!(!result.output.contains("user_info: "));
    // the empty selector prints only the artwork line
    assert!(result.output.contains("\x1b[0m\n"));
}

#[test]
fn command_items_use_captured_output() {
    let config = config_with(vec![entry("Echo", "command", "echo hi", None)], vec![]);
    let data = snapshot();
    let items = expand_items(&config.display.items, false, data.all_gpus.len());
    let ok = render_body(&config, &data, &items, &Vec::new(), &vec![Some("  hi\n".to_string())]);
    assert!(ok.output.contains("Echo: \x1b[0m\x1b[0mhi\x1b[0m"));
    let failed = render_body(&config, &data, &items, &Vec::new(), &vec![None]);
    assert!(failed.output.contains("Command failed"));
}

#[test]
fn unknown_selector_and_type_yield_fixed_notes() {
    let data = snapshot();
    assert_eq!(
        get_output_value(&entry("x", "default", "nonsense", None), &data, &None),
        "Unknown default value"
    );
    assert_eq!(
        get_output_value(&entry("x", "mystery", "os", None), &data, &None),
        "Invalid type"
    );
    assert_eq!(
        get_output_value(&entry("x", "text", "literal", None), &data, &None),
        "literal"
    );
}

#[test]
fn unknown_color_key_warns_but_renders() {
    let config = config_with(vec![entry("OS", "default", "os", Some("mystery"))], vec![]);
    let data = snapshot();
    let items = expand_items(&config.display.items, false, data.all_gpus.len());
    let result = render_body(&config, &data, &items, &Vec::new(), &vec![None]);
    assert!(result.output.contains("TestOS 1.0"));
    assert_eq!(result.warnings.len(), 1);
    assert!(result.warnings[0].starts_with("Unknown color 'mystery'"));
}

#[test]
fn builtin_art_is_selected_by_distro() {
    assert!(get_default_ascii("Arch").is_some());
    assert!(get_default_ascii("nixos").is_some());
    assert_eq!(get_default_ascii("plan9"), None);
    let config = config_with(vec![], vec![]);
    // defaults disabled: no artwork at all
    let none = load_ascii_lines(&config, "arch", &None);
    assert!(none.is_empty());
    let mut config2 = config_with(vec![], vec![]);
    config2.display.use_default_ascii = Some(true);
    let arch = load_ascii_lines(&config2, "Arch Linux", &None);
    // "Arch Linux" is not a known identifier; "arch" is
    assert!(arch.is_empty());
    let arch2 = load_ascii_lines(&config2, "arch", &None);
    assert!(!arch2.is_empty());
}

#[test]
fn configured_art_file_wins() {
    let mut config = config_with(vec![], vec![]);
    config.display.ascii_path = Some("/some/art.txt".to_string());
    config.display.use_default_ascii = Some(true);
    let lines = load_ascii_lines(
        &config,
        "arch",
        &Some(vec!["one".to_string(), "two".to_string()]),
    );
    assert_eq!(lines, vec!["one".to_string(), "two".to_string()]);
    // unreadable file falls back to the built-in block
    let fallback = load_ascii_lines(&config, "arch", &None);
    assert!(!fallback.is_empty());
}

#[test]
fn widths_are_unicode_aware() {
    assert_eq!(line_width("abc"), 3);
    assert_eq!(line_width("\u{6F22}"), 2);
    assert_eq!(line_width("\u{7}"), 0);
    assert_eq!(pad_line("\u{6F22}", 4), "\u{6F22}  ");
    assert_eq!(pad_line("abcd", 2), "abcd");
}

#[test]
fn expansion_with_no_gpus_drops_the_item() {
    let items = vec![entry("GPU", "default", "gpu", None)];
    let expanded = expand_items(&items, true, 0);
    assert!(expanded.is_empty());
}

#[test]
fn color_table_first_match_wins() {
    let table = vec![
        ("c".to_string(), "red".to_string()),
        ("c".to_string(), "blue".to_string()),
    ];
    let hit = swiftfetch::config::color_lookup(&table, "c");
    assert_eq!(hit, Some(&"red".to_string()));
    assert_eq!(swiftfetch::config::color_lookup(&table, "missing"), None);
}
