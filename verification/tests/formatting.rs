use swiftfetch::parsing::{extract_after_colon, format_uptime, clean_gpu_name};
use swiftfetch::hardware::{format_size, format_gb, format_disk_usage, collect_memory_info};
use swiftfetch::system::{format_os_age, read_uptime, get_hostname, trim_quotes};
use swiftfetch::error::SwiftfetchError;
use swiftfetch::strutil::capitalize_first_letter;

#[test]
fn uptime_zero_is_minutes_only() {
    assert_eq!(format_uptime(0), "0m");
}

#[test]
fn uptime_hour_and_padded_minutes() {
    assert_eq!(format_uptime(3661), "1h 01m");
}

#[test]
fn uptime_under_an_hour() {
    assert_eq!(format_uptime(59), "0m");
    assert_eq!(format_uptime(59 * 60), "59m");
}

#[test]
fn uptime_many_hours() {
    assert_eq!(format_uptime(26 * 3600 + 5 * 60), "26h 05m");
}

#[test]
fn size_terabytes() {
    assert_eq!(format_size(1_500_000_000_000), "1.5T");
}

#[test]
fn size_gigabytes() {
    assert_eq!(format_size(2_000_000_000), "2.0G");
}

#[test]
fn size_megabytes() {
    assert_eq!(format_size(1_500_000), "1.5M");
}

#[test]
fn size_below_the_megabyte_threshold_is_kilobytes() {
    // binary kilobytes, whole numbers, as the size rules give it
    assert_eq!(format_size(500_000), "488K");
}

#[test]
fn size_kilobytes() {
    assert_eq!(format_size(2048), "2K");
}

#[test]
fn size_zero() {
    assert_eq!(format_size(0), "0K");
}

#[test]
fn gb_two_decimals() {
    // 8 GiB in kB is 8388608; shown as 8.00
    assert_eq!(format_gb(8_388_608), "8.00");
    // half a GiB
    assert_eq!(format_gb(524_288), "0.50");
}

#[test]
fn disk_usage_line() {
    // 100 GB total, 40 GB available: 60 GB used, 60 percent
    assert_eq!(
        format_disk_usage(100_000_000_000, 40_000_000_000),
        "60.0G / 100.0G (60%)"
    );
}

#[test]
fn disk_usage_empty_filesystem() {
    assert_eq!(format_disk_usage(0, 0), "0K / 0K (0%)");
}

#[test]
fn memory_info_from_meminfo() {
    let content = "MemTotal:       16777216 kB\nMemFree:        1000000 kB\nMemAvailable:   8388608 kB\n";
    let info = collect_memory_info(content);
    assert_eq!(info.total_kb, 16_777_216);
    assert_eq!(info.used_kb, 8_388_608);
    assert_eq!(info.formatted, "8.00 GB / 16.00 GB");
}

#[test]
fn memory_info_missing_lines_is_zero() {
    let info = collect_memory_info("nothing useful here\n");
    assert_eq!(info.total_kb, 0);
    assert_eq!(info.used_kb, 0);
    assert_eq!(info.formatted, "0.00 GB / 0.00 GB");
}

#[test]
fn os_age_days_plural_and_singular() {
    // two days apart
    assert_eq!(format_os_age(200_000, 10_000), "2 days");
    // exactly one day
    assert_eq!(format_os_age(86_400 + 50, 50), "1 day");
    // no birth time recorded
    assert_eq!(format_os_age(1_000_000, 0), "Unsupported");
}

#[test]
fn uptime_parse_truncates_fraction() {
    assert_eq!(read_uptime("12345.67 8910.11\n"), 12345);
    assert_eq!(read_uptime("42 1\n"), 42);
    assert_eq!(read_uptime(""), 0);
    assert_eq!(read_uptime("garbage\n"), 0);
}

#[test]
fn hostname_is_first_line_trimmed() {
    assert_eq!(get_hostname("myhost\n"), "myhost");
    assert_eq!(get_hostname("  spaced  \nsecond"), "spaced");
}

#[test]
fn after_colon_takes_trimmed_value() {
    assert_eq!(
        extract_after_colon("model name\t: AMD Ryzen 7"),
        Some("AMD Ryzen 7".to_string())
    );
    assert_eq!(extract_after_colon("no colon here"), None);
    assert_eq!(extract_after_colon("key:   "), None);
}

#[test]
fn clean_gpu_name_strips_vendor_noise() {
    assert_eq!(
        clean_gpu_name("Advanced Micro Devices, Inc. Navi 32 [Radeon RX 7700 XT]"),
        "AMD Navi 32"
    );
    // removing the vendor word leaves its surrounding spaces behind
    assert_eq!(clean_gpu_name("NVIDIA Corporation AD104"), "NVIDIA  AD104");
}

#[test]
fn quotes_are_stripped_from_both_ends() {
    assert_eq!(trim_quotes("\"Arch Linux\""), "Arch Linux");
    assert_eq!(trim_quotes("plain"), "plain");
}

#[test]
fn error_messages_name_the_category() {
    assert_eq!(
        SwiftfetchError::Io("gone".to_string()).message(),
        "I/O error: gone"
    );
    assert_eq!(
        SwiftfetchError::Parse("bad".to_string()).message(),
        "Parse error: bad"
    );
    assert_eq!(
        SwiftfetchError::Config("odd".to_string()).message(),
        "Config error: odd"
    );
    assert_eq!(
        SwiftfetchError::Detection("none".to_string()).message(),
        "Detection error: none"
    );
}

#[test]
fn size_at_the_largest_input() {
    // the largest byte count still formats without overflow
    assert_eq!(format_size(u64::MAX), "18446744.1T");
}

#[test]
fn uptime_parse_saturates_on_huge_values() {
    assert_eq!(read_uptime("99999999999999999999999.5"), u64::MAX);
}

#[test]
fn capitalisation_uses_the_unicode_mapping() {
    assert_eq!(capitalize_first_letter("plasma"), "Plasma");
    assert_eq!(capitalize_first_letter(""), "");
    assert_eq!(capitalize_first_letter("Already"), "Already");
    // a mapping may expand to several characters
    assert_eq!(capitalize_first_letter("\u{DF}eta"), "SSeta");
    // and a multi-byte first character must not break the remainder
    assert_eq!(capitalize_first_letter("\u{E9}tat"), "\u{C9}tat");
}
