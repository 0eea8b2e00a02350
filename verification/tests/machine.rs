use bench_hashes::machine::is_whitespace_char;
use bench_hashes::machine::machine_metadata_from;
use bench_hashes::machine::output_directory;
use bench_hashes::machine::same_text;
use bench_hashes::machine::trim_whitespace;

fn brands(names: &[&str]) -> Vec<String> {
    names.iter().map(|name| name.to_string()).collect()
}

#[test]
fn whitespace_is_trimmed_as_str_trim_does() {
    for text in ["  Apple M4 Max  ", "\t\nx\u{a0}", "", "   ", "no-space", "\u{3000}wide\u{2029}"] {
        assert_eq!(trim_whitespace(text), text.trim());
    }
    assert!(is_whitespace_char('\u{85}'));
    assert!(!is_whitespace_char('x'));
}

#[test]
fn texts_compare_by_characters() {
    assert!(same_text("macos", "macos"));
    assert!(!same_text("macos", "macOS"));
    assert!(!same_text("linux", "linu"));
}

#[test]
fn first_nonblank_brand_names_the_cpu() {
    let machine = machine_metadata_from(
        "2026-01-02 03:04:05 UTC".to_string(),
        &brands(&["   ", " Apple M4 Max ", "Other"]),
        Some("24.1.0".to_string()),
        "macos",
        "aarch64",
    );
    assert_eq!(machine.timestamp, "2026-01-02 03:04:05 UTC");
    assert_eq!(machine.cpu_type, "Apple M4 Max");
    assert_eq!(machine.cpu_count, 3);
    assert_eq!(machine.os_type, "darwin24");
}

#[test]
fn blank_brands_fall_back_to_the_architecture() {
    let machine = machine_metadata_from(
        "t".to_string(),
        &brands(&["", " "]),
        Some("6.8.0-45-generic".to_string()),
        "linux",
        "x86_64",
    );
    assert_eq!(machine.cpu_type, "x86_64");
    assert_eq!(machine.cpu_count, 2);
    assert_eq!(machine.os_type, "linux6.8.0-45-generic");
}

#[test]
fn unreported_kernel() {
    let machine = machine_metadata_from("t".to_string(), &brands(&["cpu"]), None, "linux", "x86_64");
    assert_eq!(machine.os_type, "linuxunreported");
    let darwin = machine_metadata_from("t".to_string(), &brands(&["cpu"]), None, "macos", "aarch64");
    assert_eq!(darwin.os_type, "darwinunreported");
}

#[test]
fn results_directory() {
    let machine = machine_metadata_from(
        "t".to_string(),
        &brands(&["Apple M4 Max"]),
        Some("24.1.0".to_string()),
        "macos",
        "aarch64",
    );
    assert_eq!(output_directory(&machine), "benchmark-results/AppleM4Max.darwin24");
}
