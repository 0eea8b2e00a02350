use bench_hashes::algorithm::Algorithm;
use bench_hashes::algorithm::Provenance;
use bench_hashes::backend::detect_blake3_implementation;
use bench_hashes::backend::Architecture;
use bench_hashes::machine::MachineMetadata;
use bench_hashes::provenance::contender_provenance_lines;
use bench_hashes::provenance::package_name_and_version;
use bench_hashes::provenance::shared_provenance_lines;
use bench_hashes::provenance::short_git_source;

fn provenance(blake3_sme2_source: &'static str) -> Provenance {
    Provenance {
        bench_version: "0.1.0",
        git_source: "https://example.org/bench-hashes.git",
        git_commit: "0123456789abcdef",
        git_tag: "v0.1.0",
        git_clean_status: "clean",
        rustc_version: "rustc 1.90.0",
        build_target: "aarch64-apple-darwin",
        target_features: "neon",
        blake3_source: "blake3 1.8.2; registry+https://github.com/rust-lang/crates.io-index; checksum aa",
        sha2_source: "sha2 0.10.9; registry+https://github.com/rust-lang/crates.io-index; checksum bb",
        sha2_asm_source: "sha2-asm 0.6.4; registry+https://github.com/rust-lang/crates.io-index",
        sha1_checked_source: "sha1-checked 0.10.0; registry+https://github.com/rust-lang/crates.io-index",
        blake3_sme2_source,
    }
}

const FORK: &str = "blake3 1.8.2; git+https://example.org/blake3-sme2; branch sme2; commit 0123456789abcdef0123";

#[test]
fn package_head_of_a_lock_entry() {
    assert_eq!(
        package_name_and_version("blake3 1.8.2; registry+https://github.com/rust-lang/crates.io-index; checksum aa"),
        "blake3 1.8.2"
    );
    assert_eq!(package_name_and_version("no separator"), "no separator");
    assert_eq!(package_name_and_version(""), "");
}

#[test]
fn git_source_with_a_long_commit() {
    assert_eq!(
        short_git_source(FORK),
        Some("git+https://example.org/blake3-sme2 · branch sme2 · commit 0123456789ab".to_string())
    );
}

#[test]
fn git_source_with_a_short_commit() {
    assert_eq!(short_git_source("name; git+url; commit abc"), Some("git+url · commit abc".to_string()));
    assert_eq!(short_git_source("name only"), Some(String::new()));
}

#[test]
fn commit_cut_inside_a_character_fails() {
    assert_eq!(short_git_source("name; commit aéééééééé"), None);
    assert_eq!(short_git_source("name; commit ééééééééé"), Some("commit éééééé".to_string()));
}

#[test]
fn shared_lines() {
    let machine = MachineMetadata {
        timestamp: "2026-01-02 03:04:05 UTC".to_string(),
        cpu_type: "Apple M4 Max".to_string(),
        cpu_count: 16,
        os_type: "darwin24".to_string(),
    };
    let lines = shared_provenance_lines(&machine, &provenance(FORK));
    assert_eq!(
        lines,
        vec![
            "Run: 2026-01-02 03:04:05 UTC · bench-hashes 0.1.0",
            "Machine: Apple M4 Max · 16 logical CPUs · darwin24",
            "Toolchain: rustc 1.90.0 · aarch64-apple-darwin",
            "Source: https://example.org/bench-hashes.git @ 0123456789abcdef",
            "Tag: v0.1.0 · Working tree: clean",
            "Full crate checksums are in this file's metadata element",
        ]
    );
}

#[test]
fn contender_lines() {
    let provenance = provenance(FORK);
    let implementation = detect_blake3_implementation(Architecture::Aarch64);
    assert_eq!(
        contender_provenance_lines(Algorithm::Blake3, implementation, &provenance),
        Some(vec!["BLAKE3: blake3 1.8.2 · single-threaded; Rayon not enabled · platform NEON".to_string()])
    );
    assert_eq!(
        contender_provenance_lines(Algorithm::Sha256, implementation, &provenance),
        Some(vec![
            "SHA-256: sha2 0.10.9 (+sha2-asm 0.6.4) · assembly backends where available (ARMv8 SHA-256 instructions on AArch64)".to_string()
        ])
    );
    assert_eq!(
        contender_provenance_lines(Algorithm::Sha1Dc, implementation, &provenance),
        Some(vec![
            "SHA-1DC: sha1-checked 0.10.0 · SHA-1 with collision detection, pure Rust (the construction git uses)".to_string()
        ])
    );
    let fork = contender_provenance_lines(Algorithm::Blake3Sme2, implementation, &provenance).unwrap();
    assert_eq!(fork.len(), 2);
    assert_eq!(fork[0], "BLAKE3 SME2: git+https://example.org/blake3-sme2 · branch sme2 · commit 0123456789ab");
    assert_eq!(fork[1], format!("BLAKE3 SME2: {}", Algorithm::Blake3Sme2.mode()));
}

#[test]
fn fork_line_with_an_unshortenable_commit() {
    let provenance = provenance("fork; commit aéééééééé");
    let implementation = detect_blake3_implementation(Architecture::Other);
    assert_eq!(contender_provenance_lines(Algorithm::Blake3Sme2, implementation, &provenance), None);
}
