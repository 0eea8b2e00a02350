use bench_hashes::algorithm::Algorithm;
use bench_hashes::algorithm::Provenance;
use bench_hashes::algorithm::ALGORITHMS;
use bench_hashes::algorithm::BASELINE;

fn provenance() -> Provenance {
    Provenance {
        bench_version: "0.1.0",
        git_source: "https://example.org/bench-hashes.git",
        git_commit: "0123456789abcdef0123456789abcdef01234567",
        git_tag: "v0.1.0",
        git_clean_status: "clean",
        rustc_version: "rustc 1.90.0",
        build_target: "aarch64-apple-darwin",
        target_features: "neon,sha2,sha3",
        blake3_source: "blake3 1.8.2; registry+https://github.com/rust-lang/crates.io-index; checksum aa",
        sha2_source: "sha2 0.10.9; registry+https://github.com/rust-lang/crates.io-index; checksum bb",
        sha2_asm_source: "sha2-asm 0.6.4; registry+https://github.com/rust-lang/crates.io-index; checksum cc",
        sha1_checked_source: "sha1-checked 0.10.0; registry+https://github.com/rust-lang/crates.io-index; checksum dd",
        blake3_sme2_source: "blake3 1.8.2; git+https://example.org/blake3-sme2; branch sme2; commit fedcba9876543210",
    }
}

#[test]
fn contender_names() {
    let names: Vec<&str> = ALGORITHMS.iter().map(|algorithm| algorithm.name()).collect();
    assert_eq!(names, vec!["BLAKE3", "SHA-256", "SHA-1DC", "BLAKE3 SME2"]);
    assert_eq!(ALGORITHMS[BASELINE], Algorithm::Blake3);
}

#[test]
fn contender_colors() {
    let colors: Vec<&str> = ALGORITHMS.iter().map(|algorithm| algorithm.color()).collect();
    assert_eq!(colors, vec!["#3b82f6", "#e07a45", "#6b9e3a", "#7c3aed"]);
}

#[test]
fn contender_modes() {
    assert_eq!(Algorithm::Blake3.mode(), "single-threaded; Rayon not enabled");
    assert_eq!(
        Algorithm::Sha256.mode(),
        "assembly backends where available (ARMv8 SHA-256 instructions on AArch64)"
    );
    assert_eq!(
        Algorithm::Sha1Dc.mode(),
        "SHA-1 with collision detection, pure Rust (the construction git uses)"
    );
    assert!(Algorithm::Blake3Sme2.mode().ends_with("the benchmark stops on a CPU without SME2"));
}

#[test]
fn contender_sources() {
    let provenance = provenance();
    assert_eq!(Algorithm::Blake3.source(&provenance), provenance.blake3_source);
    assert_eq!(Algorithm::Sha256.source(&provenance), provenance.sha2_source);
    assert_eq!(Algorithm::Sha1Dc.source(&provenance), provenance.sha1_checked_source);
    assert_eq!(Algorithm::Blake3Sme2.source(&provenance), provenance.blake3_sme2_source);
}
