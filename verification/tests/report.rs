use bench_hashes::algorithm::Provenance;
use bench_hashes::algorithm::ALGORITHMS;
use bench_hashes::backend::append_blake3_backend_report;
use bench_hashes::backend::append_blake3_sme2_backend_report;
use bench_hashes::backend::input_size_at;
use bench_hashes::backend::Architecture;
use bench_hashes::backend::X86Features;
use bench_hashes::machine::MachineMetadata;
use bench_hashes::orders::ALGORITHM_COUNT;
use bench_hashes::orders::INPUT_COUNT;
use bench_hashes::report::append_header;
use bench_hashes::report::generate_text;
use bench_hashes::report::SummaryCell;

fn machine() -> MachineMetadata {
    MachineMetadata {
        timestamp: "2026-01-02 03:04:05 UTC".to_string(),
        cpu_type: "Apple M4 Max".to_string(),
        cpu_count: 16,
        os_type: "darwin24".to_string(),
    }
}

fn provenance() -> Provenance {
    Provenance {
        bench_version: "0.1.0",
        git_source: "https://example.org/bench-hashes.git",
        git_commit: "0123456789abcdef",
        git_tag: "v0.1.0",
        git_clean_status: "clean",
        rustc_version: "rustc 1.90.0",
        build_target: "aarch64-apple-darwin",
        target_features: "neon,sha2",
        blake3_source: "blake3 1.8.2; registry; checksum aa",
        sha2_source: "sha2 0.10.9; registry; checksum bb",
        sha2_asm_source: "sha2-asm 0.6.4; registry",
        sha1_checked_source: "sha1-checked 0.10.0; registry",
        blake3_sme2_source: "blake3 1.8.2; git+https://example.org/fork; commit 0123456789abcdef",
    }
}

fn statistics(size: usize, algorithm: usize) -> (u64, u64, u64) {
    let median = 250 + size as u64 * 31 + algorithm as u64 * 700;
    (median * 9 / 10, median, median * 5 / 4)
}

#[test]
fn header_lists_the_run_and_the_contenders() {
    let mut output = String::new();
    append_header(&mut output, &machine(), &provenance());
    let expected = "TIMESTAMP: 2026-01-02 03:04:05 UTC\n\
        git source: https://example.org/bench-hashes.git\n\
        git commit: 0123456789abcdef\n\
        git tag: v0.1.0\n\
        git clean status: clean\n\
        bench-hashes version: 0.1.0\n\
        CPU type: Apple M4 Max\n\
        CPU count: 16\n\
        OS type: darwin24\n\
        Rust compiler: rustc 1.90.0\n\
        Build target: aarch64-apple-darwin\n\
        Target features: neon,sha2\n\
        BLAKE3 source: blake3 1.8.2; registry; checksum aa\n\
        SHA-256 source: sha2 0.10.9; registry; checksum bb\n\
        SHA-1DC source: sha1-checked 0.10.0; registry\n\
        BLAKE3 SME2 source: blake3 1.8.2; git+https://example.org/fork; commit 0123456789abcdef\n\
        SHA-256 assembly source: sha2-asm 0.6.4; registry\n\
        BLAKE3 mode: single-threaded; Rayon not enabled\n\
        SHA-256 mode: assembly backends where available (ARMv8 SHA-256 instructions on AArch64)\n\
        SHA-1DC mode: SHA-1 with collision detection, pure Rust (the construction git uses)\n";
    assert!(output.starts_with(expected));
    assert!(output.ends_with("the benchmark stops on a CPU without SME2\n\n"));
}

#[test]
fn text_report_matches_the_layout() {
    let machine = machine();
    let provenance = provenance();
    let architecture = Architecture::X86(X86Features { avx512f: false, avx512vl: false, avx2: true, sse41: true, sse2: true });
    let takeaway = "On this machine: SHA-256 is 1.20× to 2.70× faster than BLAKE3";
    let cells: [[SummaryCell; ALGORITHM_COUNT]; INPUT_COUNT] = std::array::from_fn(|size| {
        std::array::from_fn(|algorithm| {
            let (minimum, median, maximum) = statistics(size, algorithm);
            SummaryCell { median_ps: median, minimum_ps: minimum, maximum_ps: maximum }
        })
    });
    let text = generate_text(&machine, &provenance, architecture, "SME2", 16, &cells, takeaway);

    let mut expected = String::new();
    append_header(&mut expected, &machine, &provenance);
    append_blake3_backend_report(&mut expected, architecture);
    append_blake3_sme2_backend_report(&mut expected, "SME2", 16);
    expected.push_str("============================================================\n");
    expected.push_str("BENCHMARK SUMMARY\n");
    expected.push_str("============================================================\n");
    expected.push_str("\n");
    expected.push_str("Time per byte in ps/B: median, with minimum–maximum beneath; lower is better.\n");
    expected.push_str("\n");
    expected.push_str(&format!("  {:<8}", "size"));
    for algorithm in ALGORITHMS {
        expected.push_str(&format!("  {:>13}", algorithm.name()));
    }
    expected.push_str("\n");
    for size in 0..INPUT_COUNT {
        expected.push_str(&format!("  {:<8}", input_size_at(size).label));
        for algorithm in 0..ALGORITHM_COUNT {
            expected.push_str(&format!("  {:>13}", statistics(size, algorithm).1));
        }
        expected.push_str("\n");
        expected.push_str(&format!("  {:<8}", ""));
        for algorithm in 0..ALGORITHM_COUNT {
            let (minimum, _, maximum) = statistics(size, algorithm);
            expected.push_str(&format!("  {:>13}", format!("{minimum}–{maximum}")));
        }
        expected.push_str("\n");
    }
    expected.push_str("\n");
    expected.push_str(&format!("{takeaway}\n"));
    expected.push_str("\n");

    assert_eq!(text, expected);
    assert!(text.contains("\n  size             BLAKE3        SHA-256        SHA-1DC    BLAKE3 SME2\n"));
    assert!(text.contains("\n  64 B                250            950           1650           2350\n"));
    assert!(text.contains("\n                  225–312       855–1187      1485–2062      2115–2937\n"));
}
