use bench_hashes::backend::append_blake3_backend_report;
use bench_hashes::backend::append_blake3_sme2_backend_report;
use bench_hashes::backend::blake3_backend_for_input;
use bench_hashes::backend::detect_blake3_implementation;
use bench_hashes::backend::input_size_at;
use bench_hashes::backend::Architecture;
use bench_hashes::backend::X86Features;
use bench_hashes::orders::INPUT_COUNT;

fn x86(avx512f: bool, avx512vl: bool, avx2: bool, sse41: bool, sse2: bool) -> Architecture {
    Architecture::X86(X86Features { avx512f, avx512vl, avx2, sse41, sse2 })
}

#[test]
fn input_sizes_on_the_axis() {
    let labels: Vec<&str> = (0..INPUT_COUNT).map(|index| input_size_at(index).label).collect();
    assert_eq!(
        labels,
        vec![
            "64 B", "128 B", "256 B", "512 B", "1 KiB", "2 KiB", "3 KiB", "4 KiB", "8 KiB", "16 KiB", "32 KiB",
            "64 KiB", "128 KiB", "256 KiB", "512 KiB", "1 MiB",
        ]
    );
    assert_eq!(input_size_at(6).bytes, 3 * 1024);
    assert_eq!(input_size_at(15).bytes, 1024 * 1024);
    for index in 1..INPUT_COUNT {
        assert!(input_size_at(index - 1).bytes < input_size_at(index).bytes);
    }
}

#[test]
fn x86_selection_order() {
    assert_eq!(detect_blake3_implementation(x86(true, true, true, true, true)).platform, "AVX-512");
    assert_eq!(detect_blake3_implementation(x86(true, false, true, true, true)).platform, "AVX2");
    assert_eq!(detect_blake3_implementation(x86(false, false, false, true, true)).platform, "SSE4.1");
    assert_eq!(detect_blake3_implementation(x86(false, false, false, false, true)).platform, "SSE2");
    assert_eq!(detect_blake3_implementation(x86(false, false, false, false, false)).platform, "portable");
}

#[test]
fn avx512_paths() {
    let implementation = detect_blake3_implementation(x86(true, true, false, false, false));
    assert_eq!(implementation.one_chunk, "AVX-512 compression");
    assert_eq!(implementation.four_chunks, "SSE4.1 hash_many (4-way SIMD fallback)");
    assert_eq!(implementation.bulk, "AVX-512 hash_many (16-way SIMD)");
}

#[test]
fn aarch64_and_other_selections() {
    let neon = detect_blake3_implementation(Architecture::Aarch64);
    assert_eq!(neon.platform, "NEON");
    assert_eq!(neon.bulk, "NEON hash_many (4-way SIMD)");
    let other = detect_blake3_implementation(Architecture::Other);
    assert_eq!(other.platform, "portable");
    assert_eq!(other.one_chunk, "portable compression");
}

#[test]
fn backend_thresholds() {
    let implementation = detect_blake3_implementation(x86(false, false, true, true, true));
    assert_eq!(blake3_backend_for_input(implementation, 64), "SSE4.1 compression");
    assert_eq!(blake3_backend_for_input(implementation, 1024), "SSE4.1 compression");
    assert_eq!(blake3_backend_for_input(implementation, 1025), "SSE4.1 hash_many (4-way SIMD fallback)");
    assert_eq!(blake3_backend_for_input(implementation, 16 * 1024 - 1), "SSE4.1 hash_many (4-way SIMD fallback)");
    assert_eq!(blake3_backend_for_input(implementation, 16 * 1024), "AVX2 hash_many (8-way SIMD)");
}

fn expected_size_lines(one: &str, four: &str, bulk: &str) -> String {
    let mut lines = String::new();
    for index in 0..INPUT_COUNT {
        let size = input_size_at(index);
        let backend = if size.bytes <= 1024 {
            one
        } else if size.bytes < 16 * 1024 {
            four
        } else {
            bulk
        };
        lines.push_str(&format!("  {:>7}: {}\n", size.label, backend));
    }
    lines
}

#[test]
fn blake3_report_for_portable() {
    let mut output = String::from("before\n");
    append_blake3_backend_report(&mut output, Architecture::Other);
    let expected = format!(
        "before\nBLAKE3 implementation selection:\n  selected platform: portable\n{}\n",
        expected_size_lines("portable compression", "portable hash_many", "portable hash_many"),
    );
    assert_eq!(output, expected);
    assert!(output.contains("\n     64 B: portable compression\n"));
    assert!(output.contains("\n    1 MiB: portable hash_many\n"));
}

#[test]
fn blake3_report_for_neon() {
    let mut output = String::new();
    append_blake3_backend_report(&mut output, Architecture::Aarch64);
    assert!(output.starts_with("BLAKE3 implementation selection:\n  selected platform: NEON\n"));
    assert!(output.contains("\n    3 KiB: NEON hash_many (4-way SIMD; leftover chunks below four use portable compression, so 2 KiB and 3 KiB are all portable)\n"));
    assert!(output.ends_with("  512 KiB: NEON hash_many (4-way SIMD)\n    1 MiB: NEON hash_many (4-way SIMD)\n\n"));
}

#[test]
fn sme2_report() {
    let mut output = String::new();
    append_blake3_sme2_backend_report(&mut output, "SME2", 16);
    let expected = format!(
        "BLAKE3 SME2 implementation selection:\n  selected platform: SME2 (512-bit streaming vectors, sixteen-lane groups, hash_many degree 16)\n{}\n",
        expected_size_lines(
            "scalar kernel k1 (one chunk on the integer ALUs)",
            "integer + NEON hybrid kernels (fewer than sixteen chunks; SME2 group not filled)",
            "SME2 hash16_chunks kernel (16-way, 512-bit streaming vectors); remainder on hybrid kernels",
        ),
    );
    assert_eq!(output, expected);
}
