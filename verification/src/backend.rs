//! Which BLAKE3 code path runs at each input size, and the report section
//! that lists it.
use vstd::prelude::*;

use crate::orders::INPUT_COUNT;
use crate::text::decimal;
use crate::text::decimal_chars;
use crate::text::push_chars;
use crate::text::push_repeated;
use crate::text::repeated;
use crate::text::right_aligned;

verus! {

/// One input size on the benchmark's axis.
#[derive(Clone, Copy, Debug)]
pub struct InputSize {
    pub label: &'static str,
    pub bytes: usize,
}

/// The input sizes on the benchmark's axis, smallest first: every power of
/// two from 64 B to 1 MiB, plus 3 KiB.
pub open spec fn input_size(index: int) -> InputSize {
    if index == 0 {
        InputSize { label: "64 B", bytes: 64 }
    } else if index == 1 {
        InputSize { label: "128 B", bytes: 128 }
    } else if index == 2 {
        InputSize { label: "256 B", bytes: 256 }
    } else if index == 3 {
        InputSize { label: "512 B", bytes: 512 }
    } else if index == 4 {
        InputSize { label: "1 KiB", bytes: 1024 }
    } else if index == 5 {
        InputSize { label: "2 KiB", bytes: 2048 }
    } else if index == 6 {
        InputSize { label: "3 KiB", bytes: 3072 }
    } else if index == 7 {
        InputSize { label: "4 KiB", bytes: 4096 }
    } else if index == 8 {
        InputSize { label: "8 KiB", bytes: 8192 }
    } else if index == 9 {
        InputSize { label: "16 KiB", bytes: 16384 }
    } else if index == 10 {
        InputSize { label: "32 KiB", bytes: 32768 }
    } else if index == 11 {
        InputSize { label: "64 KiB", bytes: 65536 }
    } else if index == 12 {
        InputSize { label: "128 KiB", bytes: 131072 }
    } else if index == 13 {
        InputSize { label: "256 KiB", bytes: 262144 }
    } else if index == 14 {
        InputSize { label: "512 KiB", bytes: 524288 }
    } else {
        InputSize { label: "1 MiB", bytes: 1048576 }
    }
}

/// Input size `index` on the axis, smallest first.
pub fn input_size_at(index: usize) -> (size: InputSize)
    requires
        index < INPUT_COUNT,
    ensures
        size == input_size(index as int),
{
    match index {
        0 => InputSize { label: "64 B", bytes: 64 },
        1 => InputSize { label: "128 B", bytes: 128 },
        2 => InputSize { label: "256 B", bytes: 256 },
        3 => InputSize { label: "512 B", bytes: 512 },
        4 => InputSize { label: "1 KiB", bytes: 1024 },
        5 => InputSize { label: "2 KiB", bytes: 2048 },
        6 => InputSize { label: "3 KiB", bytes: 3072 },
        7 => InputSize { label: "4 KiB", bytes: 4096 },
        8 => InputSize { label: "8 KiB", bytes: 8192 },
        9 => InputSize { label: "16 KiB", bytes: 16384 },
        10 => InputSize { label: "32 KiB", bytes: 32768 },
        11 => InputSize { label: "64 KiB", bytes: 65536 },
        12 => InputSize { label: "128 KiB", bytes: 131072 },
        13 => InputSize { label: "256 KiB", bytes: 262144 },
        14 => InputSize { label: "512 KiB", bytes: 524288 },
        _ => InputSize { label: "1 MiB", bytes: 1048576 },
    }
}


/// The BLAKE3 code path at each of three input ranges, and the platform that selects them.
#[derive(Clone, Copy, Debug)]
pub struct Blake3Implementation {
    pub platform: &'static str,
    pub one_chunk: &'static str,
    pub four_chunks: &'static str,
    pub bulk: &'static str,
}

/// The x86 features BLAKE3's runtime dispatch reads.
#[derive(Clone, Copy, Debug)]
pub struct X86Features {
    pub avx512f: bool,
    pub avx512vl: bool,
    pub avx2: bool,
    pub sse41: bool,
    pub sse2: bool,
}

/// The processor family the program was built for, with what the CPU reports.
#[derive(Clone, Copy, Debug)]
pub enum Architecture {
    X86(X86Features),
    Aarch64,
    Other,
}

/// The BLAKE3 selection for `architecture`, following BLAKE3 v1.8.7's
/// `src/platform.rs` and its SIMD `hash_many` fallback chains.
pub open spec fn blake3_implementation_for(architecture: Architecture) -> Blake3Implementation {
    match architecture {
        Architecture::X86(features) => if features.avx512f && features.avx512vl {
            Blake3Implementation {
                platform: "AVX-512",
                one_chunk: "AVX-512 compression",
                four_chunks: "SSE4.1 hash_many (4-way SIMD fallback)",
                bulk: "AVX-512 hash_many (16-way SIMD)",
            }
        } else if features.avx2 {
            Blake3Implementation {
                platform: "AVX2",
                one_chunk: "SSE4.1 compression",
                four_chunks: "SSE4.1 hash_many (4-way SIMD fallback)",
                bulk: "AVX2 hash_many (8-way SIMD)",
            }
        } else if features.sse41 {
            Blake3Implementation {
                platform: "SSE4.1",
                one_chunk: "SSE4.1 compression",
                four_chunks: "SSE4.1 hash_many (4-way SIMD)",
                bulk: "SSE4.1 hash_many (4-way SIMD)",
            }
        } else if features.sse2 {
            Blake3Implementation {
                platform: "SSE2",
                one_chunk: "SSE2 compression",
                four_chunks: "SSE2 hash_many (4-way SIMD)",
                bulk: "SSE2 hash_many (4-way SIMD)",
            }
        } else {
            portable_implementation()
        },
        Architecture::Aarch64 => Blake3Implementation {
            platform: "NEON",
            one_chunk: "portable compression (one chunk; NEON bulk path not used)",
            four_chunks: "NEON hash_many (4-way SIMD; leftover chunks below four use portable compression, so 2 KiB and 3 KiB are all portable)",
            bulk: "NEON hash_many (4-way SIMD)",
        },
        Architecture::Other => portable_implementation(),
    }
}

/// BLAKE3's portable fallback.
pub open spec fn portable_implementation() -> Blake3Implementation {
    Blake3Implementation {
        platform: "portable",
        one_chunk: "portable compression",
        four_chunks: "portable hash_many",
        bulk: "portable hash_many",
    }
}

/// `description` names the code path `path`: it is `path` alone, or `path`
/// followed by a parenthetical remark.
pub open spec fn names_path(description: Seq<char>, path: Seq<char>) -> bool {
    description == path || (description.len() >= path.len() + 2 && description.take(path.len() + 2int) == path
        + " ("@)
}

/// An input of one chunk is hashed by a compression function, and BLAKE3
/// 1.8.7 has compression functions only for AVX-512, SSE4.1, SSE2 and
/// portable code.
pub open spec fn names_compression(description: Seq<char>) -> bool {
    names_path(description, "AVX-512 compression"@) || names_path(description, "SSE4.1 compression"@)
        || names_path(description, "SSE2 compression"@) || names_path(description, "portable compression"@)
}

/// More than one chunk is hashed by a `hash_many` function: SSE4.1, SSE2,
/// NEON or portable below sixteen chunks.
pub open spec fn names_small_hash_many(description: Seq<char>) -> bool {
    names_path(description, "SSE4.1 hash_many"@) || names_path(description, "SSE2 hash_many"@) || names_path(
        description,
        "NEON hash_many"@,
    ) || names_path(description, "portable hash_many"@)
}

/// BLAKE3's platform rules, as the selection reports them: one chunk always
/// runs on a compression function, never on NEON (which has none), so off
/// x86 it is the portable one, and on x86 AVX-512 compression exactly when
/// AVX-512F and AVX-512VL are both present; fewer than sixteen chunks run on
/// a `hash_many` of at most four lanes; bulk inputs run on the selected
/// platform's own `hash_many`.
pub proof fn lemma_blake3_code_paths(architecture: Architecture)
    ensures
        names_compression(blake3_implementation_for(architecture).one_chunk@),
        names_small_hash_many(blake3_implementation_for(architecture).four_chunks@),
        names_path(
            blake3_implementation_for(architecture).bulk@,
            blake3_implementation_for(architecture).platform@ + " hash_many"@,
        ),
        !(architecture is X86) ==> names_path(
            blake3_implementation_for(architecture).one_chunk@,
            "portable compression"@,
        ),
        architecture matches Architecture::X86(features) ==> (names_path(
            blake3_implementation_for(architecture).one_chunk@,
            "AVX-512 compression"@,
        ) == (features.avx512f && features.avx512vl)),
{
    reveal_strlit("AVX-512 compression");
    reveal_strlit("SSE4.1 compression");
    reveal_strlit("SSE2 compression");
    reveal_strlit("portable compression");
    reveal_strlit("SSE4.1 hash_many");
    reveal_strlit("SSE2 hash_many");
    reveal_strlit("NEON hash_many");
    reveal_strlit("portable hash_many");
    reveal_strlit(" hash_many");
    reveal_strlit(" (");
    reveal_strlit("AVX-512");
    reveal_strlit("AVX2");
    reveal_strlit("SSE4.1");
    reveal_strlit("SSE2");
    reveal_strlit("NEON");
    reveal_strlit("portable");
    reveal_strlit("SSE4.1 hash_many (4-way SIMD fallback)");
    reveal_strlit("AVX-512 hash_many (16-way SIMD)");
    reveal_strlit("AVX2 hash_many (8-way SIMD)");
    reveal_strlit("SSE4.1 hash_many (4-way SIMD)");
    reveal_strlit("SSE2 hash_many (4-way SIMD)");
    reveal_strlit("portable compression (one chunk; NEON bulk path not used)");
    reveal_strlit(
        "NEON hash_many (4-way SIMD; leftover chunks below four use portable compression, so 2 KiB and 3 KiB are all portable)",
    );
    reveal_strlit("NEON hash_many (4-way SIMD)");
    let implementation = blake3_implementation_for(architecture);
    let one = implementation.one_chunk@;
    let four = implementation.four_chunks@;
    let bulk = implementation.bulk@;
    let platform = implementation.platform@;
    let avx512 = "AVX-512 compression"@;
    match architecture {
        Architecture::X86(features) => {
            if features.avx512f && features.avx512vl {
                assert(bulk.take(19) =~= platform + " hash_many"@ + " ("@);
                assert(four.take(18) =~= "SSE4.1 hash_many"@ + " ("@);
            } else if features.avx2 {
                assert(bulk.take(16) =~= platform + " hash_many"@ + " ("@);
                assert(four.take(18) =~= "SSE4.1 hash_many"@ + " ("@);
                assert(one.len() < 21);
                assert(one[0] != avx512[0]);
            } else if features.sse41 {
                assert(bulk.take(18) =~= platform + " hash_many"@ + " ("@);
                assert(four.take(18) =~= "SSE4.1 hash_many"@ + " ("@);
                assert(one.len() < 21);
                assert(one[0] != avx512[0]);
            } else if features.sse2 {
                assert(bulk.take(16) =~= platform + " hash_many"@ + " ("@);
                assert(four.take(16) =~= "SSE2 hash_many"@ + " ("@);
                assert(one.len() < 21);
                assert(one[0] != avx512[0]);
            } else {
                assert(bulk =~= platform + " hash_many"@);
                assert(one.len() < 21);
                assert(one[0] != avx512[0]);
            }
        },
        Architecture::Aarch64 => {
            assert(bulk.take(16) =~= platform + " hash_many"@ + " ("@);
            assert(four.take(16) =~= "NEON hash_many"@ + " ("@);
            assert(one.take(22) =~= "portable compression"@ + " ("@);
        },
        Architecture::Other => {
            assert(bulk =~= platform + " hash_many"@);
        },
    }
}

/// Which BLAKE3 code paths the crates.io crate selects on `architecture`:
/// AVX-512 (with AVX-512VL), then AVX2, SSE4.1, SSE2 and portable on x86;
/// NEON on AArch64; portable elsewhere.
pub fn detect_blake3_implementation(architecture: Architecture) -> (implementation: Blake3Implementation)
    ensures
        implementation == blake3_implementation_for(architecture),
        names_compression(implementation.one_chunk@),
        !(architecture is X86) ==> names_path(implementation.one_chunk@, "portable compression"@),
{
    proof {
        lemma_blake3_code_paths(architecture);
    }
    match architecture {
        Architecture::X86(features) => {
            if features.avx512f && features.avx512vl {
                return Blake3Implementation {
                    platform: "AVX-512",
                    one_chunk: "AVX-512 compression",
                    four_chunks: "SSE4.1 hash_many (4-way SIMD fallback)",
                    bulk: "AVX-512 hash_many (16-way SIMD)",
                };
            }
            if features.avx2 {
                return Blake3Implementation {
                    platform: "AVX2",
                    one_chunk: "SSE4.1 compression",
                    four_chunks: "SSE4.1 hash_many (4-way SIMD fallback)",
                    bulk: "AVX2 hash_many (8-way SIMD)",
                };
            }
            if features.sse41 {
                return Blake3Implementation {
                    platform: "SSE4.1",
                    one_chunk: "SSE4.1 compression",
                    four_chunks: "SSE4.1 hash_many (4-way SIMD)",
                    bulk: "SSE4.1 hash_many (4-way SIMD)",
                };
            }
            if features.sse2 {
                return Blake3Implementation {
                    platform: "SSE2",
                    one_chunk: "SSE2 compression",
                    four_chunks: "SSE2 hash_many (4-way SIMD)",
                    bulk: "SSE2 hash_many (4-way SIMD)",
                };
            }
            Blake3Implementation {
                platform: "portable",
                one_chunk: "portable compression",
                four_chunks: "portable hash_many",
                bulk: "portable hash_many",
            }
        },
        Architecture::Aarch64 => Blake3Implementation {
            platform: "NEON",
            one_chunk: "portable compression (one chunk; NEON bulk path not used)",
            four_chunks: "NEON hash_many (4-way SIMD; leftover chunks below four use portable compression, so 2 KiB and 3 KiB are all portable)",
            bulk: "NEON hash_many (4-way SIMD)",
        },
        Architecture::Other => Blake3Implementation {
            platform: "portable",
            one_chunk: "portable compression",
            four_chunks: "portable hash_many",
            bulk: "portable hash_many",
        },
    }
}

/// The code path for an input of `input_bytes`: one chunk or less, fewer
/// than sixteen chunks, or bulk.
pub open spec fn backend_for_input(implementation: Blake3Implementation, input_bytes: int) -> &'static str {
    if input_bytes <= 1024 {
        implementation.one_chunk
    } else if input_bytes < 16 * 1024 {
        implementation.four_chunks
    } else {
        implementation.bulk
    }
}

/// The code path `implementation` runs for an input of `input_bytes`.
pub fn blake3_backend_for_input(implementation: Blake3Implementation, input_bytes: usize) -> (backend: &'static str)
    ensures
        backend == backend_for_input(implementation, input_bytes as int),
{
    if input_bytes <= 1024 {
        implementation.one_chunk
    } else if input_bytes < 16 * 1024 {
        implementation.four_chunks
    } else {
        implementation.bulk
    }
}

/// One line per input size, `  {label:>7}: {backend}`, for the first `count` sizes.
pub open spec fn size_lines(implementation: Blake3Implementation, count: int) -> Seq<char>
    decreases count,
{
    if count <= 0 {
        Seq::empty()
    } else {
        size_lines(implementation, count - 1) + seq![' ', ' '] + right_aligned(
            input_size(count - 1).label@,
            7,
        ) + seq![':', ' '] + backend_for_input(implementation, input_size(count - 1).bytes as int)@
            + seq!['\n']
    }
}

/// Appends one line per input size naming the code path at that size.
fn append_size_lines(output: &mut String, implementation: Blake3Implementation)
    ensures
        final(output)@ == old(output)@ + size_lines(implementation, INPUT_COUNT as int),
{
    let mut index: usize = 0;
    while index < INPUT_COUNT
        invariant
            index <= INPUT_COUNT,
            output@ == old(output)@ + size_lines(implementation, index as int),
        decreases INPUT_COUNT - index,
    {
        let size = input_size_at(index);
        output.append("  ");
        let width = size.label.unicode_len();
        let padding = if width < 7 { 7 - width } else { 0 };
        push_repeated(output, ' ', padding);
        output.append(size.label);
        output.append(": ");
        output.append(blake3_backend_for_input(implementation, size.bytes));
        output.append("\n");
        proof {
            reveal_strlit("  ");
            reveal_strlit(": ");
            reveal_strlit("\n");
        }
        assert(repeated(' ', padding as int) =~= repeated(' ', 7 - size.label@.len()));
        index += 1;
        assert(output@ =~= old(output)@ + size_lines(implementation, index as int));
    }
}

/// The BLAKE3 report section: a heading, the selected platform, and the code
/// path at every input size, then a blank line.
pub open spec fn blake3_backend_report(implementation: Blake3Implementation) -> Seq<char> {
    "BLAKE3 implementation selection:\n"@ + "  selected platform: "@ + implementation.platform@ + "\n"@
        + size_lines(implementation, INPUT_COUNT as int) + "\n"@
}

/// Appends the BLAKE3 report section for the selection on `architecture`.
pub fn append_blake3_backend_report(output: &mut String, architecture: Architecture)
    ensures
        final(output)@ == old(output)@ + blake3_backend_report(blake3_implementation_for(architecture)),
{
    let implementation = detect_blake3_implementation(architecture);

    output.append("BLAKE3 implementation selection:\n");
    output.append("  selected platform: ");
    output.append(implementation.platform);
    output.append("\n");
    let ghost before_sizes = output@;
    append_size_lines(output, implementation);
    output.append("\n");
    assert(output@ =~= old(output)@ + blake3_backend_report(implementation));
}

/// How the SME2 fork runs each input size once it has selected SME2: the
/// scalar kernel for one chunk, the integer + NEON hybrids below a group of
/// sixteen chunks, and the SME2 group kernel from sixteen chunks up.
pub open spec fn sme2_implementation() -> Blake3Implementation {
    Blake3Implementation {
        platform: "SME2",
        one_chunk: "scalar kernel k1 (one chunk on the integer ALUs)",
        four_chunks: "integer + NEON hybrid kernels (fewer than sixteen chunks; SME2 group not filled)",
        bulk: "SME2 hash16_chunks kernel (16-way, 512-bit streaming vectors); remainder on hybrid kernels",
    }
}

/// The BLAKE3 SME2 report section for the platform the fork reports (its
/// debug name) and its `hash_many` degree.
pub open spec fn blake3_sme2_backend_report(platform: Seq<char>, simd_degree: nat) -> Seq<char> {
    "BLAKE3 SME2 implementation selection:\n"@ + "  selected platform: "@ + platform
        + " (512-bit streaming vectors, sixteen-lane groups, hash_many degree "@ + decimal(simd_degree) + ")\n"@
        + size_lines(sme2_implementation(), INPUT_COUNT as int) + "\n"@
}

/// Appends the BLAKE3 SME2 report section. `platform` is the fork's name for
/// the platform it detected and `simd_degree` its `hash_many` degree; the
/// per-size lines describe the fork's kernels with SME2 selected.
pub fn append_blake3_sme2_backend_report(output: &mut String, platform: &str, simd_degree: usize)
    ensures
        final(output)@ == old(output)@ + blake3_sme2_backend_report(platform@, simd_degree as nat),
{
    output.append("BLAKE3 SME2 implementation selection:\n");
    output.append("  selected platform: ");
    output.append(platform);
    output.append(" (512-bit streaming vectors, sixteen-lane groups, hash_many degree ");
    let digits = decimal_chars(simd_degree as u64);
    push_chars(output, &digits);
    output.append(")\n");

    let implementation = Blake3Implementation {
        platform: "SME2",
        one_chunk: "scalar kernel k1 (one chunk on the integer ALUs)",
        four_chunks: "integer + NEON hybrid kernels (fewer than sixteen chunks; SME2 group not filled)",
        bulk: "SME2 hash16_chunks kernel (16-way, 512-bit streaming vectors); remainder on hybrid kernels",
    };
    append_size_lines(output, implementation);
    output.append("\n");
    assert(output@ =~= old(output)@ + blake3_sme2_backend_report(platform@, simd_degree as nat));
}

} // verus!
