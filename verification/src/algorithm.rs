//! The contenders: the hash implementations under test, and how the report
//! names, colours and describes each.
use vstd::prelude::*;

use crate::orders::ALGORITHM_COUNT;

verus! {

/// A contender is one hash implementation under test.
#[derive(Clone, Copy, Debug, PartialEq, Eq, Structural)]
pub enum Algorithm {
    Blake3,
    Sha256,
    Sha1Dc,
    Blake3Sme2,
}

/// The contenders in report order; index 0 is the baseline every ratio is taken against.
pub const ALGORITHMS: [Algorithm; ALGORITHM_COUNT] = [
    Algorithm::Blake3,
    Algorithm::Sha256,
    Algorithm::Sha1Dc,
    Algorithm::Blake3Sme2,
];

/// Index of the contender every ratio is taken against.
pub const BASELINE: usize = 0;

/// Where the build came from and what it was built with: one description per
/// item, as the build recorded it (a crate's is its `Cargo.lock` entry,
/// `name version; source; checksum`).
#[derive(Clone, Copy, Debug)]
pub struct Provenance {
    pub bench_version: &'static str,
    pub git_source: &'static str,
    pub git_commit: &'static str,
    pub git_tag: &'static str,
    pub git_clean_status: &'static str,
    pub rustc_version: &'static str,
    pub build_target: &'static str,
    pub target_features: &'static str,
    pub blake3_source: &'static str,
    pub sha2_source: &'static str,
    pub sha2_asm_source: &'static str,
    pub sha1_checked_source: &'static str,
    pub blake3_sme2_source: &'static str,
}

/// The display name of `algorithm`.
pub open spec fn name_text(algorithm: Algorithm) -> Seq<char> {
    match algorithm {
        Algorithm::Blake3 => "BLAKE3"@,
        Algorithm::Sha256 => "SHA-256"@,
        Algorithm::Sha1Dc => "SHA-1DC"@,
        Algorithm::Blake3Sme2 => "BLAKE3 SME2"@,
    }
}

/// How `algorithm` runs, in one line.
pub open spec fn mode_text(algorithm: Algorithm) -> Seq<char> {
    match algorithm {
        Algorithm::Blake3 => "single-threaded; Rayon not enabled"@,
        Algorithm::Sha256 => "assembly backends where available (ARMv8 SHA-256 instructions on AArch64)"@,
        Algorithm::Sha1Dc => "SHA-1 with collision detection, pure Rust (the construction git uses)"@,
        Algorithm::Blake3Sme2 => "single-threaded; SME2 kernel for groups of sixteen chunks, integer + NEON hybrid kernels below that; the benchmark stops on a CPU without SME2"@,
    }
}

/// The `Cargo.lock` description, in `provenance`, of the crate behind `algorithm`.
pub open spec fn source_of(algorithm: Algorithm, provenance: &Provenance) -> &'static str {
    match algorithm {
        Algorithm::Blake3 => provenance.blake3_source,
        Algorithm::Sha256 => provenance.sha2_source,
        Algorithm::Sha1Dc => provenance.sha1_checked_source,
        Algorithm::Blake3Sme2 => provenance.blake3_sme2_source,
    }
}

impl Algorithm {
    /// The contender's display name.
    pub fn name(self) -> (name: &'static str)
        ensures
            name@ == name_text(self),
    {
        match self {
            Algorithm::Blake3 => "BLAKE3",
            Algorithm::Sha256 => "SHA-256",
            Algorithm::Sha1Dc => "SHA-1DC",
            Algorithm::Blake3Sme2 => "BLAKE3 SME2",
        }
    }

    /// The contender's colour in the graph.
    pub fn color(self) -> (color: &'static str)
        ensures
            color@ == match self {
                Algorithm::Blake3 => "#3b82f6"@,
                Algorithm::Sha256 => "#e07a45"@,
                Algorithm::Sha1Dc => "#6b9e3a"@,
                Algorithm::Blake3Sme2 => "#7c3aed"@,
            },
    {
        match self {
            Algorithm::Blake3 => "#3b82f6",
            Algorithm::Sha256 => "#e07a45",
            Algorithm::Sha1Dc => "#6b9e3a",
            Algorithm::Blake3Sme2 => "#7c3aed",
        }
    }

    /// The `Cargo.lock` description of the crate that implements this contender.
    pub fn source(self, provenance: &Provenance) -> (source: &'static str)
        ensures
            source == source_of(self, provenance),
    {
        match self {
            Algorithm::Blake3 => provenance.blake3_source,
            Algorithm::Sha256 => provenance.sha2_source,
            Algorithm::Sha1Dc => provenance.sha1_checked_source,
            Algorithm::Blake3Sme2 => provenance.blake3_sme2_source,
        }
    }

    /// One line on how this contender runs, for the report header.
    pub fn mode(self) -> (mode: &'static str)
        ensures
            mode@ == mode_text(self),
    {
        match self {
            Algorithm::Blake3 => "single-threaded; Rayon not enabled",
            Algorithm::Sha256 => "assembly backends where available (ARMv8 SHA-256 instructions on AArch64)",
            Algorithm::Sha1Dc => "SHA-1 with collision detection, pure Rust (the construction git uses)",
            Algorithm::Blake3Sme2 => "single-threaded; SME2 kernel for groups of sixteen chunks, integer + NEON hybrid kernels below that; the benchmark stops on a CPU without SME2",
        }
    }
}

} // verus!
