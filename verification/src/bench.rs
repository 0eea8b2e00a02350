//! Running the contenders: one digest, a timed batch of digests, and the
//! calibration that sizes each batch to about one millisecond.
use std::hint::black_box;

use sha2::Digest;

use vstd::prelude::*;

use crate::algorithm::Algorithm;
use crate::clock::elapsed_nanos;
use crate::clock::start_timer;

verus! {

/// What `blake3::hash` returns for a message (the 32-byte BLAKE3 digest).
pub uninterp spec fn blake3_digest(message: Seq<u8>) -> Seq<u8>;

/// What `sha2::Sha256::digest` returns for a message (the 32-byte SHA-256 digest).
pub uninterp spec fn sha256_digest(message: Seq<u8>) -> Seq<u8>;

/// The digest in what `sha1_checked::Sha1::try_digest` returns for a message
/// (the 20-byte SHA-1 digest, after collision detection).
pub uninterp spec fn sha1dc_digest(message: Seq<u8>) -> Seq<u8>;

/// `std::hint::black_box`: documented as an identity function that keeps the
/// optimiser from seeing through its argument; it returns `dummy` unchanged.
pub assume_specification<T>[ std::hint::black_box::<T> ](dummy: T) -> (result: T)
    ensures
        result == dummy,
;

/// `blake3::hash`: the BLAKE3 digest of `message`, a function of the message alone.
#[verifier::external_body]
fn blake3_hash(message: &[u8]) -> (digest: [u8; 32])
    ensures
        digest@ == blake3_digest(message@),
{
    blake3::hash(message).into()
}

/// `sha2::Sha256::digest`: the SHA-256 digest of `message`, a function of the message alone.
#[verifier::external_body]
fn sha256_hash(message: &[u8]) -> (digest: [u8; 32])
    ensures
        digest@ == sha256_digest(message@),
{
    sha2::Sha256::digest(message).into()
}

/// `sha1_checked::Sha1::try_digest`, reduced to the digest it carries in
/// every outcome (collision or not), a function of the message alone.
/// Whether a collision was detected is not passed on.
#[verifier::external_body]
fn sha1dc_hash(message: &[u8]) -> (digest: [u8; 20])
    ensures
        digest@ == sha1dc_digest(message@),
{
    match sha1_checked::Sha1::try_digest(message) {
        sha1_checked::CollisionResult::Ok(digest) => digest.into(),
        sha1_checked::CollisionResult::Mitigated(digest) => digest.into(),
        sha1_checked::CollisionResult::Collision(digest) => digest.into(),
    }
}

/// The contenders this library links: every one but BLAKE3 SME2, whose
/// crate is a local fork that the program supplies itself.
pub open spec fn is_linked(algorithm: Algorithm) -> bool {
    algorithm != Algorithm::Blake3Sme2
}

/// The digest `algorithm` produces for `message`. Both BLAKE3 contenders
/// produce the BLAKE3 digest; the benchmark confirms this for the fork on
/// every input before it times anything.
pub open spec fn digest_of(algorithm: Algorithm, message: Seq<u8>) -> Seq<u8> {
    match algorithm {
        Algorithm::Blake3 => blake3_digest(message),
        Algorithm::Sha256 => sha256_digest(message),
        Algorithm::Sha1Dc => sha1dc_digest(message),
        Algorithm::Blake3Sme2 => blake3_digest(message),
    }
}

/// The digest of `message` by a linked contender, for checking digests
/// before anything is timed.
pub fn digest(algorithm: Algorithm, message: &[u8]) -> (digest: Vec<u8>)
    requires
        is_linked(algorithm),
    ensures
        digest@ == digest_of(algorithm, message@),
{
    match algorithm {
        Algorithm::Blake3 => {
            let digest = blake3_hash(message);
            vstd::slice::slice_to_vec(digest.as_slice())
        },
        Algorithm::Sha256 => {
            let digest = sha256_hash(message);
            vstd::slice::slice_to_vec(digest.as_slice())
        },
        Algorithm::Sha1Dc => {
            let digest = sha1dc_hash(message);
            vstd::slice::slice_to_vec(digest.as_slice())
        },
        Algorithm::Blake3Sme2 => Vec::new(),
    }
}

/// Each contender's digest is the digest its crate computes: BLAKE3's from
/// `blake3`, SHA-256's from `sha2`, SHA-1DC's from `sha1-checked` (with
/// collision detection); the SME2 fork computes the same digest as BLAKE3.
pub proof fn lemma_contender_digests(message: Seq<u8>)
    ensures
        digest_of(Algorithm::Blake3, message) == blake3_digest(message),
        digest_of(Algorithm::Sha256, message) == sha256_digest(message),
        digest_of(Algorithm::Sha1Dc, message) == sha1dc_digest(message),
        digest_of(Algorithm::Blake3Sme2, message) == digest_of(Algorithm::Blake3, message),
{
}

/// Hashes `input` `iterations` times with a linked contender. The input and
/// each digest pass through `black_box`, so no call can be optimised away.
/// The ghost result lists the digests computed, in order: `iterations` of
/// them, each the contender's digest of `input`.
pub fn hash_batch(algorithm: Algorithm, input: &[u8], iterations: usize) -> (digests: Ghost<Seq<Seq<u8>>>)
    requires
        iterations > 0,
        is_linked(algorithm),
    ensures
        digests@.len() == iterations,
        forall|index: int| 0 <= index < iterations ==> #[trigger] digests@[index] == digest_of(algorithm, input@),
{
    let ghost mut log: Seq<Seq<u8>> = Seq::empty();
    match algorithm {
        Algorithm::Blake3 => {
            let mut done: usize = 0;
            while done < iterations
                invariant
                    done <= iterations,
                    algorithm == Algorithm::Blake3,
                    log.len() == done,
                    forall|index: int| 0 <= index < done ==> #[trigger] log[index] == digest_of(algorithm, input@),
                decreases iterations - done,
            {
                let digest = blake3_hash(black_box(input));
                proof {
                    log = log.push(digest@);
                }
                let _ = black_box(digest);
                done += 1;
            }
        },
        Algorithm::Sha256 => {
            let mut done: usize = 0;
            while done < iterations
                invariant
                    done <= iterations,
                    algorithm == Algorithm::Sha256,
                    log.len() == done,
                    forall|index: int| 0 <= index < done ==> #[trigger] log[index] == digest_of(algorithm, input@),
                decreases iterations - done,
            {
                let digest = sha256_hash(black_box(input));
                proof {
                    log = log.push(digest@);
                }
                let _ = black_box(digest);
                done += 1;
            }
        },
        Algorithm::Sha1Dc => {
            let mut done: usize = 0;
            while done < iterations
                invariant
                    done <= iterations,
                    algorithm == Algorithm::Sha1Dc,
                    log.len() == done,
                    forall|index: int| 0 <= index < done ==> #[trigger] log[index] == digest_of(algorithm, input@),
                decreases iterations - done,
            {
                let digest = sha1dc_hash(black_box(input));
                proof {
                    log = log.push(digest@);
                }
                let _ = black_box(digest);
                done += 1;
            }
        },
        Algorithm::Blake3Sme2 => {},
    }
    Ghost(log)
}

/// Hashes `input` `iterations` times with a linked contender, as
/// `hash_batch` does, for timing.
pub fn run_batch(algorithm: Algorithm, input: &[u8], iterations: usize)
    requires
        iterations > 0,
        is_linked(algorithm),
{
    let _digests = hash_batch(algorithm, input, iterations);
}

/// A measurement of at least this many nanoseconds ends calibration.
pub const CALIBRATION_PROBE_NS: u128 = 1_000_000;

/// Calibrated batches aim at this many nanoseconds.
pub const TARGET_SAMPLE_NS: u128 = 1_000_000;

/// What calibration does after timing one batch.
#[derive(Clone, Copy, Debug, PartialEq, Eq, Structural)]
pub enum CalibrationStep {
    /// Time a batch of this many iterations next.
    Repeat(usize),
    /// The calibrated iteration count.
    Calibrated(usize),
}

/// Why calibration stopped without a count.
#[derive(Clone, Copy, Debug, PartialEq, Eq, Structural)]
pub enum CalibrationError {
    /// The next batch size would not fit in `usize`.
    IterationOverflow,
    /// The calibrated count would not fit in `usize`.
    CountOverflow,
}

/// The iteration count that scales a probe of `iterations` iterations taking
/// `elapsed_ns` nanoseconds to the target duration, rounded to nearest, at least 1.
pub open spec fn scaled_iterations(iterations: int, elapsed_ns: int) -> int {
    let scaled = (iterations * TARGET_SAMPLE_NS + elapsed_ns / 2) / elapsed_ns;
    if scaled < 1 {
        1
    } else {
        scaled
    }
}

/// The factor that takes a probe of `elapsed_ns` nanoseconds up to the probe
/// duration: the probe duration over `elapsed_ns`, rounded up.
pub open spec fn growth_factor(elapsed_ns: int) -> int {
    (CALIBRATION_PROBE_NS + elapsed_ns - 1) / elapsed_ns
}

/// A calibrated count makes a batch last the target duration at the rate
/// the probe measured, to within half an iteration: unless it is raised to
/// the minimum of one, `count` iterations at `elapsed_ns / iterations` each
/// take between the target minus and the target plus half an iteration.
pub proof fn lemma_calibrated_count_meets_target(iterations: int, elapsed_ns: int)
    requires
        iterations >= 1,
        elapsed_ns >= CALIBRATION_PROBE_NS,
    ensures
        scaled_iterations(iterations, elapsed_ns) >= 1,
        scaled_iterations(iterations, elapsed_ns) > 1 ==> {
            let count = scaled_iterations(iterations, elapsed_ns);
            &&& count * elapsed_ns <= iterations * TARGET_SAMPLE_NS + elapsed_ns / 2
            &&& iterations * TARGET_SAMPLE_NS < count * elapsed_ns + (elapsed_ns - elapsed_ns / 2)
        },
{
    let numerator = iterations * TARGET_SAMPLE_NS + elapsed_ns / 2;
    let quotient = numerator / elapsed_ns;
    vstd::arithmetic::div_mod::lemma_fundamental_div_mod(numerator, elapsed_ns);
    vstd::arithmetic::div_mod::lemma_mod_bound(numerator, elapsed_ns);
    assert(quotient * elapsed_ns <= numerator < quotient * elapsed_ns + elapsed_ns) by (nonlinear_arith)
        requires
            numerator == elapsed_ns * quotient + numerator % elapsed_ns,
            0 <= numerator % elapsed_ns < elapsed_ns,
    ;
}

/// The calibration decision after a batch of `iterations` took `elapsed_ns`
/// nanoseconds: double an unmeasurable batch, scale one of at least the
/// probe duration to the target, grow a shorter one to the probe duration;
/// an error where the next batch or the scaled count does not fit in `usize`.
pub open spec fn calibration_outcome(iterations: int, elapsed_ns: int) -> Result<CalibrationStep, CalibrationError> {
    if elapsed_ns == 0 {
        if 2 * iterations <= usize::MAX {
            Ok(CalibrationStep::Repeat((2 * iterations) as usize))
        } else {
            Err(CalibrationError::IterationOverflow)
        }
    } else if elapsed_ns >= CALIBRATION_PROBE_NS {
        if scaled_iterations(iterations, elapsed_ns) <= usize::MAX {
            Ok(CalibrationStep::Calibrated(scaled_iterations(iterations, elapsed_ns) as usize))
        } else {
            Err(CalibrationError::CountOverflow)
        }
    } else if iterations * growth_factor(elapsed_ns) <= usize::MAX {
        Ok(CalibrationStep::Repeat((iterations * growth_factor(elapsed_ns)) as usize))
    } else {
        Err(CalibrationError::IterationOverflow)
    }
}

/// The calibration decision after a batch of `iterations` took `elapsed_ns`:
/// a batch too quick to register is doubled; a batch of at least the probe
/// duration is scaled to the target duration; a shorter one is grown by the
/// factor that would make it last the probe duration.
pub fn calibration_step(iterations: usize, elapsed_ns: u128) -> (step: Result<CalibrationStep, CalibrationError>)
    ensures
        elapsed_ns == 0 ==> step == if 2 * iterations <= usize::MAX {
            Ok::<CalibrationStep, CalibrationError>(CalibrationStep::Repeat((2 * iterations) as usize))
        } else {
            Err(CalibrationError::IterationOverflow)
        },
        elapsed_ns >= CALIBRATION_PROBE_NS ==> step == if scaled_iterations(iterations as int, elapsed_ns as int)
            <= usize::MAX {
            Ok::<CalibrationStep, CalibrationError>(CalibrationStep::Calibrated(
                scaled_iterations(iterations as int, elapsed_ns as int) as usize,
            ))
        } else {
            Err(CalibrationError::CountOverflow)
        },
        0 < elapsed_ns < CALIBRATION_PROBE_NS ==> {
            &&& growth_factor(elapsed_ns as int) >= 2
            &&& step == if iterations * growth_factor(elapsed_ns as int) <= usize::MAX {
                Ok::<CalibrationStep, CalibrationError>(CalibrationStep::Repeat(
                    (iterations * growth_factor(elapsed_ns as int)) as usize,
                ))
            } else {
                Err(CalibrationError::IterationOverflow)
            }
        },
        step matches Ok(CalibrationStep::Repeat(next)) ==> next >= 2 * iterations,
        step matches Ok(CalibrationStep::Calibrated(count)) ==> count >= 1,
        step == calibration_outcome(iterations as int, elapsed_ns as int),
{
    /*
     * A sufficiently short interval can be below a platform timer's
     * effective resolution. Increase the batch until it is measurable.
     */
    if elapsed_ns == 0 {
        return match iterations.checked_mul(2) {
            Some(next) => Ok(CalibrationStep::Repeat(next)),
            None => Err(CalibrationError::IterationOverflow),
        };
    }

    if elapsed_ns >= CALIBRATION_PROBE_NS {
        assert(iterations as u128 * TARGET_SAMPLE_NS <= usize::MAX as u128 * 1_000_000) by (nonlinear_arith)
            requires iterations <= usize::MAX;
        let scaled = (iterations as u128 * TARGET_SAMPLE_NS + elapsed_ns / 2) / elapsed_ns;
        let scaled = if scaled < 1 { 1 } else { scaled };
        if scaled > usize::MAX as u128 {
            return Err(CalibrationError::CountOverflow);
        }
        return Ok(CalibrationStep::Calibrated(scaled as usize));
    }

    let growth = (CALIBRATION_PROBE_NS + elapsed_ns - 1) / elapsed_ns;
    assert(growth >= 2) by (nonlinear_arith)
        requires
            growth == (1_000_000 + elapsed_ns - 1) / (elapsed_ns as int),
            0 < elapsed_ns < 1_000_000,
    ;
    assert(growth <= 1_000_000) by (nonlinear_arith)
        requires
            growth == (1_000_000 + elapsed_ns - 1) / (elapsed_ns as int),
            0 < elapsed_ns < 1_000_000,
    ;
    let growth = growth as usize;
    match iterations.checked_mul(growth) {
        Some(next) => {
            assert(next >= 2 * iterations) by (nonlinear_arith)
                requires next == iterations * growth, growth >= 2;
            Ok(CalibrationStep::Repeat(next))
        },
        None => Err(CalibrationError::IterationOverflow),
    }
}

/// `probe`, a batch size and a duration in nanoseconds, is a call of the
/// timed runner `timed_run` with that many iterations (at least one) and the
/// duration that call returned.
pub open spec fn is_probe_of<F: Fn(usize) -> u128>(timed_run: F, probe: (nat, nat)) -> bool {
    1 <= probe.0 <= usize::MAX && probe.1 <= u128::MAX && call_ensures(timed_run, (probe.0 as usize,), probe.1 as u128)
}

/// The calibration decision on `probe` (iterations, nanoseconds).
pub open spec fn probe_outcome(probe: (nat, nat)) -> Result<CalibrationStep, CalibrationError> {
    calibration_outcome(probe.0 as int, probe.1 as int)
}

/// Calibrates a batch from the durations that `timed_run` reports for batches
/// of a given size. The ghost result lists every batch timed, in order: the
/// first of one iteration, each a call of `timed_run` and the duration it
/// returned, each but the last followed by the size its decision grows the
/// batch to; the result is the decision on the last one (its calibrated
/// count, or the error of a batch size that would not fit in `usize`).
pub fn calibrate_timed<F: Fn(usize) -> u128>(timed_run: F) -> (calibrated: (
    Result<usize, CalibrationError>,
    Ghost<Seq<(nat, nat)>>,
))
    requires
        forall|iterations: usize| iterations >= 1 ==> call_requires(timed_run, (iterations,)),
    ensures
        calibrated.1@.len() >= 1,
        calibrated.1@[0].0 == 1,
        forall|index: int| 0 <= index < calibrated.1@.len() ==> is_probe_of(timed_run, #[trigger] calibrated.1@[index]),
        forall|index: int|
            #![trigger calibrated.1@[index]]
            0 <= index < calibrated.1@.len() - 1 ==> probe_outcome(calibrated.1@[index]) == Ok::<
                CalibrationStep,
                CalibrationError,
            >(CalibrationStep::Repeat(calibrated.1@[index + 1].0 as usize)),
        calibrated.0 matches Ok(count) ==> count >= 1 && probe_outcome(calibrated.1@.last()) == Ok::<
            CalibrationStep,
            CalibrationError,
        >(CalibrationStep::Calibrated(count)),
        calibrated.0 matches Err(error) ==> probe_outcome(calibrated.1@.last()) == Err::<CalibrationStep, CalibrationError>(
            error,
        ),
{
    let mut iterations: usize = 1;
    let ghost mut probes: Seq<(nat, nat)> = Seq::empty();
    loop
        invariant
            iterations >= 1,
            forall|iterations: usize| iterations >= 1 ==> call_requires(timed_run, (iterations,)),
            probes.len() == 0 ==> iterations == 1,
            probes.len() > 0 ==> probes[0].0 == 1,
            forall|index: int| 0 <= index < probes.len() ==> is_probe_of(timed_run, #[trigger] probes[index]),
            forall|index: int|
                #![trigger probes[index]]
                0 <= index < probes.len() - 1 ==> probe_outcome(probes[index]) == Ok::<
                    CalibrationStep,
                    CalibrationError,
                >(CalibrationStep::Repeat(probes[index + 1].0 as usize)),
            probes.len() > 0 ==> probe_outcome(probes.last()) == Ok::<CalibrationStep, CalibrationError>(
                CalibrationStep::Repeat(iterations),
            ),
        decreases usize::MAX - iterations,
    {
        let elapsed_ns = timed_run(iterations);
        let ghost before = probes;
        proof {
            probes = probes.push((iterations as nat, elapsed_ns as nat));
            assert(probes[probes.len() - 1] == (iterations as nat, elapsed_ns as nat));
            assert forall|index: int| 0 <= index < probes.len() - 1 implies #[trigger] probes[index] == before[index] by {}
        }

        match calibration_step(iterations, elapsed_ns) {
            Ok(CalibrationStep::Repeat(next)) => {
                iterations = next;
            },
            Ok(CalibrationStep::Calibrated(count)) => {
                return (Ok(count), Ghost(probes));
            },
            Err(error) => {
                return (Err(error), Ghost(probes));
            },
        }
    }
}

/// The iteration count at which one batch run by `run` takes about the
/// target duration: time batches, starting at one iteration, until one lasts
/// the probe duration, then scale its count to the target, as
/// `calibrate_timed` does with each batch timed on the monotonic clock. The
/// clock decides how long each batch takes; the ghost result is the last
/// batch timed, a batch that `run` ran, with its iteration count and
/// nanoseconds, and the result is what `calibration_outcome` decides for it:
/// its calibrated count, or the error of a batch size that would not fit in
/// `usize`.
pub fn calibrate_with<F: Fn(usize)>(run: F) -> (calibrated: (Result<usize, CalibrationError>, Ghost<(nat, nat)>))
    requires
        forall|iterations: usize| iterations >= 1 ==> call_requires(run, (iterations,)),
    ensures
        calibrated.1@.0 >= 1,
        calibrated.1@.0 <= usize::MAX,
        call_ensures(run, (calibrated.1@.0 as usize,), ()),
        calibrated.0 matches Ok(count) ==> count >= 1 && calibration_outcome(
            calibrated.1@.0 as int,
            calibrated.1@.1 as int,
        ) == Ok::<CalibrationStep, CalibrationError>(CalibrationStep::Calibrated(count)),
        calibrated.0 matches Err(error) ==> calibration_outcome(calibrated.1@.0 as int, calibrated.1@.1 as int)
            == Err::<CalibrationStep, CalibrationError>(error),
{
    let runner = &run;
    let timed_run = |iterations: usize| -> (elapsed_ns: u128)
        requires
            iterations >= 1,
            call_requires(runner, (iterations,)),
        ensures
            call_ensures(runner, (iterations,), ()),
        {
            let started = start_timer();
            runner(iterations);
            elapsed_nanos(&started)
        };
    assert forall|iterations: usize| iterations >= 1 implies call_requires(timed_run, (iterations,)) by {}
    let (result, probes) = calibrate_timed(timed_run);
    let ghost last = probes@.last();
    assert(is_probe_of(timed_run, probes@[probes@.len() - 1]));
    (result, Ghost(last))
}

/// The iteration count at which one batch of a linked contender on `input`
/// takes about the target duration, calibrated as `calibrate_with` does.
/// The ghost result is the last batch timed (iterations, nanoseconds); the
/// result is what `calibration_outcome` decides for it.
pub fn calibrate_batch(algorithm: Algorithm, input: &[u8]) -> (calibrated: (
    Result<usize, CalibrationError>,
    Ghost<(nat, nat)>,
))
    requires
        is_linked(algorithm),
    ensures
        calibrated.1@.0 >= 1,
        calibrated.0 matches Ok(count) ==> count >= 1 && calibration_outcome(
            calibrated.1@.0 as int,
            calibrated.1@.1 as int,
        ) == Ok::<CalibrationStep, CalibrationError>(CalibrationStep::Calibrated(count)),
        calibrated.0 matches Err(error) ==> calibration_outcome(calibrated.1@.0 as int, calibrated.1@.1 as int)
            == Err::<CalibrationStep, CalibrationError>(error),
{
    let run = |iterations: usize|
        requires
            iterations >= 1,
            is_linked(algorithm),
        {
            run_batch(algorithm, input, iterations)
        };
    calibrate_with(run)
}
} // verus!
