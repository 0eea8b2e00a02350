# bench-hashes

A benchmark of cryptographic hash functions (BLAKE3, SHA-256, SHA-1DC and a
BLAKE3 fork with SME2 kernels), with its logic written in Verus and proved
against its contracts.

- `src/` is the verified library: the balanced contender orders and the
  round schedule, the deterministic inputs, batch calibration, the BLAKE3
  code-path report, the calendar arithmetic behind the report's timestamp,
  the machine description and results directory, the provenance lines, the
  headline's verdicts and wrapping, the progress bar, and the text report's
  layout. The crates.io hash crates are called through small trusted
  wrappers whose contracts name their digests.
- `tests/` runs the library on concrete values.
- `app/` is the program around it: the machine query, the clock-driven
  measurement loop, the floating-point statistics, the SVG graph and the
  file output, plus the Apple-only CommonCrypto diagnostic
  (`bench-hashes cc-diagnose`).
