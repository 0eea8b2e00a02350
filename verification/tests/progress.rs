use bench_hashes::orders::SAMPLE_ROUNDS;
use bench_hashes::progress::progress_bar;
use bench_hashes::progress::Progress;
use bench_hashes::progress::BAR_WIDTH;

#[test]
fn bar_is_empty_at_the_start_and_full_at_the_end() {
    assert_eq!(progress_bar(0), "░".repeat(30));
    assert_eq!(progress_bar(SAMPLE_ROUNDS), "█".repeat(30));
    assert_eq!(progress_bar(64), "█".repeat(15) + &"░".repeat(15));
}

#[test]
fn bar_fill_matches_rounding_the_done_fraction() {
    let mut previous = 0;
    for round in 0..=SAMPLE_ROUNDS {
        let done = round as f64 / SAMPLE_ROUNDS as f64;
        let filled = (done * BAR_WIDTH as f64).round() as usize;
        let bar = progress_bar(round);
        assert_eq!(bar, "█".repeat(filled) + &"░".repeat(BAR_WIDTH - filled));
        assert_eq!(bar.chars().count(), BAR_WIDTH);
        assert!(filled >= previous);
        previous = filled;
    }
}

#[test]
fn non_interactive_frames_are_lines() {
    let mut progress = Progress::new(false);
    assert_eq!(progress.frame("[  0.0s] calibrating…"), "[  0.0s] calibrating…\n");
    assert_eq!(progress.last_width, 21);
    assert_eq!(progress.frame("x"), "x\n");
    assert_eq!(progress.last_width, 1);
}

#[test]
fn interactive_frames_overwrite_the_previous_line() {
    let mut progress = Progress::new(true);
    assert_eq!(progress.frame("a longer line"), "\ra longer line");
    assert_eq!(progress.frame("short"), "\rshort        ");
    assert_eq!(progress.frame("much longer than both"), "\rmuch longer than both");
    assert_eq!(progress.last_width, 21);
}

#[test]
fn measuring_phase_starts_the_round_clock() {
    let mut progress = Progress::new(true);
    assert!(progress.round_clocks().is_none());
    progress.phase("calibrating");
    assert!(progress.measuring_started.is_none());
    progress.phase("warming up");
    assert!(progress.round_clocks().is_none());
    let elapsed = progress.phase("measuring");
    assert!(progress.measuring_started.is_some());
    let (since_start, since_measuring) = progress.round_clocks().unwrap();
    assert!(since_start >= elapsed);
    assert!(since_start >= since_measuring);
    assert!(progress.interactive);
    assert_eq!(progress.last_width, 0);
}
