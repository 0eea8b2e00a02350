//! Live progress on stderr: the phase, a bar over the sample rounds, and the
//! clocks its estimates read. On a terminal each update redraws the line in
//! place; elsewhere each update is a line of its own.
use std::time::Duration;
use std::time::Instant;

use vstd::prelude::*;

use crate::machine::same_text;
use crate::orders::SAMPLE_ROUNDS;
use crate::text::push_char;
use crate::text::push_repeated;
use crate::text::repeated;

verus! {

/// The number of cells in the progress bar.
pub const BAR_WIDTH: usize = 30;

/// The progress display's state.
pub struct Progress {
    /// When the run started.
    pub started: Instant,
    /// When the measuring phase started, once it has.
    pub measuring_started: Option<Instant>,
    /// Whether stderr is a terminal, so that a line can be redrawn in place.
    pub interactive: bool,
    /// The width, in characters, of the line drawn last.
    pub last_width: usize,
}

/// The filled cells of the bar after `round` of the sample rounds: the done
/// fraction of the bar's width, rounded to the nearest cell, halves up.
/// (`round / SAMPLE_ROUNDS * BAR_WIDTH` is a multiple of 1/64, exact in
/// binary floating point, so this is what rounding the float gives.)
pub open spec fn filled_cells(round: int) -> int {
    (round * BAR_WIDTH + SAMPLE_ROUNDS / 2) / SAMPLE_ROUNDS as int
}

/// The bar after `round` rounds: filled cells, then empty ones.
pub open spec fn bar_text(round: int) -> Seq<char> {
    repeated('\u{2588}', filled_cells(round)) + repeated('\u{2591}', BAR_WIDTH - filled_cells(round))
}

/// The bar starts empty, ends full, stays within its width, and never
/// shrinks from one round to a later one.
pub proof fn lemma_bar_fills_up(earlier: int, later: int)
    requires
        0 <= earlier <= later <= SAMPLE_ROUNDS,
    ensures
        filled_cells(0) == 0,
        filled_cells(SAMPLE_ROUNDS as int) == BAR_WIDTH,
        0 <= filled_cells(earlier) <= filled_cells(later) <= BAR_WIDTH,
{
    vstd::arithmetic::div_mod::lemma_div_is_ordered(
        earlier * BAR_WIDTH + SAMPLE_ROUNDS / 2,
        later * BAR_WIDTH + SAMPLE_ROUNDS / 2,
        SAMPLE_ROUNDS as int,
    );
    vstd::arithmetic::div_mod::lemma_div_is_ordered(
        later * BAR_WIDTH + SAMPLE_ROUNDS / 2,
        SAMPLE_ROUNDS as int * BAR_WIDTH + SAMPLE_ROUNDS / 2,
        SAMPLE_ROUNDS as int,
    );
    vstd::arithmetic::div_mod::lemma_div_is_ordered(
        SAMPLE_ROUNDS as int / 2,
        earlier * BAR_WIDTH + SAMPLE_ROUNDS / 2,
        SAMPLE_ROUNDS as int,
    );
}

/// The progress bar after `round` of the sample rounds (a round whose
/// filled cells would overflow the bar has none).
pub fn progress_bar(round: usize) -> (bar: String)
    requires
        filled_cells(round as int) <= BAR_WIDTH,
    ensures
        bar@ == bar_text(round as int),
        bar@.len() == BAR_WIDTH,
{
    assert(round <= 130);
    let filled = (round * BAR_WIDTH + SAMPLE_ROUNDS / 2) / SAMPLE_ROUNDS;
    let mut bar = String::new();
    push_repeated(&mut bar, '\u{2588}', filled);
    push_repeated(&mut bar, '\u{2591}', BAR_WIDTH - filled);
    bar
}

impl Progress {
    /// A progress display that starts its clock now; `interactive` says
    /// whether stderr is a terminal.
    pub fn new(interactive: bool) -> (progress: Progress)
        ensures
            progress.measuring_started is None,
            progress.interactive == interactive,
            progress.last_width == 0,
    {
        Progress { started: Instant::now(), measuring_started: None, interactive, last_width: 0 }
    }

    /// Enters the phase called `name`; entering `"measuring"` starts the
    /// clock that the rounds' estimates read. Returns the time since the run
    /// started, which the phase's status line shows (it depends on the clock).
    pub fn phase(&mut self, name: &str) -> (elapsed: Duration)
        ensures
            final(self).started == old(self).started,
            final(self).interactive == old(self).interactive,
            final(self).last_width == old(self).last_width,
            name@ == "measuring"@ ==> final(self).measuring_started is Some,
            name@ != "measuring"@ ==> final(self).measuring_started == old(self).measuring_started,
    {
        if same_text(name, "measuring") {
            self.measuring_started = Some(Instant::now());
        }
        self.started.elapsed()
    }

    /// The time since the run started and the time since measuring started,
    /// which a round's status line shows; `None` outside the measuring phase.
    pub fn round_clocks(&self) -> (clocks: Option<(Duration, Duration)>)
        ensures
            clocks is Some == self.measuring_started is Some,
    {
        match &self.measuring_started {
            Some(measuring_started) => Some((self.started.elapsed(), measuring_started.elapsed())),
            None => None,
        }
    }

    /// What to write to stderr to show `line`: on a terminal, a return to
    /// column 0, the line, and spaces over what is left of a longer line
    /// before it; elsewhere the line and a line break. Remembers the line's width.
    pub fn frame(&mut self, line: &str) -> (text: String)
        ensures
            final(self).started == old(self).started,
            final(self).measuring_started == old(self).measuring_started,
            final(self).interactive == old(self).interactive,
            final(self).last_width == line@.len(),
            old(self).interactive ==> text@ == seq!['\r'] + line@ + repeated(' ', old(self).last_width - line@.len()),
            !old(self).interactive ==> text@ == line@ + seq!['\n'],
            old(self).interactive ==> text@.len() >= old(self).last_width + 1,
    {
        let width = line.unicode_len();
        let mut text = String::new();
        if self.interactive {
            let padding = if self.last_width > width { self.last_width - width } else { 0 };
            push_char(&mut text, '\r');
            text.append(line);
            push_repeated(&mut text, ' ', padding);
            assert(repeated(' ', padding as int) =~= repeated(' ', self.last_width - width));
            assert(text@ =~= seq!['\r'] + line@ + repeated(' ', self.last_width - line@.len()));
        } else {
            text.append(line);
            push_char(&mut text, '\n');
            assert(text@ =~= line@ + seq!['\n']);
        }
        self.last_width = width;
        text
    }
}

} // verus!
