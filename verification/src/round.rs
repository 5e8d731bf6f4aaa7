//! A round from the game master's side: opening and closing it on the
//! Lamport clock, and evaluating the table when it is over.

use crate::clock::{merged_all, merges_only_advance, ClockExhausted, LamportClock};
use crate::message::{broadcast_text, start_message, start_word, stop_message, stop_word};
use crate::table::{leads, names_distinct, rows_of, survivors, Entry, ResultTable};
use crate::types::{RoundWindow, ThrowResult, Variant};
use vstd::prelude::*;

verus! {

/// What is known of a round once it is over.
#[derive(Debug)]
pub struct RoundReport {
    /// The round's number; the first round is round 1.
    pub round: u64,
    /// When the round was opened, as wall-clock text.
    pub started: String,
    /// When the round was evaluated, as wall-clock text.
    pub ended: String,
    /// The round's logical window, reported in the causal protocol only.
    pub window: Option<RoundWindow>,
    /// The throws that count, in table order.
    pub throws: Vec<Entry>,
    /// The winning throw, if any throw counts.
    pub winner: Option<Entry>,
}

/// The window as a report of the given protocol shows it.
pub open spec fn shown_window(variant: Variant, window: RoundWindow) -> Option<RoundWindow> {
    match variant {
        Variant::Plain => None,
        Variant::Causal => Some(window),
    }
}

/// `row` is the winning row of `rows`.
pub open spec fn wins(rows: Seq<(Seq<char>, ThrowResult)>, row: (Seq<char>, ThrowResult)) -> bool {
    exists|i: int| #[trigger] leads(rows, i) && rows[i] == row
}

/// The report tells the round's number, start and window, lists exactly the
/// rows that counted, and names as winner the first row with the highest
/// value, or no winner where no row counted.
pub open spec fn summarises(
    report: RoundReport,
    counted: Seq<(Seq<char>, ThrowResult)>,
    variant: Variant,
    window: RoundWindow,
    round: u64,
    started: Seq<char>,
) -> bool {
    &&& report.round == round
    &&& report.started@ == started
    &&& report.window == shown_window(variant, window)
    &&& rows_of(report.throws@) == counted
    &&& match report.winner {
        Some(entry) => wins(counted, entry@),
        None => counted.len() == 0,
    }
}

/// Calls chrono's `Local::now` and writes the instant it returns with that
/// type's `Display`. The text depends on the machine's clock and time zone,
/// so nothing is stated of it. chrono stops the process where the system
/// clock stands before 1970.
#[verifier::external_body]
fn local_time_text() -> (text: String) {
    chrono::Local::now().to_string()
}

/// Writes the report of a round from the rows that counted in it.
pub fn round_report(
    table: &ResultTable,
    variant: Variant,
    window: RoundWindow,
    round: u64,
    started: String,
    ended: String,
) -> (report: RoundReport)
    ensures
        summarises(report, table@, variant, window, round, started@),
        report.ended@ == ended@,
        names_distinct(rows_of(report.throws@)),
{
    let throws = table.entries();
    let winner = match table.leader() {
        Some(i) => Some(table.entry(i)),
        None => None,
    };
    let shown = match variant {
        Variant::Plain => None,
        Variant::Causal => Some(window),
    };
    RoundReport { round, started, ended, window: shown, throws, winner }
}

/// Evaluates a round: reports the throws that count for the window, stamped
/// with the end of the round, and empties the table, whatever it held.
pub fn evaluate_results(
    table: &mut ResultTable,
    variant: Variant,
    window: RoundWindow,
    round: u64,
    started: String,
) -> (report: RoundReport)
    ensures
        final(table)@.len() == 0,
        summarises(report, survivors(old(table)@, window), variant, window, round, started@),
        names_distinct(rows_of(report.throws@)),
{
    table.retain_window(&window);
    let ended = local_time_text();
    let report = round_report(table, variant, window, round, started, ended);
    table.clear();
    report
}

/// The game master's own state: the protocol spoken and the number of the
/// round that is running or comes next.
#[derive(Debug)]
pub struct RoundCoordinator {
    variant: Variant,
    round: u64,
}

impl RoundCoordinator {
    /// The protocol that the session speaks.
    pub closed spec fn spec_variant(&self) -> Variant {
        self.variant
    }

    /// The number of the round that is running or comes next.
    pub closed spec fn spec_round(&self) -> u64 {
        self.round
    }

    /// A coordinator before its first round.
    pub fn new(variant: Variant) -> (coordinator: Self)
        ensures
            coordinator.spec_variant() == variant,
            coordinator.spec_round() == 1,
    {
        RoundCoordinator { variant, round: 1 }
    }

    /// The protocol that the session speaks.
    pub fn variant(&self) -> (variant: Variant)
        ensures
            variant == self.spec_variant(),
    {
        self.variant
    }

    /// The number of the round that is running or comes next.
    pub fn round(&self) -> (round: u64)
        ensures
            round == self.spec_round(),
    {
        self.round
    }

    /// Opens a round: advances the clock and returns the new time, which is
    /// the window's start, with the message to send to every player.
    pub fn start_round(&self, clock: &mut LamportClock) -> (opened: Result<
        (u32, String),
        ClockExhausted,
    >)
        ensures
            opened.is_ok() <==> old(clock)@ < u32::MAX,
            match opened {
                Ok((lc_start, text)) => {
                    &&& final(clock)@ == old(clock)@ + 1
                    &&& lc_start == final(clock)@
                    &&& text@ == broadcast_text(start_word(), self.spec_variant(), lc_start)
                },
                Err(_) => final(clock)@ == old(clock)@,
            },
    {
        match clock.increment() {
            Ok(lc_start) => Ok((lc_start, start_message(self.variant, lc_start))),
            Err(e) => Err(e),
        }
    }

    /// Closes a round: advances the clock and returns the new time, which is
    /// the window's end, with the message to send to every player.
    pub fn stop_round(&self, clock: &mut LamportClock) -> (closed: Result<
        (u32, String),
        ClockExhausted,
    >)
        ensures
            closed.is_ok() <==> old(clock)@ < u32::MAX,
            match closed {
                Ok((lc_stop, text)) => {
                    &&& final(clock)@ == old(clock)@ + 1
                    &&& lc_stop == final(clock)@
                    &&& text@ == broadcast_text(stop_word(), self.spec_variant(), lc_stop)
                },
                Err(_) => final(clock)@ == old(clock)@,
            },
    {
        match clock.increment() {
            Ok(lc_stop) => Ok((lc_stop, stop_message(self.variant, lc_stop))),
            Err(e) => Err(e),
        }
    }

    /// Ends a round: evaluates the table, which leaves it empty, and moves
    /// on to the next round.
    pub fn finish_round(
        &mut self,
        table: &mut ResultTable,
        window: RoundWindow,
        started: String,
    ) -> (report: RoundReport)
        requires
            old(self).spec_round() < u64::MAX,
        ensures
                final(table)@.len() == 0,
            final(self).spec_variant() == old(self).spec_variant(),
            final(self).spec_round() == old(self).spec_round() + 1,
            summarises(
                report,
                survivors(old(table)@, window),
                old(self).spec_variant(),
                window,
                old(self).spec_round(),
                started@,
            ),
            names_distinct(rows_of(report.throws@)),
    {
        let report = evaluate_results(table, self.variant, window, self.round, started);
        self.round = self.round + 1;
        report
    }
}

/// The players that have connected so far, against the number the session
/// waits for. The game master takes connections while the lobby is not
/// complete, and none once it is.
#[derive(Debug)]
pub struct Lobby {
    wanted: u64,
    joined: u64,
}

impl Lobby {
    /// How many players the session waits for.
    pub closed spec fn spec_wanted(&self) -> u64 {
        self.wanted
    }

    /// How many players have connected.
    pub closed spec fn spec_joined(&self) -> u64 {
        self.joined
    }

    /// A lobby that nobody has entered yet.
    pub fn new(wanted: u64) -> (lobby: Self)
        ensures
            lobby.spec_wanted() == wanted,
            lobby.spec_joined() == 0,
    {
        Lobby { wanted, joined: 0 }
    }

    /// How many players have connected.
    pub fn joined(&self) -> (joined: u64)
        ensures
            joined == self.spec_joined(),
    {
        self.joined
    }

    /// Whether as many players have connected as the session waits for.
    pub fn complete(&self) -> (complete: bool)
        ensures
            complete == (self.spec_joined() == self.spec_wanted()),
    {
        self.joined == self.wanted
    }

    /// Counts one more connection and tells whether that was the last one to
    /// wait for.
    pub fn enter(&mut self) -> (complete: bool)
        requires
            old(self).spec_joined() < u64::MAX,
        ensures
            final(self).spec_wanted() == old(self).spec_wanted(),
            final(self).spec_joined() == old(self).spec_joined() + 1,
            complete == (final(self).spec_joined() == final(self).spec_wanted()),
    {
        self.joined = self.joined + 1;
        self.joined == self.wanted
    }
}

/// A round's window is never empty of order: whatever times the connections
/// merge into the clock between START and STOP, the time sampled for STOP
/// lies strictly after the time sampled for START, and after every time
/// that was merged in.
pub proof fn window_ends_after_start(lc_start: u32, remotes: Seq<u32>)
    ensures
        merged_all(lc_start as int, remotes) + 1 > lc_start,
        forall|i: int|
            0 <= i < remotes.len() ==> merged_all(lc_start as int, remotes) + 1 > #[trigger] remotes[i],
{
    merges_only_advance(lc_start as int, remotes);
}

} // verus!
