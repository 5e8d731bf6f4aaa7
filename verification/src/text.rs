//! The report of a round as lines of text, for the log and the report file.

use crate::round::RoundReport;
use crate::table::{rows_of, Entry};
use crate::types::{RoundWindow, ThrowResult, Timestamp};
use crate::wire::{decimal, render_decimal, render_number, texts_of};
use vstd::prelude::*;
use vstd::string::*;

verus! {

/// A stamp as `hours:minutes:seconds.microseconds`, each number in plain decimal.
pub open spec fn stamp_text(s: Timestamp) -> Seq<char> {
    decimal(s.hours as nat) + ":"@ + decimal(s.minutes as nat) + ":"@ + decimal(s.seconds as nat)
        + "."@ + decimal(s.microseconds as nat)
}

/// A throw in words: the value, both stamps and, on a causal throw, the
/// logical time.
pub open spec fn throw_text(throw: ThrowResult) -> Seq<char> {
    match throw {
        ThrowResult::Plain { value, start, end } => decimal(value as nat)
            + " gewürfelt! (START-Nachricht erhalten: "@ + stamp_text(start)
            + ", Antwort gesendet: "@ + stamp_text(end) + ")"@,
        ThrowResult::Causal { value, start, end, lc } => decimal(value as nat)
            + " gewürfelt! (START-Nachricht erhalten: "@ + stamp_text(start)
            + ", Antwort gesendet: "@ + stamp_text(end) + ", Lamport-Zeit: "@ + decimal(lc as nat)
            + ")"@,
    }
}

/// The line that opens a round's report.
pub open spec fn header_line(round: u64, started: Seq<char>, ended: Seq<char>) -> Seq<char> {
    "Runde "@ + decimal(round as nat) + " - gestartet um "@ + started + " - beendet um "@ + ended
        + ":"@
}

/// The line that tells a round's logical window.
pub open spec fn window_line(window: RoundWindow) -> Seq<char> {
    "Lamportzeit zu Rundenstart: "@ + decimal(window.lc_start as nat) + " und zu Rundenende: "@
        + decimal(window.lc_stop as nat)
}

/// The line that tells one player's throw.
pub open spec fn throw_line(row: (Seq<char>, ThrowResult)) -> Seq<char> {
    row.0 + " hat eine "@ + throw_text(row.1)
}

/// The line that names the winner, or says that there is none.
pub open spec fn winner_line(round: u64, winner: Option<(Seq<char>, ThrowResult)>) -> Seq<char> {
    match winner {
        Some(row) => "Runde "@ + decimal(round as nat) + " hat "@ + row.0
            + " mit folgendem Wurf gewonnen: "@ + decimal(row.1.spec_value() as nat) + "!"@,
        None => "Da waren wohl alle Spieler zu langsam für den Spielleiter :)"@,
    }
}

/// The lines that tell the throws, one per row and in their order.
pub open spec fn throw_lines(rows: Seq<(Seq<char>, ThrowResult)>) -> Seq<Seq<char>> {
    Seq::new(rows.len(), |i: int| throw_line(rows[i]))
}

/// A report as lines: the header, in the causal protocol the window, one line
/// per throw, the winner, and an empty line that parts it from the next report.
pub open spec fn report_lines(report: RoundReport) -> Seq<Seq<char>> {
    seq![header_line(report.round, report.started@, report.ended@)] + (match report.window {
        Some(window) => seq![window_line(window)],
        None => Seq::empty(),
    }) + throw_lines(rows_of(report.throws@)) + seq![
        winner_line(
            report.round,
            match report.winner {
                Some(entry) => Some(entry@),
                None => None,
            },
        ),
        Seq::empty(),
    ]
}

fn push_stamp(text: &mut String, s: &Timestamp)
    ensures
        final(text)@ == old(text)@ + stamp_text(*s),
{
    text.append(render_number(s.hours).as_str());
    text.append(":");
    text.append(render_number(s.minutes).as_str());
    text.append(":");
    text.append(render_number(s.seconds).as_str());
    text.append(".");
    text.append(render_number(s.microseconds).as_str());
    assert(text@ =~= old(text)@ + stamp_text(*s));
}

impl ThrowResult {
    /// The throw in words.
    pub fn to_string(&self) -> (text: String)
        ensures
            text@ == throw_text(*self),
    {
        match self {
            ThrowResult::Plain { value, start, end } => {
                let mut text = render_number(*value);
                text.append(" gewürfelt! (START-Nachricht erhalten: ");
                push_stamp(&mut text, start);
                text.append(", Antwort gesendet: ");
                push_stamp(&mut text, end);
                text.append(")");
                assert(text@ =~= throw_text(*self));
                text
            },
            ThrowResult::Causal { value, start, end, lc } => {
                let mut text = render_number(*value);
                text.append(" gewürfelt! (START-Nachricht erhalten: ");
                push_stamp(&mut text, start);
                text.append(", Antwort gesendet: ");
                push_stamp(&mut text, end);
                text.append(", Lamport-Zeit: ");
                text.append(render_number(*lc).as_str());
                text.append(")");
                assert(text@ =~= throw_text(*self));
                text
            },
        }
    }
}

fn header(round: u64, started: &String, ended: &String) -> (text: String)
    ensures
        text@ == header_line(round, started@, ended@),
{
    let mut text = String::from_str("Runde ");
    text.append(render_decimal(round).as_str());
    text.append(" - gestartet um ");
    text.append(started.as_str());
    text.append(" - beendet um ");
    text.append(ended.as_str());
    text.append(":");
    assert(text@ =~= header_line(round, started@, ended@));
    text
}

fn window_text(window: &RoundWindow) -> (text: String)
    ensures
        text@ == window_line(*window),
{
    let mut text = String::from_str("Lamportzeit zu Rundenstart: ");
    text.append(render_number(window.lc_start).as_str());
    text.append(" und zu Rundenende: ");
    text.append(render_number(window.lc_stop).as_str());
    assert(text@ =~= window_line(*window));
    text
}

fn throw_entry_text(entry: &Entry) -> (text: String)
    ensures
        text@ == throw_line(entry@),
{
    let mut text = entry.name.clone();
    text.append(" hat eine ");
    text.append(entry.result.to_string().as_str());
    assert(text@ =~= throw_line(entry@));
    text
}

fn winner_text(round: u64, winner: &Option<Entry>) -> (text: String)
    ensures
        text@ == winner_line(
            round,
            match *winner {
                Some(entry) => Some(entry@),
                None => None,
            },
        ),
{
    match winner {
        Some(entry) => {
            let mut text = String::from_str("Runde ");
            text.append(render_decimal(round).as_str());
            text.append(" hat ");
            text.append(entry.name.as_str());
            text.append(" mit folgendem Wurf gewonnen: ");
            text.append(render_number(entry.result.value()).as_str());
            text.append("!");
            assert(text@ =~= winner_line(round, Some(entry@)));
            text
        },
        None => String::from_str("Da waren wohl alle Spieler zu langsam für den Spielleiter :)"),
    }
}

impl RoundReport {
    /// The report as lines of text.
    pub fn lines(&self) -> (lines: Vec<String>)
        ensures
            texts_of(lines@) == report_lines(*self),
    {
        let mut lines: Vec<String> = Vec::new();
        lines.push(header(self.round, &self.started, &self.ended));
        match &self.window {
            Some(window) => {
                lines.push(window_text(window));
            },
            None => {},
        }
        let ghost head = seq![header_line(self.round, self.started@, self.ended@)] + (match self.window {
            Some(window) => seq![window_line(window)],
            None => Seq::empty(),
        });
        assert(texts_of(lines@) =~= head);
        let ghost rows = rows_of(self.throws@);
        let mut i: usize = 0;
        while i < self.throws.len()
            invariant
                i <= self.throws.len(),
                rows == rows_of(self.throws@),
                head == seq![header_line(self.round, self.started@, self.ended@)] + (match self.window {
                    Some(window) => seq![window_line(window)],
                    None => Seq::empty(),
                }),
                texts_of(lines@) == head + throw_lines(rows).take(i as int),
            decreases self.throws.len() - i,
        {
            let ghost before = texts_of(lines@);
            lines.push(throw_entry_text(&self.throws[i]));
            assert(texts_of(lines@) =~= before.push(throw_line(rows[i as int])));
            assert(throw_lines(rows).take(i + 1) =~= throw_lines(rows).take(i as int).push(
                throw_line(rows[i as int]),
            ));
            assert(texts_of(lines@) =~= head + throw_lines(rows).take(i + 1));
            i = i + 1;
        }
        assert(throw_lines(rows).take(i as int) =~= throw_lines(rows));
        let ghost body = texts_of(lines@);
        lines.push(winner_text(self.round, &self.winner));
        lines.push(String::new());
        assert(texts_of(lines@) =~= body + seq![
            winner_line(
                self.round,
                match self.winner {
                    Some(entry) => Some(entry@),
                    None => None,
                },
            ),
            Seq::empty(),
        ]);
        assert(texts_of(lines@) =~= report_lines(*self));
        lines
    }
}

} // verus!
