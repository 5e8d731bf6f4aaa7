//! The messages of the protocol: what the game master sends, how a player's
//! throw is read, and what a received message does to the table and the clock.

use crate::clock::{later, LamportClock};
use crate::table::{put, ResultTable};
use crate::types::{ThrowResult, Timestamp, Variant};
use crate::wire::{
    decimal, decimal_is_a_word, decimal_reads_back, field_of, is_space, joined,
    joined_words_split_back, number_of, parse_number, render_number, spaceless, split_tokens,
    texts_of, tokens,
};
use vstd::prelude::*;
use vstd::string::*;

verus! {

/// The word that opens a throw message.
pub open spec fn throw_word() -> Seq<char> {
    seq!['W', 'U', 'R', 'F']
}

/// How many tokens a throw message has: the word, the name, the value, in the
/// causal protocol the logical time, and two stamps of four numbers each.
pub open spec fn token_count(variant: Variant) -> nat {
    match variant {
        Variant::Plain => 11,
        Variant::Causal => 12,
    }
}

/// The stamp written by the four tokens from `at` on.
pub open spec fn stamp_at(t: Seq<Seq<char>>, at: int) -> Timestamp {
    Timestamp {
        hours: field_of(t[at]),
        minutes: field_of(t[at + 1]),
        seconds: field_of(t[at + 2]),
        microseconds: field_of(t[at + 3]),
    }
}

/// The throw that the tokens of a plain throw message write.
pub open spec fn plain_throw(t: Seq<Seq<char>>) -> ThrowResult {
    ThrowResult::Plain { value: field_of(t[2]), start: stamp_at(t, 3), end: stamp_at(t, 7) }
}

/// The throw that the tokens of a causal throw message write; none where the
/// logical time is not a number.
pub open spec fn causal_throw(t: Seq<Seq<char>>) -> Option<ThrowResult> {
    match number_of(t[3]) {
        Some(lc) => Some(
            ThrowResult::Causal {
                value: field_of(t[2]),
                start: stamp_at(t, 4),
                end: stamp_at(t, 8),
                lc,
            },
        ),
        None => None,
    }
}

fn field(text: &String) -> (n: u32)
    ensures
        n == field_of(text@),
{
    match parse_number(text.as_str()) {
        Some(n) => n,
        None => 0,
    }
}

fn stamp(parts: &Vec<String>, at: usize) -> (stamp: Timestamp)
    requires
        at + 4 <= parts.len(),
    ensures
        stamp == stamp_at(texts_of(parts@), at as int),
{
    Timestamp {
        hours: field(&parts[at]),
        minutes: field(&parts[at + 1]),
        seconds: field(&parts[at + 2]),
        microseconds: field(&parts[at + 3]),
    }
}

/// Reads the throw out of the tokens of a plain throw message. A numeric
/// field that is no number counts as zero.
pub fn extract_wurf_a(parts: &Vec<String>) -> (throw: ThrowResult)
    requires
        parts.len() >= 11,
    ensures
        throw == plain_throw(texts_of(parts@)),
{
    ThrowResult::Plain { value: field(&parts[2]), start: stamp(parts, 3), end: stamp(parts, 7) }
}

/// Reads the throw out of the tokens of a causal throw message. The logical
/// time must be a number: tokens without one are not a causal throw, and the
/// caller tells them apart first. Any other numeric field that is no number
/// counts as zero.
pub fn extract_wurf_b(parts: &Vec<String>) -> (throw: ThrowResult)
    requires
        parts.len() >= 12,
        number_of(texts_of(parts@)[3]).is_some(),
    ensures
        causal_throw(texts_of(parts@)) == Some(throw),
{
    assert(texts_of(parts@)[3] == parts[3]@);
    let lc: u32 = match parse_number(parts[3].as_str()) {
        Some(lc) => lc,
        None => unreached(),
    };
    ThrowResult::Causal { value: field(&parts[2]), start: stamp(parts, 4), end: stamp(parts, 8), lc }
}

/// What a received message turned out to be.
#[derive(Debug)]
pub enum Decoded {
    /// A throw under a player's name.
    Throw { name: String, result: ThrowResult },
    /// A throw message with the wrong number of tokens.
    WrongFormat,
    /// Nothing but white space.
    Empty,
    /// A causal throw message whose logical time is no number.
    MissingClock,
    /// Some other message.
    Unrelated,
}

/// A decoded message with its name as plain text.
pub ghost enum DecodedText {
    Throw { name: Seq<char>, result: ThrowResult },
    WrongFormat,
    Empty,
    MissingClock,
    Unrelated,
}

impl View for Decoded {
    type V = DecodedText;

    open spec fn view(&self) -> DecodedText {
        match self {
            Decoded::Throw { name, result } => DecodedText::Throw { name: name@, result: *result },
            Decoded::WrongFormat => DecodedText::WrongFormat,
            Decoded::Empty => DecodedText::Empty,
            Decoded::MissingClock => DecodedText::MissingClock,
            Decoded::Unrelated => DecodedText::Unrelated,
        }
    }
}

/// What a text means in a protocol variant.
pub open spec fn decoding(variant: Variant, text: Seq<char>) -> DecodedText {
    let t = tokens(text);
    if t.len() == 0 {
        DecodedText::Empty
    } else if t[0] != throw_word() {
        DecodedText::Unrelated
    } else if t.len() != token_count(variant) {
        DecodedText::WrongFormat
    } else {
        match variant {
            Variant::Plain => DecodedText::Throw { name: t[1], result: plain_throw(t) },
            Variant::Causal => match causal_throw(t) {
                Some(result) => DecodedText::Throw { name: t[1], result },
                None => DecodedText::MissingClock,
            },
        }
    }
}

/// Decodes a received message.
pub fn decode_message(variant: Variant, message: &str) -> (decoded: Decoded)
    ensures
        decoded@ == decoding(variant, message@),
{
    let parts = split_tokens(message);
    if parts.len() == 0 {
        return Decoded::Empty;
    }
    proof {
        reveal_strlit("WURF");
    }
    let word = String::from_str("WURF");
    assert(word@ =~= throw_word());
    assert(texts_of(parts@)[0] == parts[0]@);
    if !(parts[0] == word) {
        return Decoded::Unrelated;
    }
    match variant {
        Variant::Plain => {
            if parts.len() != 11 {
                return Decoded::WrongFormat;
            }
            assert(texts_of(parts@)[1] == parts[1]@);
            Decoded::Throw { name: parts[1].clone(), result: extract_wurf_a(&parts) }
        },
        Variant::Causal => {
            if parts.len() != 12 {
                return Decoded::WrongFormat;
            }
            assert(texts_of(parts@)[1] == parts[1]@);
            assert(texts_of(parts@)[3] == parts[3]@);
            if parse_number(parts[3].as_str()).is_none() {
                return Decoded::MissingClock;
            }
            Decoded::Throw { name: parts[1].clone(), result: extract_wurf_b(&parts) }
        },
    }
}

/// The four tokens that write a stamp.
pub open spec fn stamp_tokens(s: Timestamp) -> Seq<Seq<char>> {
    seq![
        decimal(s.hours as nat),
        decimal(s.minutes as nat),
        decimal(s.seconds as nat),
        decimal(s.microseconds as nat),
    ]
}

/// The tokens of the message that reports a throw under a name.
pub open spec fn throw_tokens(name: Seq<char>, throw: ThrowResult) -> Seq<Seq<char>> {
    match throw {
        ThrowResult::Plain { value, start, end } => seq![throw_word(), name, decimal(value as nat)]
            + stamp_tokens(start) + stamp_tokens(end),
        ThrowResult::Causal { value, start, end, lc } => seq![
            throw_word(),
            name,
            decimal(value as nat),
            decimal(lc as nat),
        ] + stamp_tokens(start) + stamp_tokens(end),
    }
}

/// The message that reports a throw under a name, with single blanks
/// between its tokens.
pub open spec fn throw_message(name: Seq<char>, throw: ThrowResult) -> Seq<char> {
    joined(throw_tokens(name, throw))
}

/// A text whose tokens are those of a throw's message decodes, in the
/// throw's protocol, to that name and that throw: every number comes out as
/// it was written, however the tokens are spaced.
pub proof fn well_formed_throw_reads_back(text: Seq<char>, name: Seq<char>, throw: ThrowResult)
    requires
        tokens(text) == throw_tokens(name, throw),
    ensures
        decoding(throw.spec_variant(), text) == (DecodedText::Throw { name, result: throw }),
{
    let t = tokens(text);
    match throw {
        ThrowResult::Plain { value, start, end } => {
            decimal_reads_back(value as nat);
            assert(t.subrange(3, 7) =~= stamp_tokens(start));
            assert(t.subrange(7, 11) =~= stamp_tokens(end));
            stamp_reads_back(t, 3, start);
            stamp_reads_back(t, 7, end);
        },
        ThrowResult::Causal { value, start, end, lc } => {
            decimal_reads_back(value as nat);
            decimal_reads_back(lc as nat);
            assert(t.subrange(4, 8) =~= stamp_tokens(start));
            assert(t.subrange(8, 12) =~= stamp_tokens(end));
            stamp_reads_back(t, 4, start);
            stamp_reads_back(t, 8, end);
        },
    }
}

proof fn stamp_reads_back(t: Seq<Seq<char>>, at: int, s: Timestamp)
    requires
        0 <= at,
        at + 4 <= t.len(),
        t.subrange(at, at + 4) == stamp_tokens(s),
    ensures
        stamp_at(t, at) == s,
{
    let part = t.subrange(at, at + 4);
    assert(part[0] == t[at] && part[1] == t[at + 1] && part[2] == t[at + 2] && part[3] == t[at + 3]);
    decimal_reads_back(s.hours as nat);
    decimal_reads_back(s.minutes as nat);
    decimal_reads_back(s.seconds as nat);
    decimal_reads_back(s.microseconds as nat);
}

/// The message that reports a throw under a name that is a word decodes to
/// that name and that throw.
pub proof fn written_throw_reads_back(name: Seq<char>, throw: ThrowResult)
    requires
        spaceless(name),
    ensures
        decoding(throw.spec_variant(), throw_message(name, throw)) == (DecodedText::Throw {
            name,
            result: throw,
        }),
{
    let t = throw_tokens(name, throw);
    assert(spaceless(throw_word())) by {
        assert forall|i: int| 0 <= i < throw_word().len() implies !is_space(#[trigger] throw_word()[i]) by {}
    }
    assert forall|i: int| 0 <= i < t.len() implies spaceless(#[trigger] t[i]) by {
        match throw {
            ThrowResult::Plain { value, start, end } => {
                decimal_is_a_word(value as nat);
                stamp_tokens_are_words(start);
                stamp_tokens_are_words(end);
                if i >= 7 {
                    assert(t[i] == stamp_tokens(end)[i - 7]);
                } else if i >= 3 {
                    assert(t[i] == stamp_tokens(start)[i - 3]);
                }
            },
            ThrowResult::Causal { value, start, end, lc } => {
                decimal_is_a_word(value as nat);
                decimal_is_a_word(lc as nat);
                stamp_tokens_are_words(start);
                stamp_tokens_are_words(end);
                if i >= 8 {
                    assert(t[i] == stamp_tokens(end)[i - 8]);
                } else if i >= 4 {
                    assert(t[i] == stamp_tokens(start)[i - 4]);
                }
            },
        }
    }
    joined_words_split_back(t);
    well_formed_throw_reads_back(throw_message(name, throw), name, throw);
}

proof fn stamp_tokens_are_words(s: Timestamp)
    ensures
        forall|i: int| 0 <= i < 4 ==> spaceless(#[trigger] stamp_tokens(s)[i]),
{
    decimal_is_a_word(s.hours as nat);
    decimal_is_a_word(s.minutes as nat);
    decimal_is_a_word(s.seconds as nat);
    decimal_is_a_word(s.microseconds as nat);
}

/// What became of a received message.
#[derive(Clone, Copy, Debug, PartialEq, Eq, Structural)]
pub enum Outcome {
    /// The throw stands in the table.
    Recorded,
    /// A malformed throw message was dropped; the connection goes on.
    Discarded,
    /// The message was no throw and changed nothing.
    Ignored,
    /// The message was empty: the connection cannot go on.
    EmptyMessage,
    /// The logical time was missing: the connection cannot go on.
    MissingClock,
    /// The clock cannot advance past the merged time; nothing was recorded.
    ClockExhausted,
}

/// The table and the outcome after a message in the plain protocol.
pub open spec fn plain_step(
    rows: Seq<(Seq<char>, ThrowResult)>,
    text: Seq<char>,
) -> (Outcome, Seq<(Seq<char>, ThrowResult)>) {
    match decoding(Variant::Plain, text) {
        DecodedText::Throw { name, result } => (Outcome::Recorded, put(rows, name, result)),
        DecodedText::WrongFormat => (Outcome::Discarded, rows),
        DecodedText::Empty => (Outcome::EmptyMessage, rows),
        DecodedText::MissingClock => (Outcome::MissingClock, rows),
        DecodedText::Unrelated => (Outcome::Ignored, rows),
    }
}

/// The table, the clock and the outcome after a message in the causal
/// protocol: a throw first moves the clock past its own logical time and is
/// then recorded.
pub open spec fn causal_step(
    rows: Seq<(Seq<char>, ThrowResult)>,
    now: u32,
    text: Seq<char>,
) -> (Outcome, Seq<(Seq<char>, ThrowResult)>, u32) {
    match decoding(Variant::Causal, text) {
        DecodedText::Throw { name, result } => {
            let seen = match result.spec_logical_time() {
                Some(lc) => lc,
                None => 0,
            };
            if later(now, seen) < u32::MAX {
                (Outcome::Recorded, put(rows, name, result), (later(now, seen) + 1) as u32)
            } else {
                (Outcome::ClockExhausted, rows, now)
            }
        },
        DecodedText::WrongFormat => (Outcome::Discarded, rows, now),
        DecodedText::Empty => (Outcome::EmptyMessage, rows, now),
        DecodedText::MissingClock => (Outcome::MissingClock, rows, now),
        DecodedText::Unrelated => (Outcome::Ignored, rows, now),
    }
}

/// Handles one message of a connection in the plain protocol. An empty
/// message ends the connection and is no input here: the caller tells it
/// apart first.
pub fn handle_client_a(table: &mut ResultTable, message: &str) -> (outcome: Outcome)
    requires
        !(decoding(Variant::Plain, message@) is Empty),
    ensures
        outcome != Outcome::EmptyMessage,
        outcome != Outcome::MissingClock,
        (outcome, final(table)@) == plain_step(old(table)@, message@),
{
    match decode_message(Variant::Plain, message) {
        Decoded::Throw { name, result } => {
            table.insert(name, result);
            Outcome::Recorded
        },
        Decoded::WrongFormat => Outcome::Discarded,
        Decoded::Unrelated => Outcome::Ignored,
        Decoded::Empty | Decoded::MissingClock => unreached(),
    }
}

/// Handles one message of a connection in the causal protocol. An empty
/// message and a throw without its logical time end the connection and are
/// no input here: the caller tells them apart first.
pub fn handle_client_b(table: &mut ResultTable, clock: &mut LamportClock, message: &str) -> (outcome:
    Outcome)
    requires
        !(decoding(Variant::Causal, message@) is Empty),
        !(decoding(Variant::Causal, message@) is MissingClock),
    ensures
        outcome != Outcome::EmptyMessage,
        outcome != Outcome::MissingClock,
        (outcome, final(table)@, final(clock)@) == causal_step(
            old(table)@,
            old(clock)@,
            message@,
        ),
{
    match decode_message(Variant::Causal, message) {
        Decoded::Throw { name, result } => {
            let seen: u32 = match result.logical_time() {
                Some(lc) => lc,
                None => 0,
            };
            match clock.merge(seen) {
                Ok(_) => {
                    table.insert(name, result);
                    Outcome::Recorded
                },
                Err(_) => Outcome::ClockExhausted,
            }
        },
        Decoded::WrongFormat => Outcome::Discarded,
        Decoded::Unrelated => Outcome::Ignored,
        Decoded::Empty | Decoded::MissingClock => unreached(),
    }
}

/// The text that std's lossy UTF-8 decoding makes of a run of bytes.
pub uninterp spec fn lossy_text(bytes: Seq<u8>) -> Seq<char>;

/// Calls std's `String::from_utf8_lossy` and takes the result as an owned
/// string. The decoding depends on the bytes alone: valid UTF-8 is kept and
/// each invalid sequence becomes U+FFFD. It is named here, not spelled out.
#[verifier::external_body]
fn decode_lossy(bytes: &[u8]) -> (text: String)
    ensures
        text@ == lossy_text(bytes@),
{
    String::from_utf8_lossy(bytes).into_owned()
}

/// Handles what one read of a connection brought: decodes the bytes and
/// treats the text as a message of the given protocol. A message on which
/// the connection cannot go on (an empty one, or a causal throw without its
/// logical time) is told in the outcome and changes nothing. The plain
/// protocol leaves the clock alone.
pub fn handle_client_general(
    variant: Variant,
    table: &mut ResultTable,
    clock: &mut LamportClock,
    bytes: &[u8],
) -> (outcome: Outcome)
    ensures
        match variant {
            Variant::Plain => (outcome, final(table)@) == plain_step(
                old(table)@,
                lossy_text(bytes@),
            ) && final(clock)@ == old(clock)@,
            Variant::Causal => (outcome, final(table)@, final(clock)@) == causal_step(
                old(table)@,
                old(clock)@,
                lossy_text(bytes@),
            ),
        },
{
    let message = decode_lossy(bytes);
    match decode_message(variant, message.as_str()) {
        Decoded::Empty => Outcome::EmptyMessage,
        Decoded::MissingClock => Outcome::MissingClock,
        _ => match variant {
            Variant::Plain => handle_client_a(table, message.as_str()),
            Variant::Causal => handle_client_b(table, clock, message.as_str()),
        },
    }
}

/// The text of a broadcast: the bare word in the plain protocol, the word and
/// the logical time in the causal one.
pub open spec fn broadcast_text(word: Seq<char>, variant: Variant, lc: u32) -> Seq<char> {
    match variant {
        Variant::Plain => word,
        Variant::Causal => word + seq![' '] + decimal(lc as nat),
    }
}

/// The word that opens a round.
pub open spec fn start_word() -> Seq<char> {
    seq!['S', 'T', 'A', 'R', 'T']
}

/// The word that closes a round.
pub open spec fn stop_word() -> Seq<char> {
    seq!['S', 'T', 'O', 'P']
}

/// The greeting for a new connection: `WELCOME A` or `WELCOME B`.
pub open spec fn welcome_text(variant: Variant) -> Seq<char> {
    seq!['W', 'E', 'L', 'C', 'O', 'M', 'E', ' '].push(
        match variant {
            Variant::Plain => 'A',
            Variant::Causal => 'B',
        },
    )
}

/// The greeting that tells a new connection which protocol is spoken.
pub fn welcome_message(variant: Variant) -> (text: String)
    ensures
        text@ == welcome_text(variant),
{
    proof {
        reveal_strlit("WELCOME A");
        reveal_strlit("WELCOME B");
    }
    let text = match variant {
        Variant::Plain => String::from_str("WELCOME A"),
        Variant::Causal => String::from_str("WELCOME B"),
    };
    assert(text@ =~= welcome_text(variant));
    text
}

fn broadcast_message(word: &str, variant: Variant, lc: u32) -> (text: String)
    ensures
        text@ == broadcast_text(word@, variant, lc),
{
    let mut text = String::from_str(word);
    match variant {
        Variant::Plain => {},
        Variant::Causal => {
            proof {
                reveal_strlit(" ");
            }
            text.append(" ");
            let number = render_number(lc);
            text.append(number.as_str());
            assert(text@ =~= broadcast_text(word@, variant, lc));
        },
    }
    text
}

/// The message that opens a round.
pub fn start_message(variant: Variant, lc: u32) -> (text: String)
    ensures
        text@ == broadcast_text(start_word(), variant, lc),
{
    proof {
        reveal_strlit("START");
    }
    assert("START"@ =~= start_word());
    broadcast_message("START", variant, lc)
}

/// The message that closes a round.
pub fn stop_message(variant: Variant, lc: u32) -> (text: String)
    ensures
        text@ == broadcast_text(stop_word(), variant, lc),
{
    proof {
        reveal_strlit("STOP");
    }
    assert("STOP"@ =~= stop_word());
    broadcast_message("STOP", variant, lc)
}

} // verus!
