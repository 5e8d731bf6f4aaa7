//! The values that travel through a round: stamps, throws, the protocol
//! variant and the logical window of a round.

use vstd::prelude::*;

verus! {

/// A wall-clock instant as a player reported it. It is shown, never computed with.
#[derive(Clone, Copy, Debug, PartialEq, Eq, Structural)]
pub struct Timestamp {
    pub hours: u32,
    pub minutes: u32,
    pub seconds: u32,
    pub microseconds: u32,
}

/// Which of the two protocols a session speaks.
#[derive(Clone, Copy, Debug, PartialEq, Eq, Structural)]
pub enum Variant {
    /// Wall-clock stamps only; announced to players as `A`.
    Plain,
    /// Every message carries a Lamport time; announced to players as `B`.
    Causal,
}

/// The open interval of logical time between a round's START and its STOP.
#[derive(Clone, Copy, Debug, PartialEq, Eq, Structural)]
pub struct RoundWindow {
    pub lc_start: u32,
    pub lc_stop: u32,
}

/// One reported throw.
#[derive(Clone, Copy, Debug, PartialEq, Eq, Structural)]
pub enum ThrowResult {
    Plain { value: u32, start: Timestamp, end: Timestamp },
    Causal { value: u32, start: Timestamp, end: Timestamp, lc: u32 },
}

impl RoundWindow {
    /// A logical time lies in the window when it is strictly between both ends.
    pub open spec fn admits(self, lc: u32) -> bool {
        self.lc_start < lc && lc < self.lc_stop
    }

    /// Whether a logical time lies strictly inside the window.
    pub fn contains(&self, lc: u32) -> (inside: bool)
        ensures
            inside == self.admits(lc),
    {
        self.lc_start < lc && lc < self.lc_stop
    }
}

impl ThrowResult {
    /// The number of pips thrown.
    pub open spec fn spec_value(self) -> u32 {
        match self {
            ThrowResult::Plain { value, .. } => value,
            ThrowResult::Causal { value, .. } => value,
        }
    }

    /// The Lamport time of a causal throw.
    pub open spec fn spec_logical_time(self) -> Option<u32> {
        match self {
            ThrowResult::Plain { .. } => None,
            ThrowResult::Causal { lc, .. } => Some(lc),
        }
    }

    /// The protocol that the throw was reported in.
    pub open spec fn spec_variant(self) -> Variant {
        match self {
            ThrowResult::Plain { .. } => Variant::Plain,
            ThrowResult::Causal { .. } => Variant::Causal,
        }
    }

    /// Whether the throw counts for a round with the given window: a plain
    /// throw always does, a causal one only with its logical time inside.
    pub open spec fn counts_in(self, window: RoundWindow) -> bool {
        match self {
            ThrowResult::Plain { .. } => true,
            ThrowResult::Causal { lc, .. } => window.admits(lc),
        }
    }

    /// The number of pips thrown.
    pub fn value(&self) -> (v: u32)
        ensures
            v == self.spec_value(),
    {
        match self {
            ThrowResult::Plain { value, .. } => *value,
            ThrowResult::Causal { value, .. } => *value,
        }
    }

    /// The Lamport time the player recorded, present exactly on causal throws.
    pub fn logical_time(&self) -> (lc: Option<u32>)
        ensures
            lc == self.spec_logical_time(),
    {
        match self {
            ThrowResult::Plain { .. } => None,
            ThrowResult::Causal { lc, .. } => Some(*lc),
        }
    }

    /// The protocol that the throw was reported in.
    pub fn variant(&self) -> (v: Variant)
        ensures
            v == self.spec_variant(),
    {
        match self {
            ThrowResult::Plain { .. } => Variant::Plain,
            ThrowResult::Causal { .. } => Variant::Causal,
        }
    }

    /// Whether the throw counts for a round with the given window.
    pub fn survives(&self, window: &RoundWindow) -> (keep: bool)
        ensures
            keep == self.counts_in(*window),
    {
        match self {
            ThrowResult::Plain { .. } => true,
            ThrowResult::Causal { lc, .. } => window.contains(*lc),
        }
    }
}

} // verus!
