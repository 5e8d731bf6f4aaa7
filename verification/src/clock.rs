//! The Lamport clock that the coordinator and every connection share.

use vstd::prelude::*;

verus! {

/// A logical clock. It starts at zero and never runs backwards: each
/// operation either moves it strictly forward or, at the end of its range,
/// refuses and leaves it as it was.
#[derive(Debug)]
pub struct LamportClock {
    value: u32,
}

/// The clock has reached the end of its range and cannot advance.
#[derive(Clone, Copy, Debug, PartialEq, Eq, Structural)]
pub struct ClockExhausted;

/// The larger of two logical times.
pub open spec fn later(a: u32, b: u32) -> u32 {
    if a >= b {
        a
    } else {
        b
    }
}

impl View for LamportClock {
    type V = u32;

    closed spec fn view(&self) -> u32 {
        self.value
    }
}

impl LamportClock {
    /// A clock at time zero.
    pub fn new() -> (clock: Self)
        ensures
            clock@ == 0,
    {
        LamportClock { value: 0 }
    }

    /// The clock's present time.
    pub fn read(&self) -> (now: u32)
        ensures
            now == self@,
    {
        self.value
    }

    /// Advances the clock by one and returns the new time.
    pub fn increment(&mut self) -> (ticked: Result<u32, ClockExhausted>)
        ensures
            ticked.is_ok() <==> old(self)@ < u32::MAX,
            ticked.is_ok() ==> final(self)@ == old(self)@ + 1 && ticked == Ok::<u32, ClockExhausted>(
                final(self)@,
            ),
            ticked.is_err() ==> final(self)@ == old(self)@,
    {
        if self.value < u32::MAX {
            self.value = self.value + 1;
            Ok(self.value)
        } else {
            Err(ClockExhausted)
        }
    }

    /// Merges a time seen on a message: the clock becomes one more than the
    /// later of its own time and the remote one.
    pub fn merge(&mut self, remote: u32) -> (merged: Result<u32, ClockExhausted>)
        ensures
            merged.is_ok() <==> later(old(self)@, remote) < u32::MAX,
            merged.is_ok() ==> final(self)@ == later(old(self)@, remote) + 1 && merged == Ok::<
                u32,
                ClockExhausted,
            >(final(self)@),
            merged.is_ok() ==> final(self)@ > old(self)@ && final(self)@ > remote,
            merged.is_err() ==> final(self)@ == old(self)@,
    {
        let top: u32 = if self.value >= remote {
            self.value
        } else {
            remote
        };
        if top < u32::MAX {
            self.value = top + 1;
            Ok(self.value)
        } else {
            Err(ClockExhausted)
        }
    }
}

/// The time after a successful merge, as a function of the time before and
/// the remote time.
pub open spec fn merged_time(local: u32, remote: u32) -> int {
    later(local, remote) + 1
}

/// A merge moves the clock strictly past both its earlier time and the time
/// merged in.
pub proof fn merge_passes_both(local: u32, remote: u32)
    ensures
        merged_time(local, remote) > local,
        merged_time(local, remote) > remote,
{
}

/// Folding a sequence of remote times into a clock, one merge after another.
pub open spec fn merged_all(local: int, remotes: Seq<u32>) -> int
    decreases remotes.len(),
{
    if remotes.len() == 0 {
        local
    } else {
        let before = merged_all(local, remotes.drop_last());
        (if before >= remotes.last() {
            before
        } else {
            remotes.last() as int
        }) + 1
    }
}

/// Whatever merges came before, the last merge of a sequence leaves the
/// clock strictly past the time it had before that merge and strictly past
/// the time merged in.
pub proof fn last_merge_advances(local: int, remotes: Seq<u32>)
    requires
        remotes.len() > 0,
    ensures
        merged_all(local, remotes) > merged_all(local, remotes.drop_last()),
        merged_all(local, remotes) > remotes.last(),
{
}

/// Over any sequence of merges the clock never runs backwards: it ends at
/// least one step per merge past where it began, and past every time that
/// was merged in.
pub proof fn merges_only_advance(local: int, remotes: Seq<u32>)
    ensures
        merged_all(local, remotes) >= local + remotes.len(),
        forall|i: int| 0 <= i < remotes.len() ==> merged_all(local, remotes) > #[trigger] remotes[i],
    decreases remotes.len(),
{
    if remotes.len() > 0 {
        let front = remotes.drop_last();
        merges_only_advance(local, front);
        assert forall|i: int| 0 <= i < remotes.len() implies merged_all(local, remotes)
            > #[trigger] remotes[i] by {
            if i < front.len() {
                assert(front[i] == remotes[i]);
            }
        }
    }
}

} // verus!
