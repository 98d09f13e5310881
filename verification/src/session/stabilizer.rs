//! A debounce filter for screen snapshots.
use crate::clock::{passed, passed_since, Clock, MILLISECOND};
use crate::text::{same_lines, texts};
use vstd::prelude::*;

verus! {

/// For how long the screen has to stand still, unless said otherwise: 300 milliseconds.
pub const DEFAULT_STABILIZE_DELAY: u64 = 300 * MILLISECOND;

/// Debounce filter for screen snapshots.
/// Waits for the screen to be stable (unchanged) for `delay` before committing.
pub struct Stabilizer {
    delay: u64,
    clock: Clock,
    pending: Option<(Vec<String>, u64)>,
}

/// What a stabilizer knows: the delay, and the snapshot that waits to be committed with the
/// instant at which it was first seen.
pub struct StabilizerView {
    pub delay: u64,
    pub pending: Option<(Seq<Seq<char>>, u64)>,
}

impl View for Stabilizer {
    type V = StabilizerView;

    closed spec fn view(&self) -> StabilizerView {
        StabilizerView {
            delay: self.delay,
            pending: match self.pending {
                Some((snapshot, since)) => Some((texts(snapshot@), since)),
                None => None,
            },
        }
    }
}

impl StabilizerView {
    /// Nothing waits.
    pub open spec fn idle(delay: u64) -> StabilizerView {
        StabilizerView { delay, pending: None }
    }

    /// The snapshot that waits.
    pub open spec fn waiting(self) -> Option<Seq<Seq<char>>> {
        match self.pending {
            Some((snapshot, _)) => Some(snapshot),
            None => None,
        }
    }

    /// After the screen was seen to show `snapshot` at `now`: if that is not what waits already,
    /// it waits from now on.
    pub open spec fn changed(self, snapshot: Seq<Seq<char>>, now: u64) -> StabilizerView {
        if self.waiting() == Some(snapshot) {
            self
        } else {
            StabilizerView { delay: self.delay, pending: Some((snapshot, now)) }
        }
    }

    /// What is committed at `now`: the snapshot that waits, if it has waited for the delay.
    pub open spec fn committed(self, now: u64) -> Option<Seq<Seq<char>>> {
        match self.pending {
            Some((snapshot, since)) => if passed(since, now) >= self.delay {
                Some(snapshot)
            } else {
                None
            },
            None => None,
        }
    }

    /// After a commit was tried at `now`: what has been committed waits no longer.
    pub open spec fn after_commit(self, now: u64) -> StabilizerView {
        if self.committed(now) is Some {
            StabilizerView::idle(self.delay)
        } else {
            self
        }
    }
}

/// The texts of a snapshot, where there is one.
pub open spec fn snapshot_texts(snapshot: Option<Vec<String>>) -> Option<Seq<Seq<char>>> {
    match snapshot {
        Some(lines) => Some(texts(lines@)),
        None => None,
    }
}

impl Stabilizer {
    /// A filter that waits for `delay` nanoseconds.
    pub fn new(delay: u64) -> (r: Stabilizer)
        ensures
            r@ == StabilizerView::idle(delay),
    {
        Stabilizer { delay, clock: Clock::start(), pending: None }
    }

    pub fn default_delay() -> (r: Stabilizer)
        ensures
            r@ == StabilizerView::idle(DEFAULT_STABILIZE_DELAY),
    {
        Stabilizer::new(DEFAULT_STABILIZE_DELAY)
    }

    /// Takes note of what the screen shows at `now`. A change resets the stability timer.
    pub fn on_change_at(&mut self, snapshot: Vec<String>, now: u64)
        ensures
            final(self)@ == old(self)@.changed(texts(snapshot@), now),
    {
        let unchanged = match &self.pending {
            Some((pending, _)) => same_lines(pending.as_slice(), snapshot.as_slice()),
            None => false,
        };
        if !unchanged {
            self.pending = Some((snapshot, now));
        }
    }

    /// Called when the screen changes. Resets the stability timer.
    pub fn on_change(&mut self, snapshot: Vec<String>)
        ensures
            exists|now: u64| final(self)@ == #[trigger] old(self)@.changed(texts(snapshot@), now),
    {
        let now = self.clock.now();
        self.on_change_at(snapshot, now);
    }

    /// Hands out the snapshot that waits, if by `now` it has been stable for the delay.
    pub fn try_commit_at(&mut self, now: u64) -> (r: Option<Vec<String>>)
        ensures
            snapshot_texts(r) == old(self)@.committed(now),
            final(self)@ == old(self)@.after_commit(now),
    {
        let due = match &self.pending {
            Some((_, since)) => passed_since(*since, now) >= self.delay,
            None => false,
        };
        if due {
            match self.pending.take() {
                Some((snapshot, _)) => Some(snapshot),
                None => None,
            }
        } else {
            None
        }
    }

    /// Called periodically (e.g., every 50ms). Returns the committed snapshot
    /// if the screen has been stable for the configured delay.
    pub fn try_commit(&mut self) -> (r: Option<Vec<String>>)
        ensures
            exists|now: u64|
                snapshot_texts(r) == #[trigger] old(self)@.committed(now) && final(self)@
                    == old(self)@.after_commit(now),
    {
        let now = self.clock.now();
        self.try_commit_at(now)
    }

    /// Returns the pending snapshot without committing, for instant state detection.
    pub fn pending(&self) -> (r: Option<&Vec<String>>)
        ensures
            match r {
                Some(snapshot) => self@.waiting() == Some(texts(snapshot@)),
                None => self@.waiting() is None,
            },
    {
        match &self.pending {
            Some((snapshot, _)) => Some(snapshot),
            None => None,
        }
    }
}

// ---------------------------------------------------------------------------------------------
// Laws

/// Nothing is committed before the delay is over, and what was seen is committed once it is.
pub proof fn law_commit_after_delay(
    stabilizer: StabilizerView,
    snapshot: Seq<Seq<char>>,
    seen: u64,
    now: u64,
)
    requires
        stabilizer.waiting() != Some(snapshot),
    ensures
        passed(seen, now) < stabilizer.delay ==> stabilizer.changed(snapshot, seen).committed(
            now,
        ) is None,
        passed(seen, now) >= stabilizer.delay ==> stabilizer.changed(snapshot, seen).committed(now)
            == Some(snapshot),
{
}

/// Seeing the same screen again does not reset the timer; seeing another one does.
pub proof fn law_only_a_change_resets(
    stabilizer: StabilizerView,
    first: Seq<Seq<char>>,
    second: Seq<Seq<char>>,
    seen: u64,
    later: u64,
)
    ensures
        stabilizer.changed(first, seen).changed(first, later) == stabilizer.changed(first, seen),
        first != second ==> stabilizer.changed(first, seen).changed(second, later).pending == Some(
            (second, later),
        ),
{
}

/// A snapshot is committed once.
pub proof fn law_no_double_commit(stabilizer: StabilizerView, now: u64, later: u64)
    requires
        stabilizer.committed(now) is Some,
    ensures
        stabilizer.after_commit(now).committed(later) is None,
{
}

/// What was seen is taken for stable once it has not changed for the delay, which is three tenths
/// of a second where none is given, and not before.
pub proof fn law_still_for_long_enough(s: StabilizerView, now: u64, delay: u64, r: Stabilizer)
    requires
        call_ensures(Stabilizer::default_delay, (), r),
    ensures
        s.pending is None ==> s.committed(now) is None && s.after_commit(now) == s,
        s.pending matches Some((snapshot, since)) ==> {
            &&& now - since >= s.delay ==> s.committed(now) == Some(snapshot)
            &&& since <= now < since + s.delay ==> s.committed(now) is None && s.after_commit(now)
                == s
            &&& s.committed(now) is Some ==> s.after_commit(now).pending is None && s.after_commit(
                now,
            ).delay == s.delay
        },
        r@.delay == 300_000_000,
        r@.pending is None,
{
}

/// A change is seen at once, and from when on.
pub proof fn law_a_change_is_waited_for(s: StabilizerView, snapshot: Seq<Seq<char>>, now: u64)
    ensures
        s.changed(snapshot, now).waiting() == Some(snapshot),
        s.waiting() != Some(snapshot) ==> s.changed(snapshot, now).pending == Some((snapshot, now)),
        s.waiting() == Some(snapshot) ==> s.changed(snapshot, now) == s,
        s.changed(snapshot, now).delay == s.delay,
{
}

} // verus!
