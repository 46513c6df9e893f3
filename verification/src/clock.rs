//! The monotonic clock of the standard library, and what was read from it.
use vstd::prelude::*;
use std::time::{Duration, Instant};

verus! {

/// A reading of the monotonic clock, `std::time::Instant`.
#[verifier::external_type_specification]
#[verifier::external_body]
pub struct ExInstant(std::time::Instant);

/// `std::time::Instant::now` reads the clock. Nothing is claimed of the
/// reading.
pub assume_specification[ std::time::Instant::now ]() -> std::time::Instant
;

/// The time from one reading to a later one, and none where the later one is
/// not later.
pub uninterp spec fn span(later: Instant, earlier: Instant) -> Duration;

/// `std::time::Instant::duration_since` measures the time between two
/// readings: it depends on the two alone and is what `span` names.
pub assume_specification[ std::time::Instant::duration_since ](
    later: &std::time::Instant,
    earlier: std::time::Instant,
) -> (r: std::time::Duration)
    ensures
        r == span(*later, earlier),
;

/// The whole milliseconds of a time.
pub uninterp spec fn whole_millis(d: Duration) -> u128;

/// `std::time::Duration::as_millis` counts the whole milliseconds of a time:
/// it depends on the time alone and is what `whole_millis` names.
pub assume_specification[ std::time::Duration::as_millis ](d: &std::time::Duration) -> (r: u128)
    ensures
        r == whole_millis(*d),
;

/// The whole milliseconds from one reading to a later one.
pub open spec fn millis_between(earlier: Instant, later: Instant) -> u128 {
    whole_millis(span(later, earlier))
}

/// The whole milliseconds from a reading, where there is one, to `now`.
pub open spec fn millis_to(at: Option<Instant>, now: Instant) -> Option<u128> {
    match at {
        Some(t) => Some(millis_between(t, now)),
        None => None,
    }
}

/// What passes from a reading, where there is one, to some later reading.
pub open spec fn can_pass(at: Option<Instant>, since: Option<u128>) -> bool {
    exists|now: Instant| since == #[trigger] millis_to(at, now)
}

/// The milliseconds from `at` to `now`.
pub fn millis_until(at: Option<Instant>, now: Instant) -> (r: Option<u128>)
    ensures
        r == millis_to(at, now),
{
    match at {
        Some(t) => Some(now.duration_since(t).as_millis()),
        None => None,
    }
}

/// The whole milliseconds since `at`, or None where there is no reading.
pub fn millis_since(at: Option<Instant>) -> (r: Option<u128>)
    ensures
        can_pass(at, r),
        r is Some == at is Some,
{
    let now: Instant = Instant::now();
    millis_until(at, now)
}

/// A clock that remembers, in proofs only, what was read from it.
pub struct Clock {
    read: Ghost<Seq<Instant>>,
}

impl Clock {
    /// Everything that was read so far, in order.
    pub closed spec fn readings(&self) -> Seq<Instant> {
        self.read@
    }

    pub fn new() -> (r: Self)
        ensures
            r.readings() == Seq::<Instant>::empty(),
    {
        Clock { read: Ghost(Seq::empty()) }
    }

    /// Reads the clock.
    pub fn read(&mut self) -> (r: Instant)
        ensures
            final(self).readings() == old(self).readings().push(r),
    {
        let now: Instant = Instant::now();
        self.read = Ghost(self.read@.push(now));
        now
    }
}

} // verus!
