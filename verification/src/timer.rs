//! A looping countdown timer driven by elapsed-time updates.

use vstd::prelude::*;

verus! {

/// Longest simulation step the engine accepts, in milliseconds.
///
/// Bounding one tick keeps all fixed-point physics arithmetic within `i64`.
pub const MAX_TICK_MILLIS: u64 = 1_000_000;

/// A span of time, measured in whole milliseconds.
#[derive(Clone, Copy, Debug, PartialEq, Eq, Structural)]
pub struct Duration {
    pub millis: u64,
}

impl Duration {
    pub fn from_millis(millis: u64) -> (r: Self)
        ensures
            r.millis == millis,
    {
        Duration { millis }
    }

    pub fn from_secs(secs: u64) -> (r: Self)
        requires
            secs * 1000 <= u64::MAX,
        ensures
            r.millis == secs * 1000,
    {
        Duration { millis: secs * 1000 }
    }
}

/// A timer that runs down from `total`, raises its `finished` flag for the
/// tick on which it expires, and immediately starts over.
///
/// One update may cross the deadline several times: a long elapsed span
/// against a short period still leaves the remaining time inside one
/// period, exactly as if the timer had been restarted each time it ran out.
#[derive(Clone, Copy, Debug)]
pub struct Timer {
    total: Duration,
    remaining: Duration,
    finished: bool,
}

impl Timer {
    pub closed spec fn spec_total(self) -> u64 {
        self.total.millis
    }

    pub closed spec fn spec_remaining(self) -> u64 {
        self.remaining.millis
    }

    pub closed spec fn spec_finished(self) -> bool {
        self.finished
    }

    /// The timer [`Timer::new`] returns: a full period ahead of it.
    pub closed spec fn spec_new(duration: Duration) -> Timer {
        Timer { total: duration, remaining: duration, finished: false }
    }

    /// The timer [`Timer::update`] leaves behind: expired and wrapped into
    /// the next period when `elapsed` reaches the remaining time, counted
    /// down otherwise.
    pub closed spec fn spec_updated(self, elapsed: u64) -> Timer {
        if elapsed >= self.remaining.millis {
            Timer {
                total: self.total,
                remaining: Duration {
                    millis: (self.total.millis - (((elapsed - self.remaining.millis) as int) % (
                    self.total.millis as int))) as u64,
                },
                finished: true,
            }
        } else {
            Timer {
                total: self.total,
                remaining: Duration { millis: (self.remaining.millis - elapsed) as u64 },
                finished: false,
            }
        }
    }

    pub fn new(duration: Duration) -> (r: Self)
        ensures
            r == Timer::spec_new(duration),
            r.spec_total() == duration.millis,
            r.spec_remaining() == duration.millis,
            !r.spec_finished(),
    {
        Timer { total: duration, remaining: duration, finished: false }
    }

    /// Advances the timer by `elapsed`.
    ///
    /// The timer finishes exactly when `elapsed` reaches the remaining
    /// time; it then wraps into the next period: the new remaining time is
    /// the unique value in `(0, total]` congruent to the old remaining
    /// time minus `elapsed`, modulo `total`.
    pub fn update(&mut self, elapsed: Duration)
        requires
            old(self).spec_total() > 0 || elapsed.millis < old(self).spec_remaining(),
            elapsed.millis + old(self).spec_total() <= u64::MAX,
        ensures
            *final(self) == old(self).spec_updated(elapsed.millis),
            final(self).spec_total() == old(self).spec_total(),
            final(self).spec_finished() == (elapsed.millis >= old(self).spec_remaining()),
            !final(self).spec_finished() ==> final(self).spec_remaining() == old(
                self,
            ).spec_remaining() - elapsed.millis,
            final(self).spec_finished() ==> {
                &&& 0 < final(self).spec_remaining() <= old(self).spec_total()
                &&& (final(self).spec_remaining() + elapsed.millis - old(self).spec_remaining())
                    % (old(self).spec_total() as int) == 0
            },
    {
        self.finished = false;
        proof {
            if self.total.millis > 0 {
                vstd::arithmetic::div_mod::lemma_small_mod(0nat, self.total.millis as nat);
            }
        }
        while elapsed.millis >= self.remaining.millis
            invariant
                self.total == old(self).total,
                elapsed.millis + self.total.millis <= u64::MAX,
                old(self).spec_total() > 0 || elapsed.millis < old(self).spec_remaining(),
                self.remaining.millis >= old(self).spec_remaining(),
                self.finished == (self.remaining.millis != old(self).spec_remaining()),
                self.finished ==> self.remaining.millis <= elapsed.millis + self.total.millis,
                self.finished ==> elapsed.millis >= old(self).spec_remaining(),
                (self.spec_remaining() - old(self).spec_remaining()) % (
                self.total.millis as int) == 0 || self.total.millis == 0,
            decreases elapsed.millis + self.total.millis - self.remaining.millis,
        {
            proof {
                assert(self.total.millis > 0);
                vstd::arithmetic::div_mod::lemma_mod_add_multiples_vanish(
                    self.spec_remaining() - old(self).spec_remaining(),
                    self.total.millis as int,
                );
            }
            self.finished = true;
            self.remaining.millis = self.remaining.millis + self.total.millis;
        }
        self.remaining.millis = self.remaining.millis - elapsed.millis;
        proof {
            if self.finished {
                lemma_wrapped_remainder_is_unique(
                    old(self).spec_remaining() as int,
                    self.total.millis as int,
                    elapsed.millis as int,
                    self.remaining.millis as int,
                );
            }
        }
    }

    pub fn is_finished(&self) -> (r: bool)
        ensures
            r == self.spec_finished(),
    {
        self.finished
    }
}

/// The value in `(0, total]` congruent to `remaining - elapsed` modulo
/// `total` is unique, and it is `total - ((elapsed - remaining) % total)`.
proof fn lemma_wrapped_remainder_is_unique(remaining: int, total: int, elapsed: int, r: int)
    requires
        total > 0,
        elapsed >= remaining,
        0 < r <= total,
        (r + elapsed - remaining) % total == 0,
    ensures
        r == total - ((elapsed - remaining) % total),
{
    let d = elapsed - remaining;
    vstd::arithmetic::div_mod::lemma_fundamental_div_mod(d, total);
    vstd::arithmetic::div_mod::lemma_mod_division_less_than_divisor(d, total);
    let c = total - d % total;
    assert(c + d == (d / total + 1) * total) by (nonlinear_arith)
        requires
            d == total * (d / total) + d % total,
            c == total - d % total,
    ;
    vstd::arithmetic::div_mod::lemma_mod_multiples_basic(d / total + 1, total);
    vstd::arithmetic::div_mod::lemma_fundamental_div_mod(r + d, total);
    assert(r + d == total * ((r + d) / total));
    assert(r == c) by (nonlinear_arith)
        requires
            r + d == total * ((r + d) / total),
            c + d == (d / total + 1) * total,
            0 < r <= total,
            0 < c <= total,
            total > 0,
    ;
}

} // verus!
