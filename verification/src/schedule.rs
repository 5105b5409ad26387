//! Update intervals, and the wall-clock alignment of updates to them.
use vstd::prelude::*;
use vstd::arithmetic::div_mod::{lemma_fundamental_div_mod, lemma_fundamental_div_mod_converse};

verus! {

/// The largest length of time a `Schedule` can hold, in nanoseconds: the
/// largest whole number of seconds that fits a `u64`, plus a second less one
/// nanosecond.
pub open spec fn max_nanos() -> nat {
    (u64::MAX as nat) * 1_000_000_000 + 999_999_999
}

/// An update interval, built up from nothing with `every()` and the unit
/// methods, e.g. `Schedule::every().secs(30)`.
///
/// It holds a length of time as whole seconds and the nanoseconds beyond
/// them; its view is the whole length in nanoseconds.
#[derive(Debug, Clone, Copy, PartialEq, Eq, Structural, PartialOrd, Ord)]
pub struct Schedule {
    secs: u64,
    nanos: u32,
}

impl View for Schedule {
    type V = nat;

    closed spec fn view(&self) -> nat {
        (self.secs as nat) * 1_000_000_000 + (self.nanos as nat)
    }
}

impl Schedule {
    #[verifier::type_invariant]
    closed spec fn well_formed(self) -> bool {
        self.nanos < 1_000_000_000
    }

    proof fn lemma_view(self)
        requires
            self.well_formed(),
        ensures
            self@ == (self.secs as nat) * 1_000_000_000 + (self.nanos as nat),
            self@ <= max_nanos(),
            self.secs == self@ / 1_000_000_000,
            self.nanos == self@ % 1_000_000_000,
    {
        lemma_fundamental_div_mod_converse(
            self@ as int,
            1_000_000_000,
            self.secs as int,
            self.nanos as int,
        );
    }

    /// Adds `secs` seconds and `nanos` nanoseconds, as adding two `Duration`s
    /// does.
    fn add_parts(self, secs: u64, nanos: u32) -> (r: Self)
        requires
            nanos < 1_000_000_000,
            self@ + (secs as nat) * 1_000_000_000 + nanos <= max_nanos(),
        ensures
            r@ == self@ + (secs as nat) * 1_000_000_000 + nanos,
    {
        proof {
            use_type_invariant(&self);
            self.lemma_view();
        }
        let mut s: u64 = self.secs + secs;
        let mut n: u32 = self.nanos + nanos;
        if n >= 1_000_000_000 {
            n = n - 1_000_000_000;
            s = s + 1;
        }
        Schedule { secs: s, nanos: n }
    }

    /// No time at all; the starting point of every interval.
    pub fn every() -> (r: Self)
        ensures
            r@ == 0,
    {
        Schedule { secs: 0, nanos: 0 }
    }

    /// Adds one millisecond.
    pub fn milli(self) -> (r: Self)
        requires
            self@ + 1_000_000 <= max_nanos(),
        ensures
            r@ == self@ + 1_000_000,
    {
        self.millis(1)
    }

    /// Adds `millis` milliseconds.
    pub fn millis(self, millis: u64) -> (r: Self)
        requires
            self@ + (millis as nat) * 1_000_000 <= max_nanos(),
        ensures
            r@ == self@ + (millis as nat) * 1_000_000,
    {
        let secs = millis / 1000;
        let nanos = ((millis % 1000) as u32) * 1_000_000;
        self.add_parts(secs, nanos)
    }

    /// Adds one second.
    pub fn sec(self) -> (r: Self)
        requires
            self@ + 1_000_000_000 <= max_nanos(),
        ensures
            r@ == self@ + 1_000_000_000,
    {
        self.secs(1)
    }

    /// Adds `secs` seconds.
    pub fn secs(self, secs: u64) -> (r: Self)
        requires
            self@ + (secs as nat) * 1_000_000_000 <= max_nanos(),
        ensures
            r@ == self@ + (secs as nat) * 1_000_000_000,
    {
        self.add_parts(secs, 0)
    }

    /// Adds one minute.
    pub fn min(self) -> (r: Self)
        requires
            self@ + 60_000_000_000 <= max_nanos(),
        ensures
            r@ == self@ + 60_000_000_000,
    {
        self.mins(1)
    }

    /// Adds `mins` minutes.
    pub fn mins(self, mins: u64) -> (r: Self)
        requires
            self@ + (mins as nat) * 60_000_000_000 <= max_nanos(),
        ensures
            r@ == self@ + (mins as nat) * 60_000_000_000,
    {
        self.secs(mins * 60)
    }

    /// Adds one hour.
    pub fn hour(self) -> (r: Self)
        requires
            self@ + 3_600_000_000_000 <= max_nanos(),
        ensures
            r@ == self@ + 3_600_000_000_000,
    {
        self.hours(1)
    }

    /// Adds `hours` hours.
    pub fn hours(self, hours: u64) -> (r: Self)
        requires
            self@ + (hours as nat) * 3_600_000_000_000 <= max_nanos(),
        ensures
            r@ == self@ + (hours as nat) * 3_600_000_000_000,
    {
        self.mins(60 * hours)
    }

    /// Adds one day.
    pub fn day(self) -> (r: Self)
        requires
            self@ + 86_400_000_000_000 <= max_nanos(),
        ensures
            r@ == self@ + 86_400_000_000_000,
    {
        self.days(1)
    }

    /// Adds `days` days.
    pub fn days(self, days: u64) -> (r: Self)
        requires
            self@ + (days as nat) * 86_400_000_000_000 <= max_nanos(),
        ensures
            r@ == self@ + (days as nat) * 86_400_000_000_000,
    {
        self.hours(24 * days)
    }

    /// The interval in whole milliseconds (`Duration::as_millis`).
    pub fn as_millis(&self) -> (r: u128)
        ensures
            r == self@ / 1_000_000,
    {
        proof {
            use_type_invariant(self);
            self.lemma_view();
            lemma_fundamental_div_mod_converse(
                self@ as int,
                1_000_000,
                self.secs as int * 1000 + self.nanos as int / 1_000_000,
                self.nanos as int % 1_000_000,
            );
        }
        (self.secs as u128) * 1000 + (self.nanos / 1_000_000) as u128
    }

    /// The interval in whole nanoseconds (`Duration::as_nanos`).
    pub fn as_nanos(&self) -> (r: u128)
        ensures
            r == self@,
            r <= max_nanos(),
    {
        proof {
            use_type_invariant(self);
            self.lemma_view();
        }
        (self.secs as u128) * 1_000_000_000 + self.nanos as u128
    }

    /// How long after `time` the next update falls, in milliseconds.
    ///
    /// Updates are aligned to the start of the month: they fall on the
    /// multiples of the interval counted in milliseconds since midnight of
    /// the first day of the month, so an update every minute happens on the
    /// minute. A time that is on such a multiple already waits no time.
    pub fn delay_millis(&self, time: &TimeOfMonth) -> (r: u128)
        requires
            self@ >= 1_000_000,
        ensures
            r == next_delay(millis_of_month(*time), self@ / 1_000_000),
    {
        let time_millis: u128 = (time.subsec_millis as u128) + (time.second as u128) * 1000
            + (time.minute as u128) * 60_000 + (time.hour as u128) * 3_600_000
            + (time.day0 as u128) * 86_400_000;
        let interval_millis = self.as_millis();
        proof {
            assert(self@ / 1_000_000 >= 1) by {
                lemma_fundamental_div_mod(self@ as int, 1_000_000);
            }
        }
        let rem = time_millis % interval_millis;
        if rem == 0 {
            0
        } else {
            interval_millis - rem
        }
    }
}

impl Default for Schedule {
    fn default() -> (r: Self)
        ensures
            r@ == 0,
    {
        Schedule::every()
    }
}

/// The parts of a local wall-clock time that schedules align to: the day of
/// the month counted from zero, the time of day, and the milliseconds into
/// the current second.
#[derive(Debug, Clone, Copy, PartialEq, Eq)]
pub struct TimeOfMonth {
    pub day0: u32,
    pub hour: u32,
    pub minute: u32,
    pub second: u32,
    pub subsec_millis: u32,
}

/// Milliseconds elapsed since midnight of the first day of the month.
pub open spec fn millis_of_month(t: TimeOfMonth) -> nat {
    (t.subsec_millis as nat) + (t.second as nat) * 1000 + (t.minute as nat) * 60_000
        + (t.hour as nat) * 3_600_000 + (t.day0 as nat) * 86_400_000
}

/// How far `m` is from the next multiple of `interval` at or after it.
pub open spec fn next_delay(m: nat, interval: nat) -> nat {
    if m % interval == 0 {
        0
    } else {
        (interval - m % interval) as nat
    }
}

/// The delay leads to the first multiple of the interval at or after the
/// given time: it is shorter than the interval, the time it leads to is a
/// multiple of the interval, and no earlier time at or after the given one
/// is.
pub proof fn law_delay_reaches_next_multiple(m: nat, interval: nat)
    requires
        interval > 0,
    ensures
        next_delay(m, interval) < interval,
        (m + next_delay(m, interval)) % interval == 0,
        forall|d: nat| d < next_delay(m, interval) ==> #[trigger] ((m + d) % interval) != 0,
{
    let q = m as int / interval as int;
    let r = m as int % interval as int;
    lemma_fundamental_div_mod(m as int, interval as int);
    assert(0 <= r < interval);
    if r == 0 {
    } else {
        assert((m + next_delay(m, interval)) as int == (q + 1) * interval + 0) by (nonlinear_arith)
            requires
                m as int == interval * q + r,
                next_delay(m, interval) == interval - r,
        ;
        lemma_fundamental_div_mod_converse(
            (m + next_delay(m, interval)) as int,
            interval as int,
            q + 1,
            0,
        );
        assert forall|d: nat| d < next_delay(m, interval) implies #[trigger] ((m + d) % interval) != 0 by {
            lemma_fundamental_div_mod_converse((m + d) as int, interval as int, q, r + d);
        }
    }
}

/// Updating again at the time a delay leads to waits no time: the time is
/// already aligned.
pub proof fn law_delay_idempotent(m: nat, interval: nat)
    requires
        interval > 0,
    ensures
        next_delay(m + next_delay(m, interval), interval) == 0,
{
    law_delay_reaches_next_multiple(m, interval);
}

/// The longest single sleep while waiting for a deadline, in nanoseconds
/// (ten seconds). A sleep does not advance while the system is suspended, so
/// the clock is looked at again at least this often; a wait then overshoots
/// its deadline by at most this much after a suspension.
pub const MIN_UPDATE_NANOS: u128 = 10_000_000_000;

/// How long to sleep at `now` before looking at the clock again while
/// waiting for `deadline`: nothing once the deadline is reached, otherwise
/// the time left but no more than `MIN_UPDATE_NANOS`.
pub open spec fn sleep_step_spec(now: int, deadline: int) -> Option<int> {
    if now >= deadline {
        None
    } else if deadline - now < MIN_UPDATE_NANOS {
        Some(deadline - now)
    } else {
        Some(MIN_UPDATE_NANOS as int)
    }
}

/// One step of waiting until `deadline`; both times are in nanoseconds on
/// the same clock.
pub fn sleep_step(now: i128, deadline: i128) -> (r: Option<u128>)
    requires
        i128::MIN <= deadline - now <= i128::MAX,
    ensures
        match r {
            Some(d) => sleep_step_spec(now as int, deadline as int) == Some(d as int),
            None => sleep_step_spec(now as int, deadline as int) is None,
        },
        r is Some ==> 0 < r->0 <= MIN_UPDATE_NANOS && now + r->0 <= deadline,
{
    if now >= deadline {
        return None;
    }
    let delta = (deadline - now) as u128;
    if delta < MIN_UPDATE_NANOS {
        Some(delta)
    } else {
        Some(MIN_UPDATE_NANOS)
    }
}

/// Aligning twice is aligning once also when the first alignment crosses
/// into the next month: for an interval that divides a day, and a month a
/// whole number of days long, the time it leads to, counted from the start
/// of the new month, is aligned as well. (A day boundary inside the month
/// keeps counting from the same start, which `law_delay_idempotent` covers.)
pub proof fn law_delay_idempotent_across_month(m: nat, interval: nat, month_len: nat)
    requires
        interval > 0,
        86_400_000nat % interval == 0,
        month_len % 86_400_000 == 0,
        month_len <= m + next_delay(m, interval),
    ensures
        next_delay((m + next_delay(m, interval) - month_len) as nat, interval) == 0,
{
    law_delay_reaches_next_multiple(m, interval);
    let x = m + next_delay(m, interval);
    lemma_fundamental_div_mod(x as int, interval as int);
    lemma_fundamental_div_mod(86_400_000, interval as int);
    lemma_fundamental_div_mod(month_len as int, 86_400_000);
    let q = x as int / interval as int;
    let b = 86_400_000int / interval as int;
    let a = month_len as int / 86_400_000;
    assert(x - month_len == (q - a * b) * interval + 0) by (nonlinear_arith)
        requires
            x == interval * q + 0,
            86_400_000 == interval * b + 0,
            month_len == 86_400_000 * a + 0,
    ;
    lemma_fundamental_div_mod_converse((x - month_len) as int, interval as int, q - a * b, 0);
}

/// An aligned time waits no time, and the delay depends on the time only
/// through its remainder modulo the interval: times a whole number of
/// intervals apart wait equally long.
pub proof fn law_delay_periodic(m: nat, k: nat, interval: nat)
    requires
        interval > 0,
    ensures
        m % interval == 0 ==> next_delay(m, interval) == 0,
        next_delay(m + k * interval, interval) == next_delay(m, interval),
{
    let q = m as int / interval as int;
    let r = m as int % interval as int;
    lemma_fundamental_div_mod(m as int, interval as int);
    assert((m + k * interval) as int == (q + k) * interval + r) by (nonlinear_arith)
        requires
            m as int == interval * q + r,
    ;
    lemma_fundamental_div_mod_converse((m + k * interval) as int, interval as int, q + k, r);
}

} // verus!
