//! Battery charge and the time left until it is full or empty.
use vstd::prelude::*;
use vstd::string::StringExecFns;
use crate::text::{all_digits, digits_value, lemma_leading_zero_value, lemma_pad2, law_decimal_value, decimal, pad_left, push_char, push_decimal, push_signed_decimal, push_u64_zero2, signed_decimal};
use super::{empty_output, push_empty_output};

verus! {

/// The charge level with a sign for charging or discharging.
#[derive(Debug, Clone, Copy, PartialEq, Eq)]
pub struct BatteryLevel;

/// The time until the battery is full (charging) or empty (discharging).
#[derive(Debug, Clone, Copy, PartialEq, Eq)]
pub struct BatteryTimeLeft;

/// What the battery is doing.
#[derive(Debug, Clone, Copy, PartialEq, Eq)]
pub enum BatteryState {
    Unknown,
    Charging,
    Discharging,
    Empty,
    Full,
}

/// A time left, already split into whole hours and whole minutes beyond
/// them; `show_hours` is whether any positive time is left, in which case
/// the hours are shown even when they are zero.
#[derive(Debug, Clone, Copy, PartialEq, Eq)]
pub struct TimeLeft {
    pub hours: u64,
    pub minutes: u64,
    pub show_hours: bool,
}

/// `+` while charging, `-` while discharging, `o` otherwise.
pub open spec fn state_char(state: BatteryState) -> char {
    match state {
        BatteryState::Charging => '+',
        BatteryState::Discharging => '-',
        _ => 'o',
    }
}

/// What the level shows: the state sign and the charge in whole percent.
pub open spec fn level_text(state: BatteryState, percent: i64) -> Seq<char> {
    seq![state_char(state)] + signed_decimal(percent as int)
}

/// The time left that applies in `state`: until full while charging, until
/// empty while discharging, none otherwise.
pub open spec fn relevant_time(
    state: BatteryState,
    to_full: Option<TimeLeft>,
    to_empty: Option<TimeLeft>,
) -> Option<TimeLeft> {
    match state {
        BatteryState::Charging => to_full,
        BatteryState::Discharging => to_empty,
        _ => None,
    }
}

/// What the time left shows: `"<h>h "` when time is left, then the minutes
/// in two digits and `m`; a placeholder without a time.
pub open spec fn time_left_text(t: Option<TimeLeft>) -> Seq<char> {
    match t {
        Some(t) => (if t.show_hours {
            decimal(t.hours as nat) + "h "@
        } else {
            seq![]
        }) + pad_left(decimal(t.minutes as nat), 2, '0') + "m"@,
        None => empty_output(),
    }
}

/// The level reads as the sign of what the battery does (`+` charging, `-`
/// discharging, `o` otherwise) followed by the charge: its digits, after a
/// `-` when it is negative, are the whole number.
pub proof fn law_level_reads_back(state: BatteryState, percent: i64)
    ensures
        exists|d: Seq<char>|
            #![trigger all_digits(d)]
            {
                let text = level_text(state, percent);
                &&& text[0] == (if state == BatteryState::Charging {
                    '+'
                } else if state == BatteryState::Discharging {
                    '-'
                } else {
                    'o'
                })
                &&& d.len() >= 1
                &&& all_digits(d)
                &&& percent >= 0 ==> text == seq![text[0]] + d && digits_value(d) == percent
                &&& percent < 0 ==> text == seq![text[0], '-'] + d && digits_value(d) == -percent
            },
{
    let n: nat = if percent < 0 {
        (-percent) as nat
    } else {
        percent as nat
    };
    law_decimal_value(n);
    let d = decimal(n);
    assert(all_digits(d));
    let text = level_text(state, percent);
    if percent < 0 {
        assert(text =~= seq![text[0], '-'] + d);
    } else {
        assert(text =~= seq![text[0]] + d);
    }
}

/// The minutes as shown: at least two digits, exactly two below a hundred,
/// whose value is the number of minutes.
pub open spec fn shows_minutes(m: Seq<char>, minutes: u64) -> bool {
    &&& m.len() >= 2
    &&& minutes < 100 ==> m.len() == 2
    &&& all_digits(m)
    &&& digits_value(m) == minutes
}

/// The time left reads as the whole number of hours followed by `h ` (when
/// hours are shown), then the minutes in two digits followed by `m`: the
/// digits before `h ` are the full number of hours, whatever it is.
pub proof fn law_time_left_reads_back(t: TimeLeft)
    ensures
        t.show_hours ==> exists|h: Seq<char>, m: Seq<char>|
            #![trigger all_digits(h), shows_minutes(m, t.minutes)]
            {
                &&& time_left_text(Some(t)) == h + "h "@ + m + "m"@
                &&& h.len() >= 1
                &&& all_digits(h)
                &&& digits_value(h) == t.hours
                &&& shows_minutes(m, t.minutes)
            },
        !t.show_hours ==> exists|m: Seq<char>|
            #![trigger shows_minutes(m, t.minutes)]
            time_left_text(Some(t)) == m + "m"@ && shows_minutes(m, t.minutes),
        time_left_text(None) == empty_output(),
{
    law_decimal_value(t.hours as nat);
    law_decimal_value(t.minutes as nat);
    lemma_pad2(t.minutes as nat, '0');
    if t.minutes < 10 {
        lemma_leading_zero_value(decimal(t.minutes as nat));
    }
    let h = decimal(t.hours as nat);
    let m = pad_left(decimal(t.minutes as nat), 2, '0');
    assert(shows_minutes(m, t.minutes));
    if t.show_hours {
        assert(all_digits(h));
        assert(time_left_text(Some(t)) == h + "h "@ + m + "m"@);
    } else {
        assert(time_left_text(Some(t)) =~= m + "m"@);
    }
}

impl BatteryLevel {
    /// Appends the state sign and the charge in whole percent.
    pub fn render(&self, state: BatteryState, percent: i64, buf: &mut String)
        ensures
            final(buf)@ == old(buf)@ + level_text(state, percent),
    {
        let c = match state {
            BatteryState::Charging => '+',
            BatteryState::Discharging => '-',
            _ => 'o',
        };
        push_char(buf, c);
        push_signed_decimal(buf, percent);
        assert(final(buf)@ =~= old(buf)@ + level_text(state, percent)) by {
            assert(old(buf)@.push(c) + signed_decimal(percent as int) =~= old(buf)@ + (seq![c]
                + signed_decimal(percent as int)));
        }
    }
}

impl BatteryTimeLeft {
    /// Appends the time left that applies in `state`.
    pub fn render(
        &self,
        state: BatteryState,
        to_full: Option<TimeLeft>,
        to_empty: Option<TimeLeft>,
        buf: &mut String,
    )
        ensures
            final(buf)@ == old(buf)@ + time_left_text(relevant_time(state, to_full, to_empty)),
    {
        let time_left = match state {
            BatteryState::Charging => to_full,
            BatteryState::Discharging => to_empty,
            _ => None,
        };
        match time_left {
            Some(t) => {
                if t.show_hours {
                    push_decimal(buf, t.hours);
                    buf.append("h ");
                }
                push_u64_zero2(buf, t.minutes);
                buf.append("m");
                let ghost h = if t.show_hours {
                    decimal(t.hours as nat) + "h "@
                } else {
                    seq![]
                };
                assert(buf@ =~= old(buf)@ + (h + pad_left(decimal(t.minutes as nat), 2, '0')
                    + "m"@));
            },
            None => push_empty_output(buf),
        }
    }
}

} // verus!
