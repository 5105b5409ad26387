//! The playback volume of the master channel, in percent.
use vstd::prelude::*;
use crate::text::{pad_left, push_char, push_i64_width2, signed_decimal};
use super::{empty_output, push_empty_output};
use vstd::arithmetic::div_mod::{lemma_div_pos_is_pos, lemma_div_decreases, lemma_fundamental_div_mod_converse};

verus! {

/// The playback volume, or a placeholder when it is muted or unknown.
#[derive(Debug, Clone, Copy, PartialEq, Eq)]
pub struct Volume;

/// Integer division rounding toward zero, as `/` does on Rust integers.
pub open spec fn trunc_div(a: int, b: int) -> int {
    if a >= 0 {
        if b > 0 {
            a / b
        } else {
            -(a / (-b))
        }
    } else {
        if b > 0 {
            -((-a) / b)
        } else {
            (-a) / (-b)
        }
    }
}

/// The numerator of the percentage: the volume above the minimum in
/// hundredths of the range, plus half the range to round to the nearest.
pub open spec fn percent_numerator(min: i64, max: i64, volume: i64) -> int {
    (volume - min) * 100 + trunc_div(max - min, 2)
}

/// The percentage can be computed in 64 bits without a division by zero:
/// every intermediate value fits an `i64` and the range is not empty.
pub open spec fn percent_computable(min: i64, max: i64, volume: i64, switch: i32) -> bool {
    switch != 0 ==> {
        &&& i64::MIN <= max - min <= i64::MAX
        &&& i64::MIN <= volume - min <= i64::MAX
        &&& i64::MIN <= (volume - min) * 100 <= i64::MAX
        &&& i64::MIN <= percent_numerator(min, max, volume) <= i64::MAX
        &&& max - min != 0
        &&& !(percent_numerator(min, max, volume) == i64::MIN && max - min == -1)
    }
}

/// The volume in percent of the range from `min` to `max`, rounded to the
/// nearest (halves toward the larger for an increasing range); nothing when
/// the channel is switched off (muted).
pub open spec fn volume_percent_spec(min: i64, max: i64, volume: i64, switch: i32) -> Option<int> {
    if switch == 0 {
        None
    } else {
        Some(trunc_div(percent_numerator(min, max, volume), max - min))
    }
}

/// Dividing by a nonzero integer gives nothing larger in magnitude.
proof fn lemma_div_bounded(x: int, d: int)
    requires
        d != 0,
    ensures
        x >= 0 && d > 0 ==> 0 <= x / d <= x,
        x >= 0 && d < 0 ==> 0 <= x / (-d) <= x,
        x < 0 && d > 0 ==> 0 <= (-x) / d <= -x,
        x < 0 && d < 0 ==> 0 <= (-x) / (-d) <= -x,
        x < 0 && d < -1 ==> (-x) / (-d) < -x,
{
    if x < 0 && d < -1 {
        lemma_div_decreases(-x, -d);
    }
    lemma_div_le(x, d);
    lemma_div_le(x, -d);
    lemma_div_le(-x, d);
    lemma_div_le(-x, -d);
}

proof fn lemma_div_le(x: int, d: int)
    ensures
        x >= 0 && d > 0 ==> 0 <= x / d <= x,
{
    if x >= 0 && d > 0 {
        lemma_div_pos_is_pos(x, d);
        if d > 1 && x > 0 {
            lemma_div_decreases(x, d);
        } else if d == 1 {
            assert(x / 1 == x);
        }
    }
}

fn div_i64(a: i64, b: i64) -> (q: i64)
    requires
        b != 0,
        !(a == i64::MIN && b == -1),
    ensures
        q == trunc_div(a as int, b as int),
{
    proof {
        lemma_div_bounded(a as int, b as int);
    }
    match a.checked_div(b) {
        Some(q) => q,
        None => {
            assert(false);
            0
        },
    }
}

pub fn can_compute_percent(min: i64, max: i64, volume: i64, switch: i32) -> (r: bool)
    ensures
        r == percent_computable(min, max, volume, switch),
{
    if switch == 0 {
        return true;
    }
    let range = match max.checked_sub(min) {
        Some(v) => v,
        None => return false,
    };
    let above = match volume.checked_sub(min) {
        Some(v) => v,
        None => return false,
    };
    let scaled = match above.checked_mul(100) {
        Some(v) => v,
        None => return false,
    };
    let numerator = match scaled.checked_add(div_i64(range, 2)) {
        Some(v) => v,
        None => return false,
    };
    range != 0 && !(numerator == i64::MIN && range == -1)
}

/// The volume in percent from the mixer's range, current volume and
/// playback switch.
pub fn volume_percent(min: i64, max: i64, volume: i64, switch: i32) -> (r: Option<i64>)
    requires
        percent_computable(min, max, volume, switch),
    ensures
        match r {
            Some(p) => volume_percent_spec(min, max, volume, switch) == Some(p as int),
            None => volume_percent_spec(min, max, volume, switch) is None,
        },
{
    let muted = switch == 0;
    if muted {
        return None;
    }
    let range = max - min;
    let numerator = (volume - min) * 100 + div_i64(range, 2);
    let percent = div_i64(numerator, range);
    Some(percent)
}

/// On an increasing range the lowest volume is 0 percent and the highest
/// 100 percent.
pub proof fn law_volume_range_ends(min: i64, max: i64)
    requires
        min < max,
        percent_computable(min, max, min, 1),
        percent_computable(min, max, max, 1),
    ensures
        volume_percent_spec(min, max, min, 1) == Some(0int),
        volume_percent_spec(min, max, max, 1) == Some(100int),
{
    let range = max - min;
    let half = range / 2;
    assert(0 <= half < range) by {
        lemma_div_le(range, 2);
        lemma_div_decreases(range, 2);
    }
    assert(trunc_div(range, 2) == half);
    lemma_fundamental_div_mod_converse(half, range, 0, half);
    assert((max - min) * 100 + half == 100 * range + half);
    lemma_fundamental_div_mod_converse(100 * range + half, range, 100, half);
}

/// What the volume shows: the percentage right-aligned in two characters and
/// a percent sign, or a placeholder.
pub open spec fn volume_text(percent: Option<i64>) -> Seq<char> {
    match percent {
        Some(p) => pad_left(signed_decimal(p as int), 2, ' ').push('%'),
        None => empty_output(),
    }
}

impl Volume {
    /// Replaces the contents of `buf` with what the volume shows.
    pub fn render(&self, percent: Option<i64>, buf: &mut String)
        ensures
            final(buf)@ == volume_text(percent),
    {
        *buf = String::new();
        match percent {
            Some(p) => {
                push_i64_width2(buf, p);
                push_char(buf, '%');
            },
            None => {
                push_empty_output(buf);
            },
        }
    }
}

} // verus!
