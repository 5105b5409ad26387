//! Processor usage between two readings of the kernel's time counters.
use vstd::prelude::*;
use crate::text::{
    all_digits, digits_value, law_decimal_value, lemma_pad2, chars_of, has_prefix, parse_u64, parse_u64_chars, pad_left, decimal, push_char,
    push_u64_width2, split_words, strip_prefix_chars, words, views_of,
};
use crate::status::string_views;
use super::{empty_output, push_empty_output};

verus! {

/// Processor time spent busy and idle, in clock ticks since boot.
#[derive(Debug, Clone, Copy, PartialEq, Eq)]
pub struct CpuTime {
    pub active: u64,
    pub idle: u64,
}

/// The counters of the aggregate `cpu ` line of `/proc/stat`.
#[derive(Debug, Clone, Copy, PartialEq, Eq)]
pub struct CpuFields {
    pub user: u64,
    pub nice: u64,
    pub system: u64,
    pub idle: u64,
    pub iowait: u64,
}

/// A counter of the `cpu ` line.
#[derive(Debug, Clone, Copy, PartialEq, Eq)]
pub enum CpuField {
    User,
    Nice,
    System,
    Idle,
}

/// Why no processor time could be read.
#[derive(Debug, Clone, Copy, PartialEq, Eq)]
pub enum CpuTimeError {
    /// The `cpu ` line ends before this counter.
    Missing(CpuField),
    /// This counter is not a number.
    Invalid(CpuField),
    /// No line starts with `cpu `.
    NoCpuLine,
}

pub open spec fn cpu_prefix() -> Seq<char> {
    seq!['c', 'p', 'u', ' ']
}

/// The position of the first line that starts with `cpu `, from `k` on.
pub open spec fn cpu_line_from(lines: Seq<Seq<char>>, k: int) -> Option<int>
    decreases lines.len() - k,
{
    if k < 0 || k >= lines.len() {
        None
    } else if has_prefix(lines[k], cpu_prefix()) {
        Some(k)
    } else {
        cpu_line_from(lines, k + 1)
    }
}

/// The counter at word `i` of the `cpu ` line, which must be there.
pub open spec fn required_field(w: Seq<Seq<char>>, i: int, f: CpuField) -> Result<u64, CpuTimeError> {
    if w.len() <= i {
        Err(CpuTimeError::Missing(f))
    } else {
        match parse_u64(w[i]) {
            Some(v) => Ok(v),
            None => Err(CpuTimeError::Invalid(f)),
        }
    }
}

/// The counters of a `cpu ` line given as the text after `cpu `: user, nice,
/// system and idle must be there in that order; the iowait counter after
/// them counts as zero when it is absent or not a number.
pub open spec fn cpu_fields_of(rest: Seq<char>) -> Result<CpuFields, CpuTimeError> {
    let w = words(rest);
    match required_field(w, 0, CpuField::User) {
        Err(e) => Err(e),
        Ok(user) => match required_field(w, 1, CpuField::Nice) {
            Err(e) => Err(e),
            Ok(nice) => match required_field(w, 2, CpuField::System) {
                Err(e) => Err(e),
                Ok(system) => match required_field(w, 3, CpuField::Idle) {
                    Err(e) => Err(e),
                    Ok(idle) => {
                        let iowait = if w.len() > 4 {
                            match parse_u64(w[4]) {
                                Some(v) => v,
                                None => 0u64,
                            }
                        } else {
                            0u64
                        };
                        Ok(CpuFields { user, nice, system, idle, iowait })
                    },
                },
            },
        },
    }
}

/// The counters of the first `cpu ` line of the lines of `/proc/stat`.
pub open spec fn cpu_fields(lines: Seq<Seq<char>>) -> Result<CpuFields, CpuTimeError> {
    match cpu_line_from(lines, 0) {
        None => Err(CpuTimeError::NoCpuLine),
        Some(k) => cpu_fields_of(lines[k].skip(4)),
    }
}

fn required_field_exec(w: &Vec<Vec<char>>, i: usize, f: CpuField) -> (r: Result<u64, CpuTimeError>)
    ensures
        r == required_field(views_of(w@), i as int, f),
{
    if w.len() <= i {
        Err(CpuTimeError::Missing(f))
    } else {
        match parse_u64_chars(w[i].as_slice()) {
            Some(v) => Ok(v),
            None => Err(CpuTimeError::Invalid(f)),
        }
    }
}

/// Reads the counters of the first line that starts with `cpu ` among the
/// lines of `/proc/stat`.
pub fn parse_cpu_fields(lines: &Vec<String>) -> (r: Result<CpuFields, CpuTimeError>)
    ensures
        r == cpu_fields(string_views(lines@)),
{
    let ghost ls = string_views(lines@);
    let prefix = vec!['c', 'p', 'u', ' '];
    assert(prefix@ == cpu_prefix());
    let mut k: usize = 0;
    while k < lines.len()
        invariant
            k <= lines@.len(),
            ls == string_views(lines@),
            prefix@ == cpu_prefix(),
            cpu_line_from(ls, 0) == cpu_line_from(ls, k as int),
        decreases lines@.len() - k,
    {
        let line = chars_of(lines[k].as_str());
        assert(line@ == ls[k as int]);
        match strip_prefix_chars(line.as_slice(), prefix.as_slice()) {
            None => {
                k = k + 1;
            },
            Some(rest) => {
                assert(cpu_line_from(ls, k as int) == Some(k as int));
                assert(rest@ == ls[k as int].skip(4));
                let w = split_words(rest.as_slice());
                let user = match required_field_exec(&w, 0, CpuField::User) {
                    Ok(v) => v,
                    Err(e) => return Err(e),
                };
                let nice = match required_field_exec(&w, 1, CpuField::Nice) {
                    Ok(v) => v,
                    Err(e) => return Err(e),
                };
                let system = match required_field_exec(&w, 2, CpuField::System) {
                    Ok(v) => v,
                    Err(e) => return Err(e),
                };
                let idle = match required_field_exec(&w, 3, CpuField::Idle) {
                    Ok(v) => v,
                    Err(e) => return Err(e),
                };
                let iowait = if w.len() > 4 {
                    match parse_u64_chars(w[4].as_slice()) {
                        Some(v) => v,
                        None => 0,
                    }
                } else {
                    0
                };
                return Ok(CpuFields { user, nice, system, idle, iowait });
            },
        }
    }
    Err(CpuTimeError::NoCpuLine)
}

impl CpuFields {
    /// The busy and idle totals fit in 64 bits.
    pub open spec fn sums_fit(&self) -> bool {
        &&& self.user + self.nice + self.system <= u64::MAX
        &&& self.idle + self.iowait <= u64::MAX
    }

    pub fn fits(&self) -> (r: bool)
        ensures
            r == self.sums_fit(),
    {
        self.user <= u64::MAX - self.nice && self.user + self.nice <= u64::MAX - self.system
            && self.idle <= u64::MAX - self.iowait
    }

    /// Busy time is user, nice and system time; idle time includes waiting
    /// for input and output.
    pub fn cpu_time(&self) -> (r: CpuTime)
        requires
            self.sums_fit(),
        ensures
            r.active == self.user + self.nice + self.system,
            r.idle == self.idle + self.iowait,
    {
        CpuTime { active: self.user + self.nice + self.system, idle: self.idle + self.iowait }
    }
}

/// Processor usage in percent since the previous reading.
#[derive(Debug)]
pub struct CpuUsage {
    prev: Option<CpuTime>,
}

/// Usage can be computed from `prev` to `cur` without overflow or a division
/// by zero: no counter went backwards and some time passed.
pub open spec fn can_measure(prev: Option<CpuTime>, cur: CpuTime) -> bool {
    match prev {
        None => true,
        Some(p) => {
            &&& cur.idle + cur.active <= u64::MAX
            &&& p.idle + p.active <= u64::MAX
            &&& p.idle + p.active < cur.idle + cur.active
            &&& p.active <= cur.active
            &&& 100 * (cur.active - p.active) <= u64::MAX
        },
    }
}

/// The share of busy time in all time passed, in whole percent, rounded down.
pub open spec fn usage_percent(p: CpuTime, cur: CpuTime) -> nat {
    ((100 * (cur.active - p.active)) / ((cur.idle + cur.active) - (p.idle + p.active))) as nat
}

/// What a reading shows: a placeholder for the first reading, which has
/// nothing to compare with, and the usage right-aligned in two characters
/// after that.
pub open spec fn usage_text(prev: Option<CpuTime>, cur: CpuTime) -> Seq<char> {
    match prev {
        None => seq![' '] + empty_output(),
        Some(p) => pad_left(decimal(usage_percent(p, cur)), 2, ' '),
    }
}

/// When the idle counter did not go backwards, the usage is at most 100
/// percent: busy time is part of all time passed.
pub proof fn law_usage_at_most_100(p: CpuTime, cur: CpuTime)
    requires
        can_measure(Some(p), cur),
        p.idle <= cur.idle,
    ensures
        usage_percent(p, cur) <= 100,
{
    let a = cur.active - p.active;
    let t = (cur.idle + cur.active) - (p.idle + p.active);
    assert(100 * a <= 100 * t);
    vstd::arithmetic::div_mod::lemma_div_is_ordered(100 * a, 100 * t, t);
    assert((100 * t) / t == 100) by {
        assert(100 * t == t * 100) by (nonlinear_arith);
        vstd::arithmetic::div_mod::lemma_div_multiples_vanish(100, t);
    }
}

/// The usage is the busy share of all time passed, in whole percent rounded
/// down: with `A` the busy ticks and `T` all ticks between the readings, the
/// usage `u` satisfies `u * T <= 100 * A < (u + 1) * T`.
pub proof fn law_usage_is_busy_share(p: CpuTime, cur: CpuTime)
    requires
        can_measure(Some(p), cur),
    ensures
        ({
            let a = cur.active - p.active;
            let t = (cur.idle + cur.active) - (p.idle + p.active);
            let u = usage_percent(p, cur);
            u * t <= 100 * a < (u + 1) * t
        }),
{
    let a = cur.active - p.active;
    let t = (cur.idle + cur.active) - (p.idle + p.active);
    let q = (100 * a) / t;
    vstd::arithmetic::div_mod::lemma_fundamental_div_mod(100 * a, t);
    assert(q * t <= 100 * a < (q + 1) * t) by (nonlinear_arith)
        requires
            100 * a == t * q + (100 * a) % t,
            0 <= (100 * a) % t < t,
    ;
}

/// What a later reading shows reads back as that usage: a number right-
/// aligned in two characters (a space before a single digit), whose value
/// `u` is the busy share of all time passed, `u * T <= 100 * A < (u + 1) * T`.
pub proof fn law_usage_text_reads_back(p: CpuTime, cur: CpuTime)
    requires
        can_measure(Some(p), cur),
    ensures
        exists|d: Seq<char>|
            #![trigger all_digits(d)]
            {
                let a = cur.active - p.active;
                let t = (cur.idle + cur.active) - (p.idle + p.active);
                let u = digits_value(d);
                let text = usage_text(Some(p), cur);
                &&& text == d || text == seq![' '] + d
                &&& text.len() >= 2
                &&& u < 100 ==> text.len() == 2
                &&& d.len() >= 1
                &&& all_digits(d)
                &&& u * t <= 100 * a < (u + 1) * t
            },
{
    law_usage_is_busy_share(p, cur);
    let u = usage_percent(p, cur);
    law_decimal_value(u);
    lemma_pad2(u, ' ');
    let d = decimal(u);
    assert(all_digits(d));
}

impl CpuUsage {
    /// The previous reading.
    pub closed spec fn prev(&self) -> Option<CpuTime> {
        self.prev
    }

    /// A usage meter with no reading yet.
    pub fn new() -> (r: Self)
        ensures
            r.prev() is None,
    {
        CpuUsage { prev: None }
    }

    /// `record(current, ..)` can be called without overflow or a division by
    /// zero.
    pub fn can_record(&self, current: CpuTime) -> (r: bool)
        ensures
            r == can_measure(self.prev(), current),
    {
        match self.prev {
            None => true,
            Some(p) => {
                current.idle <= u64::MAX - current.active && p.idle <= u64::MAX - p.active && p.idle
                    + p.active < current.idle + current.active && p.active <= current.active
                    && current.active - p.active <= 184467440737095516
            },
        }
    }

    /// Takes a new reading and appends what it shows: the usage since the
    /// previous reading, or a placeholder for the first one.
    pub fn record(&mut self, current: CpuTime, buf: &mut String)
        requires
            can_measure(old(self).prev(), current),
        ensures
            final(self).prev() == Some(current),
            final(buf)@ == old(buf)@ + usage_text(old(self).prev(), current),
    {
        match self.prev {
            None => {
                self.prev = Some(current);
                push_char(buf, ' ');
                push_empty_output(buf);
                assert(old(buf)@.push(' ') + empty_output() == old(buf)@ + (seq![' ']
                    + empty_output()));
            },
            Some(prev) => {
                let current_total = current.idle + current.active;
                let prev_total = prev.idle + prev.active;
                let total_diff = current_total - prev_total;
                let active_diff = current.active - prev.active;
                let usage = 100 * active_diff / total_diff;
                self.prev = Some(current);
                push_u64_width2(buf, usage);
            },
        }
    }
}

impl Default for CpuUsage {
    fn default() -> (r: Self)
        ensures
            r.prev() is None,
    {
        CpuUsage::new()
    }
}

} // verus!
