//! Memory in use, from the first lines of `/proc/meminfo`.
use vstd::prelude::*;
use crate::text::{chars_of, parse_u64, parse_u64_chars, split_words, strip_prefix, strip_prefix_chars, words};
use crate::status::string_views;

verus! {

/// The memory in use, shown in the largest binary unit it reaches.
#[derive(Debug, Clone, Copy, PartialEq, Eq)]
pub struct RamUsed;

/// Why a `/proc/meminfo` line could not be read.
#[derive(Debug, Clone, Copy, PartialEq, Eq)]
pub enum FieldError {
    /// The line does not start with the expected field name.
    IncorrectField,
    /// Nothing follows the field name.
    MissingValue,
    /// The value is not a number.
    Invalid,
}

/// Why the memory in use could not be read.
#[derive(Debug, Clone, Copy, PartialEq, Eq)]
pub enum MemError {
    /// The file ends before an expected line.
    MissingLine,
    /// An expected line is malformed.
    Field(FieldError),
}

/// The value of a line `"<field> <value> ..."`: the first word after the
/// field name, as a number.
pub open spec fn field_value(line: Seq<char>, field: Seq<char>) -> Result<u64, FieldError> {
    match strip_prefix(line, field) {
        None => Err(FieldError::IncorrectField),
        Some(rest) => {
            let w = words(rest);
            if w.len() == 0 {
                Err(FieldError::MissingValue)
            } else {
                match parse_u64(w[0]) {
                    Some(v) => Ok(v),
                    None => Err(FieldError::Invalid),
                }
            }
        },
    }
}

/// Reads the value of a line that starts with `field`.
pub fn parse_field(line: &str, field: &str) -> (r: Result<u64, FieldError>)
    ensures
        r == field_value(line@, field@),
{
    let l = chars_of(line);
    let f = chars_of(field);
    match strip_prefix_chars(l.as_slice(), f.as_slice()) {
        None => Err(FieldError::IncorrectField),
        Some(rest) => {
            let w = split_words(rest.as_slice());
            if w.len() == 0 {
                Err(FieldError::MissingValue)
            } else {
                match parse_u64_chars(w[0].as_slice()) {
                    Some(v) => Ok(v),
                    None => Err(FieldError::Invalid),
                }
            }
        },
    }
}

/// The fields of `/proc/meminfo` that memory in use is computed from, in
/// kibibytes.
#[derive(Debug, Clone, Copy, PartialEq, Eq)]
pub struct MemInfo {
    pub total: u64,
    pub free: u64,
    pub buffers: u64,
    pub cached: u64,
}

/// The value of line `k`, or why there is none.
pub open spec fn line_field(lines: Seq<Seq<char>>, k: int, field: Seq<char>) -> Result<
    u64,
    MemError,
> {
    if lines.len() <= k {
        Err(MemError::MissingLine)
    } else {
        match field_value(lines[k], field) {
            Ok(v) => Ok(v),
            Err(e) => Err(MemError::Field(e)),
        }
    }
}

/// The fields read from the lines of `/proc/meminfo`: `MemTotal` on the
/// first line, `MemFree` on the second, `Buffers` on the fourth and `Cached`
/// on the fifth, each read in that order.
pub open spec fn meminfo(lines: Seq<Seq<char>>) -> Result<MemInfo, MemError> {
    match line_field(lines, 0, "MemTotal:"@) {
        Err(e) => Err(e),
        Ok(total) => match line_field(lines, 1, "MemFree:"@) {
            Err(e) => Err(e),
            Ok(free) => match line_field(lines, 3, "Buffers:"@) {
                Err(e) => Err(e),
                Ok(buffers) => match line_field(lines, 4, "Cached:"@) {
                    Err(e) => Err(e),
                    Ok(cached) => Ok(MemInfo { total, free, buffers, cached }),
                },
            },
        },
    }
}

fn line_field_exec(lines: &Vec<String>, k: usize, field: &str) -> (r: Result<u64, MemError>)
    ensures
        r == line_field(string_views(lines@), k as int, field@),
{
    if lines.len() <= k {
        Err(MemError::MissingLine)
    } else {
        match parse_field(lines[k].as_str(), field) {
            Ok(v) => Ok(v),
            Err(e) => Err(MemError::Field(e)),
        }
    }
}

/// Reads the fields from the lines of `/proc/meminfo`.
pub fn parse_meminfo(lines: &Vec<String>) -> (r: Result<MemInfo, MemError>)
    ensures
        r == meminfo(string_views(lines@)),
{
    let total = match line_field_exec(lines, 0, "MemTotal:") {
        Ok(v) => v,
        Err(e) => return Err(e),
    };
    let free = match line_field_exec(lines, 1, "MemFree:") {
        Ok(v) => v,
        Err(e) => return Err(e),
    };
    let buffers = match line_field_exec(lines, 3, "Buffers:") {
        Ok(v) => v,
        Err(e) => return Err(e),
    };
    let cached = match line_field_exec(lines, 4, "Cached:") {
        Ok(v) => v,
        Err(e) => return Err(e),
    };
    Ok(MemInfo { total, free, buffers, cached })
}

impl MemInfo {
    /// The memory in use is computed without going below zero or past 64
    /// bits.
    pub open spec fn used_fits(&self) -> bool {
        &&& self.free <= self.total
        &&& self.buffers <= self.total - self.free
        &&& self.cached <= self.total - self.free - self.buffers
        &&& 1024 * (self.total - self.free - self.buffers - self.cached) <= u64::MAX
    }

    pub fn fits(&self) -> (r: bool)
        ensures
            r == self.used_fits(),
    {
        self.free <= self.total && self.buffers <= self.total - self.free && self.cached
            <= self.total - self.free - self.buffers && self.total - self.free - self.buffers
            - self.cached <= 18014398509481983
    }

    /// Memory in use, in bytes: what is neither free nor used for buffers or
    /// the page cache.
    pub fn used_bytes(&self) -> (r: u64)
        requires
            self.used_fits(),
        ensures
            r == 1024 * (self.total - self.free - self.buffers - self.cached),
    {
        1024 * (self.total - self.free - self.buffers - self.cached)
    }
}

/// The largest binary unit that `bytes` reaches, with its size; a number
/// below one kibibyte is its own unit of bytes.
pub open spec fn unit_of(bytes: u64) -> (u64, Seq<char>) {
    if bytes >= 0x4000_0000 {
        (0x4000_0000, seq!['G', 'i'])
    } else if bytes >= 0x10_0000 {
        (0x10_0000, seq!['M', 'i'])
    } else if bytes >= 0x400 {
        (0x400, seq!['K', 'i'])
    } else {
        (bytes, seq!['B'])
    }
}

/// The unit is the largest of Gi, Mi and Ki that `bytes` reaches: the byte
/// count is at least one unit, and below 1024 units unless the unit is Gi;
/// a count below one KiB is shown in bytes, as a unit of its own size.
pub proof fn law_unit_is_largest_reached(bytes: u64)
    ensures
        ({
            let (size, name) = unit_of(bytes);
            &&& name == seq!['G', 'i'] <==> bytes >= 1024 * 1024 * 1024
            &&& name == seq!['G', 'i'] ==> size == 1024 * 1024 * 1024
            &&& name == seq!['M', 'i'] ==> size == 1024 * 1024
            &&& name == seq!['K', 'i'] ==> size == 1024
            &&& name == seq!['B'] ==> size == bytes && bytes < 1024
            &&& name == seq!['G', 'i'] || name == seq!['M', 'i'] || name == seq!['K', 'i']
                || name == seq!['B']
            &&& name != seq!['B'] ==> size <= bytes
            &&& name != seq!['B'] && name != seq!['G', 'i'] ==> bytes < 1024 * size
        }),
{
    assert(seq!['G', 'i'] != seq!['M', 'i']) by {
        assert(seq!['G', 'i'][0] != seq!['M', 'i'][0]);
    }
    assert(seq!['G', 'i'] != seq!['K', 'i']) by {
        assert(seq!['G', 'i'][0] != seq!['K', 'i'][0]);
    }
    assert(seq!['G', 'i'] != seq!['B']) by {
        assert(seq!['G', 'i'].len() != seq!['B'].len());
    }
    assert(seq!['M', 'i'] != seq!['K', 'i']) by {
        assert(seq!['M', 'i'][0] != seq!['K', 'i'][0]);
    }
    assert(seq!['M', 'i'] != seq!['B']) by {
        assert(seq!['M', 'i'].len() != seq!['B'].len());
    }
    assert(seq!['K', 'i'] != seq!['B']) by {
        assert(seq!['K', 'i'].len() != seq!['B'].len());
    }
}

/// The largest binary unit that `bytes` reaches.
pub fn max_unit(bytes: u64) -> (r: (u64, &'static str))
    ensures
        r.0 == unit_of(bytes).0,
        r.1@ == unit_of(bytes).1,
{
    proof {
        reveal_strlit("Gi");
        reveal_strlit("Mi");
        reveal_strlit("Ki");
        reveal_strlit("B");
    }
    if bytes >= 0x4000_0000 {
        (0x4000_0000, "Gi")
    } else if bytes >= 0x10_0000 {
        (0x10_0000, "Mi")
    } else if bytes >= 0x400 {
        (0x400, "Ki")
    } else {
        (bytes, "B")
    }
}

} // verus!
