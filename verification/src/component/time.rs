//! The local date and time in a given format.
use vstd::prelude::*;
use vstd::string::StringExecFns;
use chrono::{DateTime, FixedOffset};

verus! {

/// What chrono writes for the instant `secs` seconds and `nanos`
/// nanoseconds after the UNIX epoch, seen at a UTC offset of `offset_secs`
/// seconds, in the `strftime`-style `format`; `None` where chrono refuses
/// (an offset of a day or more, an instant out of its range, or a format it
/// cannot read).
pub uninterp spec fn formatted_time(secs: i64, nanos: u32, offset_secs: i32, format: Seq<char>) -> Option<Seq<char>>;

/// Formats a time with chrono: `FixedOffset::east_opt`,
/// `DateTime::from_timestamp` and `with_timezone`, then `format` and
/// `DelayedFormat::write_to` into a new string. Trusted to return that text,
/// or `None` where one of these calls fails; the text itself is chrono's and
/// is named, not stated.
#[verifier::external_body]
pub fn format_time(secs: i64, nanos: u32, offset_secs: i32, format: &str) -> (r: Option<String>)
    ensures
        match r {
            Some(s) => formatted_time(secs, nanos, offset_secs, format@) == Some(s@),
            None => formatted_time(secs, nanos, offset_secs, format@) is None,
        },
{
    let offset = FixedOffset::east_opt(offset_secs)?;
    let time = DateTime::from_timestamp(secs, nanos)?.with_timezone(&offset);
    let mut text = String::new();
    time.format(format).write_to(&mut text).ok()?;
    Some(text)
}

/// The local time, formatted with a `strftime`-style format such as
/// `"%H:%M"`.
#[derive(Debug)]
pub struct Time {
    format: String,
}

impl Time {
    /// The format the time is shown in.
    pub closed spec fn format_view(&self) -> Seq<char> {
        self.format@
    }

    /// Shows the local time in `format`.
    pub fn new(format: &str) -> (r: Self)
        ensures
            r.format_view() == format@,
    {
        Time { format: format.to_owned() }
    }

    /// The format the time is shown in.
    pub fn format(&self) -> (r: &str)
        ensures
            r@ == self.format_view(),
    {
        self.format.as_str()
    }

    /// Appends the clock reading `secs` seconds and `nanos` nanoseconds
    /// after the UNIX epoch, at the local UTC offset of `offset_secs`
    /// seconds, in this component's format. Returns whether it could be
    /// formatted; if not, `buf` is left as it was.
    pub fn render(&self, secs: i64, nanos: u32, offset_secs: i32, buf: &mut String) -> (r: bool)
        ensures
            r == formatted_time(secs, nanos, offset_secs, self.format_view()) is Some,
            r ==> final(buf)@ == old(buf)@ + formatted_time(
                secs,
                nanos,
                offset_secs,
                self.format_view(),
            )->0,
            !r ==> final(buf)@ == old(buf)@,
    {
        let formatted = format_time(secs, nanos, offset_secs, self.format.as_str());
        show_formatted(formatted, buf)
    }
}

/// Appends a formatted time to `buf` if there is one; returns whether there
/// was.
pub fn show_formatted(formatted: Option<String>, buf: &mut String) -> (r: bool)
    ensures
        r == formatted is Some,
        r ==> final(buf)@ == old(buf)@ + formatted->0@,
        !r ==> final(buf)@ == old(buf)@,
{
    match formatted {
        Some(text) => {
            buf.append(text.as_str());
            true
        },
        None => false,
    }
}

} // verus!
