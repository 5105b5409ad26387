//! The pieces of the status line. Each component turns what it reads from
//! the system into a short text; the reading itself is done by the caller.
use vstd::prelude::*;
use vstd::string::StringExecFns;

pub mod battery;
pub mod cpu;
pub mod disk;
pub mod memory;
pub mod network;
pub mod playing;
pub mod time;
pub mod volume;

pub use battery::{BatteryLevel, BatteryTimeLeft};
pub use cpu::CpuUsage;
pub use disk::DiskUsage;
pub use memory::RamUsed;
pub use network::NetworkSSID;
pub use playing::Playing;
pub use time::Time;
pub use volume::Volume;

verus! {

/// What a component shows when it has nothing to show.
pub const EMPTY_OUTPUT: &'static str = "---";

/// The text of `EMPTY_OUTPUT`.
pub open spec fn empty_output() -> Seq<char> {
    seq!['-', '-', '-']
}

/// Appends `EMPTY_OUTPUT`.
pub fn push_empty_output(buf: &mut String)
    ensures
        final(buf)@ == old(buf)@ + empty_output(),
{
    proof {
        reveal_strlit("---");
    }
    buf.append(EMPTY_OUTPUT);
    assert(EMPTY_OUTPUT@ =~= empty_output());
}

} // verus!
