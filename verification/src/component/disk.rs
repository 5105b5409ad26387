//! Use of the file system that holds a path.
use vstd::prelude::*;

verus! {

/// The share of the file system holding `path` that is in use.
#[derive(Debug)]
pub struct DiskUsage {
    path: String,
}

impl DiskUsage {
    /// The path whose file system is measured.
    pub closed spec fn path_view(&self) -> Seq<char> {
        self.path@
    }

    /// Measures the file system that holds `path`.
    pub fn new(path: &str) -> (r: Self)
        ensures
            r.path_view() == path@,
    {
        DiskUsage { path: path.to_owned() }
    }

    /// The path whose file system is measured.
    pub fn path(&self) -> (r: &str)
        ensures
            r@ == self.path_view(),
    {
        self.path.as_str()
    }
}

} // verus!
