use vstd::prelude::*;

verus! {

/// Bounds consulted when a decoder is constructed.
#[derive(Clone, Copy, Debug, PartialEq, Eq)]
pub struct Limits {
    /// The largest number of bytes allowed in one line (the size of the line buffer).
    pub bytes_per_line: u64,
    /// The largest number of decoded bytes allowed in one page.
    pub bytes_per_page: u64,
}

impl Limits {
    /// Limits that admit every size.
    pub fn no_limits() -> (r: Limits)
        ensures
            r.bytes_per_line == u64::MAX,
            r.bytes_per_page == u64::MAX,
    {
        Limits { bytes_per_line: u64::MAX, bytes_per_page: u64::MAX }
    }
}

impl Default for Limits {
    fn default() -> (r: Limits)
        ensures
            r.bytes_per_line == u64::MAX,
            r.bytes_per_page == u64::MAX,
    {
        Limits::no_limits()
    }
}

} // verus!
