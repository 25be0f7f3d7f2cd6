use vstd::prelude::*;

verus! {

/// The parameters of a page's codec, derived from its header.
#[derive(Clone, Copy, Debug, PartialEq, Eq, Structural)]
pub struct CodecParams {
    /// The unit that the codec compares and repeats.
    pub chunk_size: u8,
    pub bytes_per_line: u64,
    /// The size of the decoded page.
    pub num_bytes: u64,
    /// The byte that completes a line on the `0x80` opcode.
    pub fill_byte: u8,
}

} // verus!
