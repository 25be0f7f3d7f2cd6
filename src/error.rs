use vstd::prelude::*;

verus! {

/// Failures of the codecs themselves (the transport's own failures are the caller's).
#[derive(Clone, Copy, Debug, PartialEq, Eq, Structural)]
pub enum CodecError {
    /// Bad construction parameters, or a block whose extent overruns the line.
    InvalidData,
    /// The input ended inside a line, a block or a header.
    UnexpectedEof,
    /// The transport accepted no byte while the encoder had bytes to deliver.
    WriteZero,
}

} // verus!
