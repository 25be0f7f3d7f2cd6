use vstd::prelude::*;

use crate::decoder::CompressedRasterDecoder;
use crate::encoder::CompressedRasterEncoder;
use crate::passthrough::UncompressedRasterDecoder;
use crate::passthrough::UncompressedRasterEncoder;
use crate::reader::CupsRasterUnifiedDecoder;
use crate::writer::CupsRasterUnifiedEncoder;

verus! {

/// A decoder of a page body.
pub trait RasterDecoder {
    /// Number of decoded bytes still to be delivered.
    fn bytes_remaining(&self) -> u64;
}

/// An encoder of a page body.
pub trait RasterEncoder {
    /// Number of plain bytes still to be written.
    fn bytes_remaining(&self) -> u64;
}

impl RasterDecoder for CompressedRasterDecoder {
    fn bytes_remaining(&self) -> u64 {
        CompressedRasterDecoder::bytes_remaining(self)
    }
}

impl RasterDecoder for UncompressedRasterDecoder {
    fn bytes_remaining(&self) -> u64 {
        UncompressedRasterDecoder::bytes_remaining(self)
    }
}

impl RasterDecoder for CupsRasterUnifiedDecoder {
    fn bytes_remaining(&self) -> u64 {
        CupsRasterUnifiedDecoder::bytes_remaining(self)
    }
}

impl RasterEncoder for CompressedRasterEncoder {
    fn bytes_remaining(&self) -> u64 {
        CompressedRasterEncoder::bytes_remaining(self)
    }
}

impl RasterEncoder for UncompressedRasterEncoder {
    fn bytes_remaining(&self) -> u64 {
        UncompressedRasterEncoder::bytes_remaining(self)
    }
}

impl RasterEncoder for CupsRasterUnifiedEncoder {
    fn bytes_remaining(&self) -> u64 {
        CupsRasterUnifiedEncoder::bytes_remaining(self)
    }
}

} // verus!
