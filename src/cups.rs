use vstd::prelude::*;
use vstd::utf8::decode_utf8;
use vstd::utf8::encode_utf8;
use vstd::utf8::valid_utf8;

use crate::bytes::RasterByteOrder;
use crate::bytes::read_u32;
use crate::bytes::u32_at;
use crate::bytes::u32_bytes;
use crate::bytes::write_u32;
use crate::decoder::CompressedRasterDecoder;
use crate::decoder::decoder_params_ok;
use crate::decoder::layout_ok;
use crate::decoder::min_u64;
use crate::encoder::CompressedRasterEncoder;
use crate::error::CodecError;
use crate::limits::Limits;
use crate::passthrough::UncompressedRasterDecoder;
use crate::passthrough::UncompressedRasterEncoder;
use crate::variant::CodecParams;

verus! {

/// Failures while reading or writing a CUPS raster file.
#[derive(Clone, Copy, Debug, PartialEq, Eq, Structural)]
pub enum CupsRasterError {
    /// The file does not start with a known sync word.
    InvalidSyncWord,
    /// A string field is not valid UTF-8.
    InvalidString,
    UnknownAdvanceMedia,
    UnknownCutMedia,
    UnknownJog,
    UnknownLeadingEdge,
    UnknownOrientation,
    UnknownColorOrder,
    UnknownColorSpace,
    /// A string does not fit its field.
    StringTooLong,
    /// The bytes of a line are not a whole number of chunks.
    DataLayoutError,
    /// A size overflows.
    DataTooLarge,
    /// The page codec refused the page's parameters.
    Codec(CodecError),
}

/// Size of a version 1 page header.
pub const CUPS_V1_HEADER_SIZE: usize = 420;

/// Size of a version 2 or 3 page header.
pub const CUPS_V2_HEADER_SIZE: usize = 1796;

/// The sync word that opens a CUPS raster file: its version and byte order.
#[derive(Clone, Copy, Debug, PartialEq, Eq, Hash, Structural)]
pub enum CupsSyncWord {
    V1BigEndian,
    V1LittleEndian,
    V2BigEndian,
    V2LittleEndian,
    V3BigEndian,
    V3LittleEndian,
}

impl CupsSyncWord {
    /// The four bytes of the sync word as they stand in the file.
    pub open spec fn spec_bytes(self) -> Seq<u8> {
        match self {
            CupsSyncWord::V1BigEndian => seq![0x52u8, 0x61, 0x53, 0x74],
            CupsSyncWord::V1LittleEndian => seq![0x74u8, 0x53, 0x61, 0x52],
            CupsSyncWord::V2BigEndian => seq![0x52u8, 0x61, 0x53, 0x32],
            CupsSyncWord::V2LittleEndian => seq![0x32u8, 0x53, 0x61, 0x52],
            CupsSyncWord::V3BigEndian => seq![0x52u8, 0x61, 0x53, 0x33],
            CupsSyncWord::V3LittleEndian => seq![0x33u8, 0x53, 0x61, 0x52],
        }
    }

    pub open spec fn spec_byte_order(self) -> RasterByteOrder {
        match self {
            CupsSyncWord::V1BigEndian | CupsSyncWord::V2BigEndian | CupsSyncWord::V3BigEndian => {
                RasterByteOrder::BigEndian
            },
            _ => RasterByteOrder::LittleEndian,
        }
    }

    /// The byte order of the file's headers.
    pub fn byte_order(&self) -> (r: RasterByteOrder)
        ensures
            r == self.spec_byte_order(),
    {
        match self {
            CupsSyncWord::V1BigEndian | CupsSyncWord::V2BigEndian | CupsSyncWord::V3BigEndian => {
                RasterByteOrder::BigEndian
            },
            CupsSyncWord::V1LittleEndian
            | CupsSyncWord::V2LittleEndian
            | CupsSyncWord::V3LittleEndian => RasterByteOrder::LittleEndian,
        }
    }

    /// The format version: 1, 2 or 3.
    pub fn version(&self) -> (r: u8)
        ensures
            r == match *self {
                CupsSyncWord::V1BigEndian | CupsSyncWord::V1LittleEndian => 1u8,
                CupsSyncWord::V2BigEndian | CupsSyncWord::V2LittleEndian => 2u8,
                _ => 3u8,
            },
    {
        match self {
            CupsSyncWord::V1BigEndian | CupsSyncWord::V1LittleEndian => 1,
            CupsSyncWord::V2BigEndian | CupsSyncWord::V2LittleEndian => 2,
            CupsSyncWord::V3BigEndian | CupsSyncWord::V3LittleEndian => 3,
        }
    }

    pub fn to_bytes(&self) -> (r: [u8; 4])
        ensures
            r@ == self.spec_bytes(),
    {
        let r: [u8; 4] = match self {
            CupsSyncWord::V1BigEndian => [0x52u8, 0x61, 0x53, 0x74],
            CupsSyncWord::V1LittleEndian => [0x74u8, 0x53, 0x61, 0x52],
            CupsSyncWord::V2BigEndian => [0x52u8, 0x61, 0x53, 0x32],
            CupsSyncWord::V2LittleEndian => [0x32u8, 0x53, 0x61, 0x52],
            CupsSyncWord::V3BigEndian => [0x52u8, 0x61, 0x53, 0x33],
            CupsSyncWord::V3LittleEndian => [0x33u8, 0x53, 0x61, 0x52],
        };
        assert(r@ =~= self.spec_bytes());
        r
    }

    /// The sync word that the four bytes `b` spell; fails with `InvalidSyncWord` on any other
    /// bytes.
    pub fn from_bytes(b: [u8; 4]) -> (r: Result<CupsSyncWord, CupsRasterError>)
        ensures
            r matches Ok(w) ==> w.spec_bytes() == b@,
            r is Err <==> forall|w: CupsSyncWord| w.spec_bytes() != b@,
            r is Err ==> r == Err::<CupsSyncWord, CupsRasterError>(CupsRasterError::InvalidSyncWord),
    {
        let r = if b[0] == 0x52 && b[1] == 0x61 && b[2] == 0x53 {
            if b[3] == 0x74 {
                Ok(CupsSyncWord::V1BigEndian)
            } else if b[3] == 0x32 {
                Ok(CupsSyncWord::V2BigEndian)
            } else if b[3] == 0x33 {
                Ok(CupsSyncWord::V3BigEndian)
            } else {
                Err(CupsRasterError::InvalidSyncWord)
            }
        } else if b[1] == 0x53 && b[2] == 0x61 && b[3] == 0x52 {
            if b[0] == 0x74 {
                Ok(CupsSyncWord::V1LittleEndian)
            } else if b[0] == 0x32 {
                Ok(CupsSyncWord::V2LittleEndian)
            } else if b[0] == 0x33 {
                Ok(CupsSyncWord::V3LittleEndian)
            } else {
                Err(CupsRasterError::InvalidSyncWord)
            }
        } else {
            Err(CupsRasterError::InvalidSyncWord)
        };
        proof {
            if let Ok(w) = r {
                assert(w.spec_bytes() =~= b@);
            } else {
                assert forall|w: CupsSyncWord| w.spec_bytes() != b@ by {
                    if w.spec_bytes() == b@ {
                        assert(w.spec_bytes()[0] == b@[0] && w.spec_bytes()[1] == b@[1]
                            && w.spec_bytes()[2] == b@[2] && w.spec_bytes()[3] == b@[3]);
                    }
                }
            }
        }
        r
    }
}

/// When to advance the media.
#[derive(Clone, Copy, Debug, PartialEq, Eq, Hash, Structural)]
pub enum CupsAdvance {
    Never,
    AfterFile,
    AfterJob,
    AfterSet,
    AfterPage,
}

impl CupsAdvance {
    /// The value that stands for this variant in a header.
    pub open spec fn spec_code(self) -> u32 {
        match self {
            CupsAdvance::Never => 0,
            CupsAdvance::AfterFile => 1,
            CupsAdvance::AfterJob => 2,
            CupsAdvance::AfterSet => 3,
            CupsAdvance::AfterPage => 4,
        }
    }

    /// Whether `c` stands for a variant.
    pub open spec fn spec_is_code(c: u32) -> bool {
        (c <= 4)
    }

    pub fn code(&self) -> (r: u32)
        ensures
            r == self.spec_code(),
    {
        match self {
            CupsAdvance::Never => 0,
            CupsAdvance::AfterFile => 1,
            CupsAdvance::AfterJob => 2,
            CupsAdvance::AfterSet => 3,
            CupsAdvance::AfterPage => 4,
        }
    }

    /// The variant that `c` stands for, if any.
    pub fn from_code(c: u32) -> (r: Option<CupsAdvance>)
        ensures
            r is Some <==> CupsAdvance::spec_is_code(c),
            r matches Some(e) ==> e.spec_code() == c,
    {
        match c {
            0 => Some(CupsAdvance::Never),
            1 => Some(CupsAdvance::AfterFile),
            2 => Some(CupsAdvance::AfterJob),
            3 => Some(CupsAdvance::AfterSet),
            4 => Some(CupsAdvance::AfterPage),
            _ => None,
        }
    }
}

/// When to cut the media.
#[derive(Clone, Copy, Debug, PartialEq, Eq, Hash, Structural)]
pub enum CupsCut {
    Never,
    AfterFile,
    AfterJob,
    AfterSet,
    AfterPage,
}

impl CupsCut {
    /// The value that stands for this variant in a header.
    pub open spec fn spec_code(self) -> u32 {
        match self {
            CupsCut::Never => 0,
            CupsCut::AfterFile => 1,
            CupsCut::AfterJob => 2,
            CupsCut::AfterSet => 3,
            CupsCut::AfterPage => 4,
        }
    }

    /// Whether `c` stands for a variant.
    pub open spec fn spec_is_code(c: u32) -> bool {
        (c <= 4)
    }

    pub fn code(&self) -> (r: u32)
        ensures
            r == self.spec_code(),
    {
        match self {
            CupsCut::Never => 0,
            CupsCut::AfterFile => 1,
            CupsCut::AfterJob => 2,
            CupsCut::AfterSet => 3,
            CupsCut::AfterPage => 4,
        }
    }

    /// The variant that `c` stands for, if any.
    pub fn from_code(c: u32) -> (r: Option<CupsCut>)
        ensures
            r is Some <==> CupsCut::spec_is_code(c),
            r matches Some(e) ==> e.spec_code() == c,
    {
        match c {
            0 => Some(CupsCut::Never),
            1 => Some(CupsCut::AfterFile),
            2 => Some(CupsCut::AfterJob),
            3 => Some(CupsCut::AfterSet),
            4 => Some(CupsCut::AfterPage),
            _ => None,
        }
    }
}

/// When to jog the output.
#[derive(Clone, Copy, Debug, PartialEq, Eq, Hash, Structural)]
pub enum CupsJog {
    Never,
    AfterFile,
    AfterJob,
    AfterSet,
}

impl CupsJog {
    /// The value that stands for this variant in a header.
    pub open spec fn spec_code(self) -> u32 {
        match self {
            CupsJog::Never => 0,
            CupsJog::AfterFile => 1,
            CupsJog::AfterJob => 2,
            CupsJog::AfterSet => 3,
        }
    }

    /// Whether `c` stands for a variant.
    pub open spec fn spec_is_code(c: u32) -> bool {
        (c <= 3)
    }

    pub fn code(&self) -> (r: u32)
        ensures
            r == self.spec_code(),
    {
        match self {
            CupsJog::Never => 0,
            CupsJog::AfterFile => 1,
            CupsJog::AfterJob => 2,
            CupsJog::AfterSet => 3,
        }
    }

    /// The variant that `c` stands for, if any.
    pub fn from_code(c: u32) -> (r: Option<CupsJog>)
        ensures
            r is Some <==> CupsJog::spec_is_code(c),
            r matches Some(e) ==> e.spec_code() == c,
    {
        match c {
            0 => Some(CupsJog::Never),
            1 => Some(CupsJog::AfterFile),
            2 => Some(CupsJog::AfterJob),
            3 => Some(CupsJog::AfterSet),
            _ => None,
        }
    }
}

/// Which edge of the media leads.
#[derive(Clone, Copy, Debug, PartialEq, Eq, Hash, Structural)]
pub enum CupsLeadingEdge {
    Top,
    Right,
    Bottom,
    Left,
}

impl CupsLeadingEdge {
    /// The value that stands for this variant in a header.
    pub open spec fn spec_code(self) -> u32 {
        match self {
            CupsLeadingEdge::Top => 0,
            CupsLeadingEdge::Right => 1,
            CupsLeadingEdge::Bottom => 2,
            CupsLeadingEdge::Left => 3,
        }
    }

    /// Whether `c` stands for a variant.
    pub open spec fn spec_is_code(c: u32) -> bool {
        (c <= 3)
    }

    pub fn code(&self) -> (r: u32)
        ensures
            r == self.spec_code(),
    {
        match self {
            CupsLeadingEdge::Top => 0,
            CupsLeadingEdge::Right => 1,
            CupsLeadingEdge::Bottom => 2,
            CupsLeadingEdge::Left => 3,
        }
    }

    /// The variant that `c` stands for, if any.
    pub fn from_code(c: u32) -> (r: Option<CupsLeadingEdge>)
        ensures
            r is Some <==> CupsLeadingEdge::spec_is_code(c),
            r matches Some(e) ==> e.spec_code() == c,
    {
        match c {
            0 => Some(CupsLeadingEdge::Top),
            1 => Some(CupsLeadingEdge::Right),
            2 => Some(CupsLeadingEdge::Bottom),
            3 => Some(CupsLeadingEdge::Left),
            _ => None,
        }
    }
}

/// How the color components of pixels are laid out.
#[derive(Clone, Copy, Debug, PartialEq, Eq, Hash, Structural)]
pub enum CupsColorOrder {
    /// Chunky pixels (CMYK CMYK CMYK)
    Chunky,
    /// Banded pixels (CCC MMM YYY KKK)
    Banded,
    /// Planar pixels (CCC... MMM... YYY... KKK...)
    Planar,
}

impl CupsColorOrder {
    /// The value that stands for this variant in a header.
    pub open spec fn spec_code(self) -> u32 {
        match self {
            CupsColorOrder::Chunky => 0,
            CupsColorOrder::Banded => 1,
            CupsColorOrder::Planar => 2,
        }
    }

    /// Whether `c` stands for a variant.
    pub open spec fn spec_is_code(c: u32) -> bool {
        (c <= 2)
    }

    pub fn code(&self) -> (r: u32)
        ensures
            r == self.spec_code(),
    {
        match self {
            CupsColorOrder::Chunky => 0,
            CupsColorOrder::Banded => 1,
            CupsColorOrder::Planar => 2,
        }
    }

    /// The variant that `c` stands for, if any.
    pub fn from_code(c: u32) -> (r: Option<CupsColorOrder>)
        ensures
            r is Some <==> CupsColorOrder::spec_is_code(c),
            r matches Some(e) ==> e.spec_code() == c,
    {
        match c {
            0 => Some(CupsColorOrder::Chunky),
            1 => Some(CupsColorOrder::Banded),
            2 => Some(CupsColorOrder::Planar),
            _ => None,
        }
    }
}

/// The color space of the pixels.
#[derive(Clone, Copy, Debug, PartialEq, Eq, Hash, Structural)]
#[allow(non_camel_case_types)]
pub enum CupsColorSpace {
    Gray,
    RGB,
    RGBA,
    Black,
    CMY,
    YMC,
    CMYK,
    YMCK,
    KCMY,
    KCMYcm,
    GMCK,
    GMCS,
    White,
    Gold,
    Silver,
    CIEXYZ,
    CIELab,
    RGBW,
    sGray,
    sRGB,
    AdobeRGB,
    Icc1,
    Icc2,
    Icc3,
    Icc4,
    Icc5,
    Icc6,
    Icc7,
    Icc8,
    Icc9,
    IccA,
    IccB,
    IccC,
    IccD,
    IccE,
    IccF,
    Device1,
    Device2,
    Device3,
    Device4,
    Device5,
    Device6,
    Device7,
    Device8,
    Device9,
    DeviceA,
    DeviceB,
    DeviceC,
    DeviceD,
    DeviceE,
    DeviceF,
}

impl CupsColorSpace {
    /// The value that stands for this variant in a header.
    pub open spec fn spec_code(self) -> u32 {
        match self {
            CupsColorSpace::Gray => 0,
            CupsColorSpace::RGB => 1,
            CupsColorSpace::RGBA => 2,
            CupsColorSpace::Black => 3,
            CupsColorSpace::CMY => 4,
            CupsColorSpace::YMC => 5,
            CupsColorSpace::CMYK => 6,
            CupsColorSpace::YMCK => 7,
            CupsColorSpace::KCMY => 8,
            CupsColorSpace::KCMYcm => 9,
            CupsColorSpace::GMCK => 10,
            CupsColorSpace::GMCS => 11,
            CupsColorSpace::White => 12,
            CupsColorSpace::Gold => 13,
            CupsColorSpace::Silver => 14,
            CupsColorSpace::CIEXYZ => 15,
            CupsColorSpace::CIELab => 16,
            CupsColorSpace::RGBW => 17,
            CupsColorSpace::sGray => 18,
            CupsColorSpace::sRGB => 19,
            CupsColorSpace::AdobeRGB => 20,
            CupsColorSpace::Icc1 => 32,
            CupsColorSpace::Icc2 => 33,
            CupsColorSpace::Icc3 => 34,
            CupsColorSpace::Icc4 => 35,
            CupsColorSpace::Icc5 => 36,
            CupsColorSpace::Icc6 => 37,
            CupsColorSpace::Icc7 => 38,
            CupsColorSpace::Icc8 => 39,
            CupsColorSpace::Icc9 => 40,
            CupsColorSpace::IccA => 41,
            CupsColorSpace::IccB => 42,
            CupsColorSpace::IccC => 43,
            CupsColorSpace::IccD => 44,
            CupsColorSpace::IccE => 45,
            CupsColorSpace::IccF => 46,
            CupsColorSpace::Device1 => 48,
            CupsColorSpace::Device2 => 49,
            CupsColorSpace::Device3 => 50,
            CupsColorSpace::Device4 => 51,
            CupsColorSpace::Device5 => 52,
            CupsColorSpace::Device6 => 53,
            CupsColorSpace::Device7 => 54,
            CupsColorSpace::Device8 => 55,
            CupsColorSpace::Device9 => 56,
            CupsColorSpace::DeviceA => 57,
            CupsColorSpace::DeviceB => 58,
            CupsColorSpace::DeviceC => 59,
            CupsColorSpace::DeviceD => 60,
            CupsColorSpace::DeviceE => 61,
            CupsColorSpace::DeviceF => 62,
        }
    }

    /// Whether `c` stands for a variant.
    pub open spec fn spec_is_code(c: u32) -> bool {
        (c <= 20) || (32 <= c <= 46) || (48 <= c <= 62)
    }

    pub fn code(&self) -> (r: u32)
        ensures
            r == self.spec_code(),
    {
        match self {
            CupsColorSpace::Gray => 0,
            CupsColorSpace::RGB => 1,
            CupsColorSpace::RGBA => 2,
            CupsColorSpace::Black => 3,
            CupsColorSpace::CMY => 4,
            CupsColorSpace::YMC => 5,
            CupsColorSpace::CMYK => 6,
            CupsColorSpace::YMCK => 7,
            CupsColorSpace::KCMY => 8,
            CupsColorSpace::KCMYcm => 9,
            CupsColorSpace::GMCK => 10,
            CupsColorSpace::GMCS => 11,
            CupsColorSpace::White => 12,
            CupsColorSpace::Gold => 13,
            CupsColorSpace::Silver => 14,
            CupsColorSpace::CIEXYZ => 15,
            CupsColorSpace::CIELab => 16,
            CupsColorSpace::RGBW => 17,
            CupsColorSpace::sGray => 18,
            CupsColorSpace::sRGB => 19,
            CupsColorSpace::AdobeRGB => 20,
            CupsColorSpace::Icc1 => 32,
            CupsColorSpace::Icc2 => 33,
            CupsColorSpace::Icc3 => 34,
            CupsColorSpace::Icc4 => 35,
            CupsColorSpace::Icc5 => 36,
            CupsColorSpace::Icc6 => 37,
            CupsColorSpace::Icc7 => 38,
            CupsColorSpace::Icc8 => 39,
            CupsColorSpace::Icc9 => 40,
            CupsColorSpace::IccA => 41,
            CupsColorSpace::IccB => 42,
            CupsColorSpace::IccC => 43,
            CupsColorSpace::IccD => 44,
            CupsColorSpace::IccE => 45,
            CupsColorSpace::IccF => 46,
            CupsColorSpace::Device1 => 48,
            CupsColorSpace::Device2 => 49,
            CupsColorSpace::Device3 => 50,
            CupsColorSpace::Device4 => 51,
            CupsColorSpace::Device5 => 52,
            CupsColorSpace::Device6 => 53,
            CupsColorSpace::Device7 => 54,
            CupsColorSpace::Device8 => 55,
            CupsColorSpace::Device9 => 56,
            CupsColorSpace::DeviceA => 57,
            CupsColorSpace::DeviceB => 58,
            CupsColorSpace::DeviceC => 59,
            CupsColorSpace::DeviceD => 60,
            CupsColorSpace::DeviceE => 61,
            CupsColorSpace::DeviceF => 62,
        }
    }

    /// The variant that `c` stands for, if any.
    pub fn from_code(c: u32) -> (r: Option<CupsColorSpace>)
        ensures
            r is Some <==> CupsColorSpace::spec_is_code(c),
            r matches Some(e) ==> e.spec_code() == c,
    {
        match c {
            0 => Some(CupsColorSpace::Gray),
            1 => Some(CupsColorSpace::RGB),
            2 => Some(CupsColorSpace::RGBA),
            3 => Some(CupsColorSpace::Black),
            4 => Some(CupsColorSpace::CMY),
            5 => Some(CupsColorSpace::YMC),
            6 => Some(CupsColorSpace::CMYK),
            7 => Some(CupsColorSpace::YMCK),
            8 => Some(CupsColorSpace::KCMY),
            9 => Some(CupsColorSpace::KCMYcm),
            10 => Some(CupsColorSpace::GMCK),
            11 => Some(CupsColorSpace::GMCS),
            12 => Some(CupsColorSpace::White),
            13 => Some(CupsColorSpace::Gold),
            14 => Some(CupsColorSpace::Silver),
            15 => Some(CupsColorSpace::CIEXYZ),
            16 => Some(CupsColorSpace::CIELab),
            17 => Some(CupsColorSpace::RGBW),
            18 => Some(CupsColorSpace::sGray),
            19 => Some(CupsColorSpace::sRGB),
            20 => Some(CupsColorSpace::AdobeRGB),
            32 => Some(CupsColorSpace::Icc1),
            33 => Some(CupsColorSpace::Icc2),
            34 => Some(CupsColorSpace::Icc3),
            35 => Some(CupsColorSpace::Icc4),
            36 => Some(CupsColorSpace::Icc5),
            37 => Some(CupsColorSpace::Icc6),
            38 => Some(CupsColorSpace::Icc7),
            39 => Some(CupsColorSpace::Icc8),
            40 => Some(CupsColorSpace::Icc9),
            41 => Some(CupsColorSpace::IccA),
            42 => Some(CupsColorSpace::IccB),
            43 => Some(CupsColorSpace::IccC),
            44 => Some(CupsColorSpace::IccD),
            45 => Some(CupsColorSpace::IccE),
            46 => Some(CupsColorSpace::IccF),
            48 => Some(CupsColorSpace::Device1),
            49 => Some(CupsColorSpace::Device2),
            50 => Some(CupsColorSpace::Device3),
            51 => Some(CupsColorSpace::Device4),
            52 => Some(CupsColorSpace::Device5),
            53 => Some(CupsColorSpace::Device6),
            54 => Some(CupsColorSpace::Device7),
            55 => Some(CupsColorSpace::Device8),
            56 => Some(CupsColorSpace::Device9),
            57 => Some(CupsColorSpace::DeviceA),
            58 => Some(CupsColorSpace::DeviceB),
            59 => Some(CupsColorSpace::DeviceC),
            60 => Some(CupsColorSpace::DeviceD),
            61 => Some(CupsColorSpace::DeviceE),
            62 => Some(CupsColorSpace::DeviceF),
            _ => None,
        }
    }
}

/// The orientation of the page.
#[derive(Clone, Copy, Debug, PartialEq, Eq, Hash, Structural)]
pub enum CupsOrientation {
    Portrait,
    Landscape,
    ReversePortrait,
    ReverseLandscape,
}

impl CupsOrientation {
    /// The value that stands for this variant in a header.
    pub open spec fn spec_code(self) -> u32 {
        match self {
            CupsOrientation::Portrait => 0,
            CupsOrientation::Landscape => 1,
            CupsOrientation::ReversePortrait => 2,
            CupsOrientation::ReverseLandscape => 3,
        }
    }

    /// Whether `c` stands for a variant.
    pub open spec fn spec_is_code(c: u32) -> bool {
        (c <= 3)
    }

    pub fn code(&self) -> (r: u32)
        ensures
            r == self.spec_code(),
    {
        match self {
            CupsOrientation::Portrait => 0,
            CupsOrientation::Landscape => 1,
            CupsOrientation::ReversePortrait => 2,
            CupsOrientation::ReverseLandscape => 3,
        }
    }

    /// The variant that `c` stands for, if any.
    pub fn from_code(c: u32) -> (r: Option<CupsOrientation>)
        ensures
            r is Some <==> CupsOrientation::spec_is_code(c),
            r matches Some(e) ==> e.spec_code() == c,
    {
        match c {
            0 => Some(CupsOrientation::Portrait),
            1 => Some(CupsOrientation::Landscape),
            2 => Some(CupsOrientation::ReversePortrait),
            3 => Some(CupsOrientation::ReverseLandscape),
            _ => None,
        }
    }
}
/// Resolution in dots per inch.
#[derive(Clone, Copy, Debug, PartialEq, Eq, Hash, Structural)]
pub struct CupsResolution {
    pub cross_feed: u32,
    pub feed: u32,
}

/// The left, bottom, right and top of the imaged area, in points.
#[derive(Clone, Copy, Debug, PartialEq, Eq, Hash, Structural)]
pub struct CupsImagingBoundingBox {
    pub left: u32,
    pub bottom: u32,
    pub right: u32,
    pub top: u32,
}

/// Left and bottom origin of the image, in points.
#[derive(Clone, Copy, Debug, PartialEq, Eq, Hash, Structural)]
pub struct CupsMargins {
    pub left: u32,
    pub bottom: u32,
}

/// Width and length of the page, in points.
#[derive(Clone, Copy, Debug, PartialEq, Eq, Hash, Structural)]
pub struct CupsPageSize {
    pub width: u32,
    pub height: u32,
}

/// The page header of a version 1 CUPS raster file (and the first part of later versions).
#[derive(Clone, Debug, PartialEq, Eq, Hash)]
pub struct CupsPageHeaderV1 {
    pub media_class: String,
    pub media_color: String,
    pub media_type: String,
    pub output_type: String,
    pub advance_distance: u32,
    pub advance_media: CupsAdvance,
    pub collate: bool,
    pub cut_media: CupsCut,
    pub duplex: bool,
    pub resolution: CupsResolution,
    pub imaging_bbox: CupsImagingBoundingBox,
    pub insert_sheet: bool,
    pub jog: CupsJog,
    pub leading_edge: CupsLeadingEdge,
    pub margins: CupsMargins,
    pub manual_feed: bool,
    pub media_position: u32,
    /// Media weight in grams per square meter, 0 for the printer's default.
    pub media_weight: u32,
    pub mirror_print: bool,
    pub negative_print: bool,
    /// 0 for the printer's default.
    pub num_copies: u32,
    pub orientation: CupsOrientation,
    pub output_face_up: bool,
    pub page_size: CupsPageSize,
    pub separations: bool,
    pub tray_switch: bool,
    pub tumble: bool,
    /// Width of the page image in pixels.
    pub width: u32,
    /// Height of the page image in pixels.
    pub height: u32,
    pub cups_media_type: u32,
    pub bits_per_color: u32,
    pub bits_per_pixel: u32,
    pub bytes_per_line: u32,
    pub color_order: CupsColorOrder,
    pub color_space: CupsColorSpace,
    pub cups_compression: u32,
    pub cups_row_count: u32,
    pub cups_row_feed: u32,
    pub cups_row_step: u32,
}

/// The number of color components of a pixel in `space` (with `bits_per_pixel` for the one
/// space whose count depends on it).
pub open spec fn spec_num_colors(space: CupsColorSpace, bits_per_pixel: u32) -> u32 {
    match space {
        CupsColorSpace::Gray | CupsColorSpace::White | CupsColorSpace::Black | CupsColorSpace::Gold
        | CupsColorSpace::Silver | CupsColorSpace::sGray | CupsColorSpace::Device1 => 1,
        CupsColorSpace::Device2 => 2,
        CupsColorSpace::RGB | CupsColorSpace::CMY | CupsColorSpace::YMC | CupsColorSpace::CIEXYZ
        | CupsColorSpace::CIELab | CupsColorSpace::sRGB | CupsColorSpace::AdobeRGB
        | CupsColorSpace::Icc1 | CupsColorSpace::Icc2 | CupsColorSpace::Icc3 | CupsColorSpace::Icc4
        | CupsColorSpace::Icc5 | CupsColorSpace::Icc6 | CupsColorSpace::Icc7 | CupsColorSpace::Icc8
        | CupsColorSpace::Icc9 | CupsColorSpace::IccA | CupsColorSpace::IccB | CupsColorSpace::IccC
        | CupsColorSpace::IccD | CupsColorSpace::IccE | CupsColorSpace::IccF
        | CupsColorSpace::Device3 => 3,
        CupsColorSpace::RGBA | CupsColorSpace::RGBW | CupsColorSpace::CMYK | CupsColorSpace::YMCK
        | CupsColorSpace::KCMY | CupsColorSpace::GMCK | CupsColorSpace::GMCS
        | CupsColorSpace::Device4 => 4,
        CupsColorSpace::KCMYcm => if bits_per_pixel < 8 {
            6
        } else {
            4
        },
        CupsColorSpace::Device5 => 5,
        CupsColorSpace::Device6 => 6,
        CupsColorSpace::Device7 => 7,
        CupsColorSpace::Device8 => 8,
        CupsColorSpace::Device9 => 9,
        CupsColorSpace::DeviceA => 10,
        CupsColorSpace::DeviceB => 11,
        CupsColorSpace::DeviceC => 12,
        CupsColorSpace::DeviceD => 13,
        CupsColorSpace::DeviceE => 14,
        CupsColorSpace::DeviceF => 15,
    }
}

impl CupsPageHeaderV1 {
    /// The number of color components of a pixel.
    pub fn num_colors(&self) -> (r: u32)
        ensures
            r == spec_num_colors(self.color_space, self.bits_per_pixel),
    {
        match self.color_space {
            CupsColorSpace::Gray | CupsColorSpace::White | CupsColorSpace::Black
            | CupsColorSpace::Gold | CupsColorSpace::Silver | CupsColorSpace::sGray => 1,
            CupsColorSpace::RGB | CupsColorSpace::CMY | CupsColorSpace::YMC
            | CupsColorSpace::CIEXYZ | CupsColorSpace::CIELab | CupsColorSpace::sRGB
            | CupsColorSpace::AdobeRGB | CupsColorSpace::Icc1 | CupsColorSpace::Icc2
            | CupsColorSpace::Icc3 | CupsColorSpace::Icc4 | CupsColorSpace::Icc5
            | CupsColorSpace::Icc6 | CupsColorSpace::Icc7 | CupsColorSpace::Icc8
            | CupsColorSpace::Icc9 | CupsColorSpace::IccA | CupsColorSpace::IccB
            | CupsColorSpace::IccC | CupsColorSpace::IccD | CupsColorSpace::IccE
            | CupsColorSpace::IccF => 3,
            CupsColorSpace::RGBA | CupsColorSpace::RGBW | CupsColorSpace::CMYK
            | CupsColorSpace::YMCK | CupsColorSpace::KCMY | CupsColorSpace::GMCK
            | CupsColorSpace::GMCS => 4,
            CupsColorSpace::KCMYcm => {
                if self.bits_per_pixel < 8 {
                    6
                } else {
                    4
                }
            },
            CupsColorSpace::Device1 => 1,
            CupsColorSpace::Device2 => 2,
            CupsColorSpace::Device3 => 3,
            CupsColorSpace::Device4 => 4,
            CupsColorSpace::Device5 => 5,
            CupsColorSpace::Device6 => 6,
            CupsColorSpace::Device7 => 7,
            CupsColorSpace::Device8 => 8,
            CupsColorSpace::Device9 => 9,
            CupsColorSpace::DeviceA => 10,
            CupsColorSpace::DeviceB => 11,
            CupsColorSpace::DeviceC => 12,
            CupsColorSpace::DeviceD => 13,
            CupsColorSpace::DeviceE => 14,
            CupsColorSpace::DeviceF => 15,
        }
    }
}

/// The length of the C string at the start of `s`: up to its first NUL, or all of `s`.
pub open spec fn c_string_len(s: Seq<u8>, i: int) -> int
    decreases s.len() - i,
{
    if i >= s.len() || s[i] == 0 {
        i
    } else {
        c_string_len(s, i + 1)
    }
}

/// The bytes of the C string held in the 64-byte field at `off`.
pub open spec fn c_string_at(b: Seq<u8>, off: int) -> Seq<u8> {
    let field = b.subrange(off, off + 64);
    field.take(c_string_len(field, 0))
}

/// The 64 bytes of a field holding the string `s`: its UTF-8 bytes, then NULs.
pub open spec fn c_string_bytes(s: Seq<char>) -> Seq<u8> {
    encode_utf8(s) + Seq::new((64 - encode_utf8(s).len()) as nat, |i: int| 0u8)
}

/// Relies on `std::str::from_utf8`: it accepts exactly the valid UTF-8 bytes, and the string
/// it gives holds the characters they encode.
#[verifier::external_body]
fn text_of(b: &[u8]) -> (r: Option<String>)
    ensures
        r is Some <==> valid_utf8(b@),
        r matches Some(s) ==> s@ == decode_utf8(b@),
{
    std::str::from_utf8(b).ok().map(|s| s.to_string())
}

/// Reads the C string in the 64-byte field at `off`; fails with `InvalidString` when it is not
/// valid UTF-8.
pub fn read_c_string(content: &[u8], off: usize) -> (r: Result<String, CupsRasterError>)
    requires
        off + 64 <= content@.len(),
    ensures
        r is Ok <==> valid_utf8(c_string_at(content@, off as int)),
        r matches Ok(s) ==> s@ == decode_utf8(c_string_at(content@, off as int)),
        r is Err ==> r == Err::<String, CupsRasterError>(CupsRasterError::InvalidString),
{
    let total = content.len();
    let field = vstd::slice::slice_subrange(content, off, off + 64);
    let mut len: usize = 0;
    while len < 64 && field[len] != 0
        invariant
            len <= 64,
            field@.len() == 64,
            c_string_len(field@, len as int) == c_string_len(field@, 0),
        decreases 64 - len,
    {
        len = len + 1;
    }
    let text = vstd::slice::slice_subrange(field, 0, len);
    assert(text@ =~= c_string_at(content@, off as int));
    match text_of(text) {
        Some(s) => Ok(s),
        None => Err(CupsRasterError::InvalidString),
    }
}

/// Writes `s` as a 64-byte field; fails with `StringTooLong` when its UTF-8 bytes do not fit.
pub fn write_c_string(out: &mut Vec<u8>, s: &String) -> (r: Result<(), CupsRasterError>)
    ensures
        r is Err ==> final(out)@ == old(out)@,
        r is Ok <==> encode_utf8(s@).len() <= 64,
        r is Ok ==> final(out)@ == old(out)@ + c_string_bytes(s@),
        r is Err ==> r == Err::<(), CupsRasterError>(CupsRasterError::StringTooLong),
{
    let bytes = s.as_str().as_bytes();
    if bytes.len() > 64 {
        return Err(CupsRasterError::StringTooLong);
    }
    let ghost start = out@;
    let mut i: usize = 0;
    while i < bytes.len()
        invariant
            i <= bytes@.len(),
            bytes@ == encode_utf8(s@),
            out@ == start + bytes@.take(i as int),
        decreases bytes@.len() - i,
    {
        out.push(bytes[i]);
        i = i + 1;
        assert(out@ =~= start + bytes@.take(i as int));
    }
    let mut k: usize = bytes.len();
    while k < 64
        invariant
            bytes@.len() <= k <= 64,
            bytes@ == encode_utf8(s@),
            out@ == start + bytes@ + Seq::new((k - bytes@.len()) as nat, |j: int| 0u8),
        decreases 64 - k,
    {
        out.push(0);
        k = k + 1;
        assert(out@ =~= start + bytes@ + Seq::new((k - bytes@.len()) as nat, |j: int| 0u8));
    }
    assert(bytes@.take(bytes@.len() as int) =~= bytes@);
    assert(out@ =~= start + c_string_bytes(s@));
    Ok(())
}

/// Whether any of the four bytes at `off` is not zero.
pub open spec fn bool_at(b: Seq<u8>, off: int) -> bool {
    b[off] != 0 || b[off + 1] != 0 || b[off + 2] != 0 || b[off + 3] != 0
}

/// Reads a flag: true when any of its four bytes is not zero.
pub fn read_bool(content: &[u8], off: usize) -> (r: bool)
    requires
        off + 4 <= content@.len(),
    ensures
        r == bool_at(content@, off as int),
{
    content[off] != 0 || content[off + 1] != 0 || content[off + 2] != 0 || content[off + 3] != 0
}

/// Writes a flag as the 32-bit value 1 or 0.
pub fn write_bool(order: RasterByteOrder, out: &mut Vec<u8>, b: bool)
    ensures
        final(out)@ == old(out)@ + u32_bytes(order, if b { 1 } else { 0 }),
{
    write_u32(order, out, if b { 1 } else { 0 });
}

/// The chunk size of a CUPS page: whole bytes of a pixel (chunky) or of a color component
/// (banded, planar), at least 1; `None` when it exceeds a byte.
pub open spec fn spec_chunk_size(color_order_code: u32, bits_per_pixel: u32, bits_per_color: u32) -> Option<u8> {
    let bits = if color_order_code == 0 {
        bits_per_pixel
    } else {
        bits_per_color
    };
    let c = (bits as int + 7) / 8;
    if c > 255 {
        None
    } else if c == 0 {
        Some(1u8)
    } else {
        Some(c as u8)
    }
}

/// Why the pixel layout described by a header cannot be followed, if it cannot.
pub open spec fn layout_error(color_order_code: u32, bits_per_pixel: u32, bits_per_color: u32, bytes_per_line: u32) -> Option<CupsRasterError> {
    match spec_chunk_size(color_order_code, bits_per_pixel, bits_per_color) {
        None => Some(CupsRasterError::DataTooLarge),
        Some(c) => if bytes_per_line != 0 && bytes_per_line % (c as u32) != 0 {
            Some(CupsRasterError::DataLayoutError)
        } else {
            None
        },
    }
}

/// The chunk size of the page that `header` describes.
pub fn chunk_size_of(header: &CupsPageHeaderV1) -> (r: Result<u8, CupsRasterError>)
    ensures
        r is Ok <==> spec_chunk_size(header.color_order.spec_code(), header.bits_per_pixel, header.bits_per_color) is Some,
        r matches Ok(c) ==> spec_chunk_size(header.color_order.spec_code(), header.bits_per_pixel, header.bits_per_color) == Some(c),
        r is Err ==> r == Err::<u8, CupsRasterError>(CupsRasterError::DataTooLarge),
{
    let bits = match header.color_order {
        CupsColorOrder::Chunky => header.bits_per_pixel,
        CupsColorOrder::Banded | CupsColorOrder::Planar => header.bits_per_color,
    };
    let c = (bits as u64 + 7) / 8;
    if c > 255 {
        return Err(CupsRasterError::DataTooLarge);
    }
    if c == 0 {
        Ok(1)
    } else {
        Ok(c as u8)
    }
}

/// Checks that the lines of the page are whole numbers of chunks.
fn check_layout(header: &CupsPageHeaderV1) -> (r: Result<(), CupsRasterError>)
    ensures
        r is Err <==> layout_error(header.color_order.spec_code(), header.bits_per_pixel, header.bits_per_color, header.bytes_per_line) is Some,
        r matches Err(e) ==> layout_error(header.color_order.spec_code(), header.bits_per_pixel, header.bits_per_color, header.bytes_per_line) == Some(e),
{
    let c = chunk_size_of(header)?;
    if header.bytes_per_line != 0 && header.bytes_per_line % (c as u32) != 0 {
        return Err(CupsRasterError::DataLayoutError);
    }
    Ok(())
}

/// The first failure met while reading a version 1 page header from `b`, if any.
pub open spec fn header_v1_error(order: RasterByteOrder, b: Seq<u8>) -> Option<CupsRasterError> {
    if !valid_utf8(c_string_at(b, 0)) {
        Some(CupsRasterError::InvalidString)
    } else if !valid_utf8(c_string_at(b, 64)) {
        Some(CupsRasterError::InvalidString)
    } else if !valid_utf8(c_string_at(b, 128)) {
        Some(CupsRasterError::InvalidString)
    } else if !valid_utf8(c_string_at(b, 192)) {
        Some(CupsRasterError::InvalidString)
    } else if !CupsAdvance::spec_is_code(u32_at(order, b, 260)) {
        Some(CupsRasterError::UnknownAdvanceMedia)
    } else if !CupsCut::spec_is_code(u32_at(order, b, 268)) {
        Some(CupsRasterError::UnknownCutMedia)
    } else if !CupsJog::spec_is_code(u32_at(order, b, 304)) {
        Some(CupsRasterError::UnknownJog)
    } else if !CupsLeadingEdge::spec_is_code(u32_at(order, b, 308)) {
        Some(CupsRasterError::UnknownLeadingEdge)
    } else if !CupsOrientation::spec_is_code(u32_at(order, b, 344)) {
        Some(CupsRasterError::UnknownOrientation)
    } else if !CupsColorOrder::spec_is_code(u32_at(order, b, 396)) {
        Some(CupsRasterError::UnknownColorOrder)
    } else if !CupsColorSpace::spec_is_code(u32_at(order, b, 400)) {
        Some(CupsRasterError::UnknownColorSpace)
    } else {
        layout_error(
            u32_at(order, b, 396),
            u32_at(order, b, 388),
            u32_at(order, b, 384),
            u32_at(order, b, 392),
        )
    }
}

/// The fields of `h` are those held in the bytes `b` of a version 1 page header.
pub open spec fn header_v1_fields(order: RasterByteOrder, b: Seq<u8>, h: CupsPageHeaderV1) -> bool {
    &&& h.media_class@ == decode_utf8(c_string_at(b, 0))
    &&& h.media_color@ == decode_utf8(c_string_at(b, 64))
    &&& h.media_type@ == decode_utf8(c_string_at(b, 128))
    &&& h.output_type@ == decode_utf8(c_string_at(b, 192))
    &&& h.advance_distance == u32_at(order, b, 256)
    &&& h.advance_media.spec_code() == u32_at(order, b, 260)
    &&& h.collate == bool_at(b, 264)
    &&& h.cut_media.spec_code() == u32_at(order, b, 268)
    &&& h.duplex == bool_at(b, 272)
    &&& h.resolution.cross_feed == u32_at(order, b, 276)
    &&& h.resolution.feed == u32_at(order, b, 280)
    &&& h.imaging_bbox.left == u32_at(order, b, 284)
    &&& h.imaging_bbox.bottom == u32_at(order, b, 288)
    &&& h.imaging_bbox.right == u32_at(order, b, 292)
    &&& h.imaging_bbox.top == u32_at(order, b, 296)
    &&& h.insert_sheet == bool_at(b, 300)
    &&& h.jog.spec_code() == u32_at(order, b, 304)
    &&& h.leading_edge.spec_code() == u32_at(order, b, 308)
    &&& h.margins.left == u32_at(order, b, 312)
    &&& h.margins.bottom == u32_at(order, b, 316)
    &&& h.manual_feed == bool_at(b, 320)
    &&& h.media_position == u32_at(order, b, 324)
    &&& h.media_weight == u32_at(order, b, 328)
    &&& h.mirror_print == bool_at(b, 332)
    &&& h.negative_print == bool_at(b, 336)
    &&& h.num_copies == u32_at(order, b, 340)
    &&& h.orientation.spec_code() == u32_at(order, b, 344)
    &&& h.output_face_up == bool_at(b, 348)
    &&& h.page_size.width == u32_at(order, b, 352)
    &&& h.page_size.height == u32_at(order, b, 356)
    &&& h.separations == bool_at(b, 360)
    &&& h.tray_switch == bool_at(b, 364)
    &&& h.tumble == bool_at(b, 368)
    &&& h.width == u32_at(order, b, 372)
    &&& h.height == u32_at(order, b, 376)
    &&& h.cups_media_type == u32_at(order, b, 380)
    &&& h.bits_per_color == u32_at(order, b, 384)
    &&& h.bits_per_pixel == u32_at(order, b, 388)
    &&& h.bytes_per_line == u32_at(order, b, 392)
    &&& h.color_order.spec_code() == u32_at(order, b, 396)
    &&& h.color_space.spec_code() == u32_at(order, b, 400)
    &&& h.cups_compression == u32_at(order, b, 404)
    &&& h.cups_row_count == u32_at(order, b, 408)
    &&& h.cups_row_feed == u32_at(order, b, 412)
    &&& h.cups_row_step == u32_at(order, b, 416)
}

/// The 420 bytes of a version 1 page header, when every string fits its field.
pub open spec fn header_v1_bytes(order: RasterByteOrder, h: CupsPageHeaderV1) -> Seq<u8> {
    c_string_bytes(h.media_class@)
        + c_string_bytes(h.media_color@)
        + c_string_bytes(h.media_type@)
        + c_string_bytes(h.output_type@)
        + u32_bytes(order, h.advance_distance)
        + u32_bytes(order, h.advance_media.spec_code())
        + u32_bytes(order, if h.collate { 1 } else { 0 })
        + u32_bytes(order, h.cut_media.spec_code())
        + u32_bytes(order, if h.duplex { 1 } else { 0 })
        + u32_bytes(order, h.resolution.cross_feed)
        + u32_bytes(order, h.resolution.feed)
        + u32_bytes(order, h.imaging_bbox.left)
        + u32_bytes(order, h.imaging_bbox.bottom)
        + u32_bytes(order, h.imaging_bbox.right)
        + u32_bytes(order, h.imaging_bbox.top)
        + u32_bytes(order, if h.insert_sheet { 1 } else { 0 })
        + u32_bytes(order, h.jog.spec_code())
        + u32_bytes(order, h.leading_edge.spec_code())
        + u32_bytes(order, h.margins.left)
        + u32_bytes(order, h.margins.bottom)
        + u32_bytes(order, if h.manual_feed { 1 } else { 0 })
        + u32_bytes(order, h.media_position)
        + u32_bytes(order, h.media_weight)
        + u32_bytes(order, if h.mirror_print { 1 } else { 0 })
        + u32_bytes(order, if h.negative_print { 1 } else { 0 })
        + u32_bytes(order, h.num_copies)
        + u32_bytes(order, h.orientation.spec_code())
        + u32_bytes(order, if h.output_face_up { 1 } else { 0 })
        + u32_bytes(order, h.page_size.width)
        + u32_bytes(order, h.page_size.height)
        + u32_bytes(order, if h.separations { 1 } else { 0 })
        + u32_bytes(order, if h.tray_switch { 1 } else { 0 })
        + u32_bytes(order, if h.tumble { 1 } else { 0 })
        + u32_bytes(order, h.width)
        + u32_bytes(order, h.height)
        + u32_bytes(order, h.cups_media_type)
        + u32_bytes(order, h.bits_per_color)
        + u32_bytes(order, h.bits_per_pixel)
        + u32_bytes(order, h.bytes_per_line)
        + u32_bytes(order, h.color_order.spec_code())
        + u32_bytes(order, h.color_space.spec_code())
        + u32_bytes(order, h.cups_compression)
        + u32_bytes(order, h.cups_row_count)
        + u32_bytes(order, h.cups_row_feed)
        + u32_bytes(order, h.cups_row_step)
}

/// Whether every string of `h` fits its 64-byte field.
pub open spec fn header_v1_strings_fit(h: CupsPageHeaderV1) -> bool {
    encode_utf8(h.media_class@).len() <= 64
    && encode_utf8(h.media_color@).len() <= 64
    && encode_utf8(h.media_type@).len() <= 64
    && encode_utf8(h.output_type@).len() <= 64
}

/// Reads a version 1 page header from its 420 bytes, in the byte order `order`. Fails with the
/// error of the first field that is not valid, then with `DataTooLarge` or `DataLayoutError`
/// when the pixel layout cannot be followed.
#[verifier::rlimit(60)]
pub fn read_page_header_v1(order: RasterByteOrder, content: &[u8]) -> (r: Result<CupsPageHeaderV1, CupsRasterError>)
    requires
        content@.len() == CUPS_V1_HEADER_SIZE,
    ensures
        r is Err <==> header_v1_error(order, content@) is Some,
        r matches Err(e) ==> header_v1_error(order, content@) == Some(e),
        r matches Ok(h) ==> header_v1_fields(order, content@, h),
{
    let media_class = read_c_string(content, 0)?;
    let media_color = read_c_string(content, 64)?;
    let media_type = read_c_string(content, 128)?;
    let output_type = read_c_string(content, 192)?;
    let advance_media = match CupsAdvance::from_code(read_u32(order, content, 260)) {
        Some(v) => v,
        None => return Err(CupsRasterError::UnknownAdvanceMedia),
    };
    let cut_media = match CupsCut::from_code(read_u32(order, content, 268)) {
        Some(v) => v,
        None => return Err(CupsRasterError::UnknownCutMedia),
    };
    let jog = match CupsJog::from_code(read_u32(order, content, 304)) {
        Some(v) => v,
        None => return Err(CupsRasterError::UnknownJog),
    };
    let leading_edge = match CupsLeadingEdge::from_code(read_u32(order, content, 308)) {
        Some(v) => v,
        None => return Err(CupsRasterError::UnknownLeadingEdge),
    };
    let orientation = match CupsOrientation::from_code(read_u32(order, content, 344)) {
        Some(v) => v,
        None => return Err(CupsRasterError::UnknownOrientation),
    };
    let color_order = match CupsColorOrder::from_code(read_u32(order, content, 396)) {
        Some(v) => v,
        None => return Err(CupsRasterError::UnknownColorOrder),
    };
    let color_space = match CupsColorSpace::from_code(read_u32(order, content, 400)) {
        Some(v) => v,
        None => return Err(CupsRasterError::UnknownColorSpace),
    };
    let header = CupsPageHeaderV1 {
        media_class: media_class,
        media_color: media_color,
        media_type: media_type,
        output_type: output_type,
        advance_distance: read_u32(order, content, 256),
        advance_media: advance_media,
        collate: read_bool(content, 264),
        cut_media: cut_media,
        duplex: read_bool(content, 272),
        resolution: CupsResolution {
            cross_feed: read_u32(order, content, 276),
            feed: read_u32(order, content, 280),
        },
        imaging_bbox: CupsImagingBoundingBox {
            left: read_u32(order, content, 284),
            bottom: read_u32(order, content, 288),
            right: read_u32(order, content, 292),
            top: read_u32(order, content, 296),
        },
        insert_sheet: read_bool(content, 300),
        jog: jog,
        leading_edge: leading_edge,
        margins: CupsMargins {
            left: read_u32(order, content, 312),
            bottom: read_u32(order, content, 316),
        },
        manual_feed: read_bool(content, 320),
        media_position: read_u32(order, content, 324),
        media_weight: read_u32(order, content, 328),
        mirror_print: read_bool(content, 332),
        negative_print: read_bool(content, 336),
        num_copies: read_u32(order, content, 340),
        orientation: orientation,
        output_face_up: read_bool(content, 348),
        page_size: CupsPageSize {
            width: read_u32(order, content, 352),
            height: read_u32(order, content, 356),
        },
        separations: read_bool(content, 360),
        tray_switch: read_bool(content, 364),
        tumble: read_bool(content, 368),
        width: read_u32(order, content, 372),
        height: read_u32(order, content, 376),
        cups_media_type: read_u32(order, content, 380),
        bits_per_color: read_u32(order, content, 384),
        bits_per_pixel: read_u32(order, content, 388),
        bytes_per_line: read_u32(order, content, 392),
        color_order: color_order,
        color_space: color_space,
        cups_compression: read_u32(order, content, 404),
        cups_row_count: read_u32(order, content, 408),
        cups_row_feed: read_u32(order, content, 412),
        cups_row_step: read_u32(order, content, 416),
    };
    check_layout(&header)?;
    proof {
        assert(header_v1_fields(order, content@, header));
    }
    Ok(header)
}

/// Writes a version 1 page header as its 420 bytes, in the byte order `order`. Fails with
/// `StringTooLong` when a string does not fit its 64-byte field.
pub fn write_page_header_v1(order: RasterByteOrder, header: &CupsPageHeaderV1) -> (r: Result<Vec<u8>, CupsRasterError>)
    ensures
        r is Ok <==> header_v1_strings_fit(*header),
        r is Err ==> r == Err::<Vec<u8>, CupsRasterError>(CupsRasterError::StringTooLong),
        r matches Ok(v) ==> v@ == header_v1_bytes(order, *header),
{
    let mut out: Vec<u8> = Vec::new();
    write_c_string(&mut out, &header.media_class)?;
    assert(out@ =~= c_string_bytes(header.media_class@));
    write_c_string(&mut out, &header.media_color)?;
    write_c_string(&mut out, &header.media_type)?;
    write_c_string(&mut out, &header.output_type)?;
    write_u32(order, &mut out, header.advance_distance);
    write_u32(order, &mut out, header.advance_media.code());
    write_bool(order, &mut out, header.collate);
    write_u32(order, &mut out, header.cut_media.code());
    write_bool(order, &mut out, header.duplex);
    write_u32(order, &mut out, header.resolution.cross_feed);
    write_u32(order, &mut out, header.resolution.feed);
    write_u32(order, &mut out, header.imaging_bbox.left);
    write_u32(order, &mut out, header.imaging_bbox.bottom);
    write_u32(order, &mut out, header.imaging_bbox.right);
    write_u32(order, &mut out, header.imaging_bbox.top);
    write_bool(order, &mut out, header.insert_sheet);
    write_u32(order, &mut out, header.jog.code());
    write_u32(order, &mut out, header.leading_edge.code());
    write_u32(order, &mut out, header.margins.left);
    write_u32(order, &mut out, header.margins.bottom);
    write_bool(order, &mut out, header.manual_feed);
    write_u32(order, &mut out, header.media_position);
    write_u32(order, &mut out, header.media_weight);
    write_bool(order, &mut out, header.mirror_print);
    write_bool(order, &mut out, header.negative_print);
    write_u32(order, &mut out, header.num_copies);
    write_u32(order, &mut out, header.orientation.code());
    write_bool(order, &mut out, header.output_face_up);
    write_u32(order, &mut out, header.page_size.width);
    write_u32(order, &mut out, header.page_size.height);
    write_bool(order, &mut out, header.separations);
    write_bool(order, &mut out, header.tray_switch);
    write_bool(order, &mut out, header.tumble);
    write_u32(order, &mut out, header.width);
    write_u32(order, &mut out, header.height);
    write_u32(order, &mut out, header.cups_media_type);
    write_u32(order, &mut out, header.bits_per_color);
    write_u32(order, &mut out, header.bits_per_pixel);
    write_u32(order, &mut out, header.bytes_per_line);
    write_u32(order, &mut out, header.color_order.code());
    write_u32(order, &mut out, header.color_space.code());
    write_u32(order, &mut out, header.cups_compression);
    write_u32(order, &mut out, header.cups_row_count);
    write_u32(order, &mut out, header.cups_row_feed);
    write_u32(order, &mut out, header.cups_row_step);
    assert(out@ == header_v1_bytes(order, *header));
    Ok(out)
}


/// No byte of the UTF-8 encoding of characters other than NUL is zero.
proof fn lemma_no_zero_bytes(s: Seq<char>)
    requires
        forall|i: int| 0 <= i < s.len() ==> (#[trigger] s[i]) as u32 != 0,
    ensures
        forall|i: int| 0 <= i < encode_utf8(s).len() ==> #[trigger] encode_utf8(s)[i] != 0,
    decreases s.len(),
{
    if s.len() > 0 {
        let rest = s.drop_first();
        assert forall|i: int| 0 <= i < rest.len() implies (#[trigger] rest[i]) as u32 != 0 by {
            assert(rest[i] == s[i + 1]);
        }
        lemma_no_zero_bytes(rest);
        let c = s[0] as u32;
        vstd::utf8::char_is_scalar(s[0]);
        let e = vstd::utf8::encode_scalar(c);
        assert(c != 0);
        assert forall|i: int| 0 <= i < e.len() implies e[i] != 0 by {
            if vstd::utf8::has_width_1_encoding(c) {
                assert((c & 0x7F) as u8 != 0) by (bit_vector)
                    requires
                        0 < c <= 0x7F,
                ;
            } else {
                assert(forall|x: u32| #[trigger] (0xC0u8 | ((x >> 6) & 0x1F) as u8) != 0) by (bit_vector);
                assert(forall|x: u32| #[trigger] (0xE0u8 | ((x >> 12) & 0x0F) as u8) != 0) by (bit_vector);
                assert(forall|x: u32| #[trigger] (0xF0u8 | ((x >> 18) & 0x7) as u8) != 0) by (bit_vector);
                assert(forall|x: u32| #[trigger] (0x80u8 | (x & 0x3F) as u8) != 0) by (bit_vector);
                assert(forall|x: u32| #[trigger] (0x80u8 | ((x >> 6) & 0x3F) as u8) != 0) by (bit_vector);
                assert(forall|x: u32| #[trigger] (0x80u8 | ((x >> 12) & 0x3F) as u8) != 0) by (bit_vector);
            }
        }
        assert(encode_utf8(s) == e + encode_utf8(rest));
    }
}

/// A C string holding bytes none of which is zero, then zeros, reads as those bytes.
proof fn lemma_c_string_len(x: Seq<u8>, n: int, i: int)
    requires
        0 <= i <= n <= x.len(),
        forall|k: int| i <= k < n ==> #[trigger] x[k] != 0,
        n == x.len() || x[n] == 0,
    ensures
        c_string_len(x, i) == n,
    decreases n - i,
{
    if i < n {
        lemma_c_string_len(x, n, i + 1);
    }
}

/// A string written to its 64-byte field reads back as the same string, when it fits the
/// field and holds no NUL character (a NUL ends a string when it is read).
pub proof fn lemma_c_string_round_trip(b: Seq<u8>, off: int, s: Seq<char>)
    requires
        0 <= off,
        off + 64 <= b.len(),
        encode_utf8(s).len() <= 64,
        forall|i: int| 0 <= i < s.len() ==> (#[trigger] s[i]) as u32 != 0,
        b.subrange(off, off + 64) == c_string_bytes(s),
    ensures
        valid_utf8(c_string_at(b, off)),
        decode_utf8(c_string_at(b, off)) == s,
{
    let e = encode_utf8(s);
    let field = b.subrange(off, off + 64);
    lemma_no_zero_bytes(s);
    assert forall|k: int| 0 <= k < e.len() implies #[trigger] field[k] != 0 by {
        assert(field[k] == e[k]);
    }
    lemma_c_string_len(field, e.len() as int, 0);
    assert(field.take(e.len() as int) =~= e);
    vstd::utf8::encode_utf8_valid_utf8(s);
    vstd::utf8::encode_utf8_decode_utf8(s);
}

/// The page header of a version 2 or 3 CUPS raster file. Its floating-point fields are held
/// as their IEEE 754 bits.
#[derive(Clone, Debug, PartialEq, Eq, Hash)]
pub struct CupsPageHeaderV2 {
    pub v1: CupsPageHeaderV1,
    /// The number of colors, or 0 to derive it from the color space.
    pub num_colors: u32,
    pub borderless_scaling_factor: u32,
    pub page_size_f32: CupsPageSize,
    pub imaging_bbox_f32: CupsImagingBoundingBox,
    pub vendor_u32: [u32; 16],
    /// As bits.
    pub vendor_f32: [u32; 16],
    pub vendor_str: [String; 16],
    pub marker_type: String,
    pub rendering_intent: String,
    pub page_size_name: String,
}

/// The number of colors of a version 2 header: its own field unless that is 0.
pub open spec fn spec_num_colors_v2(h: CupsPageHeaderV2) -> u32 {
    if h.num_colors == 0 {
        spec_num_colors(h.v1.color_space, h.v1.bits_per_pixel)
    } else {
        h.num_colors
    }
}

impl CupsPageHeaderV2 {
    /// The number of color components of a pixel.
    pub fn num_colors(&self) -> (r: u32)
        ensures
            r == spec_num_colors_v2(*self),
    {
        if self.num_colors == 0 {
            self.v1.num_colors()
        } else {
            self.num_colors
        }
    }

    /// A version 2 header that carries `v1` and leaves every later field zero or empty.
    pub fn from_v1(v1: CupsPageHeaderV1) -> (r: CupsPageHeaderV2)
        ensures
            r.v1 == v1,
            r.num_colors == 0,
            r.vendor_u32@ == Seq::new(16, |i: int| 0u32),
            r.vendor_f32@ == Seq::new(16, |i: int| 0u32),
            r.vendor_str@.len() == 16,
            forall|i: int| 0 <= i < 16 ==> (#[trigger] r.vendor_str@[i])@.len() == 0,
            r.marker_type@.len() == 0,
            r.rendering_intent@.len() == 0,
            r.page_size_name@.len() == 0,
    {
        let vendor_u32: [u32; 16] = [0u32, 0u32, 0u32, 0u32, 0u32, 0u32, 0u32, 0u32, 0u32, 0u32, 0u32, 0u32, 0u32, 0u32, 0u32, 0u32];
        let vendor_f32: [u32; 16] = [0u32, 0u32, 0u32, 0u32, 0u32, 0u32, 0u32, 0u32, 0u32, 0u32, 0u32, 0u32, 0u32, 0u32, 0u32, 0u32];
        let vendor_str: [String; 16] = [String::new(), String::new(), String::new(), String::new(), String::new(), String::new(), String::new(), String::new(), String::new(), String::new(), String::new(), String::new(), String::new(), String::new(), String::new(), String::new()];
        assert(vendor_u32@ =~= Seq::new(16, |i: int| 0u32));
        assert(vendor_f32@ =~= Seq::new(16, |i: int| 0u32));
        CupsPageHeaderV2 {
            v1,
            num_colors: 0,
            borderless_scaling_factor: 0,
            page_size_f32: CupsPageSize { width: 0, height: 0 },
            imaging_bbox_f32: CupsImagingBoundingBox { left: 0, bottom: 0, right: 0, top: 0 },
            vendor_u32,
            vendor_f32,
            vendor_str,
            marker_type: String::new(),
            rendering_intent: String::new(),
            page_size_name: String::new(),
        }
    }
}

/// The sixteen 32-bit values at `off`.
pub open spec fn u32_array_at(order: RasterByteOrder, b: Seq<u8>, off: int) -> Seq<u32> {
    Seq::new(16, |i: int| u32_at(order, b, off + 4 * i))
}

fn read_u32_array(order: RasterByteOrder, content: &[u8], off: usize) -> (a: [u32; 16])
    requires
        off + 64 <= content@.len(),
    ensures
        a@ == u32_array_at(order, content@, off as int),
{
    let total = content.len();
    let mut r: Vec<u32> = Vec::new();
    let mut i: usize = 0;
    while i < 16
        invariant
            i <= 16,
            total == content@.len(),
            off + 64 <= content@.len(),
            r@ == u32_array_at(order, content@, off as int).take(i as int),
        decreases 16 - i,
    {
        r.push(read_u32(order, content, off + 4 * i));
        i = i + 1;
        assert(r@ =~= u32_array_at(order, content@, off as int).take(i as int));
    }
    assert(r@ =~= u32_array_at(order, content@, off as int));
    let a: [u32; 16] = [r[0], r[1], r[2], r[3], r[4], r[5], r[6], r[7], r[8], r[9], r[10], r[11], r[12], r[13], r[14], r[15]];
    assert(a@ =~= r@);
    a
}

/// Reads the string of a vendor field: its text when valid, else empty.
fn vendor_string(content: &[u8], off: usize) -> (r: String)
    requires
        off + 64 <= content@.len(),
    ensures
        r@ == vendor_string_at(content@, off as int),
{
    match read_c_string(content, off) {
        Ok(s) => s,
        Err(_) => String::new(),
    }
}

/// The string of a vendor field: its text when valid, else empty.
pub open spec fn vendor_string_at(b: Seq<u8>, off: int) -> Seq<char> {
    if valid_utf8(c_string_at(b, off)) {
        decode_utf8(c_string_at(b, off))
    } else {
        Seq::empty()
    }
}

/// The first failure met while reading a version 2 page header from `b`, if any.
pub open spec fn header_v2_error(order: RasterByteOrder, b: Seq<u8>) -> Option<CupsRasterError> {
    match header_v1_error(order, b.take(420)) {
        Some(e) => Some(e),
        None => if valid_utf8(c_string_at(b, 1604)) && valid_utf8(c_string_at(b, 1668))
            && valid_utf8(c_string_at(b, 1732)) {
            None
        } else {
            Some(CupsRasterError::InvalidString)
        },
    }
}

/// The fields of `h` are those held in the bytes `b` of a version 2 page header.
pub open spec fn header_v2_fields(order: RasterByteOrder, b: Seq<u8>, h: CupsPageHeaderV2) -> bool {
    &&& header_v1_fields(order, b.take(420), h.v1)
    &&& h.num_colors == u32_at(order, b, 420)
    &&& h.borderless_scaling_factor == u32_at(order, b, 424)
    &&& h.page_size_f32.width == u32_at(order, b, 428)
    &&& h.page_size_f32.height == u32_at(order, b, 432)
    &&& h.imaging_bbox_f32.left == u32_at(order, b, 436)
    &&& h.imaging_bbox_f32.bottom == u32_at(order, b, 440)
    &&& h.imaging_bbox_f32.right == u32_at(order, b, 444)
    &&& h.imaging_bbox_f32.top == u32_at(order, b, 448)
    &&& h.vendor_u32@ == u32_array_at(order, b, 452)
    &&& h.vendor_f32@ == u32_array_at(order, b, 516)
    &&& h.vendor_str@.len() == 16
    &&& forall|i: int|
        0 <= i < 16 ==> (#[trigger] h.vendor_str@[i])@ == vendor_string_at(b, 580 + 64 * i)
    &&& h.marker_type@ == decode_utf8(c_string_at(b, 1604))
    &&& h.rendering_intent@ == decode_utf8(c_string_at(b, 1668))
    &&& h.page_size_name@ == decode_utf8(c_string_at(b, 1732))
}

/// Reads a version 2 page header from its 1796 bytes. Fails as the version 1 part does, then
/// with `InvalidString` when one of the three trailing strings is not valid UTF-8; a vendor
/// string that is not valid reads as the empty string.
pub fn read_page_header_v2(order: RasterByteOrder, content: &[u8]) -> (r: Result<
    CupsPageHeaderV2,
    CupsRasterError,
>)
    requires
        content@.len() == CUPS_V2_HEADER_SIZE,
    ensures
        r is Err <==> header_v2_error(order, content@) is Some,
        r matches Err(e) ==> header_v2_error(order, content@) == Some(e),
        r matches Ok(h) ==> header_v2_fields(order, content@, h),
{
    let first = vstd::slice::slice_subrange(content, 0, 420);
    assert(first@ =~= content@.take(420));
    let v1 = read_page_header_v1(order, first)?;
    let vendor_u32 = read_u32_array(order, content, 452);
    let vendor_f32 = read_u32_array(order, content, 516);
    let vendor_str: [String; 16] = [vendor_string(content, 580), vendor_string(content, 644), vendor_string(content, 708), vendor_string(content, 772), vendor_string(content, 836), vendor_string(content, 900), vendor_string(content, 964), vendor_string(content, 1028), vendor_string(content, 1092), vendor_string(content, 1156), vendor_string(content, 1220), vendor_string(content, 1284), vendor_string(content, 1348), vendor_string(content, 1412), vendor_string(content, 1476), vendor_string(content, 1540)];
    assert forall|i: int| 0 <= i < 16 implies (#[trigger] vendor_str@[i])@ == vendor_string_at(
        content@,
        580 + 64 * i,
    ) by {
        assert(0 <= i < 16);
    }
    let marker_type = read_c_string(content, 1604)?;
    let rendering_intent = read_c_string(content, 1668)?;
    let page_size_name = read_c_string(content, 1732)?;
    Ok(
        CupsPageHeaderV2 {
            v1,
            num_colors: read_u32(order, content, 420),
            borderless_scaling_factor: read_u32(order, content, 424),
            page_size_f32: CupsPageSize {
                width: read_u32(order, content, 428),
                height: read_u32(order, content, 432),
            },
            imaging_bbox_f32: CupsImagingBoundingBox {
                left: read_u32(order, content, 436),
                bottom: read_u32(order, content, 440),
                right: read_u32(order, content, 444),
                top: read_u32(order, content, 448),
            },
            vendor_u32,
            vendor_f32,
            vendor_str,
            marker_type,
            rendering_intent,
            page_size_name,
        },
    )
}

/// The bytes of sixteen 32-bit values.
pub open spec fn u32_array_bytes(order: RasterByteOrder, v: Seq<u32>, n: nat) -> Seq<u8>
    decreases n,
{
    if n == 0 {
        Seq::empty()
    } else {
        u32_array_bytes(order, v, (n - 1) as nat) + u32_bytes(order, v[n - 1])
    }
}

/// The bytes of the first `n` vendor strings.
pub open spec fn strings_bytes(v: Seq<String>, n: nat) -> Seq<u8>
    decreases n,
{
    if n == 0 {
        Seq::empty()
    } else {
        strings_bytes(v, (n - 1) as nat) + c_string_bytes(v[n - 1]@)
    }
}

/// Whether the first `n` strings fit their 64-byte fields.
pub open spec fn strings_fit(v: Seq<String>, n: nat) -> bool {
    forall|i: int| 0 <= i < n ==> encode_utf8((#[trigger] v[i])@).len() <= 64
}

/// Whether every string of `h` fits its 64-byte field.
pub open spec fn header_v2_strings_fit(h: CupsPageHeaderV2) -> bool {
    header_v1_strings_fit(h.v1) && strings_fit(h.vendor_str@, 16)
            && encode_utf8(h.marker_type@).len() <= 64 && encode_utf8(
            h.rendering_intent@,
        ).len() <= 64 && encode_utf8(h.page_size_name@).len() <= 64
}

/// The 1796 bytes of a version 2 page header, when every string fits its field.
pub open spec fn header_v2_bytes(order: RasterByteOrder, h: CupsPageHeaderV2) -> Seq<u8> {
    header_v1_bytes(order, h.v1) + u32_bytes(
            order,
            h.num_colors,
        ) + u32_bytes(order, h.borderless_scaling_factor) + u32_bytes(
            order,
            h.page_size_f32.width,
        ) + u32_bytes(order, h.page_size_f32.height) + u32_bytes(
            order,
            h.imaging_bbox_f32.left,
        ) + u32_bytes(order, h.imaging_bbox_f32.bottom) + u32_bytes(
            order,
            h.imaging_bbox_f32.right,
        ) + u32_bytes(order, h.imaging_bbox_f32.top) + u32_array_bytes(
            order,
            h.vendor_u32@,
            16,
        ) + u32_array_bytes(order, h.vendor_f32@, 16) + strings_bytes(
            h.vendor_str@,
            16,
        ) + c_string_bytes(h.marker_type@) + c_string_bytes(h.rendering_intent@)
            + c_string_bytes(h.page_size_name@)
}

/// Writes a version 2 page header as its 1796 bytes. Fails with `StringTooLong` when a
/// string does not fit its field.
pub fn write_page_header_v2(order: RasterByteOrder, header: &CupsPageHeaderV2) -> (r: Result<
    Vec<u8>,
    CupsRasterError,
>)
    ensures
        r is Ok <==> header_v2_strings_fit(*header),
        r is Err ==> r == Err::<Vec<u8>, CupsRasterError>(CupsRasterError::StringTooLong),
        r matches Ok(v) ==> v@ == header_v2_bytes(order, *header),
{
    let mut out = write_page_header_v1(order, &header.v1)?;
    write_u32(order, &mut out, header.num_colors);
    write_u32(order, &mut out, header.borderless_scaling_factor);
    write_u32(order, &mut out, header.page_size_f32.width);
    write_u32(order, &mut out, header.page_size_f32.height);
    write_u32(order, &mut out, header.imaging_bbox_f32.left);
    write_u32(order, &mut out, header.imaging_bbox_f32.bottom);
    write_u32(order, &mut out, header.imaging_bbox_f32.right);
    write_u32(order, &mut out, header.imaging_bbox_f32.top);
    let ghost before_u = out@;
    let mut i: usize = 0;
    while i < 16
        invariant
            i <= 16,
            header.vendor_u32@.len() == 16,
            out@ == before_u + u32_array_bytes(order, header.vendor_u32@, i as nat),
        decreases 16 - i,
    {
        write_u32(order, &mut out, header.vendor_u32[i]);
        i = i + 1;
        assert(out@ =~= before_u + u32_array_bytes(order, header.vendor_u32@, i as nat));
    }
    let ghost before_f = out@;
    let mut i: usize = 0;
    while i < 16
        invariant
            i <= 16,
            header.vendor_f32@.len() == 16,
            out@ == before_f + u32_array_bytes(order, header.vendor_f32@, i as nat),
        decreases 16 - i,
    {
        write_u32(order, &mut out, header.vendor_f32[i]);
        i = i + 1;
        assert(out@ =~= before_f + u32_array_bytes(order, header.vendor_f32@, i as nat));
    }
    let ghost before_s = out@;
    let mut i: usize = 0;
    while i < 16
        invariant
            i <= 16,
            header.vendor_str@.len() == 16,
            strings_fit(header.vendor_str@, i as nat),
            out@ == before_s + strings_bytes(header.vendor_str@, i as nat),
        decreases 16 - i,
    {
        match write_c_string(&mut out, &header.vendor_str[i]) {
            Ok(()) => {},
            Err(e) => {
                return Err(e);
            },
        }
        i = i + 1;
        assert(out@ =~= before_s + strings_bytes(header.vendor_str@, i as nat));
    }
    write_c_string(&mut out, &header.marker_type)?;
    write_c_string(&mut out, &header.rendering_intent)?;
    write_c_string(&mut out, &header.page_size_name)?;
    Ok(out)
}

/// The size of the decoded page that a header describes, given its number of colors.
pub open spec fn spec_num_bytes(h: CupsPageHeaderV1, num_colors: u32) -> Option<u64> {
    let base = h.bytes_per_line as int * h.height as int;
    if h.color_order is Planar {
        if base * num_colors as int > u64::MAX {
            None
        } else {
            Some((base * num_colors as int) as u64)
        }
    } else {
        Some(base as u64)
    }
}

/// Whether blank is `0xFF` in `space` (additive color spaces).
pub open spec fn spec_is_additive(space: CupsColorSpace) -> bool {
    match space {
        CupsColorSpace::sGray | CupsColorSpace::sRGB | CupsColorSpace::CIELab
        | CupsColorSpace::AdobeRGB | CupsColorSpace::Gray | CupsColorSpace::RGB
        | CupsColorSpace::RGBA | CupsColorSpace::RGBW => true,
        _ => false,
    }
}

/// The codec parameters of a compressed CUPS page with `num_colors` colors.
pub open spec fn spec_cups_params(h: CupsPageHeaderV1, num_colors: u32) -> Result<
    CodecParams,
    CupsRasterError,
> {
    match spec_chunk_size(h.color_order.spec_code(), h.bits_per_pixel, h.bits_per_color) {
        None => Err(CupsRasterError::DataTooLarge),
        Some(chunk_size) => match spec_num_bytes(h, num_colors) {
            None => Err(CupsRasterError::DataTooLarge),
            Some(num_bytes) => Ok(
                CodecParams {
                    chunk_size,
                    bytes_per_line: h.bytes_per_line as u64,
                    num_bytes,
                    fill_byte: if spec_is_additive(h.color_space) {
                        0xFF
                    } else {
                        0x00
                    },
                },
            ),
        },
    }
}

/// The size of the decoded page; fails with `DataTooLarge` when it overflows.
pub fn num_bytes_of(h: &CupsPageHeaderV1, num_colors: u32) -> (r: Result<u64, CupsRasterError>)
    ensures
        r is Ok <==> spec_num_bytes(*h, num_colors) is Some,
        r matches Ok(n) ==> spec_num_bytes(*h, num_colors) == Some(n),
        r is Err ==> r == Err::<u64, CupsRasterError>(CupsRasterError::DataTooLarge),
{
    proof {
        let a = h.bytes_per_line as int;
        let b = h.height as int;
        assert(a * b <= 0xFFFF_FFFF * 0xFFFF_FFFF) by (nonlinear_arith)
            requires
                0 <= a <= 0xFFFF_FFFF,
                0 <= b <= 0xFFFF_FFFF,
        ;
    }
    let base = h.bytes_per_line as u64 * h.height as u64;
    match h.color_order {
        CupsColorOrder::Planar => match base.checked_mul(num_colors as u64) {
            Some(n) => Ok(n),
            None => Err(CupsRasterError::DataTooLarge),
        },
        _ => Ok(base),
    }
}

/// The codec parameters of a compressed page with `num_colors` colors.
pub fn cups_params(h: &CupsPageHeaderV1, num_colors: u32) -> (r: Result<
    CodecParams,
    CupsRasterError,
>)
    ensures
        r == spec_cups_params(*h, num_colors),
{
    let chunk_size = chunk_size_of(h)?;
    let num_bytes = num_bytes_of(h, num_colors)?;
    let fill_byte: u8 = match h.color_space {
        CupsColorSpace::sGray | CupsColorSpace::sRGB | CupsColorSpace::CIELab
        | CupsColorSpace::AdobeRGB | CupsColorSpace::Gray | CupsColorSpace::RGB
        | CupsColorSpace::RGBA | CupsColorSpace::RGBW => 0xFF,
        _ => 0x00,
    };
    Ok(CodecParams { chunk_size, bytes_per_line: h.bytes_per_line as u64, num_bytes, fill_byte })
}

/// Chooses the codecs of version 1 pages: uncompressed.
pub struct CupsPageFactoryV1;

/// Chooses the codecs of version 2 pages: compressed.
pub struct CupsPageFactoryV2;

/// Chooses the codecs of version 3 pages: uncompressed.
pub struct CupsPageFactoryV3;

/// The byte total of a plain page with `num_colors` colors, or why it cannot be decoded
/// within `limits`.
pub open spec fn plain_body(h: CupsPageHeaderV1, num_colors: u32, limits: Limits) -> Result<u64, CupsRasterError> {
    match spec_num_bytes(h, num_colors) {
        None => Err(CupsRasterError::DataTooLarge),
        Some(n) => if n <= limits.bytes_per_page {
            Ok(n)
        } else {
            Err(CupsRasterError::Codec(CodecError::InvalidData))
        },
    }
}

/// The codec parameters of a compressed page with `num_colors` colors, or why it cannot be
/// decoded within `limits`.
pub open spec fn compressed_body(h: CupsPageHeaderV1, num_colors: u32, limits: Limits) -> Result<CodecParams, CupsRasterError> {
    match spec_cups_params(h, num_colors) {
        Err(e) => Err(e),
        Ok(p) => if decoder_params_ok(limits, p.chunk_size, p.bytes_per_line, p.num_bytes) {
            Ok(p)
        } else {
            Err(CupsRasterError::Codec(CodecError::InvalidData))
        },
    }
}

/// The codec parameters of a compressed page with `num_colors` colors, or why no encoder can
/// be made for it.
pub open spec fn compressed_body_out(h: CupsPageHeaderV1, num_colors: u32) -> Result<CodecParams, CupsRasterError> {
    match spec_cups_params(h, num_colors) {
        Err(e) => Err(e),
        Ok(p) => if layout_ok(p.chunk_size, p.bytes_per_line, p.num_bytes) && min_u64(p.bytes_per_line, p.num_bytes) <= usize::MAX {
            Ok(p)
        } else {
            Err(CupsRasterError::Codec(CodecError::InvalidData))
        },
    }
}

/// The byte total of a plain page with `num_colors` colors, or why no encoder can be made.
pub open spec fn plain_body_out(h: CupsPageHeaderV1, num_colors: u32) -> Result<u64, CupsRasterError> {
    match spec_num_bytes(h, num_colors) {
        None => Err(CupsRasterError::DataTooLarge),
        Some(n) => Ok(n),
    }
}

impl CupsPageFactoryV1 {
    pub fn decode(header: &CupsPageHeaderV1, limits: &Limits) -> (r: Result<
        UncompressedRasterDecoder,
        CupsRasterError,
    >)
        ensures
            r matches Ok(d) ==> plain_body(*header, spec_num_colors(header.color_space, header.bits_per_pixel), *limits) == Ok::<u64, CupsRasterError>(d.remaining()),
            r matches Err(e) ==> plain_body(*header, spec_num_colors(header.color_space, header.bits_per_pixel), *limits) == Err::<u64, CupsRasterError>(e),
    {
        let n = num_bytes_of(header, header.num_colors())?;
        match UncompressedRasterDecoder::new(limits, n) {
            Ok(d) => Ok(d),
            Err(e) => Err(CupsRasterError::Codec(e)),
        }
    }

    pub fn encode(header: &CupsPageHeaderV1) -> (r: Result<UncompressedRasterEncoder, CupsRasterError>)
        ensures
            r matches Ok(e) ==> plain_body_out(*header, spec_num_colors(header.color_space, header.bits_per_pixel)) == Ok::<u64, CupsRasterError>(e.remaining()),
            r matches Err(e) ==> plain_body_out(*header, spec_num_colors(header.color_space, header.bits_per_pixel)) == Err::<u64, CupsRasterError>(e),
    {
        let n = num_bytes_of(header, header.num_colors())?;
        Ok(UncompressedRasterEncoder::new(n))
    }
}

impl CupsPageFactoryV3 {
    pub fn decode(header: &CupsPageHeaderV2, limits: &Limits) -> (r: Result<
        UncompressedRasterDecoder,
        CupsRasterError,
    >)
        ensures
            r matches Ok(d) ==> plain_body(header.v1, spec_num_colors_v2(*header), *limits) == Ok::<u64, CupsRasterError>(d.remaining()),
            r matches Err(e) ==> plain_body(header.v1, spec_num_colors_v2(*header), *limits) == Err::<u64, CupsRasterError>(e),
    {
        let n = num_bytes_of(&header.v1, header.num_colors())?;
        match UncompressedRasterDecoder::new(limits, n) {
            Ok(d) => Ok(d),
            Err(e) => Err(CupsRasterError::Codec(e)),
        }
    }

    pub fn encode(header: &CupsPageHeaderV2) -> (r: Result<UncompressedRasterEncoder, CupsRasterError>)
        ensures
            r matches Ok(e) ==> plain_body_out(header.v1, spec_num_colors_v2(*header)) == Ok::<u64, CupsRasterError>(e.remaining()),
            r matches Err(e) ==> plain_body_out(header.v1, spec_num_colors_v2(*header)) == Err::<u64, CupsRasterError>(e),
    {
        let n = num_bytes_of(&header.v1, header.num_colors())?;
        Ok(UncompressedRasterEncoder::new(n))
    }
}

impl CupsPageFactoryV2 {
    /// The parameters of the page's codec.
    pub fn params(header: &CupsPageHeaderV2) -> (r: Result<CodecParams, CupsRasterError>)
        ensures
            r == spec_cups_params(header.v1, spec_num_colors_v2(*header)),
    {
        cups_params(&header.v1, header.num_colors())
    }

    pub fn decode(header: &CupsPageHeaderV2, limits: &Limits) -> (r: Result<
        CompressedRasterDecoder,
        CupsRasterError,
    >)
        ensures
            r matches Ok(d) ==> (compressed_body(header.v1, spec_num_colors_v2(*header), *limits) matches Ok(p)
                && crate::decoder::starts_page(d@, p)),
            r matches Err(e) ==> compressed_body(header.v1, spec_num_colors_v2(*header), *limits) == Err::<CodecParams, CupsRasterError>(e),
    {
        let p = Self::params(header)?;
        match CompressedRasterDecoder::new(limits, p.chunk_size, p.bytes_per_line, p.num_bytes, p.fill_byte) {
            Ok(d) => Ok(d),
            Err(e) => Err(CupsRasterError::Codec(e)),
        }
    }

    pub fn encode(header: &CupsPageHeaderV2) -> (r: Result<CompressedRasterEncoder, CupsRasterError>)
        ensures
            r matches Ok(e) ==> (compressed_body_out(header.v1, spec_num_colors_v2(*header)) matches Ok(p)
                && crate::encoder::starts_page(e@, p)),
            r matches Err(e) ==> compressed_body_out(header.v1, spec_num_colors_v2(*header)) == Err::<CodecParams, CupsRasterError>(e),
    {
        let p = Self::params(header)?;
        match CompressedRasterEncoder::new(p.chunk_size, p.bytes_per_line, p.num_bytes) {
            Ok(e) => Ok(e),
            Err(e) => Err(CupsRasterError::Codec(e)),
        }
    }
}

} // verus!
