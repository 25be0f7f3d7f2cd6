use vstd::prelude::*;

use crate::decoder::CompressedRasterDecoder;
use crate::decoder::decoder_params_ok;
use crate::encoder::CompressedRasterEncoder;
use crate::error::CodecError;
use crate::limits::Limits;
use crate::variant::CodecParams;
use crate::bytes::be_u32_at;
use crate::bytes::be_bytes;
use crate::bytes::read_be_u32;
use crate::bytes::push_be_u32;

verus! {

/// Failures while reading or writing a URF file.
#[derive(Clone, Copy, Debug, PartialEq, Eq, Structural)]
pub enum UrfError {
    /// The file does not start with `UNIRAST\0`.
    InvalidMagic,
    UnknownColorSpace,
    UnknownDuplex,
    UnknownQuality,
    UnknownMediaPosition,
    UnknownMediaType,
    /// The page's size overflows.
    DataTooLarge,
    /// The page codec refused the page's parameters.
    Codec(CodecError),
}

/// The color space of a URF page.
#[derive(Clone, Copy, Debug, PartialEq, Eq, Hash, Structural)]
#[allow(non_camel_case_types)]
pub enum UrfColorSpace {
    sGray,
    sRGB,
    CIELab,
    AdobeRGB,
    Gray,
    RGB,
    CMYK,
}

impl UrfColorSpace {
    /// The value that stands for this variant in a header.
    pub open spec fn spec_code(self) -> u8 {
        match self {
            UrfColorSpace::sGray => 0,
            UrfColorSpace::sRGB => 1,
            UrfColorSpace::CIELab => 2,
            UrfColorSpace::AdobeRGB => 3,
            UrfColorSpace::Gray => 4,
            UrfColorSpace::RGB => 5,
            UrfColorSpace::CMYK => 6,
        }
    }

    /// Whether `c` stands for a variant.
    pub open spec fn spec_is_code(c: u8) -> bool {
        (c <= 6)
    }

    pub fn code(&self) -> (r: u8)
        ensures
            r == self.spec_code(),
    {
        match self {
            UrfColorSpace::sGray => 0,
            UrfColorSpace::sRGB => 1,
            UrfColorSpace::CIELab => 2,
            UrfColorSpace::AdobeRGB => 3,
            UrfColorSpace::Gray => 4,
            UrfColorSpace::RGB => 5,
            UrfColorSpace::CMYK => 6,
        }
    }

    /// The variant that `c` stands for, if any.
    pub fn from_code(c: u8) -> (r: Option<UrfColorSpace>)
        ensures
            r is Some <==> UrfColorSpace::spec_is_code(c),
            r matches Some(e) ==> e.spec_code() == c,
    {
        match c {
            0 => Some(UrfColorSpace::sGray),
            1 => Some(UrfColorSpace::sRGB),
            2 => Some(UrfColorSpace::CIELab),
            3 => Some(UrfColorSpace::AdobeRGB),
            4 => Some(UrfColorSpace::Gray),
            5 => Some(UrfColorSpace::RGB),
            6 => Some(UrfColorSpace::CMYK),
            _ => None,
        }
    }
}

/// The media type of a URF page.
#[derive(Clone, Copy, Debug, PartialEq, Eq, Hash, Structural)]
pub enum UrfMediaType {
    Auto,
    Stationery,
    Transparency,
    Envelope,
    Cardstock,
    Labels,
    StationeryLetterhead,
    Disc,
    PhotographicMatte,
    PhotographicSatin,
    PhotographicSemiGloss,
    PhotographicGlossy,
    PhotographicHighGloss,
    Other,
}

impl UrfMediaType {
    /// The value that stands for this variant in a header.
    pub open spec fn spec_code(self) -> u8 {
        match self {
            UrfMediaType::Auto => 0,
            UrfMediaType::Stationery => 1,
            UrfMediaType::Transparency => 2,
            UrfMediaType::Envelope => 3,
            UrfMediaType::Cardstock => 4,
            UrfMediaType::Labels => 5,
            UrfMediaType::StationeryLetterhead => 6,
            UrfMediaType::Disc => 7,
            UrfMediaType::PhotographicMatte => 8,
            UrfMediaType::PhotographicSatin => 9,
            UrfMediaType::PhotographicSemiGloss => 10,
            UrfMediaType::PhotographicGlossy => 11,
            UrfMediaType::PhotographicHighGloss => 12,
            UrfMediaType::Other => 13,
        }
    }

    /// Whether `c` stands for a variant.
    pub open spec fn spec_is_code(c: u8) -> bool {
        (c <= 13)
    }

    pub fn code(&self) -> (r: u8)
        ensures
            r == self.spec_code(),
    {
        match self {
            UrfMediaType::Auto => 0,
            UrfMediaType::Stationery => 1,
            UrfMediaType::Transparency => 2,
            UrfMediaType::Envelope => 3,
            UrfMediaType::Cardstock => 4,
            UrfMediaType::Labels => 5,
            UrfMediaType::StationeryLetterhead => 6,
            UrfMediaType::Disc => 7,
            UrfMediaType::PhotographicMatte => 8,
            UrfMediaType::PhotographicSatin => 9,
            UrfMediaType::PhotographicSemiGloss => 10,
            UrfMediaType::PhotographicGlossy => 11,
            UrfMediaType::PhotographicHighGloss => 12,
            UrfMediaType::Other => 13,
        }
    }

    /// The variant that `c` stands for, if any.
    pub fn from_code(c: u8) -> (r: Option<UrfMediaType>)
        ensures
            r is Some <==> UrfMediaType::spec_is_code(c),
            r matches Some(e) ==> e.spec_code() == c,
    {
        match c {
            0 => Some(UrfMediaType::Auto),
            1 => Some(UrfMediaType::Stationery),
            2 => Some(UrfMediaType::Transparency),
            3 => Some(UrfMediaType::Envelope),
            4 => Some(UrfMediaType::Cardstock),
            5 => Some(UrfMediaType::Labels),
            6 => Some(UrfMediaType::StationeryLetterhead),
            7 => Some(UrfMediaType::Disc),
            8 => Some(UrfMediaType::PhotographicMatte),
            9 => Some(UrfMediaType::PhotographicSatin),
            10 => Some(UrfMediaType::PhotographicSemiGloss),
            11 => Some(UrfMediaType::PhotographicGlossy),
            12 => Some(UrfMediaType::PhotographicHighGloss),
            13 => Some(UrfMediaType::Other),
            _ => None,
        }
    }
}

/// The duplex mode of a URF page.
#[derive(Clone, Copy, Debug, PartialEq, Eq, Hash, Structural)]
pub enum UrfDuplex {
    NoDuplex,
    ShortSide,
    LongSide,
}

impl UrfDuplex {
    /// The value that stands for this variant in a header.
    pub open spec fn spec_code(self) -> u8 {
        match self {
            UrfDuplex::NoDuplex => 1,
            UrfDuplex::ShortSide => 2,
            UrfDuplex::LongSide => 3,
        }
    }

    /// Whether `c` stands for a variant.
    pub open spec fn spec_is_code(c: u8) -> bool {
        (1 <= c <= 3)
    }

    pub fn code(&self) -> (r: u8)
        ensures
            r == self.spec_code(),
    {
        match self {
            UrfDuplex::NoDuplex => 1,
            UrfDuplex::ShortSide => 2,
            UrfDuplex::LongSide => 3,
        }
    }

    /// The variant that `c` stands for, if any.
    pub fn from_code(c: u8) -> (r: Option<UrfDuplex>)
        ensures
            r is Some <==> UrfDuplex::spec_is_code(c),
            r matches Some(e) ==> e.spec_code() == c,
    {
        match c {
            1 => Some(UrfDuplex::NoDuplex),
            2 => Some(UrfDuplex::ShortSide),
            3 => Some(UrfDuplex::LongSide),
            _ => None,
        }
    }
}

/// The print quality of a URF page.
#[derive(Clone, Copy, Debug, PartialEq, Eq, Hash, Structural)]
pub enum UrfQuality {
    Default,
    Draft,
    Normal,
    High,
}

impl UrfQuality {
    /// The value that stands for this variant in a header.
    pub open spec fn spec_code(self) -> u8 {
        match self {
            UrfQuality::Default => 0,
            UrfQuality::Draft => 3,
            UrfQuality::Normal => 4,
            UrfQuality::High => 5,
        }
    }

    /// Whether `c` stands for a variant.
    pub open spec fn spec_is_code(c: u8) -> bool {
        (c == 0) || (3 <= c <= 5)
    }

    pub fn code(&self) -> (r: u8)
        ensures
            r == self.spec_code(),
    {
        match self {
            UrfQuality::Default => 0,
            UrfQuality::Draft => 3,
            UrfQuality::Normal => 4,
            UrfQuality::High => 5,
        }
    }

    /// The variant that `c` stands for, if any.
    pub fn from_code(c: u8) -> (r: Option<UrfQuality>)
        ensures
            r is Some <==> UrfQuality::spec_is_code(c),
            r matches Some(e) ==> e.spec_code() == c,
    {
        match c {
            0 => Some(UrfQuality::Default),
            3 => Some(UrfQuality::Draft),
            4 => Some(UrfQuality::Normal),
            5 => Some(UrfQuality::High),
            _ => None,
        }
    }
}

/// The media source of a URF page.
#[derive(Clone, Copy, Debug, PartialEq, Eq, Hash, Structural)]
pub enum UrfMediaPosition {
    Auto,
    Main,
    Alternate,
    LargeCapacity,
    Manual,
    Envelope,
    Disc,
    Photo,
    Hagaki,
    MainRoll,
    AlternateRoll,
    Top,
    Middle,
    Bottom,
    Side,
    Left,
    Right,
    Center,
    Rear,
    ByPassTray,
    Tray1,
    Tray2,
    Tray3,
    Tray4,
    Tray5,
    Tray6,
    Tray7,
    Tray8,
    Tray9,
    Tray10,
    Tray11,
    Tray12,
    Tray13,
    Tray14,
    Tray15,
    Tray16,
    Tray17,
    Tray18,
    Tray19,
    Tray20,
    Roll1,
    Roll2,
    Roll3,
    Roll4,
    Roll5,
    Roll6,
    Roll7,
    Roll8,
    Roll9,
    Roll10,
}

impl UrfMediaPosition {
    /// The value that stands for this variant in a header.
    pub open spec fn spec_code(self) -> u8 {
        match self {
            UrfMediaPosition::Auto => 0,
            UrfMediaPosition::Main => 1,
            UrfMediaPosition::Alternate => 2,
            UrfMediaPosition::LargeCapacity => 3,
            UrfMediaPosition::Manual => 4,
            UrfMediaPosition::Envelope => 5,
            UrfMediaPosition::Disc => 6,
            UrfMediaPosition::Photo => 7,
            UrfMediaPosition::Hagaki => 8,
            UrfMediaPosition::MainRoll => 9,
            UrfMediaPosition::AlternateRoll => 10,
            UrfMediaPosition::Top => 11,
            UrfMediaPosition::Middle => 12,
            UrfMediaPosition::Bottom => 13,
            UrfMediaPosition::Side => 14,
            UrfMediaPosition::Left => 15,
            UrfMediaPosition::Right => 16,
            UrfMediaPosition::Center => 17,
            UrfMediaPosition::Rear => 18,
            UrfMediaPosition::ByPassTray => 19,
            UrfMediaPosition::Tray1 => 20,
            UrfMediaPosition::Tray2 => 21,
            UrfMediaPosition::Tray3 => 22,
            UrfMediaPosition::Tray4 => 23,
            UrfMediaPosition::Tray5 => 24,
            UrfMediaPosition::Tray6 => 25,
            UrfMediaPosition::Tray7 => 26,
            UrfMediaPosition::Tray8 => 27,
            UrfMediaPosition::Tray9 => 28,
            UrfMediaPosition::Tray10 => 29,
            UrfMediaPosition::Tray11 => 30,
            UrfMediaPosition::Tray12 => 31,
            UrfMediaPosition::Tray13 => 32,
            UrfMediaPosition::Tray14 => 33,
            UrfMediaPosition::Tray15 => 34,
            UrfMediaPosition::Tray16 => 35,
            UrfMediaPosition::Tray17 => 36,
            UrfMediaPosition::Tray18 => 37,
            UrfMediaPosition::Tray19 => 38,
            UrfMediaPosition::Tray20 => 39,
            UrfMediaPosition::Roll1 => 40,
            UrfMediaPosition::Roll2 => 41,
            UrfMediaPosition::Roll3 => 42,
            UrfMediaPosition::Roll4 => 43,
            UrfMediaPosition::Roll5 => 44,
            UrfMediaPosition::Roll6 => 45,
            UrfMediaPosition::Roll7 => 46,
            UrfMediaPosition::Roll8 => 47,
            UrfMediaPosition::Roll9 => 48,
            UrfMediaPosition::Roll10 => 49,
        }
    }

    /// Whether `c` stands for a variant.
    pub open spec fn spec_is_code(c: u8) -> bool {
        (c <= 49)
    }

    pub fn code(&self) -> (r: u8)
        ensures
            r == self.spec_code(),
    {
        match self {
            UrfMediaPosition::Auto => 0,
            UrfMediaPosition::Main => 1,
            UrfMediaPosition::Alternate => 2,
            UrfMediaPosition::LargeCapacity => 3,
            UrfMediaPosition::Manual => 4,
            UrfMediaPosition::Envelope => 5,
            UrfMediaPosition::Disc => 6,
            UrfMediaPosition::Photo => 7,
            UrfMediaPosition::Hagaki => 8,
            UrfMediaPosition::MainRoll => 9,
            UrfMediaPosition::AlternateRoll => 10,
            UrfMediaPosition::Top => 11,
            UrfMediaPosition::Middle => 12,
            UrfMediaPosition::Bottom => 13,
            UrfMediaPosition::Side => 14,
            UrfMediaPosition::Left => 15,
            UrfMediaPosition::Right => 16,
            UrfMediaPosition::Center => 17,
            UrfMediaPosition::Rear => 18,
            UrfMediaPosition::ByPassTray => 19,
            UrfMediaPosition::Tray1 => 20,
            UrfMediaPosition::Tray2 => 21,
            UrfMediaPosition::Tray3 => 22,
            UrfMediaPosition::Tray4 => 23,
            UrfMediaPosition::Tray5 => 24,
            UrfMediaPosition::Tray6 => 25,
            UrfMediaPosition::Tray7 => 26,
            UrfMediaPosition::Tray8 => 27,
            UrfMediaPosition::Tray9 => 28,
            UrfMediaPosition::Tray10 => 29,
            UrfMediaPosition::Tray11 => 30,
            UrfMediaPosition::Tray12 => 31,
            UrfMediaPosition::Tray13 => 32,
            UrfMediaPosition::Tray14 => 33,
            UrfMediaPosition::Tray15 => 34,
            UrfMediaPosition::Tray16 => 35,
            UrfMediaPosition::Tray17 => 36,
            UrfMediaPosition::Tray18 => 37,
            UrfMediaPosition::Tray19 => 38,
            UrfMediaPosition::Tray20 => 39,
            UrfMediaPosition::Roll1 => 40,
            UrfMediaPosition::Roll2 => 41,
            UrfMediaPosition::Roll3 => 42,
            UrfMediaPosition::Roll4 => 43,
            UrfMediaPosition::Roll5 => 44,
            UrfMediaPosition::Roll6 => 45,
            UrfMediaPosition::Roll7 => 46,
            UrfMediaPosition::Roll8 => 47,
            UrfMediaPosition::Roll9 => 48,
            UrfMediaPosition::Roll10 => 49,
        }
    }

    /// The variant that `c` stands for, if any.
    pub fn from_code(c: u8) -> (r: Option<UrfMediaPosition>)
        ensures
            r is Some <==> UrfMediaPosition::spec_is_code(c),
            r matches Some(e) ==> e.spec_code() == c,
    {
        match c {
            0 => Some(UrfMediaPosition::Auto),
            1 => Some(UrfMediaPosition::Main),
            2 => Some(UrfMediaPosition::Alternate),
            3 => Some(UrfMediaPosition::LargeCapacity),
            4 => Some(UrfMediaPosition::Manual),
            5 => Some(UrfMediaPosition::Envelope),
            6 => Some(UrfMediaPosition::Disc),
            7 => Some(UrfMediaPosition::Photo),
            8 => Some(UrfMediaPosition::Hagaki),
            9 => Some(UrfMediaPosition::MainRoll),
            10 => Some(UrfMediaPosition::AlternateRoll),
            11 => Some(UrfMediaPosition::Top),
            12 => Some(UrfMediaPosition::Middle),
            13 => Some(UrfMediaPosition::Bottom),
            14 => Some(UrfMediaPosition::Side),
            15 => Some(UrfMediaPosition::Left),
            16 => Some(UrfMediaPosition::Right),
            17 => Some(UrfMediaPosition::Center),
            18 => Some(UrfMediaPosition::Rear),
            19 => Some(UrfMediaPosition::ByPassTray),
            20 => Some(UrfMediaPosition::Tray1),
            21 => Some(UrfMediaPosition::Tray2),
            22 => Some(UrfMediaPosition::Tray3),
            23 => Some(UrfMediaPosition::Tray4),
            24 => Some(UrfMediaPosition::Tray5),
            25 => Some(UrfMediaPosition::Tray6),
            26 => Some(UrfMediaPosition::Tray7),
            27 => Some(UrfMediaPosition::Tray8),
            28 => Some(UrfMediaPosition::Tray9),
            29 => Some(UrfMediaPosition::Tray10),
            30 => Some(UrfMediaPosition::Tray11),
            31 => Some(UrfMediaPosition::Tray12),
            32 => Some(UrfMediaPosition::Tray13),
            33 => Some(UrfMediaPosition::Tray14),
            34 => Some(UrfMediaPosition::Tray15),
            35 => Some(UrfMediaPosition::Tray16),
            36 => Some(UrfMediaPosition::Tray17),
            37 => Some(UrfMediaPosition::Tray18),
            38 => Some(UrfMediaPosition::Tray19),
            39 => Some(UrfMediaPosition::Tray20),
            40 => Some(UrfMediaPosition::Roll1),
            41 => Some(UrfMediaPosition::Roll2),
            42 => Some(UrfMediaPosition::Roll3),
            43 => Some(UrfMediaPosition::Roll4),
            44 => Some(UrfMediaPosition::Roll5),
            45 => Some(UrfMediaPosition::Roll6),
            46 => Some(UrfMediaPosition::Roll7),
            47 => Some(UrfMediaPosition::Roll8),
            48 => Some(UrfMediaPosition::Roll9),
            49 => Some(UrfMediaPosition::Roll10),
            _ => None,
        }
    }
}
impl UrfColorSpace {
    /// Number of color components of a pixel.
    pub fn num_colors(&self) -> (r: usize)
        ensures
            r == match *self {
                UrfColorSpace::sGray | UrfColorSpace::Gray => 1usize,
                UrfColorSpace::CMYK => 4usize,
                _ => 3usize,
            },
    {
        match self {
            UrfColorSpace::sGray | UrfColorSpace::Gray => 1,
            UrfColorSpace::sRGB | UrfColorSpace::RGB | UrfColorSpace::CIELab
            | UrfColorSpace::AdobeRGB => 3,
            UrfColorSpace::CMYK => 4,
        }
    }

    /// Whether the color space is additive, so that blank is `0xFF`.
    pub open spec fn spec_is_additive(self) -> bool {
        !(self is CMYK)
    }
}

/// The file header of a URF file (after its magic).
#[derive(Clone, Copy, Debug, PartialEq, Eq, Hash, Structural)]
pub struct UrfHeader {
    pub page_count: u32,
}

/// The 32-byte header of a URF page.
#[derive(Clone, Copy, Debug, PartialEq, Eq, Hash, Structural)]
pub struct UrfPageHeader {
    pub bits_per_pixel: u8,
    pub color_space: UrfColorSpace,
    pub duplex: UrfDuplex,
    pub quality: UrfQuality,
    pub media_position: UrfMediaPosition,
    pub media_type: UrfMediaType,
    pub width: u32,
    pub height: u32,
    pub dot_per_inch: u32,
}

/// The eight bytes `UNIRAST\0` that open a URF file.
pub open spec fn urf_magic() -> Seq<u8> {
    seq![0x55u8, 0x4E, 0x49, 0x52, 0x41, 0x53, 0x54, 0x00]
}

/// Size of the file header, magic included.
pub const URF_FILE_HEADER_SIZE: usize = 12;

/// Size of a page header.
pub const URF_PAGE_HEADER_SIZE: usize = 32;

impl UrfHeader {
    /// The twelve bytes that open a URF file: the magic, then the page count, big-endian.
    pub open spec fn spec_bytes(self) -> Seq<u8> {
        urf_magic() + be_bytes(self.page_count)
    }

    pub fn to_bytes(&self) -> (r: Vec<u8>)
        ensures
            r@ == self.spec_bytes(),
    {
        let mut r: Vec<u8> = vec![0x55u8, 0x4E, 0x49, 0x52, 0x41, 0x53, 0x54, 0x00];
        assert(r@ =~= urf_magic());
        push_be_u32(&mut r, self.page_count);
        r
    }

    /// Reads the file header from its twelve bytes; fails with `InvalidMagic` when they do
    /// not start with the magic.
    pub fn from_bytes(b: &[u8]) -> (r: Result<UrfHeader, UrfError>)
        requires
            b@.len() == URF_FILE_HEADER_SIZE,
        ensures
            r is Ok <==> b@.subrange(0, 8) == urf_magic(),
            r matches Ok(h) ==> h.page_count == be_u32_at(b@, 8),
            r is Err ==> r == Err::<UrfHeader, UrfError>(UrfError::InvalidMagic),
    {
        let magic: [u8; 8] = [0x55u8, 0x4E, 0x49, 0x52, 0x41, 0x53, 0x54, 0x00];
        let mut i: usize = 0;
        while i < 8
            invariant
                i <= 8,
                b@.len() == 12,
                magic@ == urf_magic(),
                forall|j: int| 0 <= j < i ==> b@[j] == #[trigger] urf_magic()[j],
            decreases 8 - i,
        {
            if b[i] != magic[i] {
                assert(b@.subrange(0, 8)[i as int] != urf_magic()[i as int]);
                return Err(UrfError::InvalidMagic);
            }
            i = i + 1;
        }
        assert(b@.subrange(0, 8) =~= urf_magic());
        Ok(UrfHeader { page_count: read_be_u32(b, 8) })
    }
}

/// The first failure met while reading a page header from `b`, if any.
pub open spec fn urf_page_header_error(b: Seq<u8>) -> Option<UrfError> {
    if !UrfColorSpace::spec_is_code(b[1]) {
        Some(UrfError::UnknownColorSpace)
    } else if !UrfDuplex::spec_is_code(b[2]) {
        Some(UrfError::UnknownDuplex)
    } else if !UrfQuality::spec_is_code(b[3]) {
        Some(UrfError::UnknownQuality)
    } else if !UrfMediaPosition::spec_is_code(b[4]) {
        Some(UrfError::UnknownMediaPosition)
    } else if !UrfMediaType::spec_is_code(b[5]) {
        Some(UrfError::UnknownMediaType)
    } else {
        None
    }
}

/// The fields of `h` are those held in the 32 bytes `b` of a page header.
pub open spec fn urf_page_header_fields(b: Seq<u8>, h: UrfPageHeader) -> bool {
    &&& h.bits_per_pixel == b[0]
    &&& h.color_space.spec_code() == b[1]
    &&& h.duplex.spec_code() == b[2]
    &&& h.quality.spec_code() == b[3]
    &&& h.media_position.spec_code() == b[4]
    &&& h.media_type.spec_code() == b[5]
    &&& h.width == be_u32_at(b, 12)
    &&& h.height == be_u32_at(b, 16)
    &&& h.dot_per_inch == be_u32_at(b, 20)
}

/// The codec parameters of the page whose header bytes are `b`.
pub open spec fn urf_params_of(b: Seq<u8>) -> Option<CodecParams> {
    let chunk = b[0] / 8;
    let width = be_u32_at(b, 12) as int;
    let height = be_u32_at(b, 16) as int;
    let num = width * height * chunk as int;
    if num > u64::MAX {
        None
    } else {
        Some(
            CodecParams {
                chunk_size: chunk,
                bytes_per_line: (width * chunk as int) as u64,
                num_bytes: num as u64,
                fill_byte: if b[1] == 6 {
                    0x00
                } else {
                    0xFF
                },
            },
        )
    }
}

/// The parameters of a header read from `b` are those that `b` gives.
pub proof fn lemma_params_of_bytes(b: Seq<u8>, h: UrfPageHeader)
    requires
        urf_page_header_fields(b, h),
    ensures
        urf_params(h) == urf_params_of(b),
{
}

impl UrfPageHeader {
    /// The 32 bytes of the page header.
    pub open spec fn spec_bytes(self) -> Seq<u8> {
        seq![
            self.bits_per_pixel,
            self.color_space.spec_code(),
            self.duplex.spec_code(),
            self.quality.spec_code(),
            self.media_position.spec_code(),
            self.media_type.spec_code(),
        ] + Seq::new(6, |i: int| 0u8) + be_bytes(self.width) + be_bytes(self.height) + be_bytes(
            self.dot_per_inch,
        ) + Seq::new(8, |i: int| 0u8)
    }

    pub fn to_bytes(&self) -> (r: Vec<u8>)
        ensures
            r@ == self.spec_bytes(),
    {
        let mut r: Vec<u8> = Vec::new();
        r.push(self.bits_per_pixel);
        r.push(self.color_space.code());
        r.push(self.duplex.code());
        r.push(self.quality.code());
        r.push(self.media_position.code());
        r.push(self.media_type.code());
        let mut i: usize = 0;
        while i < 6
            invariant
                i <= 6,
                r@.len() == 6 + i,
                forall|j: int| 6 <= j < 6 + i ==> r@[j] == 0,
                r@[0] == self.bits_per_pixel,
                r@[1] == self.color_space.spec_code(),
                r@[2] == self.duplex.spec_code(),
                r@[3] == self.quality.spec_code(),
                r@[4] == self.media_position.spec_code(),
                r@[5] == self.media_type.spec_code(),
            decreases 6 - i,
        {
            r.push(0);
            i = i + 1;
        }
        let ghost pre = r@;
        assert(pre =~= seq![
            self.bits_per_pixel,
            self.color_space.spec_code(),
            self.duplex.spec_code(),
            self.quality.spec_code(),
            self.media_position.spec_code(),
            self.media_type.spec_code(),
        ] + Seq::new(6, |i: int| 0u8));
        push_be_u32(&mut r, self.width);
        push_be_u32(&mut r, self.height);
        push_be_u32(&mut r, self.dot_per_inch);
        let ghost mid = r@;
        let mut k: usize = 0;
        while k < 8
            invariant
                k <= 8,
                r@.len() == 24 + k,
                r@.subrange(0, 24) == mid,
                forall|j: int| 24 <= j < 24 + k ==> r@[j] == 0,
            decreases 8 - k,
        {
            r.push(0);
            k = k + 1;
            assert(r@.subrange(0, 24) =~= mid);
        }
        assert(r@ =~= mid + Seq::new(8, |i: int| 0u8));
        assert(r@ =~= self.spec_bytes());
        r
    }

    /// Reads a page header from its 32 bytes; fails with the error of the first field that
    /// holds no known value.
    pub fn from_bytes(b: &[u8]) -> (r: Result<UrfPageHeader, UrfError>)
        requires
            b@.len() == URF_PAGE_HEADER_SIZE,
        ensures
            r is Err <==> urf_page_header_error(b@) is Some,
            r matches Err(e) ==> urf_page_header_error(b@) == Some(e),
            r matches Ok(h) ==> urf_page_header_fields(b@, h),
    {
        let color_space = match UrfColorSpace::from_code(b[1]) {
            Some(v) => v,
            None => return Err(UrfError::UnknownColorSpace),
        };
        let duplex = match UrfDuplex::from_code(b[2]) {
            Some(v) => v,
            None => return Err(UrfError::UnknownDuplex),
        };
        let quality = match UrfQuality::from_code(b[3]) {
            Some(v) => v,
            None => return Err(UrfError::UnknownQuality),
        };
        let media_position = match UrfMediaPosition::from_code(b[4]) {
            Some(v) => v,
            None => return Err(UrfError::UnknownMediaPosition),
        };
        let media_type = match UrfMediaType::from_code(b[5]) {
            Some(v) => v,
            None => return Err(UrfError::UnknownMediaType),
        };
        Ok(
            UrfPageHeader {
                bits_per_pixel: b[0],
                color_space,
                duplex,
                quality,
                media_position,
                media_type,
                width: read_be_u32(b, 12),
                height: read_be_u32(b, 16),
                dot_per_inch: read_be_u32(b, 20),
            },
        )
    }
}

/// The codec parameters of a URF page: chunky pixels of `bits_per_pixel / 8` bytes.
pub open spec fn urf_params(h: UrfPageHeader) -> Option<CodecParams> {
    let chunk = h.bits_per_pixel / 8;
    let num = h.width as int * h.height as int * chunk as int;
    if num > u64::MAX {
        None
    } else {
        Some(
            CodecParams {
                chunk_size: chunk,
                bytes_per_line: (h.width as int * chunk as int) as u64,
                num_bytes: num as u64,
                fill_byte: if h.color_space.spec_is_additive() {
                    0xFF
                } else {
                    0x00
                },
            },
        )
    }
}

/// Chooses the codecs of URF pages.
pub struct UrfPageFactory;

impl UrfPageFactory {
    /// The codec parameters of the page; fails with `DataTooLarge` when its size overflows.
    pub fn params(header: &UrfPageHeader) -> (r: Result<CodecParams, UrfError>)
        ensures
            r is Ok <==> urf_params(*header) is Some,
            r matches Ok(p) ==> urf_params(*header) == Some(p),
            r is Err ==> r == Err::<CodecParams, UrfError>(UrfError::DataTooLarge),
    {
        let chunk_size = header.bits_per_pixel / 8;
        proof {
            let w = header.width as int;
            let h = header.height as int;
            let c = chunk_size as int;
            assert(w * c <= 0xFFFF_FFFF * 255) by (nonlinear_arith)
                requires
                    0 <= w <= 0xFFFF_FFFF,
                    0 <= c <= 255,
            ;
            assert(w * h <= 0xFFFF_FFFF * 0xFFFF_FFFF) by (nonlinear_arith)
                requires
                    0 <= w <= 0xFFFF_FFFF,
                    0 <= h <= 0xFFFF_FFFF,
            ;
        }
        let bytes_per_line = header.width as u64 * chunk_size as u64;
        let area = header.width as u64 * header.height as u64;
        let num_bytes = match area.checked_mul(chunk_size as u64) {
            Some(n) => n,
            None => return Err(UrfError::DataTooLarge),
        };
        let fill_byte: u8 = match header.color_space {
            UrfColorSpace::CMYK => 0x00,
            _ => 0xFF,
        };
        Ok(CodecParams { chunk_size, bytes_per_line, num_bytes, fill_byte })
    }

    /// The decoder of the page's body.
    pub fn decode(header: &UrfPageHeader, limits: &Limits) -> (r: Result<
        CompressedRasterDecoder,
        UrfError,
    >)
        ensures
            r is Ok <==> (urf_params(*header) matches Some(p) && decoder_params_ok(
                *limits,
                p.chunk_size,
                p.bytes_per_line,
                p.num_bytes,
            )),
            urf_params(*header) is None ==> r == Err::<CompressedRasterDecoder, UrfError>(
                UrfError::DataTooLarge,
            ),
            urf_params(*header) is Some && r is Err ==> r == Err::<CompressedRasterDecoder, UrfError>(
                UrfError::Codec(CodecError::InvalidData),
            ),
            r matches Ok(d) ==> crate::decoder::starts_page(d@, urf_params(*header)->Some_0),
    {
        let p = Self::params(header)?;
        match CompressedRasterDecoder::new(
            limits,
            p.chunk_size,
            p.bytes_per_line,
            p.num_bytes,
            p.fill_byte,
        ) {
            Ok(d) => Ok(d),
            Err(e) => Err(UrfError::Codec(e)),
        }
    }

    /// The encoder of the page's body.
    pub fn encode(header: &UrfPageHeader) -> (r: Result<CompressedRasterEncoder, UrfError>)
        ensures
            r is Ok <==> (urf_params(*header) matches Some(p) && crate::decoder::layout_ok(
                p.chunk_size,
                p.bytes_per_line,
                p.num_bytes,
            ) && crate::decoder::min_u64(p.bytes_per_line, p.num_bytes) <= usize::MAX),
            urf_params(*header) is None ==> r == Err::<CompressedRasterEncoder, UrfError>(
                UrfError::DataTooLarge,
            ),
            urf_params(*header) is Some && r is Err ==> r == Err::<CompressedRasterEncoder, UrfError>(
                UrfError::Codec(CodecError::InvalidData),
            ),
            r matches Ok(e) ==> crate::encoder::starts_page(e@, urf_params(*header)->Some_0),
    {
        let p = Self::params(header)?;
        match CompressedRasterEncoder::new(p.chunk_size, p.bytes_per_line, p.num_bytes) {
            Ok(e) => Ok(e),
            Err(e) => Err(UrfError::Codec(e)),
        }
    }
}

/// Writing a page header and reading the bytes back gives the same fields: the bytes hold no
/// unknown value, and each field reads as it was written.
#[verifier::rlimit(100)]
pub proof fn lemma_page_header_round_trip(h: UrfPageHeader)
    ensures
        ({
            let b = h.spec_bytes();
            &&& b.len() == 32
            &&& urf_page_header_error(b) is None
            &&& b[0] == h.bits_per_pixel
            &&& b[1] == h.color_space.spec_code()
            &&& b[2] == h.duplex.spec_code()
            &&& b[3] == h.quality.spec_code()
            &&& b[4] == h.media_position.spec_code()
            &&& b[5] == h.media_type.spec_code()
            &&& be_u32_at(b, 12) == h.width
            &&& be_u32_at(b, 16) == h.height
            &&& be_u32_at(b, 20) == h.dot_per_inch
        }),
{
    let b = h.spec_bytes();
    crate::bytes::lemma_u32_bytes_round_trip(h.width);
    crate::bytes::lemma_u32_bytes_round_trip(h.height);
    crate::bytes::lemma_u32_bytes_round_trip(h.dot_per_inch);
    assert(b.subrange(12, 16) =~= be_bytes(h.width));
    assert(b.subrange(16, 20) =~= be_bytes(h.height));
    assert(b.subrange(20, 24) =~= be_bytes(h.dot_per_inch));
    assert(be_u32_at(b, 12) == be_u32_at(b.subrange(12, 16), 0));
    assert(be_u32_at(b, 16) == be_u32_at(b.subrange(16, 20), 0));
    assert(be_u32_at(b, 20) == be_u32_at(b.subrange(20, 24), 0));
}

/// Writing the file header and reading it back gives the same page count.
pub proof fn lemma_file_header_round_trip(h: UrfHeader)
    ensures
        h.spec_bytes().len() == URF_FILE_HEADER_SIZE,
        h.spec_bytes().subrange(0, 8) == urf_magic(),
        be_u32_at(h.spec_bytes(), 8) == h.page_count,
{
    let b = h.spec_bytes();
    crate::bytes::lemma_u32_bytes_round_trip(h.page_count);
    assert(b.subrange(0, 8) =~= urf_magic());
    assert(b.subrange(8, 12) =~= be_bytes(h.page_count));
    assert(be_u32_at(b, 8) == be_u32_at(b.subrange(8, 12), 0));
}

} // verus!
