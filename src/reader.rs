use vstd::prelude::*;

use crate::cups::CupsPageFactoryV1;
use crate::cups::CupsPageFactoryV2;
use crate::cups::CupsPageFactoryV3;
use crate::cups::CupsPageHeaderV2;
use crate::cups::CupsRasterError;
use crate::cups::CupsSyncWord;
use crate::cups::read_page_header_v1;
use crate::cups::read_page_header_v2;
use crate::cups::header_v1_error;
use crate::cups::header_v1_fields;
use crate::cups::header_v2_error;
use crate::cups::header_v2_fields;
use crate::cups::plain_body;
use crate::cups::compressed_body;
use crate::cups::spec_num_colors_v2;
use crate::bytes::RasterByteOrder;
use crate::decoder::CompressedRasterDecoder;
use crate::decoder::resumes;
use crate::decoder::DecoderView;
use crate::decoder::TraceEnd;
use crate::decoder::decoder_params_ok;
use crate::decoder::starts_page;
use crate::decoder::trace;
use crate::urf::URF_FILE_HEADER_SIZE;
use crate::urf::URF_PAGE_HEADER_SIZE;
use crate::urf::urf_magic;
use crate::urf::urf_page_header_error;
use crate::urf::urf_page_header_fields;
use crate::urf::urf_params_of;
use crate::bytes::be_u32_at;
use crate::error::CodecError;
use crate::framing::FrameStatus;
use crate::framing::HeaderReader;
use crate::limits::Limits;
use crate::passthrough::UncompressedRasterDecoder;
use crate::urf::UrfError;
use crate::urf::UrfHeader;
use crate::urf::UrfPageFactory;
use crate::urf::UrfPageHeader;

verus! {

/// What one step of a page reader produced.
#[derive(Clone, Debug, PartialEq, Eq)]
pub enum PageEvent<H> {
    /// `consumed` input bytes were taken; nothing else to report.
    Progress { consumed: usize },
    /// All input was taken (`consumed` bytes of it) and more is needed.
    Pending { consumed: usize },
    /// A page begins; its header took `consumed` input bytes.
    Page { consumed: usize, header: H },
    /// `produced` bytes of the current page's pixels were appended to the output.
    Data { consumed: usize, produced: usize },
    /// The file has no more pages.
    End,
}

/// The decoder of a CUPS page body: compressed for version 2, plain otherwise.
pub enum CupsRasterUnifiedDecoder {
    Uncompressed(UncompressedRasterDecoder),
    Compressed(CompressedRasterDecoder),
}

impl CupsRasterUnifiedDecoder {
    pub open spec fn wf(&self) -> bool {
        match self {
            CupsRasterUnifiedDecoder::Compressed(d) => d.wf(),
            CupsRasterUnifiedDecoder::Uncompressed(_) => true,
        }
    }

    pub open spec fn remaining(&self) -> u64 {
        match self {
            CupsRasterUnifiedDecoder::Compressed(d) => d@.bytes_remaining,
            CupsRasterUnifiedDecoder::Uncompressed(d) => d.remaining(),
        }
    }

    /// Number of decoded bytes still to be delivered.
    pub fn bytes_remaining(&self) -> (r: u64)
        ensures
            r == self.remaining(),
    {
        match self {
            CupsRasterUnifiedDecoder::Compressed(d) => d.bytes_remaining(),
            CupsRasterUnifiedDecoder::Uncompressed(d) => d.bytes_remaining(),
        }
    }

    /// Decodes from `input` into `out`, at most `max` bytes, as the page's own decoder does:
    /// a compressed page by `CompressedRasterDecoder::read`, a plain one by copying.
    pub fn read(&mut self, input: &[u8], eof: bool, max: usize, out: &mut Vec<u8>) -> (r: Result<
        crate::decoder::ReadProgress,
        CodecError,
    >)
        requires
            old(self).wf(),
        ensures
            final(self).wf(),
            *old(self) matches CupsRasterUnifiedDecoder::Compressed(d) ==> (*final(self) matches CupsRasterUnifiedDecoder::Compressed(d2)
                && crate::decoder::read_meets(d@, d2@, input@, eof, max, old(out)@, final(out)@, r)),
            *old(self) matches CupsRasterUnifiedDecoder::Uncompressed(d) ==> (*final(self) matches CupsRasterUnifiedDecoder::Uncompressed(d2)
                && r matches Ok(p) && {
                &&& p.produced == crate::passthrough::min3(d.remaining() as nat, max as nat, input@.len())
                &&& p.consumed == p.produced
                &&& d2.remaining() == d.remaining() - p.produced
                &&& final(out)@ == old(out)@ + input@.take(p.produced as int)
                &&& p.pending == (p.produced == 0 && !eof && d.remaining() > 0)
            }),
    {
        match self {
            CupsRasterUnifiedDecoder::Compressed(d) => {
                d.read(input, eof, max, out)
            },
            CupsRasterUnifiedDecoder::Uncompressed(d) => {
                let n = d.read(input, max, out);
                Ok(
                    crate::decoder::ReadProgress {
                        consumed: n,
                        produced: n,
                        pending: n == 0 && !eof && d.bytes_remaining() > 0,
                    },
                )
            },
        }
    }
}

/// The number of input bytes that a header reader takes from `input`.
pub open spec fn frame_take(f: HeaderReader, input: Seq<u8>) -> nat {
    let need = (f.size() - f.gathered().len()) as nat;
    if input.len() < need {
        input.len()
    } else {
        need
    }
}

/// The event that a page body's decoder run calls for: pixels whenever the run delivers
/// some, waiting when it needs input, its own failure, or `UnexpectedEof` when the input
/// ends before the page does. `stays` says where the reader stands after pixels or waiting.
pub open spec fn body_step<H, E>(
    d: DecoderView,
    input: Seq<u8>,
    eof: bool,
    out0: Seq<u8>,
    out1: Seq<u8>,
    r: Result<PageEvent<H>, E>,
    stays: bool,
) -> bool {
    let t = trace(d, input, eof);
    if t.0.len() > 0 {
        r matches Ok(PageEvent::Data { consumed, produced }) && produced > 0 && stays
    } else if t.1 == TraceEnd::Pending {
        r matches Ok(PageEvent::Pending { consumed }) && stays && out1 == out0
    } else {
        r is Err && out1 == out0
    }
}

/// The failure of a page body's decoder run that delivers nothing and does not wait: its
/// own, or `UnexpectedEof` when the input ends before the page does.
pub open spec fn body_error(d: DecoderView, input: Seq<u8>, eof: bool) -> CodecError {
    match trace(d, input, eof).1 {
        TraceEnd::Failed(e) => e,
        _ => CodecError::UnexpectedEof,
    }
}

/// The decoder of a page body went from `d` to `d2` as its `read` does.
pub open spec fn body_resumes<H, E>(
    d: DecoderView,
    d2: DecoderView,
    input: Seq<u8>,
    eof: bool,
    out0: Seq<u8>,
    out1: Seq<u8>,
    r: Result<PageEvent<H>, E>,
) -> bool {
    match r {
        Ok(PageEvent::Data { consumed, produced }) => {
            &&& out1.len() == out0.len() + produced
            &&& out1.take(out0.len() as int) == out0
            &&& resumes(d, input, eof, out1.skip(out0.len() as int), d2, consumed as nat)
        },
        Ok(PageEvent::Pending { consumed }) => resumes(d, input, eof, Seq::empty(), d2, consumed as nat),
        _ => true,
    }
}

/// Where a URF reader stands.
pub enum UrfReaderState {
    /// Gathering the 12-byte file header.
    FileHeader(HeaderReader),
    /// Gathering a 32-byte page header (or meeting the end of the file).
    PageHeader(HeaderReader),
    /// Decoding a page body.
    Body(CompressedRasterDecoder),
}

/// Reads a URF file page by page, from input handed over in pieces of any size.
pub struct UrfReader {
    limits: Limits,
    header: Option<UrfHeader>,
    state: UrfReaderState,
}

impl UrfReader {
    pub closed spec fn state(&self) -> &UrfReaderState {
        &self.state
    }

    pub closed spec fn file_header(&self) -> Option<UrfHeader> {
        self.header
    }

    pub closed spec fn spec_limits(&self) -> Limits {
        self.limits
    }

    pub open spec fn wf(&self) -> bool {
        match self.state() {
            UrfReaderState::FileHeader(f) => f.wf() && f.size() == 12,
            UrfReaderState::PageHeader(f) => f.wf() && f.size() == 32,
            UrfReaderState::Body(d) => d.wf(),
        }
    }

    pub fn new(limits: Limits) -> (r: UrfReader)
        ensures
            r.wf(),
            r.file_header() is None,
            r.state() is FileHeader,
    {
        UrfReader { limits, header: None, state: UrfReaderState::FileHeader(HeaderReader::new(12)) }
    }

    /// The file header, once it has been read.
    pub fn header(&self) -> (r: Option<UrfHeader>)
        ensures
            r == self.file_header(),
    {
        self.header
    }

    /// Takes the next step of reading: gathers the file header, then for each page its
    /// header (announcing the page) and its body (appending at most `max` pixel bytes to
    /// `out`), until the input ends cleanly where a page header would start. A page's body
    /// is read to its end before the next header is looked for. Input that ends inside a
    /// header or a body is `UnexpectedEof`.
    pub fn advance(&mut self, input: &[u8], eof: bool, max: usize, out: &mut Vec<u8>) -> (r:
        Result<PageEvent<UrfPageHeader>, UrfError>)
        requires
            old(self).wf(),
            max > 0,
        ensures
            final(self).wf(),
            final(self).spec_limits() == old(self).spec_limits(),
            match *old(self).state() {
                UrfReaderState::FileHeader(f) => {
                    let k = frame_take(f, input@);
                    let b = f.gathered() + input@.take(k as int);
                    &&& final(out)@ == old(out)@
                    &&& if b.len() == URF_FILE_HEADER_SIZE {
                        if b.subrange(0, 8) == urf_magic() {
                            &&& r == Ok::<PageEvent<UrfPageHeader>, UrfError>(PageEvent::Progress { consumed: k as usize })
                            &&& final(self).file_header() == Some(UrfHeader { page_count: be_u32_at(b, 8) })
                            &&& final(self).state() matches UrfReaderState::PageHeader(g) && g.gathered().len() == 0
                        } else {
                            r == Err::<PageEvent<UrfPageHeader>, UrfError>(UrfError::InvalidMagic)
                        }
                    } else if eof {
                        r == Err::<PageEvent<UrfPageHeader>, UrfError>(UrfError::Codec(CodecError::UnexpectedEof))
                    } else {
                        &&& r == Ok::<PageEvent<UrfPageHeader>, UrfError>(PageEvent::Pending { consumed: k as usize })
                        &&& final(self).state() matches UrfReaderState::FileHeader(g) && g.gathered() == b
                    }
                },
                UrfReaderState::PageHeader(f) => {
                    let k = frame_take(f, input@);
                    let b = f.gathered() + input@.take(k as int);
                    &&& final(out)@ == old(out)@
                    &&& final(self).file_header() == old(self).file_header()
                    &&& if b.len() == URF_PAGE_HEADER_SIZE {
                        match urf_page_header_error(b) {
                            Some(e) => r == Err::<PageEvent<UrfPageHeader>, UrfError>(e),
                            None => match urf_params_of(b) {
                                None => r == Err::<PageEvent<UrfPageHeader>, UrfError>(UrfError::DataTooLarge),
                                Some(p) => if decoder_params_ok(old(self).spec_limits(), p.chunk_size, p.bytes_per_line, p.num_bytes) {
                                    &&& r matches Ok(PageEvent::Page { consumed, header })
                                        && consumed == k && urf_page_header_fields(b, header)
                                    &&& final(self).state() matches UrfReaderState::Body(d) && starts_page(d@, p)
                                } else {
                                    r == Err::<PageEvent<UrfPageHeader>, UrfError>(UrfError::Codec(CodecError::InvalidData))
                                },
                            },
                        }
                    } else if eof {
                        if b.len() == 0 {
                            r == Ok::<PageEvent<UrfPageHeader>, UrfError>(PageEvent::End)
                        } else {
                            r == Err::<PageEvent<UrfPageHeader>, UrfError>(UrfError::Codec(CodecError::UnexpectedEof))
                        }
                    } else {
                        &&& r == Ok::<PageEvent<UrfPageHeader>, UrfError>(PageEvent::Pending { consumed: k as usize })
                        &&& final(self).state() matches UrfReaderState::PageHeader(g) && g.gathered() == b
                    }
                },
                UrfReaderState::Body(d) => {
                    &&& final(self).file_header() == old(self).file_header()
                    &&& if d@.bytes_remaining == 0 {
                        &&& r == Ok::<PageEvent<UrfPageHeader>, UrfError>(PageEvent::Progress { consumed: 0 })
                        &&& final(out)@ == old(out)@
                        &&& final(self).state() matches UrfReaderState::PageHeader(g) && g.gathered().len() == 0
                    } else {
                        &&& body_step(d@, input@, eof, old(out)@, final(out)@, r, final(self).state() matches UrfReaderState::Body(d2) && body_resumes(d@, d2@, input@, eof, old(out)@, final(out)@, r))
                        &&& r is Err ==> r == Err::<PageEvent<UrfPageHeader>, UrfError>(UrfError::Codec(body_error(d@, input@, eof)))
                    }
                },
            },
    {
        match &mut self.state {
            UrfReaderState::FileHeader(f) => {
                match f.feed(input, eof) {
                    Ok(FrameStatus::Complete { consumed }) => {
                        let h = UrfHeader::from_bytes(f.bytes())?;
                        self.header = Some(h);
                        self.state = UrfReaderState::PageHeader(HeaderReader::new(32));
                        Ok(PageEvent::Progress { consumed })
                    },
                    Ok(FrameStatus::Incomplete { consumed }) => Ok(PageEvent::Pending { consumed }),
                    Ok(FrameStatus::NoMore) => Err(UrfError::Codec(CodecError::UnexpectedEof)),
                    Err(e) => Err(UrfError::Codec(e)),
                }
            },
            UrfReaderState::PageHeader(f) => {
                match f.feed(input, eof) {
                    Ok(FrameStatus::Complete { consumed }) => {
                        let header = UrfPageHeader::from_bytes(f.bytes())?;
                        let d = UrfPageFactory::decode(&header, &self.limits)?;
                        self.state = UrfReaderState::Body(d);
                        Ok(PageEvent::Page { consumed, header })
                    },
                    Ok(FrameStatus::Incomplete { consumed }) => Ok(PageEvent::Pending { consumed }),
                    Ok(FrameStatus::NoMore) => Ok(PageEvent::End),
                    Err(e) => Err(UrfError::Codec(e)),
                }
            },
            UrfReaderState::Body(d) => {
                if d.bytes_remaining() == 0 {
                    self.state = UrfReaderState::PageHeader(HeaderReader::new(32));
                    return Ok(PageEvent::Progress { consumed: 0 });
                }
                let ghost out0 = out@;
                match d.read(input, eof, max, out) {
                    Ok(p) => {
                        if p.produced == 0 {
                            assert(out@.take(out0.len() as int) =~= out@);
                            assert(out@.skip(out0.len() as int) =~= Seq::<u8>::empty());
                        }
                        if p.pending {
                            Ok(PageEvent::Pending { consumed: p.consumed })
                        } else if p.produced == 0 {
                            Err(UrfError::Codec(CodecError::UnexpectedEof))
                        } else {
                            Ok(PageEvent::Data { consumed: p.consumed, produced: p.produced })
                        }
                    },
                    Err(e) => Err(UrfError::Codec(e)),
                }
            },
        }
    }
}

/// Where a CUPS raster reader stands.
pub enum CupsReaderState {
    /// Gathering a page header (or meeting the end of the file).
    PageHeader(HeaderReader),
    /// Decoding a page body.
    Body(CupsRasterUnifiedDecoder),
}

/// Reads a CUPS raster file of any version page by page, from input handed over in pieces of
/// any size. Every page header is given in its version 2 form.
pub struct CupsRasterUnifiedReader {
    sync_word: CupsSyncWord,
    limits: Limits,
    state: CupsReaderState,
}

/// Size of the page headers of the version that `w` names.
pub open spec fn header_size(w: CupsSyncWord) -> nat {
    match w {
        CupsSyncWord::V1BigEndian | CupsSyncWord::V1LittleEndian => 420,
        _ => 1796,
    }
}

pub open spec fn is_v1(w: CupsSyncWord) -> bool {
    w is V1BigEndian || w is V1LittleEndian
}

pub open spec fn is_v2(w: CupsSyncWord) -> bool {
    w is V2BigEndian || w is V2LittleEndian
}

/// The first failure met while reading the page header bytes `b` of the version that `w`
/// names, if any.
pub open spec fn cups_header_error(w: CupsSyncWord, b: Seq<u8>) -> Option<CupsRasterError> {
    if is_v1(w) {
        header_v1_error(w.spec_byte_order(), b)
    } else {
        header_v2_error(w.spec_byte_order(), b)
    }
}

/// The fields of `h` are those held in the page header bytes `b` of the version that `w`
/// names (a version 1 header carries no color count of its own).
pub open spec fn cups_page_fields(w: CupsSyncWord, b: Seq<u8>, h: CupsPageHeaderV2) -> bool {
    if is_v1(w) {
        header_v1_fields(w.spec_byte_order(), b, h.v1) && h.num_colors == 0
    } else {
        header_v2_fields(w.spec_byte_order(), b, h)
    }
}

/// Whether the body of the page `h` can be decoded within `limits`, or why not.
pub open spec fn cups_body_result(w: CupsSyncWord, limits: Limits, h: CupsPageHeaderV2) -> Result<(), CupsRasterError> {
    if is_v2(w) {
        match compressed_body(h.v1, spec_num_colors_v2(h), limits) {
            Ok(_) => Ok(()),
            Err(e) => Err(e),
        }
    } else {
        match plain_body(h.v1, spec_num_colors_v2(h), limits) {
            Ok(_) => Ok(()),
            Err(e) => Err(e),
        }
    }
}

/// `d` is the decoder at the start of the body of the page `h`.
pub open spec fn cups_body_starts(w: CupsSyncWord, limits: Limits, h: CupsPageHeaderV2, d: CupsRasterUnifiedDecoder) -> bool {
    if is_v2(w) {
        d matches CupsRasterUnifiedDecoder::Compressed(c) && compressed_body(h.v1, spec_num_colors_v2(h), limits) matches Ok(p)
            && starts_page(c@, p)
    } else {
        d matches CupsRasterUnifiedDecoder::Uncompressed(u) && plain_body(h.v1, spec_num_colors_v2(h), limits) == Ok::<u64, CupsRasterError>(u.remaining())
    }
}

/// What reading the complete page header bytes `b` gives: the header's error, or a header
/// with the fields that `b` holds and either the decoder of its body or the body's error.
pub open spec fn cups_open_meets(
    w: CupsSyncWord,
    limits: Limits,
    b: Seq<u8>,
    r: Result<(CupsPageHeaderV2, CupsRasterUnifiedDecoder), CupsRasterError>,
) -> bool {
    match cups_header_error(w, b) {
        Some(e) => r == Err::<(CupsPageHeaderV2, CupsRasterUnifiedDecoder), CupsRasterError>(e),
        None => match r {
            Ok((h, d)) => {
                &&& cups_page_fields(w, b, h)
                &&& cups_body_result(w, limits, h) is Ok
                &&& cups_body_starts(w, limits, h, d)
            },
            Err(e) => exists|h: CupsPageHeaderV2|
                #[trigger] cups_page_fields(w, b, h) && cups_body_result(w, limits, h) == Err::<(), CupsRasterError>(e),
        },
    }
}

impl CupsRasterUnifiedReader {
    pub closed spec fn spec_sync_word(&self) -> CupsSyncWord {
        self.sync_word
    }

    pub closed spec fn state(&self) -> &CupsReaderState {
        &self.state
    }

    pub closed spec fn spec_limits(&self) -> Limits {
        self.limits
    }

    pub open spec fn wf(&self) -> bool {
        match self.state() {
            CupsReaderState::PageHeader(f) => f.wf() && f.size() == header_size(self.spec_sync_word()),
            CupsReaderState::Body(d) => d.wf(),
        }
    }

    fn header_reader(sync_word: CupsSyncWord) -> (r: HeaderReader)
        ensures
            r.wf(),
            r.gathered().len() == 0,
            r.size() == header_size(sync_word),
    {
        match sync_word {
            CupsSyncWord::V1BigEndian | CupsSyncWord::V1LittleEndian => HeaderReader::new(420),
            _ => HeaderReader::new(1796),
        }
    }

    /// Starts reading the file whose first four bytes are `sync`; fails with
    /// `InvalidSyncWord` when they are no sync word.
    pub fn new_with_limits(sync: [u8; 4], limits: Limits) -> (r: Result<
        CupsRasterUnifiedReader,
        CupsRasterError,
    >)
        ensures
            r matches Ok(rd) ==> rd.wf() && rd.spec_sync_word().spec_bytes() == sync@
                && rd.state() is PageHeader,
            r is Err <==> forall|w: CupsSyncWord| w.spec_bytes() != sync@,
    {
        let sync_word = CupsSyncWord::from_bytes(sync)?;
        Ok(
            CupsRasterUnifiedReader {
                sync_word,
                limits,
                state: CupsReaderState::PageHeader(Self::header_reader(sync_word)),
            },
        )
    }

    /// As `new_with_limits`, with no limits.
    pub fn new(sync: [u8; 4]) -> (r: Result<CupsRasterUnifiedReader, CupsRasterError>)
        ensures
            r matches Ok(rd) ==> rd.wf() && rd.spec_sync_word().spec_bytes() == sync@,
            r is Err <==> forall|w: CupsSyncWord| w.spec_bytes() != sync@,
    {
        Self::new_with_limits(sync, Limits::no_limits())
    }

    pub fn sync_word(&self) -> (r: CupsSyncWord)
        ensures
            r == self.spec_sync_word(),
    {
        self.sync_word
    }

    pub fn byte_order(&self) -> (r: RasterByteOrder)
        ensures
            r == self.spec_sync_word().spec_byte_order(),
    {
        self.sync_word.byte_order()
    }

    /// Parses a complete page header and makes the decoder of its body.
    fn open_page(sync_word: CupsSyncWord, limits: &Limits, bytes: &[u8]) -> (r: Result<
        (CupsPageHeaderV2, CupsRasterUnifiedDecoder),
        CupsRasterError,
    >)
        requires
            bytes@.len() == header_size(sync_word),
        ensures
            r matches Ok((h, d)) ==> d.wf(),
            cups_open_meets(sync_word, *limits, bytes@, r),
    {
        let order = sync_word.byte_order();
        match sync_word {
            CupsSyncWord::V1BigEndian | CupsSyncWord::V1LittleEndian => {
                let v1 = read_page_header_v1(order, bytes)?;
                let h = CupsPageHeaderV2::from_v1(v1);
                match CupsPageFactoryV1::decode(&h.v1, limits) {
                    Ok(d) => Ok((h, CupsRasterUnifiedDecoder::Uncompressed(d))),
                    Err(e) => {
                        assert(cups_page_fields(sync_word, bytes@, h));
                        Err(e)
                    },
                }
            },
            CupsSyncWord::V2BigEndian | CupsSyncWord::V2LittleEndian => {
                let h = read_page_header_v2(order, bytes)?;
                match CupsPageFactoryV2::decode(&h, limits) {
                    Ok(d) => Ok((h, CupsRasterUnifiedDecoder::Compressed(d))),
                    Err(e) => {
                        assert(cups_page_fields(sync_word, bytes@, h));
                        Err(e)
                    },
                }
            },
            CupsSyncWord::V3BigEndian | CupsSyncWord::V3LittleEndian => {
                let h = read_page_header_v2(order, bytes)?;
                match CupsPageFactoryV3::decode(&h, limits) {
                    Ok(d) => Ok((h, CupsRasterUnifiedDecoder::Uncompressed(d))),
                    Err(e) => {
                        assert(cups_page_fields(sync_word, bytes@, h));
                        Err(e)
                    },
                }
            },
        }
    }

    /// Takes the next step of reading: for each page its header (announcing the page) and
    /// its body (appending at most `max` pixel bytes to `out`), until the input ends cleanly
    /// where a page header would start. A page's body is read to its end before the next
    /// header is looked for. Input that ends inside a header or a body is `UnexpectedEof`.
    pub fn advance(&mut self, input: &[u8], eof: bool, max: usize, out: &mut Vec<u8>) -> (r:
        Result<PageEvent<CupsPageHeaderV2>, CupsRasterError>)
        requires
            old(self).wf(),
            max > 0,
        ensures
            final(self).wf(),
            final(self).spec_sync_word() == old(self).spec_sync_word(),
            final(self).spec_limits() == old(self).spec_limits(),
            ({
                let w = old(self).spec_sync_word();
                let limits = old(self).spec_limits();
                match *old(self).state() {
                    CupsReaderState::PageHeader(f) => {
                        let k = frame_take(f, input@);
                        let b = f.gathered() + input@.take(k as int);
                        &&& final(out)@ == old(out)@
                        &&& if b.len() == header_size(w) {
                            match cups_header_error(w, b) {
                                Some(e) => r == Err::<PageEvent<CupsPageHeaderV2>, CupsRasterError>(e),
                                None => match r {
                                    Ok(PageEvent::Page { consumed, header }) => {
                                        &&& consumed == k
                                        &&& cups_page_fields(w, b, header)
                                        &&& final(self).state() matches CupsReaderState::Body(d)
                                            && cups_body_starts(w, limits, header, *d)
                                    },
                                    Err(e) => exists|h: CupsPageHeaderV2|
                                        #[trigger] cups_page_fields(w, b, h) && cups_body_result(w, limits, h) == Err::<(), CupsRasterError>(e),
                                    _ => false,
                                },
                            }
                        } else if eof {
                            if b.len() == 0 {
                                r == Ok::<PageEvent<CupsPageHeaderV2>, CupsRasterError>(PageEvent::End)
                            } else {
                                r == Err::<PageEvent<CupsPageHeaderV2>, CupsRasterError>(CupsRasterError::Codec(CodecError::UnexpectedEof))
                            }
                        } else {
                            &&& r == Ok::<PageEvent<CupsPageHeaderV2>, CupsRasterError>(PageEvent::Pending { consumed: k as usize })
                            &&& final(self).state() matches CupsReaderState::PageHeader(g) && g.gathered() == b
                        }
                    },
                    CupsReaderState::Body(dec) => {
                        if dec.remaining() == 0 {
                            &&& r == Ok::<PageEvent<CupsPageHeaderV2>, CupsRasterError>(PageEvent::Progress { consumed: 0 })
                            &&& final(out)@ == old(out)@
                            &&& final(self).state() matches CupsReaderState::PageHeader(g) && g.gathered().len() == 0
                        } else {
                            match dec {
                                CupsRasterUnifiedDecoder::Compressed(d) => {
                                    &&& body_step(d@, input@, eof, old(out)@, final(out)@, r, final(self).state() matches CupsReaderState::Body(CupsRasterUnifiedDecoder::Compressed(d2)) && body_resumes(d@, d2@, input@, eof, old(out)@, final(out)@, r))
                                    &&& r is Err ==> r == Err::<PageEvent<CupsPageHeaderV2>, CupsRasterError>(CupsRasterError::Codec(body_error(d@, input@, eof)))
                                },
                                CupsRasterUnifiedDecoder::Uncompressed(u) => {
                                    let n = crate::passthrough::min3(u.remaining() as nat, max as nat, input@.len());
                                    if n > 0 {
                                        &&& r == Ok::<PageEvent<CupsPageHeaderV2>, CupsRasterError>(PageEvent::Data { consumed: n as usize, produced: n as usize })
                                        &&& final(out)@ == old(out)@ + input@.take(n as int)
                                        &&& final(self).state() matches CupsReaderState::Body(CupsRasterUnifiedDecoder::Uncompressed(u2))
                                            && u2.remaining() == u.remaining() - n
                                    } else if !eof {
                                        &&& r == Ok::<PageEvent<CupsPageHeaderV2>, CupsRasterError>(PageEvent::Pending { consumed: 0 })
                                        &&& final(out)@ == old(out)@
                                        &&& final(self).state() matches CupsReaderState::Body(CupsRasterUnifiedDecoder::Uncompressed(u2))
                                            && u2.remaining() == u.remaining()
                                    } else {
                                        r == Err::<PageEvent<CupsPageHeaderV2>, CupsRasterError>(CupsRasterError::Codec(CodecError::UnexpectedEof))
                                    }
                                },
                            }
                        }
                    },
                }
            }),
    {
        let sync_word = self.sync_word;
        let limits = self.limits;
        match &mut self.state {
            CupsReaderState::PageHeader(f) => {
                match f.feed(input, eof) {
                    Ok(FrameStatus::Complete { consumed }) => {
                        let (header, d) = Self::open_page(sync_word, &limits, f.bytes())?;
                        self.state = CupsReaderState::Body(d);
                        Ok(PageEvent::Page { consumed, header })
                    },
                    Ok(FrameStatus::Incomplete { consumed }) => Ok(PageEvent::Pending { consumed }),
                    Ok(FrameStatus::NoMore) => Ok(PageEvent::End),
                    Err(e) => Err(CupsRasterError::Codec(e)),
                }
            },
            CupsReaderState::Body(d) => {
                if d.bytes_remaining() == 0 {
                    self.state = CupsReaderState::PageHeader(Self::header_reader(sync_word));
                    return Ok(PageEvent::Progress { consumed: 0 });
                }
                let ghost out0 = out@;
                match d.read(input, eof, max, out) {
                    Ok(p) => {
                        if p.produced == 0 {
                            assert(out@.take(out0.len() as int) =~= out@);
                            assert(out@.skip(out0.len() as int) =~= Seq::<u8>::empty());
                        }
                        if p.pending {
                            Ok(PageEvent::Pending { consumed: p.consumed })
                        } else if p.produced == 0 {
                            Err(CupsRasterError::Codec(CodecError::UnexpectedEof))
                        } else {
                            Ok(PageEvent::Data { consumed: p.consumed, produced: p.produced })
                        }
                    },
                    Err(e) => Err(CupsRasterError::Codec(e)),
                }
            },
        }
    }
}

} // verus!
