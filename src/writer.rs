use vstd::prelude::*;

use crate::cups::CupsPageFactoryV1;
use crate::cups::CupsPageFactoryV2;
use crate::cups::CupsPageFactoryV3;
use crate::cups::CupsPageHeaderV2;
use crate::cups::CupsRasterError;
use crate::cups::CupsSyncWord;
use crate::cups::write_page_header_v1;
use crate::cups::write_page_header_v2;
use crate::encoder::CompressedRasterEncoder;
use crate::encoder::write_meets;
use crate::encoder::starts_page;
use crate::encoder::lemma_trace_ends_idle;
use crate::decoder::layout_ok;
use crate::decoder::min_u64;
use crate::cups::header_v1_strings_fit;
use crate::cups::header_v1_bytes;
use crate::cups::header_v2_strings_fit;
use crate::cups::header_v2_bytes;
use crate::cups::plain_body_out;
use crate::cups::compressed_body_out;
use crate::cups::spec_num_colors;
use crate::cups::spec_num_colors_v2;
use crate::reader::is_v1;
use crate::reader::is_v2;
use crate::urf::urf_params;
use crate::encoder::WriteProgress;
use crate::error::CodecError;
use crate::framing::HeaderWriter;
use crate::passthrough::UncompressedRasterEncoder;
use crate::urf::UrfError;
use crate::urf::UrfHeader;
use crate::urf::UrfPageFactory;
use crate::urf::UrfPageHeader;

verus! {

/// The encoder of a CUPS page body: compressed for version 2, plain otherwise.
pub enum CupsRasterUnifiedEncoder {
    Uncompressed(UncompressedRasterEncoder),
    Compressed(CompressedRasterEncoder),
}

impl CupsRasterUnifiedEncoder {
    pub open spec fn wf(&self) -> bool {
        match self {
            CupsRasterUnifiedEncoder::Compressed(e) => e.wf(),
            CupsRasterUnifiedEncoder::Uncompressed(_) => true,
        }
    }

    pub open spec fn remaining(&self) -> u64 {
        match self {
            CupsRasterUnifiedEncoder::Compressed(e) => e@.bytes_remaining,
            CupsRasterUnifiedEncoder::Uncompressed(e) => e.remaining(),
        }
    }

    pub open spec fn flushed(&self) -> bool {
        match self {
            CupsRasterUnifiedEncoder::Compressed(e) => e@.flush is Idle,
            CupsRasterUnifiedEncoder::Uncompressed(_) => true,
        }
    }

    pub fn bytes_remaining(&self) -> (r: u64)
        ensures
            r == self.remaining(),
    {
        match self {
            CupsRasterUnifiedEncoder::Compressed(e) => e.bytes_remaining(),
            CupsRasterUnifiedEncoder::Uncompressed(e) => e.bytes_remaining(),
        }
    }

    pub fn is_flushed(&self) -> (r: bool)
        ensures
            r == self.flushed(),
    {
        match self {
            CupsRasterUnifiedEncoder::Compressed(e) => e.is_flushed(),
            CupsRasterUnifiedEncoder::Uncompressed(_) => true,
        }
    }

    /// Encodes from `input` into `out`, at most `room` bytes, as the page's own encoder does:
    /// a compressed page by `CompressedRasterEncoder::write`, a plain one by copying.
    pub fn write(&mut self, input: &[u8], room: usize, closed: bool, out: &mut Vec<u8>) -> (r:
        Result<WriteProgress, CodecError>)
        requires
            old(self).wf(),
        ensures
            final(self).wf(),
            r matches Ok(p) ==> p.consumed <= input@.len() && p.produced <= room
                && final(out)@.len() == old(out)@.len() + p.produced
                && final(out)@.take(old(out)@.len() as int) == old(out)@,
            r matches Err(e) ==> e == CodecError::WriteZero && closed,
            unified_write_meets(*old(self), *final(self), input@, room, closed, old(out)@, final(out)@, r),
    {
        match self {
            CupsRasterUnifiedEncoder::Compressed(e) => e.write(input, room, closed, out),
            CupsRasterUnifiedEncoder::Uncompressed(e) => {
                if room == 0 && closed && e.bytes_remaining() > 0 && input.len() > 0 {
                    return Err(CodecError::WriteZero);
                }
                let n = e.write(input, room, out);
                assert(out@.take(old(out)@.len() as int) =~= old(out)@);
                Ok(WriteProgress { consumed: n, produced: n })
            },
        }
    }
}

/// What one call of a page body encoder's `write` does, from `e` to `e2`: a compressed page
/// as `CompressedRasterEncoder::write` does, a plain one by copying what the page still takes.
pub open spec fn unified_write_meets(
    e: CupsRasterUnifiedEncoder,
    e2: CupsRasterUnifiedEncoder,
    input: Seq<u8>,
    room: usize,
    closed: bool,
    out0: Seq<u8>,
    out1: Seq<u8>,
    r: Result<WriteProgress, CodecError>,
) -> bool {
    match e {
        CupsRasterUnifiedEncoder::Compressed(c) => e2 matches CupsRasterUnifiedEncoder::Compressed(c2)
            && write_meets(c@, c2@, input, room, closed, out0, out1, r),
        CupsRasterUnifiedEncoder::Uncompressed(u) => e2 matches CupsRasterUnifiedEncoder::Uncompressed(u2) && {
            let n = crate::passthrough::min3(u.remaining() as nat, room as nat, input.len());
            &&& (r is Err <==> room == 0 && closed && u.remaining() > 0 && input.len() > 0)
            &&& r is Err ==> r == Err::<WriteProgress, CodecError>(CodecError::WriteZero) && out1 == out0
            &&& r matches Ok(p) ==> {
                &&& p.produced == n && p.consumed == n
                &&& u2.remaining() == u.remaining() - n
                &&& out1 == out0 + input.take(n as int)
            }
        },
    }
}

/// The number of header bytes handed out by a call with `room`.
pub open spec fn header_part(h: HeaderWriter, room: usize) -> int {
    let left = h.bytes().len() - h.written();
    if (room as int) < left {
        room as int
    } else {
        left
    }
}

/// The output `out` followed by the header bytes that a call with `room` hands out.
pub open spec fn after_header(h: HeaderWriter, room: usize, out: Seq<u8>) -> Seq<u8> {
    out + h.bytes().subrange(h.written() as int, h.written() + header_part(h, room))
}

/// Writes a URF file: its header, then for each page its header and encoded body, to a
/// transport that takes bytes in pieces of any size.
pub struct UrfWriter {
    pending: HeaderWriter,
    body: Option<CompressedRasterEncoder>,
}

impl UrfWriter {
    pub closed spec fn pending(&self) -> HeaderWriter {
        self.pending
    }

    pub closed spec fn body(&self) -> Option<CompressedRasterEncoder> {
        self.body
    }

    pub open spec fn wf(&self) -> bool {
        &&& self.pending().wf()
        &&& (self.body() matches Some(e) ==> e.wf())
    }

    /// Whether a new page may start: the header bytes are out and the page before owes
    /// nothing.
    pub open spec fn ready(&self) -> bool {
        &&& self.pending().is_done()
        &&& (self.body() matches Some(e) ==> e@.bytes_remaining == 0 && e@.flush is Idle)
    }

    /// Starts a file with the header `header`; its bytes are handed out first.
    pub fn new(header: UrfHeader) -> (r: UrfWriter)
        ensures
            r.wf(),
            r.pending().bytes() == header.spec_bytes(),
            r.pending().written() == 0,
            r.body() is None,
    {
        UrfWriter { pending: HeaderWriter::new(header.to_bytes()), body: None }
    }

    /// Starts the page `header`: its header bytes are queued and its encoder owes the page's
    /// byte total. Fails with `InvalidData` while bytes of the page before or of a header are
    /// still to be written, and as `UrfPageFactory::encode` does; a failure changes nothing.
    pub fn next_page(&mut self, header: &UrfPageHeader) -> (r: Result<(), UrfError>)
        requires
            old(self).wf(),
        ensures
            final(self).wf(),
            !old(self).ready() ==> r == Err::<(), UrfError>(UrfError::Codec(CodecError::InvalidData)),
            old(self).ready() ==> match urf_params(*header) {
                None => r == Err::<(), UrfError>(UrfError::DataTooLarge),
                Some(p) => if layout_ok(p.chunk_size, p.bytes_per_line, p.num_bytes) && min_u64(
                    p.bytes_per_line,
                    p.num_bytes,
                ) <= usize::MAX {
                    &&& r is Ok
                    &&& final(self).pending().bytes() == header.spec_bytes()
                    &&& final(self).pending().written() == 0
                    &&& final(self).body() matches Some(e) && starts_page(e@, p)
                } else {
                    r == Err::<(), UrfError>(UrfError::Codec(CodecError::InvalidData))
                },
            },
            r is Err ==> final(self).pending() == old(self).pending() && final(self).body() == old(self).body(),
    {
        if !self.pending.done() {
            return Err(UrfError::Codec(CodecError::InvalidData));
        }
        if let Some(e) = &self.body {
            if e.bytes_remaining() > 0 || !e.is_flushed() {
                return Err(UrfError::Codec(CodecError::InvalidData));
            }
        }
        let e = UrfPageFactory::encode(header)?;
        self.pending = HeaderWriter::new(header.to_bytes());
        self.body = Some(e);
        Ok(())
    }

    /// Hands out pending header bytes, then encodes page bytes from `input`; at most `room`
    /// bytes are appended to `out`. Fails with `WriteZero` only when the transport is closed
    /// and bytes are pending with no room for them.
    pub fn write(&mut self, input: &[u8], room: usize, closed: bool, out: &mut Vec<u8>) -> (r:
        Result<WriteProgress, UrfError>)
        requires
            old(self).wf(),
        ensures
            final(self).wf(),
            !closed ==> r is Ok,
            r is Err ==> r == Err::<WriteProgress, UrfError>(UrfError::Codec(CodecError::WriteZero)),
            r matches Ok(p) ==> {
                let h = old(self).pending();
                let n = header_part(h, room);
                let mid = after_header(h, room, old(out)@);
                &&& final(self).pending().bytes() == h.bytes()
                &&& final(self).pending().written() == h.written() + n
                &&& if n < h.bytes().len() - h.written() {
                    &&& p == (WriteProgress { consumed: 0, produced: n as usize })
                    &&& final(out)@ == mid
                    &&& final(self).body() == old(self).body()
                } else {
                    match old(self).body() {
                        None => {
                            &&& p == (WriteProgress { consumed: 0, produced: n as usize })
                            &&& final(out)@ == mid
                            &&& final(self).body() is None
                        },
                        Some(e) => final(self).body() matches Some(e2) && p.produced >= n
                            && write_meets(
                            e@,
                            e2@,
                            input@,
                            (room - n) as usize,
                            closed,
                            mid,
                            final(out)@,
                            Ok(WriteProgress { consumed: p.consumed, produced: (p.produced - n) as usize }),
                        ),
                    }
                }
            },
    {
        let n = match self.pending.emit(room, closed, out) {
            Ok(n) => n,
            Err(e) => return Err(UrfError::Codec(e)),
        };
        if !self.pending.done() {
            return Ok(WriteProgress { consumed: 0, produced: n });
        }
        match &mut self.body {
            Some(e) => match e.write(input, room - n, closed, out) {
                Ok(p) => Ok(WriteProgress { consumed: p.consumed, produced: p.produced + n }),
                Err(err) => Err(UrfError::Codec(err)),
            },
            None => Ok(WriteProgress { consumed: 0, produced: n }),
        }
    }

    /// Hands out what is left of the file: pending header bytes, then what the page's encoder
    /// still holds; says whether all of it is out, which fails only for want of room. Fails
    /// with `InvalidData`, writing nothing, when the current page still expects bytes.
    pub fn finish(&mut self, room: usize, closed: bool, out: &mut Vec<u8>) -> (r: Result<
        bool,
        UrfError,
    >)
        requires
            old(self).wf(),
        ensures
            final(self).wf(),
            (old(self).body() matches Some(e) && e@.bytes_remaining > 0) ==> {
                &&& r == Err::<bool, UrfError>(UrfError::Codec(CodecError::InvalidData))
                &&& final(out)@ == old(out)@
            },
            !(old(self).body() matches Some(e) && e@.bytes_remaining > 0) ==> {
                &&& !closed ==> r is Ok
                &&& r is Err ==> r == Err::<bool, UrfError>(UrfError::Codec(CodecError::WriteZero))
                &&& r matches Ok(done) ==> {
                    let h = old(self).pending();
                    let n = header_part(h, room);
                    let mid = after_header(h, room, old(out)@);
                    &&& final(self).pending().bytes() == h.bytes()
                    &&& final(self).pending().written() == h.written() + n
                    &&& (done <==> final(self).pending().is_done() && (final(self).body() matches Some(e2) ==> e2@.flush is Idle))
                    &&& !done ==> final(out)@.len() == old(out)@.len() + room
                    &&& if n < h.bytes().len() - h.written() {
                        &&& final(out)@ == mid
                        &&& final(self).body() == old(self).body()
                    } else {
                        match old(self).body() {
                            None => final(out)@ == mid && final(self).body() is None,
                            Some(e) => final(self).body() matches Some(e2) && write_meets(
                                e@,
                                e2@,
                                Seq::empty(),
                                (room - n) as usize,
                                closed,
                                mid,
                                final(out)@,
                                Ok(WriteProgress { consumed: 0, produced: (final(out)@.len() - mid.len()) as usize }),
                            ),
                        }
                    }
                }
            },
    {
        if let Some(e) = &self.body {
            if e.bytes_remaining() > 0 {
                return Err(UrfError::Codec(CodecError::InvalidData));
            }
        }
        let n = match self.pending.emit(room, closed, out) {
            Ok(n) => n,
            Err(e) => return Err(UrfError::Codec(e)),
        };
        if !self.pending.done() {
            return Ok(false);
        }
        let nothing: Vec<u8> = Vec::new();
        match &mut self.body {
            Some(e) => {
                match e.write(nothing.as_slice(), room - n, closed, out) {
                    Ok(p) => {
                        proof {
                            assert(nothing@.skip(p.consumed as int) =~= Seq::<u8>::empty());
                            lemma_trace_ends_idle(e@, nothing@.skip(p.consumed as int));
                            assert(nothing@ =~= Seq::<u8>::empty());
                        }
                        Ok(e.is_flushed())
                    },
                    Err(err) => Err(UrfError::Codec(err)),
                }
            },
            None => Ok(true),
        }
    }
}

/// Writes a CUPS raster file: its sync word, then for each page its header and body, to a
/// transport that takes bytes in pieces of any size.
pub struct CupsRasterWriter {
    sync_word: CupsSyncWord,
    pending: HeaderWriter,
    body: Option<CupsRasterUnifiedEncoder>,
}

/// What `CupsRasterWriter::next_page` does with the page `header` in a file of the version
/// that `w` names: the header's bytes and the body's encoder, or the failure.
pub open spec fn cups_next_page_meets(
    w: CupsSyncWord,
    header: CupsPageHeaderV2,
    r: Result<(), CupsRasterError>,
    pending: HeaderWriter,
    body: Option<CupsRasterUnifiedEncoder>,
) -> bool {
    let order = w.spec_byte_order();
    if is_v1(w) {
        if !header_v1_strings_fit(header.v1) {
            r == Err::<(), CupsRasterError>(CupsRasterError::StringTooLong)
        } else {
            match plain_body_out(header.v1, spec_num_colors(header.v1.color_space, header.v1.bits_per_pixel)) {
                Err(e) => r == Err::<(), CupsRasterError>(e),
                Ok(n) => {
                    &&& r is Ok
                    &&& pending.bytes() == header_v1_bytes(order, header.v1)
                    &&& pending.written() == 0
                    &&& body matches Some(CupsRasterUnifiedEncoder::Uncompressed(u)) && u.remaining() == n
                },
            }
        }
    } else if !header_v2_strings_fit(header) {
        r == Err::<(), CupsRasterError>(CupsRasterError::StringTooLong)
    } else if is_v2(w) {
        match compressed_body_out(header.v1, spec_num_colors_v2(header)) {
            Err(e) => r == Err::<(), CupsRasterError>(e),
            Ok(p) => {
                &&& r is Ok
                &&& pending.bytes() == header_v2_bytes(order, header)
                &&& pending.written() == 0
                &&& body matches Some(CupsRasterUnifiedEncoder::Compressed(c)) && starts_page(c@, p)
            },
        }
    } else {
        match plain_body_out(header.v1, spec_num_colors_v2(header)) {
            Err(e) => r == Err::<(), CupsRasterError>(e),
            Ok(n) => {
                &&& r is Ok
                &&& pending.bytes() == header_v2_bytes(order, header)
                &&& pending.written() == 0
                &&& body matches Some(CupsRasterUnifiedEncoder::Uncompressed(u)) && u.remaining() == n
            },
        }
    }
}

impl CupsRasterWriter {
    pub closed spec fn spec_sync_word(&self) -> CupsSyncWord {
        self.sync_word
    }

    pub closed spec fn pending(&self) -> HeaderWriter {
        self.pending
    }

    pub closed spec fn body(&self) -> Option<CupsRasterUnifiedEncoder> {
        self.body
    }

    pub open spec fn wf(&self) -> bool {
        &&& self.pending().wf()
        &&& (self.body() matches Some(e) ==> e.wf())
    }

    /// Whether a new page may start: the header bytes are out and the page before owes
    /// nothing.
    pub open spec fn ready(&self) -> bool {
        &&& self.pending().is_done()
        &&& (self.body() matches Some(e) ==> e.remaining() == 0 && e.flushed())
    }

    /// Starts a file of the version and byte order that `sync_word` names; its four bytes are
    /// handed out first.
    pub fn new(sync_word: CupsSyncWord) -> (r: CupsRasterWriter)
        ensures
            r.wf(),
            r.spec_sync_word() == sync_word,
            r.pending().bytes() == sync_word.spec_bytes(),
            r.pending().written() == 0,
            r.body() is None,
    {
        let bytes = sync_word.to_bytes();
        let mut v: Vec<u8> = Vec::new();
        v.push(bytes[0]);
        v.push(bytes[1]);
        v.push(bytes[2]);
        v.push(bytes[3]);
        assert(v@ =~= sync_word.spec_bytes());
        CupsRasterWriter { sync_word, pending: HeaderWriter::new(v), body: None }
    }

    pub fn sync_word(&self) -> (r: CupsSyncWord)
        ensures
            r == self.spec_sync_word(),
    {
        self.sync_word
    }

    /// Starts the page `header`: its header bytes, in the file's version and byte order, are
    /// queued and its encoder owes the page's byte total. Fails with `Codec(InvalidData)` while
    /// bytes of the page before or of a header are still to be written, and as the header
    /// writer and the page's codec do; a failure changes nothing.
    pub fn next_page(&mut self, header: &CupsPageHeaderV2) -> (r: Result<(), CupsRasterError>)
        requires
            old(self).wf(),
        ensures
            final(self).wf(),
            final(self).spec_sync_word() == old(self).spec_sync_word(),
            !old(self).ready() ==> r == Err::<(), CupsRasterError>(
                CupsRasterError::Codec(CodecError::InvalidData),
            ),
            old(self).ready() ==> cups_next_page_meets(
                old(self).spec_sync_word(),
                *header,
                r,
                final(self).pending(),
                final(self).body(),
            ),
            r is Err ==> final(self).pending() == old(self).pending() && final(self).body() == old(self).body(),
    {
        if !self.pending.done() {
            return Err(CupsRasterError::Codec(CodecError::InvalidData));
        }
        if let Some(e) = &self.body {
            if e.bytes_remaining() > 0 || !e.is_flushed() {
                return Err(CupsRasterError::Codec(CodecError::InvalidData));
            }
        }
        let order = self.sync_word.byte_order();
        let (bytes, e) = match self.sync_word {
            CupsSyncWord::V1BigEndian | CupsSyncWord::V1LittleEndian => {
                let bytes = write_page_header_v1(order, &header.v1)?;
                let e = CupsPageFactoryV1::encode(&header.v1)?;
                (bytes, CupsRasterUnifiedEncoder::Uncompressed(e))
            },
            CupsSyncWord::V2BigEndian | CupsSyncWord::V2LittleEndian => {
                let bytes = write_page_header_v2(order, header)?;
                let e = CupsPageFactoryV2::encode(header)?;
                (bytes, CupsRasterUnifiedEncoder::Compressed(e))
            },
            CupsSyncWord::V3BigEndian | CupsSyncWord::V3LittleEndian => {
                let bytes = write_page_header_v2(order, header)?;
                let e = CupsPageFactoryV3::encode(header)?;
                (bytes, CupsRasterUnifiedEncoder::Uncompressed(e))
            },
        };
        self.pending = HeaderWriter::new(bytes);
        self.body = Some(e);
        Ok(())
    }

    /// Hands out pending header bytes, then encodes page bytes from `input`; at most `room`
    /// bytes are appended to `out`. Fails with `WriteZero` only when the transport is closed
    /// and bytes are pending with no room for them.
    pub fn write(&mut self, input: &[u8], room: usize, closed: bool, out: &mut Vec<u8>) -> (r:
        Result<WriteProgress, CupsRasterError>)
        requires
            old(self).wf(),
        ensures
            final(self).wf(),
            final(self).spec_sync_word() == old(self).spec_sync_word(),
            !closed ==> r is Ok,
            r is Err ==> r == Err::<WriteProgress, CupsRasterError>(CupsRasterError::Codec(CodecError::WriteZero)),
            r matches Ok(p) ==> {
                let h = old(self).pending();
                let n = header_part(h, room);
                let mid = after_header(h, room, old(out)@);
                &&& final(self).pending().bytes() == h.bytes()
                &&& final(self).pending().written() == h.written() + n
                &&& if n < h.bytes().len() - h.written() {
                    &&& p == (WriteProgress { consumed: 0, produced: n as usize })
                    &&& final(out)@ == mid
                    &&& final(self).body() == old(self).body()
                } else {
                    match old(self).body() {
                        None => {
                            &&& p == (WriteProgress { consumed: 0, produced: n as usize })
                            &&& final(out)@ == mid
                            &&& final(self).body() is None
                        },
                        Some(e) => final(self).body() matches Some(e2) && p.produced >= n
                            && unified_write_meets(
                            e,
                            e2,
                            input@,
                            (room - n) as usize,
                            closed,
                            mid,
                            final(out)@,
                            Ok(WriteProgress { consumed: p.consumed, produced: (p.produced - n) as usize }),
                        ),
                    }
                }
            },
    {
        let n = match self.pending.emit(room, closed, out) {
            Ok(n) => n,
            Err(e) => return Err(CupsRasterError::Codec(e)),
        };
        if !self.pending.done() {
            return Ok(WriteProgress { consumed: 0, produced: n });
        }
        match &mut self.body {
            Some(e) => match e.write(input, room - n, closed, out) {
                Ok(p) => Ok(WriteProgress { consumed: p.consumed, produced: p.produced + n }),
                Err(err) => Err(CupsRasterError::Codec(err)),
            },
            None => Ok(WriteProgress { consumed: 0, produced: n }),
        }
    }

    /// Hands out what is left of the file: pending header bytes, then what the page's encoder
    /// still holds; says whether all of it is out, which fails only for want of room. Fails
    /// with `Codec(InvalidData)`, writing nothing, when the current page still expects bytes.
    pub fn finish(&mut self, room: usize, closed: bool, out: &mut Vec<u8>) -> (r: Result<
        bool,
        CupsRasterError,
    >)
        requires
            old(self).wf(),
        ensures
            final(self).wf(),
            (old(self).body() matches Some(e) && e.remaining() > 0) ==> {
                &&& r == Err::<bool, CupsRasterError>(CupsRasterError::Codec(CodecError::InvalidData))
                &&& final(out)@ == old(out)@
            },
            !(old(self).body() matches Some(e) && e.remaining() > 0) ==> {
                &&& !closed ==> r is Ok
                &&& r is Err ==> r == Err::<bool, CupsRasterError>(CupsRasterError::Codec(CodecError::WriteZero))
                &&& r matches Ok(done) ==> {
                    let h = old(self).pending();
                    let n = header_part(h, room);
                    let mid = after_header(h, room, old(out)@);
                    &&& final(self).pending().bytes() == h.bytes()
                    &&& final(self).pending().written() == h.written() + n
                    &&& (done <==> final(self).pending().is_done() && (final(self).body() matches Some(e2) ==> e2.flushed()))
                    &&& !done ==> final(out)@.len() == old(out)@.len() + room
                    &&& if n < h.bytes().len() - h.written() {
                        &&& final(out)@ == mid
                        &&& final(self).body() == old(self).body()
                    } else {
                        match old(self).body() {
                            None => final(out)@ == mid && final(self).body() is None,
                            Some(e) => final(self).body() matches Some(e2) && unified_write_meets(
                                e,
                                e2,
                                Seq::empty(),
                                (room - n) as usize,
                                closed,
                                mid,
                                final(out)@,
                                Ok(WriteProgress { consumed: 0, produced: (final(out)@.len() - mid.len()) as usize }),
                            ),
                        }
                    }
                }
            },
    {
        if let Some(e) = &self.body {
            if e.bytes_remaining() > 0 {
                return Err(CupsRasterError::Codec(CodecError::InvalidData));
            }
        }
        let n = match self.pending.emit(room, closed, out) {
            Ok(n) => n,
            Err(e) => return Err(CupsRasterError::Codec(e)),
        };
        if !self.pending.done() {
            return Ok(false);
        }
        let nothing: Vec<u8> = Vec::new();
        match &mut self.body {
            Some(e) => {
                match e.write(nothing.as_slice(), room - n, closed, out) {
                    Ok(p) => {
                        proof {
                            assert(nothing@.skip(p.consumed as int) =~= Seq::<u8>::empty());
                            assert(nothing@ =~= Seq::<u8>::empty());
                            if let CupsRasterUnifiedEncoder::Compressed(c) = e {
                                lemma_trace_ends_idle(c@, nothing@.skip(p.consumed as int));
                            }
                        }
                        Ok(e.is_flushed())
                    },
                    Err(err) => Err(CupsRasterError::Codec(err)),
                }
            },
            None => Ok(true),
        }
    }
}

} // verus!
