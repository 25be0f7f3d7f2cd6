use vstd::prelude::*;

use crate::error::CodecError;
use crate::limits::Limits;
use crate::variant::CodecParams;

verus! {

/// Where the decoder stands inside the current line.
#[derive(Clone, Copy, Debug, PartialEq, Eq, Structural)]
pub enum DecodeState {
    /// The next input byte is a line's repeat count.
    Begin,
    /// The next input byte is a block opcode; `cursor` bytes of the line are known.
    BeginBlock { cursor: usize },
    /// `remaining` payload bytes of a block are still to be read into the line at `cursor`;
    /// after them the last chunk is copied `repeat_last` more times.
    ReadBlock { repeat_last: u8, cursor: usize, remaining: usize },
    /// `remaining` bytes of the line buffer, from `cursor`, are still to be delivered.
    UseBuffer { cursor: usize, remaining: usize },
}

/// The mathematical state of a compressed decoder.
pub struct DecoderView {
    pub chunk_size: u8,
    pub fill_byte: u8,
    pub line: Seq<u8>,
    pub line_repeat: u8,
    pub state: DecodeState,
    pub bytes_remaining: u64,
}

/// How a run of the decoder over some input stops.
#[derive(Clone, Copy, Debug, PartialEq, Eq, Structural)]
pub enum TraceEnd {
    /// Every declared byte has been delivered.
    Finished,
    /// The input ended cleanly, at the start of a line.
    EndOfInput,
    /// The input is used up and the decoder waits for more.
    Pending,
    /// The decoder failed.
    Failed(CodecError),
}

/// Progress made by one call of `read`.
#[derive(Clone, Copy, Debug, PartialEq, Eq)]
pub struct ReadProgress {
    /// Input bytes taken.
    pub consumed: usize,
    /// Decoded bytes appended to the output.
    pub produced: usize,
    /// Nothing was produced because more input is needed.
    pub pending: bool,
}

/// Number of decoded bytes that a block opcode other than `0x80` stands for.
pub open spec fn block_extent(chunk_size: u8, code: u8) -> nat {
    if code <= 0x7F {
        (code as nat + 1) * chunk_size as nat
    } else {
        ((257 - code as nat) as nat) * chunk_size as nat
    }
}

/// The line with every byte from `from` on set to `fill`.
pub open spec fn fill_from(line: Seq<u8>, from: int, fill: u8) -> Seq<u8> {
    Seq::new(line.len(), |i: int| if i >= from { fill } else { line[i] })
}

/// The line after `n` bytes from `from` on were each copied from `chunk` bytes before them,
/// in increasing order: the chunk that ends at `from` repeated over them.
pub open spec fn copy_back(line: Seq<u8>, from: int, n: nat, chunk: int) -> Seq<u8>
    decreases n,
{
    if n == 0 {
        line
    } else {
        let prev = copy_back(line, from, (n - 1) as nat, chunk);
        prev.update(from + n - 1, prev[from + n - 1 - chunk])
    }
}

/// A step that needs no input: delivering one buffered byte, or moving on once the buffer
/// is delivered.
pub open spec fn free_step(v: DecoderView) -> (DecoderView, Seq<u8>) {
    match v.state {
        DecodeState::UseBuffer { cursor, remaining } => {
            if remaining > 0 {
                (
                    DecoderView {
                        state: DecodeState::UseBuffer {
                            cursor: (cursor + 1) as usize,
                            remaining: (remaining - 1) as usize,
                        },
                        bytes_remaining: (v.bytes_remaining - 1) as u64,
                        ..v
                    },
                    seq![v.line[cursor as int]],
                )
            } else if cursor == v.line.len() {
                if v.line_repeat > 0 {
                    (
                        DecoderView {
                            line_repeat: (v.line_repeat - 1) as u8,
                            state: DecodeState::UseBuffer {
                                cursor: 0,
                                remaining: v.line.len() as usize,
                            },
                            ..v
                        },
                        Seq::empty(),
                    )
                } else {
                    (DecoderView { state: DecodeState::Begin, ..v }, Seq::empty())
                }
            } else {
                (DecoderView { state: DecodeState::BeginBlock { cursor }, ..v }, Seq::empty())
            }
        },
        _ => (v, Seq::empty()),
    }
}

/// A step that takes the input byte `b`.
pub open spec fn input_step(v: DecoderView, b: u8) -> Result<(DecoderView, Seq<u8>), CodecError> {
    match v.state {
        DecodeState::Begin => Ok(
            (
                DecoderView { line_repeat: b, state: DecodeState::BeginBlock { cursor: 0 }, ..v },
                Seq::empty(),
            ),
        ),
        DecodeState::BeginBlock { cursor } => {
            if b == 0x80 {
                Ok(
                    (
                        DecoderView {
                            line: fill_from(v.line, cursor as int, v.fill_byte),
                            state: DecodeState::UseBuffer {
                                cursor,
                                remaining: (v.line.len() - cursor) as usize,
                            },
                            ..v
                        },
                        Seq::empty(),
                    ),
                )
            } else if block_extent(v.chunk_size, b) > v.line.len() - cursor {
                Err(CodecError::InvalidData)
            } else if b <= 0x7F {
                Ok(
                    (
                        DecoderView {
                            state: DecodeState::ReadBlock {
                                repeat_last: b,
                                cursor,
                                remaining: v.chunk_size as usize,
                            },
                            ..v
                        },
                        Seq::empty(),
                    ),
                )
            } else {
                Ok(
                    (
                        DecoderView {
                            state: DecodeState::ReadBlock {
                                repeat_last: 0,
                                cursor,
                                remaining: block_extent(v.chunk_size, b) as usize,
                            },
                            ..v
                        },
                        Seq::empty(),
                    ),
                )
            }
        },
        DecodeState::ReadBlock { repeat_last, cursor, remaining } => {
            let line = v.line.update(cursor as int, b);
            let next = (cursor + 1) as usize;
            let w = if remaining > 1 {
                DecoderView {
                    line,
                    state: DecodeState::ReadBlock {
                        repeat_last,
                        cursor: next,
                        remaining: (remaining - 1) as usize,
                    },
                    bytes_remaining: (v.bytes_remaining - 1) as u64,
                    ..v
                }
            } else {
                let copies = repeat_last as nat * v.chunk_size as nat;
                DecoderView {
                    line: copy_back(line, next as int, copies, v.chunk_size as int),
                    state: DecodeState::UseBuffer { cursor: next, remaining: copies as usize },
                    bytes_remaining: (v.bytes_remaining - 1) as u64,
                    ..v
                }
            };
            Ok((w, seq![b]))
        },
        DecodeState::UseBuffer { .. } => Ok((v, Seq::empty())),
    }
}

pub open spec fn needs_input(s: DecodeState) -> bool {
    !(s is UseBuffer)
}

pub open spec fn state_rank(s: DecodeState) -> nat {
    if s is UseBuffer {
        1
    } else {
        0
    }
}

/// `w` comes before `v` in the order in which the free steps of a run descend.
pub open spec fn free_progress(v: DecoderView, w: DecoderView) -> bool {
    ||| v.bytes_remaining > w.bytes_remaining
    ||| v.bytes_remaining == w.bytes_remaining && v.line_repeat > w.line_repeat
    ||| v.bytes_remaining == w.bytes_remaining && v.line_repeat == w.line_repeat && state_rank(
        w.state,
    ) < state_rank(v.state)
}

/// Runs the decoder from `v` over the whole of `inp`: the bytes it delivers, how it stops,
/// and the state it stops in. `eof` says that no input follows `inp`.
pub open spec fn trace(v: DecoderView, inp: Seq<u8>, eof: bool) -> (Seq<u8>, TraceEnd, DecoderView)
    decreases inp.len(), v.bytes_remaining, v.line_repeat, state_rank(v.state),
{
    if v.bytes_remaining == 0 {
        (Seq::empty(), TraceEnd::Finished, v)
    } else if !needs_input(v.state) {
        let (w, o) = free_step(v);
        if free_progress(v, w) {
            let t = trace(w, inp, eof);
            (o + t.0, t.1, t.2)
        } else {
            (Seq::empty(), TraceEnd::Pending, v)
        }
    } else if inp.len() == 0 {
        if !eof {
            (Seq::empty(), TraceEnd::Pending, v)
        } else if v.state is Begin {
            (Seq::empty(), TraceEnd::EndOfInput, v)
        } else {
            (Seq::empty(), TraceEnd::Failed(CodecError::UnexpectedEof), v)
        }
    } else {
        match input_step(v, inp[0]) {
            Err(e) => (Seq::empty(), TraceEnd::Failed(e), v),
            Ok((w, o)) => {
                let t = trace(w, inp.drop_first(), eof);
                (o + t.0, t.1, t.2)
            },
        }
    }
}

/// After delivering `produced` from `before` and taking `consumed` bytes of `inp`, the decoder
/// stands in `after`: a run from `after` over the rest of `inp` finishes the run from `before`.
pub open spec fn resumes(
    before: DecoderView,
    inp: Seq<u8>,
    eof: bool,
    produced: Seq<u8>,
    after: DecoderView,
    consumed: nat,
) -> bool {
    let t = trace(before, inp, eof);
    let u = trace(after, inp.skip(consumed as int), eof);
    &&& consumed <= inp.len()
    &&& t.0 == produced + u.0
    &&& t.1 == u.1
    &&& t.2 == u.2
}

/// What one call of `read` does, from `before` to `after`, with `input`, `eof` and `max`,
/// appending to the output `out0` to give `out1`: it delivers the start of the run
/// `trace(before, input, eof)` and stops where that run can be resumed. It stops early only
/// after delivering a byte; when it delivers nothing (and `max > 0`), the run delivers nothing
/// either and the result tells how it ends. A failing call delivers nothing and leaves the
/// byte count as it was.
pub open spec fn read_meets(
    before: DecoderView,
    after: DecoderView,
    input: Seq<u8>,
    eof: bool,
    max: usize,
    out0: Seq<u8>,
    out1: Seq<u8>,
    r: Result<ReadProgress, CodecError>,
) -> bool {
    let t = trace(before, input, eof);
    match r {
        Ok(p) => {
            &&& p.produced <= max
            &&& p.consumed <= input.len()
            &&& after.bytes_remaining == before.bytes_remaining - p.produced
            &&& out1.len() == out0.len() + p.produced
            &&& out1.take(out0.len() as int) == out0
            &&& resumes(before, input, eof, out1.skip(out0.len() as int), after, p.consumed as nat)
            &&& (max > 0 && t.0.len() > 0 ==> p.produced > 0)
            &&& (p.produced == 0 && max > 0 ==> {
                &&& t.0.len() == 0
                &&& !(t.1 is Failed)
                &&& (p.pending <==> t.1 == TraceEnd::Pending)
            })
            &&& (p.pending ==> p.produced == 0)
        },
        Err(e) => {
            &&& max > 0
            &&& t.0.len() == 0
            &&& t.1 == TraceEnd::Failed(e)
            &&& out1 == out0
            &&& after.bytes_remaining == before.bytes_remaining
        },
    }
}

/// `v` is a decoder at the start of a page with the parameters `p`.
pub open spec fn starts_page(v: DecoderView, p: CodecParams) -> bool {
    &&& view_wf(v)
    &&& v.state is Begin
    &&& v.chunk_size == p.chunk_size
    &&& v.fill_byte == p.fill_byte
    &&& v.line.len() == min_u64(p.bytes_per_line, p.num_bytes)
    &&& v.bytes_remaining == p.num_bytes
}

/// The well-formedness of a decoder state: every cursor and extent lies inside the line.
pub open spec fn view_wf(v: DecoderView) -> bool {
    let len = v.line.len();
    &&& len <= usize::MAX
    &&& (len > 0 ==> v.chunk_size > 0)
    &&& (v.bytes_remaining > 0 ==> len > 0)
    &&& match v.state {
        DecodeState::Begin => true,
        DecodeState::BeginBlock { cursor } => cursor < len,
        DecodeState::ReadBlock { repeat_last, cursor, remaining } => {
            &&& remaining > 0
            &&& cursor + remaining + repeat_last * v.chunk_size <= len
            &&& (repeat_last > 0 ==> cursor + remaining >= v.chunk_size)
        },
        DecodeState::UseBuffer { cursor, remaining } => cursor + remaining <= len,
    }
}

/// A free step of a well-formed state always makes progress.
proof fn lemma_free_step_progress(v: DecoderView)
    requires
        view_wf(v),
        v.state is UseBuffer,
        v.bytes_remaining > 0,
    ensures
        free_progress(v, free_step(v).0),
{
}

/// Decoder for the packbits-style compressed page body.
pub struct CompressedRasterDecoder {
    chunk_size: u8,
    fill_byte: u8,
    line_buffer: Vec<u8>,
    line_repeat: u8,
    state: DecodeState,
    bytes_remaining: u64,
}

impl View for CompressedRasterDecoder {
    type V = DecoderView;

    closed spec fn view(&self) -> DecoderView {
        DecoderView {
            chunk_size: self.chunk_size,
            fill_byte: self.fill_byte,
            line: self.line_buffer@,
            line_repeat: self.line_repeat,
            state: self.state,
            bytes_remaining: self.bytes_remaining,
        }
    }
}

/// Whether a page of `num_bytes` bytes in lines of `bytes_per_line` bytes, compared in chunks
/// of `chunk_size` bytes, is laid out consistently.
pub open spec fn layout_ok(chunk_size: u8, bytes_per_line: u64, num_bytes: u64) -> bool {
    &&& (bytes_per_line != 0 ==> chunk_size != 0 && bytes_per_line % chunk_size as u64 == 0)
    &&& (num_bytes != 0 ==> bytes_per_line != 0 && num_bytes % bytes_per_line == 0)
}

/// Why a compressed decoder with these parameters cannot be made.
pub open spec fn decoder_params_ok(
    limits: Limits,
    chunk_size: u8,
    bytes_per_line: u64,
    num_bytes: u64,
) -> bool {
    &&& bytes_per_line <= limits.bytes_per_line
    &&& num_bytes <= limits.bytes_per_page
    &&& layout_ok(chunk_size, bytes_per_line, num_bytes)
    &&& min_u64(bytes_per_line, num_bytes) <= usize::MAX
}

pub open spec fn min_u64(a: u64, b: u64) -> u64 {
    if a <= b {
        a
    } else {
        b
    }
}

impl CompressedRasterDecoder {
    pub open spec fn wf(&self) -> bool {
        view_wf(self@)
    }

    /// Makes a decoder for a page of `num_bytes` decoded bytes. Fails with `InvalidData` when
    /// a size exceeds `limits` or the layout is inconsistent.
    pub fn new(
        limits: &Limits,
        chunk_size: u8,
        bytes_per_line: u64,
        num_bytes: u64,
        fill_byte: u8,
    ) -> (r: Result<CompressedRasterDecoder, CodecError>)
        ensures
            r is Ok <==> decoder_params_ok(*limits, chunk_size, bytes_per_line, num_bytes),
            r is Err ==> r == Err::<CompressedRasterDecoder, CodecError>(CodecError::InvalidData),
            r matches Ok(d) ==> {
                &&& d.wf()
                &&& d@.chunk_size == chunk_size
                &&& d@.fill_byte == fill_byte
                &&& d@.line.len() == min_u64(bytes_per_line, num_bytes)
                &&& d@.line_repeat == 0
                &&& d@.state == DecodeState::Begin
                &&& d@.bytes_remaining == num_bytes
            },
    {
        if bytes_per_line > limits.bytes_per_line {
            return Err(CodecError::InvalidData);
        }
        if num_bytes > limits.bytes_per_page {
            return Err(CodecError::InvalidData);
        }
        if bytes_per_line != 0 && (chunk_size == 0 || bytes_per_line % chunk_size as u64 != 0) {
            return Err(CodecError::InvalidData);
        }
        if num_bytes != 0 && (bytes_per_line == 0 || num_bytes % bytes_per_line != 0) {
            return Err(CodecError::InvalidData);
        }
        let size = if bytes_per_line <= num_bytes {
            bytes_per_line
        } else {
            num_bytes
        };
        if size > usize::MAX as u64 {
            return Err(CodecError::InvalidData);
        }
        let line_buffer = vec![0u8; size as usize];
        proof {
            if size > 0 {
                assert(bytes_per_line != 0);
            }
        }
        Ok(
            CompressedRasterDecoder {
                chunk_size,
                fill_byte,
                line_buffer,
                line_repeat: 0,
                state: DecodeState::Begin,
                bytes_remaining: num_bytes,
            },
        )
    }

    /// Performs `free_step`; says whether a byte was delivered.
    fn use_buffer_step(&mut self, out: &mut Vec<u8>) -> (emitted: bool)
        requires
            old(self).wf(),
            old(self)@.state is UseBuffer,
            old(self)@.bytes_remaining > 0,
        ensures
            final(self).wf(),
            final(self)@ == free_step(old(self)@).0,
            final(out)@ == old(out)@ + free_step(old(self)@).1,
            emitted <==> free_step(old(self)@).1.len() == 1,
            !emitted ==> free_step(old(self)@).1.len() == 0,
            final(self)@.bytes_remaining == old(self)@.bytes_remaining - (if emitted {
                1int
            } else {
                0
            }),
    {
        match self.state {
            DecodeState::UseBuffer { cursor, remaining } => {
                if remaining > 0 {
                    let b = self.line_buffer[cursor];
                    out.push(b);
                    self.state = DecodeState::UseBuffer {
                        cursor: cursor + 1,
                        remaining: remaining - 1,
                    };
                    self.bytes_remaining = self.bytes_remaining - 1;
                    true
                } else if cursor == self.line_buffer.len() {
                    if self.line_repeat > 0 {
                        self.line_repeat = self.line_repeat - 1;
                        self.state = DecodeState::UseBuffer {
                            cursor: 0,
                            remaining: self.line_buffer.len(),
                        };
                    } else {
                        self.state = DecodeState::Begin;
                    }
                    false
                } else {
                    self.state = DecodeState::BeginBlock { cursor };
                    false
                }
            },
            _ => false,
        }
    }

    /// Fills the line buffer with the fill byte from `from` to its end.
    fn fill_line_from(&mut self, from: usize)
        requires
            from <= old(self).line_buffer@.len(),
        ensures
            final(self).line_buffer@ == fill_from(old(self).line_buffer@, from as int, old(self).fill_byte),
            final(self).chunk_size == old(self).chunk_size,
            final(self).fill_byte == old(self).fill_byte,
            final(self).line_repeat == old(self).line_repeat,
            final(self).state == old(self).state,
            final(self).bytes_remaining == old(self).bytes_remaining,
    {
        let len = self.line_buffer.len();
        let mut i = from;
        while i < len
            invariant
                from <= i <= len,
                len == self.line_buffer@.len(),
                len == old(self).line_buffer@.len(),
                self.chunk_size == old(self).chunk_size,
                self.fill_byte == old(self).fill_byte,
                self.line_repeat == old(self).line_repeat,
                self.state == old(self).state,
                self.bytes_remaining == old(self).bytes_remaining,
                forall|j: int| 0 <= j < len ==> #[trigger] self.line_buffer@[j] == if from <= j < i {
                    self.fill_byte
                } else {
                    old(self).line_buffer@[j]
                },
            decreases len - i,
        {
            let f = self.fill_byte;
            self.line_buffer[i] = f;
            i = i + 1;
        }
        assert(self.line_buffer@ =~= fill_from(old(self).line_buffer@, from as int, self.fill_byte));
    }

    /// Repeats the chunk that ends at `from` over the `n` bytes that follow it.
    fn repeat_chunk(&mut self, from: usize, n: usize)
        requires
            old(self).chunk_size as int <= from,
            from + n <= old(self).line_buffer@.len(),
            old(self).line_buffer@.len() <= usize::MAX,
        ensures
            final(self).line_buffer@ == copy_back(
                old(self).line_buffer@,
                from as int,
                n as nat,
                old(self).chunk_size as int,
            ),
            final(self).line_buffer@.len() == old(self).line_buffer@.len(),
            final(self).chunk_size == old(self).chunk_size,
            final(self).fill_byte == old(self).fill_byte,
            final(self).line_repeat == old(self).line_repeat,
            final(self).state == old(self).state,
            final(self).bytes_remaining == old(self).bytes_remaining,
    {
        let chunk = self.chunk_size as usize;
        let mut k: usize = 0;
        while k < n
            invariant
                k <= n,
                chunk == self.chunk_size,
                chunk <= from,
                from + n <= self.line_buffer@.len(),
                self.line_buffer@.len() <= usize::MAX,
                self.line_buffer@.len() == old(self).line_buffer@.len(),
                self.line_buffer@ == copy_back(old(self).line_buffer@, from as int, k as nat, chunk as int),
                self.chunk_size == old(self).chunk_size,
                self.fill_byte == old(self).fill_byte,
                self.line_repeat == old(self).line_repeat,
                self.state == old(self).state,
                self.bytes_remaining == old(self).bytes_remaining,
            decreases n - k,
        {
            let b = self.line_buffer[from + k - chunk];
            self.line_buffer[from + k] = b;
            k = k + 1;
        }
    }

    /// Performs `input_step` on the byte `b`.
    fn input_byte_step(&mut self, b: u8, out: &mut Vec<u8>) -> (r: Result<bool, CodecError>)
        requires
            old(self).wf(),
            !(old(self)@.state is UseBuffer),
            old(self)@.bytes_remaining > 0,
        ensures
            match input_step(old(self)@, b) {
                Ok((w, o)) => {
                    &&& r == Ok::<bool, CodecError>(o.len() == 1)
                    &&& o.len() <= 1
                    &&& w.bytes_remaining == old(self)@.bytes_remaining - o.len()
                    &&& final(self).wf()
                    &&& final(self)@ == w
                    &&& final(self)@.line.len() == old(self)@.line.len()
                    &&& final(out)@ == old(out)@ + o
                },
                Err(e) => {
                    &&& r == Err::<bool, CodecError>(e)
                    &&& final(self)@ == old(self)@
                    &&& final(out)@ == old(out)@
                },
            },
    {
        let len = self.line_buffer.len();
        match self.state {
            DecodeState::Begin => {
                self.line_repeat = b;
                self.state = DecodeState::BeginBlock { cursor: 0 };
                assert(self@ == input_step(old(self)@, b).unwrap().0);
                Ok(false)
            },
            DecodeState::BeginBlock { cursor } => {
                if b == 0x80 {
                    self.fill_line_from(cursor);
                    self.state = DecodeState::UseBuffer { cursor, remaining: len - cursor };
                    assert(self@ == input_step(old(self)@, b).unwrap().0);
                    return Ok(false);
                }
                let chunk = self.chunk_size as usize;
                let count: usize = if b <= 0x7F {
                    b as usize + 1
                } else {
                    257 - b as usize
                };
                proof {
                    assert(count <= 128);
                    assert(count * chunk <= 128 * 255) by (nonlinear_arith)
                        requires
                            count <= 128,
                            chunk <= 255,
                    ;
                }
                let extent = count * chunk;
                assert(extent == block_extent(self.chunk_size, b));
                if extent > len - cursor {
                    return Err(CodecError::InvalidData);
                }
                if b <= 0x7F {
                    proof {
                        assert(count * chunk == chunk + (b as int) * chunk) by (nonlinear_arith)
                            requires
                                count == b + 1,
                        ;
                    }
                    self.state = DecodeState::ReadBlock { repeat_last: b, cursor, remaining: chunk };
                } else {
                    proof {
                        assert(count * chunk > 0) by (nonlinear_arith)
                            requires
                                count >= 2,
                                chunk > 0,
                        ;
                    }
                    self.state = DecodeState::ReadBlock { repeat_last: 0, cursor, remaining: extent };
                }
                assert(self@ == input_step(old(self)@, b).unwrap().0);
                Ok(false)
            },
            DecodeState::ReadBlock { repeat_last, cursor, remaining } => {
                self.line_buffer[cursor] = b;
                out.push(b);
                self.bytes_remaining = self.bytes_remaining - 1;
                if remaining > 1 {
                    self.state = DecodeState::ReadBlock {
                        repeat_last,
                        cursor: cursor + 1,
                        remaining: remaining - 1,
                    };
                } else {
                    let chunk = self.chunk_size as usize;
                    proof {
                        assert(repeat_last as int * chunk <= 255 * 255) by (nonlinear_arith)
                            requires
                                repeat_last <= 255,
                                chunk <= 255,
                        ;
                    }
                    let copies = repeat_last as usize * chunk;
                    proof {
                        if repeat_last == 0 {
                            assert(copies == 0) by (nonlinear_arith)
                                requires
                                    repeat_last == 0,
                                    copies == repeat_last as int * chunk,
                            ;
                        }
                    }
                    if copies > 0 {
                        self.repeat_chunk(cursor + 1, copies);
                    }
                    self.state = DecodeState::UseBuffer { cursor: cursor + 1, remaining: copies };
                }
                assert(self@ == input_step(old(self)@, b).unwrap().0);
                Ok(true)
            },
            DecodeState::UseBuffer { .. } => Ok(false),
        }
    }

    /// Decodes from the bytes `input` that the transport has made available, appending at most
    /// `max` decoded bytes to `out`; `eof` says that the transport has no more bytes.
    ///
    /// The call delivers the start of the run `trace(self@, input@, eof)` and stops where that
    /// run can be resumed. It stops early only after delivering a byte: at a line or block
    /// boundary, or once `max` bytes are delivered. When it delivers nothing (and `max > 0`),
    /// the run delivers nothing either, and the result tells how it ends: `pending` when more
    /// input is needed, `Ok` with nothing produced at the end of the page or of a clean input,
    /// and the run's error otherwise.
    pub fn read(&mut self, input: &[u8], eof: bool, max: usize, out: &mut Vec<u8>) -> (r: Result<
        ReadProgress,
        CodecError,
    >)
        requires
            old(self).wf(),
        ensures
            final(self).wf(),
            final(self)@.chunk_size == old(self)@.chunk_size,
            final(self)@.fill_byte == old(self)@.fill_byte,
            final(self)@.line.len() == old(self)@.line.len(),
            read_meets(old(self)@, final(self)@, input@, eof, max, old(out)@, final(out)@, r),
    {
        proof {
            assert(input@.skip(0) =~= input@);
            assert(out@.skip(out@.len() as int) =~= Seq::<u8>::empty());
            assert(out@.take(out@.len() as int) =~= out@);
        }
        if max == 0 || self.bytes_remaining == 0 {
            return Ok(ReadProgress { consumed: 0, produced: 0, pending: false });
        }
        let ghost v0 = self@;
        let ghost out0 = out@;
        let mut consumed: usize = 0;
        let mut produced: usize = 0;
        loop
            invariant
                self.wf(),
                self@.chunk_size == v0.chunk_size,
                self@.fill_byte == v0.fill_byte,
                self@.line.len() == v0.line.len(),
                v0 == old(self)@,
                out0 == old(out)@,
                max > 0,
                consumed <= input@.len(),
                produced <= max,
                self@.bytes_remaining == v0.bytes_remaining - produced,
                out@.len() == out0.len() + produced,
                out@.take(out0.len() as int) == out0,
                resumes(v0, input@, eof, out@.skip(out0.len() as int), self@, consumed as nat),
                (self@.state is Begin || self@.state is BeginBlock) ==> produced == 0,
            decreases input@.len() - consumed, self@.bytes_remaining, self@.line_repeat, state_rank(
                self@.state,
            ),
        {
            let ghost before = self@;
            let ghost out_before = out@;
            let ghost rest = input@.skip(consumed as int);
            if self.bytes_remaining == 0 || produced == max {
                return Ok(ReadProgress { consumed, produced, pending: false });
            }
            match self.state {
                DecodeState::UseBuffer { .. } => {
                    proof {
                        lemma_free_step_progress(before);
                    }
                    let emitted = self.use_buffer_step(out);
                    if emitted {
                        produced = produced + 1;
                    }
                    proof {
                        let o = free_step(before).1;
                        let u_old = trace(before, rest, eof);
                        let u_new = trace(self@, rest, eof);
                        assert(u_old.0 == o + u_new.0);
                        assert(u_old.1 == u_new.1 && u_old.2 == u_new.2);
                        assert(out@.skip(out0.len() as int) =~= out_before.skip(out0.len() as int) + o);
                        assert(out_before.skip(out0.len() as int) + u_old.0 =~= out@.skip(
                            out0.len() as int,
                        ) + u_new.0);
                        assert(out@.take(out0.len() as int) =~= out0);
                    }
                    if produced > 0 && !matches!(self.state, DecodeState::UseBuffer { .. }) {
                        return Ok(ReadProgress { consumed, produced, pending: false });
                    }
                },
                _ => {
                    if consumed == input.len() {
                        proof {
                            assert(rest.len() == 0);
                        }
                        if produced > 0 {
                            return Ok(ReadProgress { consumed, produced, pending: false });
                        } else if !eof {
                            return Ok(ReadProgress { consumed, produced, pending: true });
                        } else if matches!(self.state, DecodeState::Begin) {
                            return Ok(ReadProgress { consumed, produced, pending: false });
                        } else {
                            assert(out@.take(out0.len() as int) =~= out@); assert(out@ =~= out0);
                            return Err(CodecError::UnexpectedEof);
                        }
                    }
                    let b = input[consumed];
                    proof {
                        assert(rest[0] == b);
                        assert(rest.drop_first() =~= input@.skip(consumed + 1));
                    }
                    match self.input_byte_step(b, out) {
                        Err(e) => {
                            assert(out@.take(out0.len() as int) =~= out@); assert(out@ =~= out0);
                            return Err(e);
                        },
                        Ok(emitted) => {
                            consumed = consumed + 1;
                            if emitted {
                                produced = produced + 1;
                            }
                            proof {
                                let o = input_step(before, b).unwrap().1;
                                let u_old = trace(before, rest, eof);
                                let u_new = trace(self@, input@.skip(consumed as int), eof);
                                assert(u_old.0 == o + u_new.0);
                                assert(u_old.1 == u_new.1 && u_old.2 == u_new.2);
                                assert(out@.skip(out0.len() as int) =~= out_before.skip(
                                    out0.len() as int,
                                ) + o);
                                assert(out_before.skip(out0.len() as int) + u_old.0 =~= out@.skip(
                                    out0.len() as int,
                                ) + u_new.0);
                                assert(out@.take(out0.len() as int) =~= out0);
                            }
                        },
                    }
                },
            }
        }
    }

    /// Number of decoded bytes still to be delivered.
    pub fn bytes_remaining(&self) -> (r: u64)
        ensures
            r == self@.bytes_remaining,
    {
        self.bytes_remaining
    }
}

/// Feeds `inp` to the decoder one byte at a time, each byte as a transport that offers just
/// that byte, stopping as soon as a piece ends the run.
pub open spec fn feed_bytewise(v: DecoderView, inp: Seq<u8>, eof: bool) -> (
    Seq<u8>,
    TraceEnd,
    DecoderView,
)
    decreases inp.len(),
{
    if inp.len() == 0 {
        trace(v, inp, eof)
    } else {
        let t = trace(v, seq![inp[0]], false);
        if t.1 == TraceEnd::Pending {
            let u = feed_bytewise(t.2, inp.drop_first(), eof);
            (t.0 + u.0, u.1, u.2)
        } else {
            t
        }
    }
}

/// A run over `a` that stops waiting for input continues over `b` from the state it stopped
/// in, exactly as a run over `a + b` does; a run that stops for another reason is not changed
/// by input that follows.
pub proof fn lemma_trace_split(v: DecoderView, a: Seq<u8>, b: Seq<u8>, eof: bool)
    ensures
        ({
            let t = trace(v, a, false);
            let u = trace(t.2, b, eof);
            let w = trace(v, a + b, eof);
            &&& t.1 is Pending ==> w.0 == t.0 + u.0 && w.1 == u.1 && w.2 == u.2
            &&& !(t.1 is Pending) ==> w == t
        }),
    decreases a.len(), v.bytes_remaining, v.line_repeat, state_rank(v.state),
{
    let t = trace(v, a, false);
    if v.bytes_remaining == 0 {
    } else if !needs_input(v.state) {
        let (w, o) = free_step(v);
        if free_progress(v, w) {
            lemma_trace_split(w, a, b, eof);
            let tw = trace(w, a, false);
            let u = trace(tw.2, b, eof);
            assert(o + (tw.0 + u.0) =~= (o + tw.0) + u.0);
        }
    } else if a.len() == 0 {
        assert(a + b =~= b);
    } else {
        assert((a + b)[0] == a[0]);
        assert((a + b).drop_first() =~= a.drop_first() + b);
        match input_step(v, a[0]) {
            Err(e) => {},
            Ok((w, o)) => {
                lemma_trace_split(w, a.drop_first(), b, eof);
                let tw = trace(w, a.drop_first(), false);
                let u = trace(tw.2, b, eof);
                assert(o + (tw.0 + u.0) =~= (o + tw.0) + u.0);
            },
        }
    }
}

/// A transport that hands over one byte at a time yields the same decoded bytes, the same
/// end and the same final state as one that hands over everything at once.
pub proof fn lemma_bytewise_same_as_whole(v: DecoderView, inp: Seq<u8>, eof: bool)
    ensures
        feed_bytewise(v, inp, eof) == trace(v, inp, eof),
    decreases inp.len(),
{
    if inp.len() > 0 {
        let head = seq![inp[0]];
        let tail = inp.drop_first();
        assert(head + tail =~= inp);
        lemma_trace_split(v, head, tail, eof);
        let t = trace(v, head, false);
        if t.1 == TraceEnd::Pending {
            lemma_bytewise_same_as_whole(t.2, tail, eof);
        }
    }
}

/// Delivering the `r` buffered bytes of a `UseBuffer` state, when the page has room for them.
pub proof fn lemma_drain_buffer(v: DecoderView, inp: Seq<u8>, eof: bool)
    requires
        view_wf(v),
        v.state is UseBuffer,
        v.bytes_remaining >= v.state->UseBuffer_remaining,
    ensures
        ({
            let c = v.state->UseBuffer_cursor;
            let r = v.state->UseBuffer_remaining;
            let w = DecoderView {
                state: DecodeState::UseBuffer { cursor: (c + r) as usize, remaining: 0 },
                bytes_remaining: (v.bytes_remaining - r) as u64,
                ..v
            };
            let t = trace(v, inp, eof);
            let u = trace(w, inp, eof);
            &&& t.0 == v.line.subrange(c as int, c + r) + u.0
            &&& t.1 == u.1
            &&& t.2 == u.2
        }),
    decreases v.state->UseBuffer_remaining,
{
    let c = v.state->UseBuffer_cursor;
    let r = v.state->UseBuffer_remaining;
    if r == 0 {
        assert(v.line.subrange(c as int, c as int) =~= Seq::<u8>::empty());
        let w = DecoderView {
            state: DecodeState::UseBuffer { cursor: (c + r) as usize, remaining: 0 },
            bytes_remaining: (v.bytes_remaining - r) as u64,
            ..v
        };
        assert(w == v);
    } else {
        let (v1, o) = free_step(v);
        lemma_free_step_progress(v);
        lemma_drain_buffer(v1, inp, eof);
        let w = DecoderView {
            state: DecodeState::UseBuffer { cursor: (c + r) as usize, remaining: 0 },
            bytes_remaining: (v.bytes_remaining - r) as u64,
            ..v
        };
        let w1 = DecoderView {
            state: DecodeState::UseBuffer { cursor: (c + 1 + (r - 1)) as usize, remaining: 0 },
            bytes_remaining: (v1.bytes_remaining - (r - 1)) as u64,
            ..v1
        };
        assert(w1 == w);
        assert(o + v.line.subrange(c + 1, c + r) =~= v.line.subrange(c as int, c + r));
        let u = trace(w, inp, eof);
        assert(o + (v.line.subrange(c + 1, c + r) + u.0) =~= (o + v.line.subrange(c + 1, c + r))
            + u.0);
    }
}

/// The `0x80` opcode completes the line with the fill byte: the decoder delivers exactly
/// `L - cursor` copies of it and stands at the end of the line, from where (with no line
/// repeat left and bytes still owed) the next line begins.
pub proof fn lemma_fill_opcode(v: DecoderView, rest: Seq<u8>, eof: bool)
    requires
        view_wf(v),
        v.state is BeginBlock,
        v.bytes_remaining >= v.line.len() - v.state->BeginBlock_cursor,
    ensures
        ({
            let c = v.state->BeginBlock_cursor;
            let n = (v.line.len() - c) as nat;
            let w = DecoderView {
                line: fill_from(v.line, c as int, v.fill_byte),
                state: DecodeState::UseBuffer { cursor: v.line.len() as usize, remaining: 0 },
                bytes_remaining: (v.bytes_remaining - n) as u64,
                ..v
            };
            let t = trace(v, seq![0x80u8] + rest, eof);
            let u = trace(w, rest, eof);
            &&& t.0 == Seq::new(n, |i: int| v.fill_byte) + u.0
            &&& t.1 == u.1
            &&& t.2 == u.2
            &&& (v.line_repeat == 0 && w.bytes_remaining > 0 ==> u == trace(
                DecoderView { state: DecodeState::Begin, ..w },
                rest,
                eof,
            ))
        }),
{
    let c = v.state->BeginBlock_cursor;
    let n = (v.line.len() - c) as nat;
    let inp = seq![0x80u8] + rest;
    assert(inp[0] == 0x80u8);
    assert(inp.drop_first() =~= rest);
    let v1 = input_step(v, 0x80u8).unwrap().0;
    lemma_drain_buffer(v1, rest, eof);
    assert(v1.line.subrange(c as int, v.line.len() as int) =~= Seq::new(n, |i: int| v.fill_byte));
    assert(Seq::<u8>::empty() + trace(v1, rest, eof).0 =~= trace(v1, rest, eof).0);
}

/// A block opcode whose extent overruns the rest of the line is refused with `InvalidData`,
/// and the decoder, its line buffer included, is left as it was.
pub proof fn lemma_overrun_rejected(v: DecoderView, code: u8, rest: Seq<u8>, eof: bool)
    requires
        view_wf(v),
        v.bytes_remaining > 0,
        v.state is BeginBlock,
        code != 0x80,
        block_extent(v.chunk_size, code) > v.line.len() - v.state->BeginBlock_cursor,
    ensures
        trace(v, seq![code] + rest, eof) == (Seq::<u8>::empty(), TraceEnd::Failed(
            CodecError::InvalidData,
        ), v),
{
    let inp = seq![code] + rest;
    assert(inp[0] == code);
}

} // verus!
