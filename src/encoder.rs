use vstd::prelude::*;

use crate::decoder::layout_ok;
use crate::decoder::min_u64;
use crate::error::CodecError;
use crate::variant::CodecParams;

verus! {

/// Where the emission of a finished line stands.
#[derive(Clone, Copy, Debug, PartialEq, Eq, Structural)]
pub enum FlushLineBufferState {
    /// No line is being emitted.
    Idle,
    /// The line's repeat byte is still to be written.
    Begin { line_repeat: u8 },
    /// The next block, from `start`, is still to be chosen.
    BeginInlineBlock { start: usize },
    /// The tag of the block whose payload is `start..end` is still to be written.
    WriteInlineBlock { tag: u8, start: usize, end: usize },
    /// The payload bytes `start..end` are still to be written.
    WriteInlineBlockData { start: usize, end: usize },
}

impl FlushLineBufferState {
    pub fn is_none(&self) -> (r: bool)
        ensures
            r <==> *self is Idle,
    {
        matches!(self, FlushLineBufferState::Idle)
    }
}

/// The mathematical state of a compressed encoder.
pub struct EncoderView {
    pub chunk_size: u8,
    pub line: Seq<u8>,
    pub pos_in_line: usize,
    pub line_repeat: Option<u8>,
    pub flush: FlushLineBufferState,
    pub bytes_remaining: u64,
}

/// How a run of the encoder over some input stops.
#[derive(Clone, Copy, Debug, PartialEq, Eq, Structural)]
pub enum EncodeEnd {
    /// Every declared byte has been taken and encoded.
    Finished,
    /// The input is used up and the encoder waits for more.
    Pending,
}

/// Progress made by one call of `write`.
#[derive(Clone, Copy, Debug, PartialEq, Eq)]
pub struct WriteProgress {
    /// Input bytes taken.
    pub consumed: usize,
    /// Encoded bytes appended to the output.
    pub produced: usize,
}

/// Whether the chunks of `c` bytes at `a` and at `b` hold the same bytes.
pub open spec fn same_chunk(line: Seq<u8>, c: int, a: int, b: int) -> bool {
    line.subrange(a, a + c) == line.subrange(b, b + c)
}

/// Extends a run of chunks equal to the one at `first`: `p` is the position of the next chunk
/// and `tag` the number of copies that follow the first so far. Gives the final `tag` and the
/// end of the run.
pub open spec fn run_extent(line: Seq<u8>, c: int, first: int, p: int, tag: nat) -> (nat, int)
    decreases line.len() - p,
{
    if c > 0 && tag < 0x7F && p + c <= line.len() && same_chunk(line, c, p, first) {
        run_extent(line, c, first, p + c, tag + 1)
    } else {
        (tag, p)
    }
}

/// Extends a sequence of chunks each unlike the one before it: `prev` is the position of the
/// last chunk looked at and `count` the number of chunks taken so far. Gives the final count
/// and the end of the sequence.
pub open spec fn literal_extent(line: Seq<u8>, c: int, prev: int, count: nat) -> (nat, int)
    decreases line.len() - prev,
{
    if c > 0 && count < 0x7F && prev + 2 * c <= line.len() && !same_chunk(line, c, prev + c, prev) {
        literal_extent(line, c, prev + c, count + 1)
    } else {
        (count, prev)
    }
}

/// The tag of a verbatim block of `count` chunks.
pub open spec fn literal_tag(count: nat) -> u8 {
    if count <= 1 {
        0
    } else {
        (257 - count) as u8
    }
}

/// The block that the encoder chooses at `start`: its tag and the range of its payload.
pub open spec fn next_block(line: Seq<u8>, c: int, start: int) -> (u8, int, int) {
    if start + 2 * c <= line.len() {
        if same_chunk(line, c, start, start + c) {
            let (tag, end) = run_extent(line, c, start, start + 2 * c, 1);
            (tag as u8, end - c, end)
        } else {
            let (count, end) = literal_extent(line, c, start + c, 1);
            (literal_tag(count), start, end)
        }
    } else if start + c <= line.len() {
        (0, start, start + c)
    } else {
        (0, start, line.len() as int)
    }
}

/// A step that takes no input: one step of the emission of a finished line.
pub open spec fn flush_step(v: EncoderView) -> (EncoderView, Seq<u8>) {
    match v.flush {
        FlushLineBufferState::Begin { line_repeat } => (
            EncoderView { flush: FlushLineBufferState::BeginInlineBlock { start: 0 }, ..v },
            seq![line_repeat],
        ),
        FlushLineBufferState::BeginInlineBlock { start } => {
            if start >= v.line.len() {
                (EncoderView { flush: FlushLineBufferState::Idle, ..v }, Seq::empty())
            } else {
                let (tag, s, e) = next_block(v.line, v.chunk_size as int, start as int);
                (
                    EncoderView {
                        flush: FlushLineBufferState::WriteInlineBlock {
                            tag,
                            start: s as usize,
                            end: e as usize,
                        },
                        ..v
                    },
                    Seq::empty(),
                )
            }
        },
        FlushLineBufferState::WriteInlineBlock { tag, start, end } => (
            EncoderView { flush: FlushLineBufferState::WriteInlineBlockData { start, end }, ..v },
            seq![tag],
        ),
        FlushLineBufferState::WriteInlineBlockData { start, end } => {
            let next = if start + 1 >= end {
                FlushLineBufferState::BeginInlineBlock { start: end }
            } else {
                FlushLineBufferState::WriteInlineBlockData { start: (start + 1) as usize, end }
            };
            (EncoderView { flush: next, ..v }, seq![v.line[start as int]])
        },
        FlushLineBufferState::Idle => (v, Seq::empty()),
    }
}

/// Whether the next input byte `b` is taken by the step (rather than only looked at: a byte
/// that breaks a repetition of the held line first has that line emitted).
pub open spec fn takes_byte(v: EncoderView, b: u8) -> bool {
    match v.line_repeat {
        Some(k) => b == v.line[v.pos_in_line as int],
        None => true,
    }
}

/// A step on the next input byte `b`, with no line being emitted.
pub open spec fn input_step(v: EncoderView, b: u8) -> EncoderView {
    let len = v.line.len();
    let pos = v.pos_in_line as int;
    let left = (v.bytes_remaining - 1) as u64;
    match v.line_repeat {
        None => {
            let line = v.line.update(pos, b);
            if pos + 1 < len {
                EncoderView { line, pos_in_line: (pos + 1) as usize, bytes_remaining: left, ..v }
            } else if left == 0 {
                EncoderView {
                    line,
                    pos_in_line: 0,
                    flush: FlushLineBufferState::Begin { line_repeat: 0 },
                    bytes_remaining: left,
                    ..v
                }
            } else {
                EncoderView {
                    line,
                    pos_in_line: 0,
                    line_repeat: Some(0),
                    bytes_remaining: left,
                    ..v
                }
            }
        },
        Some(k) => {
            if b != v.line[pos] {
                EncoderView {
                    line_repeat: None,
                    flush: FlushLineBufferState::Begin { line_repeat: k },
                    ..v
                }
            } else if pos + 1 < len {
                EncoderView { pos_in_line: (pos + 1) as usize, bytes_remaining: left, ..v }
            } else if k + 1 == 0xFF || left == 0 {
                EncoderView {
                    pos_in_line: 0,
                    line_repeat: None,
                    flush: FlushLineBufferState::Begin { line_repeat: (k + 1) as u8 },
                    bytes_remaining: left,
                    ..v
                }
            } else {
                EncoderView {
                    pos_in_line: 0,
                    line_repeat: Some((k + 1) as u8),
                    bytes_remaining: left,
                    ..v
                }
            }
        },
    }
}

/// A measure of the emission work left, which every step of the emission lowers.
pub open spec fn flush_rank(f: FlushLineBufferState, len: nat) -> nat {
    match f {
        FlushLineBufferState::Idle => 0,
        FlushLineBufferState::Begin { .. } => 4 * len + 2,
        FlushLineBufferState::BeginInlineBlock { start } => if start >= len {
            1
        } else {
            (4 * (len - start) + 1) as nat
        },
        FlushLineBufferState::WriteInlineBlock { start, end, .. } => if start < end <= len {
            (4 * (len - end) + (end - start) + 3) as nat
        } else {
            0
        },
        FlushLineBufferState::WriteInlineBlockData { start, end } => if start < end <= len {
            (4 * (len - end) + (end - start) + 1) as nat
        } else {
            0
        },
    }
}

pub open spec fn repeat_rank(r: Option<u8>) -> nat {
    if r is Some {
        1
    } else {
        0
    }
}

/// Runs the encoder from `v` over the whole of `inp`, with a transport that takes every byte:
/// the encoded bytes, how it stops, and the state it stops in.
pub open spec fn trace(v: EncoderView, inp: Seq<u8>) -> (Seq<u8>, EncodeEnd, EncoderView)
    decreases inp.len(), v.bytes_remaining, repeat_rank(v.line_repeat), flush_rank(
        v.flush,
        v.line.len(),
    ),
{
    if !(v.flush is Idle) {
        let (w, o) = flush_step(v);
        if flush_rank(w.flush, w.line.len()) < flush_rank(v.flush, v.line.len()) {
            let t = trace(w, inp);
            (o + t.0, t.1, t.2)
        } else {
            (Seq::empty(), EncodeEnd::Pending, v)
        }
    } else if v.bytes_remaining == 0 {
        (Seq::empty(), EncodeEnd::Finished, v)
    } else if inp.len() == 0 {
        (Seq::empty(), EncodeEnd::Pending, v)
    } else if takes_byte(v, inp[0]) {
        trace(input_step(v, inp[0]), inp.drop_first())
    } else {
        trace(input_step(v, inp[0]), inp)
    }
}

/// After emitting `produced` from `before` and taking `consumed` bytes of `inp`, the encoder
/// stands in `after`: a run from `after` over the rest of `inp` finishes the run from `before`.
pub open spec fn resumes(
    before: EncoderView,
    inp: Seq<u8>,
    produced: Seq<u8>,
    after: EncoderView,
    consumed: nat,
) -> bool {
    let t = trace(before, inp);
    let u = trace(after, inp.skip(consumed as int));
    &&& consumed <= inp.len()
    &&& t.0 == produced + u.0
    &&& t.1 == u.1
    &&& t.2 == u.2
}

/// What one call of `write` does, from `before` to `after`, with `input`, `room` and
/// `closed`, appending to the output `out0` to give `out1`: it performs the start of the run
/// `trace(before, input)` and stops where that run can be resumed, either at the end of the
/// run or when `room` is used up and the next step would write. In that last case it fails
/// with `WriteZero` exactly when the transport is closed.
pub open spec fn write_meets(
    before: EncoderView,
    after: EncoderView,
    input: Seq<u8>,
    room: usize,
    closed: bool,
    out0: Seq<u8>,
    out1: Seq<u8>,
    r: Result<WriteProgress, CodecError>,
) -> bool {
    match r {
        Ok(p) => {
            let rest = input.skip(p.consumed as int);
            &&& p.produced <= room
            &&& p.consumed <= input.len()
            &&& out1.len() == out0.len() + p.produced
            &&& out1.take(out0.len() as int) == out0
            &&& resumes(before, input, out1.skip(out0.len() as int), after, p.consumed as nat)
            &&& (p.produced < room || !flush_emits(after.flush)) ==> trace(after, rest) == (
                Seq::<u8>::empty(),
                trace(after, rest).1,
                after,
            )
            &&& !(closed && p.produced == room && flush_emits(after.flush))
        },
        Err(e) => {
            &&& e == CodecError::WriteZero
            &&& closed
            &&& flush_emits(after.flush)
            &&& out1.len() == out0.len() + room
            &&& out1.take(out0.len() as int) == out0
        },
    }
}

/// `v` is an encoder at the start of a page with the parameters `p`.
pub open spec fn starts_page(v: EncoderView, p: CodecParams) -> bool {
    &&& view_wf(v)
    &&& v.chunk_size == p.chunk_size
    &&& v.line.len() == min_u64(p.bytes_per_line, p.num_bytes)
    &&& v.pos_in_line == 0
    &&& v.line_repeat is None
    &&& v.flush is Idle
    &&& v.bytes_remaining == p.num_bytes
}

/// The well-formedness of an encoder state: every position and block lies inside the line.
pub open spec fn view_wf(v: EncoderView) -> bool {
    let len = v.line.len();
    &&& len <= usize::MAX
    &&& (len > 0 ==> v.chunk_size > 0)
    &&& (v.bytes_remaining > 0 ==> len > 0)
    &&& (len > 0 ==> v.pos_in_line < len)
    &&& (len == 0 ==> v.pos_in_line == 0)
    &&& (v.line_repeat matches Some(k) ==> k < 0xFF)
    &&& match v.flush {
        FlushLineBufferState::Idle => true,
        FlushLineBufferState::Begin { .. } => true,
        FlushLineBufferState::BeginInlineBlock { start } => start <= len,
        FlushLineBufferState::WriteInlineBlock { start, end, .. } => start < end <= len,
        FlushLineBufferState::WriteInlineBlockData { start, end } => start < end <= len,
    }
}

pub open spec fn flush_emits(f: FlushLineBufferState) -> bool {
    f is Begin || f is WriteInlineBlock || f is WriteInlineBlockData
}

pub proof fn lemma_run_extent_bounds(line: Seq<u8>, c: int, first: int, p: int, tag: nat)
    requires
        p <= line.len(),
        tag <= 0x7F,
    ensures
        p <= run_extent(line, c, first, p, tag).1 <= line.len(),
        tag <= run_extent(line, c, first, p, tag).0 <= 0x7F,
    decreases line.len() - p,
{
    if c > 0 && tag < 0x7F && p + c <= line.len() && same_chunk(line, c, p, first) {
        lemma_run_extent_bounds(line, c, first, p + c, tag + 1);
    }
}

pub proof fn lemma_literal_extent_bounds(line: Seq<u8>, c: int, prev: int, count: nat)
    requires
        c > 0,
        prev + c <= line.len(),
        1 <= count <= 0x7F,
    ensures
        prev <= literal_extent(line, c, prev, count).1,
        literal_extent(line, c, prev, count).1 + c <= line.len(),
        1 <= literal_extent(line, c, prev, count).0 <= 0x7F,
    decreases line.len() - prev,
{
    if c > 0 && count < 0x7F && prev + 2 * c <= line.len() && !same_chunk(line, c, prev + c, prev) {
        lemma_literal_extent_bounds(line, c, prev + c, count + 1);
    }
}

/// The block chosen at `start` lies inside the line and starts no earlier than `start`.
pub proof fn lemma_next_block_bounds(line: Seq<u8>, c: int, start: int)
    requires
        0 < c,
        0 <= start < line.len(),
    ensures
        ({
            let (tag, s, e) = next_block(line, c, start);
            start <= s < e <= line.len()
        }),
{
    if start + 2 * c <= line.len() {
        if same_chunk(line, c, start, start + c) {
            lemma_run_extent_bounds(line, c, start, start + 2 * c, 1);
        } else {
            lemma_literal_extent_bounds(line, c, start + c, 1);
        }
    }
}

/// Every step of the emission of a well-formed state keeps it well-formed and lowers the
/// emission measure.
pub proof fn lemma_flush_progress(v: EncoderView)
    requires
        view_wf(v),
        !(v.flush is Idle),
    ensures
        view_wf(flush_step(v).0),
        flush_rank(flush_step(v).0.flush, v.line.len()) < flush_rank(v.flush, v.line.len()),
        flush_step(v).0.line == v.line,
        flush_step(v).0.bytes_remaining == v.bytes_remaining,
        flush_step(v).0.line_repeat == v.line_repeat,
        flush_step(v).0.pos_in_line == v.pos_in_line,
        flush_step(v).0.chunk_size == v.chunk_size,
        flush_emits(v.flush) <==> flush_step(v).1.len() == 1,
        !flush_emits(v.flush) ==> flush_step(v).1.len() == 0,
{
    if let FlushLineBufferState::BeginInlineBlock { start } = v.flush {
        if start < v.line.len() {
            lemma_next_block_bounds(v.line, v.chunk_size as int, start as int);
        }
    }
}

/// Encoder for the packbits-style compressed page body.
pub struct CompressedRasterEncoder {
    chunk_size: u8,
    bytes_remaining: u64,
    line_buffer: Vec<u8>,
    line_repeat: Option<u8>,
    pos_in_line: usize,
    flush_line_buffer_state: FlushLineBufferState,
}

impl View for CompressedRasterEncoder {
    type V = EncoderView;

    closed spec fn view(&self) -> EncoderView {
        EncoderView {
            chunk_size: self.chunk_size,
            line: self.line_buffer@,
            pos_in_line: self.pos_in_line,
            line_repeat: self.line_repeat,
            flush: self.flush_line_buffer_state,
            bytes_remaining: self.bytes_remaining,
        }
    }
}

/// Whether the chunks of `c` bytes at `a` and at `b` of `line` hold the same bytes.
fn chunks_equal(line: &Vec<u8>, c: usize, a: usize, b: usize) -> (r: bool)
    requires
        a + c <= line@.len(),
        b + c <= line@.len(),
        line@.len() <= usize::MAX,
    ensures
        r == same_chunk(line@, c as int, a as int, b as int),
{
    let mut i: usize = 0;
    while i < c
        invariant
            i <= c,
            line@.len() <= usize::MAX,
            a + c <= line@.len(),
            b + c <= line@.len(),
            forall|j: int|
                0 <= j < i ==> #[trigger] line@.subrange(a as int, a + c)[j] == line@.subrange(
                    b as int,
                    b + c,
                )[j],
        decreases c - i,
    {
        if line[a + i] != line[b + i] {
            assert(line@.subrange(a as int, a + c)[i as int] != line@.subrange(b as int, b + c)[i as int]);
            return false;
        }
        i = i + 1;
    }
    assert(line@.subrange(a as int, a + c) =~= line@.subrange(b as int, b + c));
    true
}

/// Chooses the block at `start`, as `next_block` does.
fn choose_block(line: &Vec<u8>, c: usize, start: usize) -> (r: (u8, usize, usize))
    requires
        0 < c <= 255,
        start < line@.len(),
        line@.len() <= usize::MAX,
    ensures
        r.0 == next_block(line@, c as int, start as int).0,
        r.1 == next_block(line@, c as int, start as int).1,
        r.2 == next_block(line@, c as int, start as int).2,
{
    let len = line.len();
    if len - start >= 2 * c {
        if chunks_equal(line, c, start, start + c) {
            let mut tag: usize = 1;
            let mut p: usize = start + 2 * c;
            loop
                invariant
                    start + 2 * c <= p <= len,
                    len == line@.len(),
                    1 <= tag <= 0x7F,
                    0 < c <= 255,
                    run_extent(line@, c as int, start as int, p as int, tag as nat) == run_extent(
                        line@,
                        c as int,
                        start as int,
                        start + 2 * c,
                        1,
                    ),
                ensures
                    run_extent(line@, c as int, start as int, p as int, tag as nat) == (
                    tag as nat, p as int),
                    start + 2 * c <= p <= len,
                    1 <= tag <= 0x7F,
                decreases len - p,
            {
                if tag >= 0x7F || len - p < c {
                    break;
                }
                if !chunks_equal(line, c, p, start) {
                    break;
                }
                p = p + c;
                tag = tag + 1;
            }
            assert(run_extent(line@, c as int, start as int, p as int, tag as nat) == (
            tag as nat, p as int));
            assert(same_chunk(line@, c as int, start as int, start + c));
            (tag as u8, p - c, p)
        } else {
            let mut count: usize = 1;
            let mut prev: usize = start + c;
            loop
                invariant
                    start + c <= prev,
                    prev + c <= len,
                    len == line@.len(),
                    1 <= count <= 0x7F,
                    0 < c <= 255,
                    literal_extent(line@, c as int, prev as int, count as nat) == literal_extent(
                        line@,
                        c as int,
                        start + c,
                        1,
                    ),
                ensures
                    literal_extent(line@, c as int, prev as int, count as nat) == (
                    count as nat, prev as int),
                    start + c <= prev,
                    prev + c <= len,
                    1 <= count <= 0x7F,
                decreases len - prev,
            {
                if count >= 0x7F || len - prev < 2 * c {
                    break;
                }
                if chunks_equal(line, c, prev + c, prev) {
                    break;
                }
                prev = prev + c;
                count = count + 1;
            }
            assert(literal_extent(line@, c as int, prev as int, count as nat) == (
            count as nat, prev as int));
            assert(!same_chunk(line@, c as int, start as int, start + c));
            let tag: u8 = if count <= 1 {
                0
            } else {
                (257 - count) as u8
            };
            (tag, start, prev)
        }
    } else if len - start >= c {
        (0, start, start + c)
    } else {
        (0, start, len)
    }
}

impl CompressedRasterEncoder {
    pub open spec fn wf(&self) -> bool {
        view_wf(self@)
    }

    /// Makes an encoder for a page of `num_bytes` plain bytes. Fails with `InvalidData` when
    /// the layout is inconsistent.
    pub fn new(chunk_size: u8, bytes_per_line: u64, num_bytes: u64) -> (r: Result<
        CompressedRasterEncoder,
        CodecError,
    >)
        ensures
            r is Ok <==> layout_ok(chunk_size, bytes_per_line, num_bytes) && min_u64(
                bytes_per_line,
                num_bytes,
            ) <= usize::MAX,
            r is Err ==> r == Err::<CompressedRasterEncoder, CodecError>(CodecError::InvalidData),
            r matches Ok(e) ==> {
                &&& e.wf()
                &&& e@.chunk_size == chunk_size
                &&& e@.line.len() == min_u64(bytes_per_line, num_bytes)
                &&& e@.pos_in_line == 0
                &&& e@.line_repeat is None
                &&& e@.flush is Idle
                &&& e@.bytes_remaining == num_bytes
            },
    {
        if bytes_per_line != 0 && (chunk_size == 0 || bytes_per_line % chunk_size as u64 != 0) {
            return Err(CodecError::InvalidData);
        }
        if num_bytes != 0 && (bytes_per_line == 0 || num_bytes % bytes_per_line != 0) {
            return Err(CodecError::InvalidData);
        }
        let size = if bytes_per_line <= num_bytes {
            bytes_per_line
        } else {
            num_bytes
        };
        if size > usize::MAX as u64 {
            return Err(CodecError::InvalidData);
        }
        let line_buffer = vec![0u8; size as usize];
        Ok(
            CompressedRasterEncoder {
                chunk_size,
                bytes_remaining: num_bytes,
                line_buffer,
                line_repeat: None,
                pos_in_line: 0,
                flush_line_buffer_state: FlushLineBufferState::Idle,
            },
        )
    }

    /// Performs `flush_step`.
    fn flush_step_exec(&mut self, out: &mut Vec<u8>)
        requires
            old(self).wf(),
            !(old(self)@.flush is Idle),
        ensures
            final(self)@ == flush_step(old(self)@).0,
            final(out)@ == old(out)@ + flush_step(old(self)@).1,
    {
        match self.flush_line_buffer_state {
            FlushLineBufferState::Begin { line_repeat } => {
                out.push(line_repeat);
                self.flush_line_buffer_state = FlushLineBufferState::BeginInlineBlock { start: 0 };
            },
            FlushLineBufferState::BeginInlineBlock { start } => {
                if start >= self.line_buffer.len() {
                    self.flush_line_buffer_state = FlushLineBufferState::Idle;
                } else {
                    let (tag, s, e) = choose_block(&self.line_buffer, self.chunk_size as usize, start);
                    self.flush_line_buffer_state = FlushLineBufferState::WriteInlineBlock {
                        tag,
                        start: s,
                        end: e,
                    };
                }
            },
            FlushLineBufferState::WriteInlineBlock { tag, start, end } => {
                out.push(tag);
                self.flush_line_buffer_state = FlushLineBufferState::WriteInlineBlockData {
                    start,
                    end,
                };
            },
            FlushLineBufferState::WriteInlineBlockData { start, end } => {
                out.push(self.line_buffer[start]);
                if start + 1 >= end {
                    self.flush_line_buffer_state = FlushLineBufferState::BeginInlineBlock {
                        start: end,
                    };
                } else {
                    self.flush_line_buffer_state = FlushLineBufferState::WriteInlineBlockData {
                        start: start + 1,
                        end,
                    };
                }
            },
            FlushLineBufferState::Idle => {},
        }
    }

    /// Performs `input_step` on the next input byte `b`; says whether `b` was taken.
    fn input_step_exec(&mut self, b: u8) -> (taken: bool)
        requires
            old(self).wf(),
            old(self)@.flush is Idle,
            old(self)@.bytes_remaining > 0,
        ensures
            final(self)@ == input_step(old(self)@, b),
            final(self).wf(),
            taken == takes_byte(old(self)@, b),
            taken ==> final(self)@.bytes_remaining == old(self)@.bytes_remaining - 1,
            !taken ==> {
                &&& final(self)@.bytes_remaining == old(self)@.bytes_remaining
                &&& final(self)@.line_repeat is None
                &&& old(self)@.line_repeat is Some
            },
            final(self)@.line.len() == old(self)@.line.len(),
            final(self)@.chunk_size == old(self)@.chunk_size,
    {
        let len = self.line_buffer.len();
        let pos = self.pos_in_line;
        match self.line_repeat {
            None => {
                self.line_buffer[pos] = b;
                self.bytes_remaining = self.bytes_remaining - 1;
                if pos + 1 < len {
                    self.pos_in_line = pos + 1;
                } else if self.bytes_remaining == 0 {
                    self.pos_in_line = 0;
                    self.flush_line_buffer_state = FlushLineBufferState::Begin { line_repeat: 0 };
                } else {
                    self.pos_in_line = 0;
                    self.line_repeat = Some(0);
                }
                true
            },
            Some(k) => {
                if b != self.line_buffer[pos] {
                    self.line_repeat = None;
                    self.flush_line_buffer_state = FlushLineBufferState::Begin { line_repeat: k };
                    return false;
                }
                self.bytes_remaining = self.bytes_remaining - 1;
                if pos + 1 < len {
                    self.pos_in_line = pos + 1;
                } else if k == 0xFE || self.bytes_remaining == 0 {
                    self.pos_in_line = 0;
                    self.line_repeat = None;
                    self.flush_line_buffer_state = FlushLineBufferState::Begin {
                        line_repeat: k + 1,
                    };
                } else {
                    self.pos_in_line = 0;
                    self.line_repeat = Some(k + 1);
                }
                true
            },
        }
    }

    /// Encodes from the plain bytes `input`, appending at most `room` encoded bytes to `out`
    /// (what the transport accepts now); `closed` says that the transport will accept nothing
    /// more.
    ///
    /// The call performs the start of the run `trace(self@, input@)` and stops where that run
    /// can be resumed: at the end of the run, or when `room` is used up and the next step
    /// would write. In that last case it fails with `WriteZero` if the transport is closed.
    pub fn write(&mut self, input: &[u8], room: usize, closed: bool, out: &mut Vec<u8>) -> (r:
        Result<WriteProgress, CodecError>)
        requires
            old(self).wf(),
        ensures
            final(self).wf(),
            final(self)@.chunk_size == old(self)@.chunk_size,
            final(self)@.line.len() == old(self)@.line.len(),
            write_meets(old(self)@, final(self)@, input@, room, closed, old(out)@, final(out)@, r),
    {
        proof {
            assert(input@.skip(0) =~= input@);
            assert(out@.skip(out@.len() as int) =~= Seq::<u8>::empty());
            assert(out@.take(out@.len() as int) =~= out@);
        }
        let ghost v0 = self@;
        let ghost out0 = out@;
        let mut consumed: usize = 0;
        let mut produced: usize = 0;
        loop
            invariant
                self.wf(),
                self@.chunk_size == v0.chunk_size,
                self@.line.len() == v0.line.len(),
                v0 == old(self)@,
                out0 == old(out)@,
                consumed <= input@.len(),
                produced <= room,
                out@.len() == out0.len() + produced,
                out@.take(out0.len() as int) == out0,
                resumes(v0, input@, out@.skip(out0.len() as int), self@, consumed as nat),
            decreases input@.len() - consumed, self@.bytes_remaining, repeat_rank(
                self@.line_repeat,
            ), flush_rank(self@.flush, self@.line.len()),
        {
            let ghost before = self@;
            let ghost out_before = out@;
            let ghost rest = input@.skip(consumed as int);
            if !self.flush_line_buffer_state.is_none() {
                let emits = match self.flush_line_buffer_state {
                    FlushLineBufferState::BeginInlineBlock { .. } => false,
                    _ => true,
                };
                if emits && produced == room {
                    if closed {
                        return Err(CodecError::WriteZero);
                    }
                    return Ok(WriteProgress { consumed, produced });
                }
                proof {
                    lemma_flush_progress(before);
                }
                self.flush_step_exec(out);
                if emits {
                    produced = produced + 1;
                }
                proof {
                    let o = flush_step(before).1;
                    let u_old = trace(before, rest);
                    let u_new = trace(self@, rest);
                    assert(u_old.0 == o + u_new.0);
                    assert(u_old.1 == u_new.1 && u_old.2 == u_new.2);
                    assert(out@.skip(out0.len() as int) =~= out_before.skip(out0.len() as int) + o);
                    assert(out_before.skip(out0.len() as int) + u_old.0 =~= out@.skip(
                        out0.len() as int,
                    ) + u_new.0);
                    assert(out@.take(out0.len() as int) =~= out0);
                }
            } else if self.bytes_remaining == 0 || consumed == input.len() {
                return Ok(WriteProgress { consumed, produced });
            } else {
                let b = input[consumed];
                proof {
                    assert(rest[0] == b);
                    assert(rest.drop_first() =~= input@.skip(consumed + 1));
                }
                let taken = self.input_step_exec(b);
                if taken {
                    consumed = consumed + 1;
                }
                proof {
                    assert(out@ == out_before);
                    assert(trace(before, rest) == trace(self@, input@.skip(consumed as int)));
                }
            }
        }
    }

    /// Whether every encoded byte has been handed out.
    pub fn is_flushed(&self) -> (r: bool)
        ensures
            r == (self@.flush is Idle),
    {
        self.flush_line_buffer_state.is_none()
    }

    /// Number of plain bytes still to be written.
    pub fn bytes_remaining(&self) -> (r: u64)
        ensures
            r == self@.bytes_remaining,
    {
        self.bytes_remaining
    }
}

/// Feeds `inp` to the encoder one byte at a time, stopping as soon as a piece ends the run.
pub open spec fn feed_bytewise(v: EncoderView, inp: Seq<u8>) -> (Seq<u8>, EncodeEnd, EncoderView)
    decreases inp.len(),
{
    if inp.len() == 0 {
        trace(v, inp)
    } else {
        let t = trace(v, seq![inp[0]]);
        if t.1 == EncodeEnd::Pending {
            let u = feed_bytewise(t.2, inp.drop_first());
            (t.0 + u.0, u.1, u.2)
        } else {
            t
        }
    }
}

/// A run over `a` that stops waiting for input continues over `b` from the state it stopped
/// in, exactly as a run over `a + b` does; a finished run is not changed by input that follows.
pub proof fn lemma_trace_split(v: EncoderView, a: Seq<u8>, b: Seq<u8>)
    ensures
        ({
            let t = trace(v, a);
            let u = trace(t.2, b);
            let w = trace(v, a + b);
            &&& t.1 is Pending ==> w.0 == t.0 + u.0 && w.1 == u.1 && w.2 == u.2
            &&& !(t.1 is Pending) ==> w == t
        }),
    decreases a.len(), v.bytes_remaining, repeat_rank(v.line_repeat), flush_rank(
        v.flush,
        v.line.len(),
    ),
{
    if !(v.flush is Idle) {
        let (w, o) = flush_step(v);
        if flush_rank(w.flush, w.line.len()) < flush_rank(v.flush, v.line.len()) {
            lemma_trace_split(w, a, b);
            let tw = trace(w, a);
            let u = trace(tw.2, b);
            assert(o + (tw.0 + u.0) =~= (o + tw.0) + u.0);
        }
    } else if v.bytes_remaining == 0 {
    } else if a.len() == 0 {
        assert(a + b =~= b);
    } else {
        assert((a + b)[0] == a[0]);
        assert((a + b).drop_first() =~= a.drop_first() + b);
        if takes_byte(v, a[0]) {
            lemma_trace_split(input_step(v, a[0]), a.drop_first(), b);
        } else {
            lemma_trace_split(input_step(v, a[0]), a, b);
        }
    }
}

/// A transport that hands over one plain byte at a time yields the same encoded bytes, the
/// same end and the same final state as one that hands over everything at once.
pub proof fn lemma_bytewise_same_as_whole(v: EncoderView, inp: Seq<u8>)
    ensures
        feed_bytewise(v, inp) == trace(v, inp),
    decreases inp.len(),
{
    if inp.len() > 0 {
        let head = seq![inp[0]];
        let tail = inp.drop_first();
        assert(head + tail =~= inp);
        lemma_trace_split(v, head, tail);
        let t = trace(v, head);
        if t.1 == EncodeEnd::Pending {
            lemma_bytewise_same_as_whole(t.2, tail);
        }
    }
}

/// A step on input keeps a well-formed state well-formed.
proof fn lemma_input_step_wf(v: EncoderView, b: u8)
    requires
        view_wf(v),
        v.flush is Idle,
        v.bytes_remaining > 0,
    ensures
        view_wf(input_step(v, b)),
{
}

/// A run from a well-formed state never stops in the middle of emitting a line.
pub proof fn lemma_trace_ends_idle(v: EncoderView, inp: Seq<u8>)
    requires
        view_wf(v),
    ensures
        trace(v, inp).2.flush is Idle,
    decreases inp.len(), v.bytes_remaining, repeat_rank(v.line_repeat), flush_rank(
        v.flush,
        v.line.len(),
    ),
{
    if !(v.flush is Idle) {
        lemma_flush_progress(v);
        lemma_trace_ends_idle(flush_step(v).0, inp);
    } else if v.bytes_remaining == 0 || inp.len() == 0 {
    } else {
        lemma_input_step_wf(v, inp[0]);
        if takes_byte(v, inp[0]) {
            lemma_trace_ends_idle(input_step(v, inp[0]), inp.drop_first());
        } else {
            lemma_trace_ends_idle(input_step(v, inp[0]), inp);
        }
    }
}

} // verus!
