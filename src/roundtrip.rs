use vstd::prelude::*;
use vstd::arithmetic::div_mod::lemma_mod_multiples_vanish;
use vstd::arithmetic::div_mod::lemma_small_mod;

use crate::decoder::DecodeState;
use crate::decoder::DecoderView;
use crate::decoder::copy_back;
use crate::decoder::free_step;
use crate::decoder::input_step as decode_step;
use crate::decoder::lemma_drain_buffer;
use crate::decoder::trace as decode_trace;
use crate::decoder::view_wf as decoder_wf;
use crate::encoder::EncoderView;
use crate::encoder::FlushLineBufferState;
use crate::encoder::flush_step;
use crate::encoder::input_step as encode_step;
use crate::encoder::takes_byte;
use crate::encoder::lemma_flush_progress;
use crate::encoder::lemma_literal_extent_bounds;
use crate::encoder::lemma_next_block_bounds;
use crate::encoder::lemma_run_extent_bounds;
use crate::encoder::literal_extent;
use crate::encoder::literal_tag;
use crate::encoder::next_block;
use crate::encoder::run_extent;
use crate::encoder::same_chunk;
use crate::encoder::trace as encode_trace;
use crate::encoder::view_wf as encoder_wf;

verus! {

/// The blocks that the encoder emits for `line` from `start` on: each block's tag, then its
/// payload.
#[verifier::opaque]
pub open spec fn encode_blocks(line: Seq<u8>, c: int, start: int) -> Seq<u8>
    decreases line.len() - start,
{
    if c <= 0 || start < 0 || start >= line.len() {
        Seq::empty()
    } else {
        let (tag, s, e) = next_block(line, c, start);
        if e <= start || e > line.len() {
            Seq::empty()
        } else {
            seq![tag] + line.subrange(s, e) + encode_blocks(line, c, e)
        }
    }
}

/// `line` repeated `n` times.
#[verifier::opaque]
pub open spec fn repeat_line(line: Seq<u8>, n: nat) -> Seq<u8>
    decreases n,
{
    if n == 0 {
        Seq::empty()
    } else {
        repeat_line(line, (n - 1) as nat) + line
    }
}

/// `line` with the bytes from `at` on replaced by `p`.
pub open spec fn splice(line: Seq<u8>, at: int, p: Seq<u8>) -> Seq<u8> {
    Seq::new(line.len(), |i: int| if at <= i < at + p.len() { p[i - at] } else { line[i] })
}

// ----- the encoder's side: what the emission of a held line writes -----

/// Writing the payload `start..end` of a block, then the blocks after it.
proof fn lemma_emit_payload(v: EncoderView, inp: Seq<u8>)
    requires
        encoder_wf(v),
        v.flush is WriteInlineBlockData,
        v.chunk_size > 0,
    ensures
        ({
            let s = v.flush->WriteInlineBlockData_start;
            let e = v.flush->WriteInlineBlockData_end;
            let w = EncoderView { flush: FlushLineBufferState::BeginInlineBlock { start: e }, ..v };
            let t = encode_trace(v, inp);
            let u = encode_trace(w, inp);
            &&& t.0 == v.line.subrange(s as int, e as int) + u.0
            &&& t.1 == u.1
            &&& t.2 == u.2
        }),
    decreases v.flush->WriteInlineBlockData_end - v.flush->WriteInlineBlockData_start,
{
    let s = v.flush->WriteInlineBlockData_start;
    let e = v.flush->WriteInlineBlockData_end;
    lemma_flush_progress(v);
    let (v1, o) = flush_step(v);
    if s + 1 < e {
        lemma_emit_payload(v1, inp);
        let w = EncoderView { flush: FlushLineBufferState::BeginInlineBlock { start: e }, ..v };
        let u = encode_trace(w, inp);
        assert(o + (v.line.subrange(s + 1, e as int) + u.0) =~= v.line.subrange(s as int, e as int)
            + u.0);
    } else {
        assert(o =~= v.line.subrange(s as int, e as int));
    }
}

/// Emitting the blocks of the held line from `start` on.
proof fn lemma_emit_blocks(v: EncoderView, inp: Seq<u8>)
    requires
        encoder_wf(v),
        v.flush is BeginInlineBlock,
        v.chunk_size > 0,
    ensures
        ({
            let start = v.flush->BeginInlineBlock_start;
            let w = EncoderView { flush: FlushLineBufferState::Idle, ..v };
            let t = encode_trace(v, inp);
            let u = encode_trace(w, inp);
            &&& t.0 == encode_blocks(v.line, v.chunk_size as int, start as int) + u.0
            &&& t.1 == u.1
            &&& t.2 == u.2
        }),
    decreases v.line.len() - v.flush->BeginInlineBlock_start,
{
    reveal(encode_blocks);
    let start = v.flush->BeginInlineBlock_start;
    let c = v.chunk_size as int;
    lemma_flush_progress(v);
    if start >= v.line.len() {
        let w = EncoderView { flush: FlushLineBufferState::Idle, ..v };
        assert(flush_step(v).0 == w);
        assert(Seq::<u8>::empty() + encode_trace(w, inp).0 =~= encode_trace(w, inp).0);
    } else {
        lemma_next_block_bounds(v.line, c, start as int);
        let (tag, s, e) = next_block(v.line, c, start as int);
        let v1 = flush_step(v).0;
        lemma_flush_progress(v1);
        let v2 = flush_step(v1).0;
        lemma_emit_payload(v2, inp);
        let v3 = EncoderView {
            flush: FlushLineBufferState::BeginInlineBlock { start: e as usize },
            ..v
        };
        lemma_emit_blocks(v3, inp);
        let w = EncoderView { flush: FlushLineBufferState::Idle, ..v };
        let u = encode_trace(w, inp);
        assert(v2 == EncoderView {
            flush: FlushLineBufferState::WriteInlineBlockData { start: s as usize, end: e as usize },
            ..v
        });
        assert(encode_trace(v, inp).0 == Seq::<u8>::empty() + encode_trace(v1, inp).0);
        assert(encode_trace(v, inp).1 == encode_trace(v1, inp).1);
        assert(encode_trace(v, inp).2 == encode_trace(v1, inp).2);
        assert(encode_trace(v1, inp).0 == seq![tag] + encode_trace(v2, inp).0);
        assert(encode_trace(v1, inp).1 == encode_trace(v2, inp).1);
        assert(encode_trace(v1, inp).2 == encode_trace(v2, inp).2);
        assert(seq![tag] + (v.line.subrange(s, e) + (encode_blocks(v.line, c, e) + u.0)) =~= (
        seq![tag] + v.line.subrange(s, e) + encode_blocks(v.line, c, e)) + u.0);
        assert(Seq::<u8>::empty() + (seq![tag] + (v.line.subrange(s, e) + (encode_blocks(
            v.line,
            c,
            e,
        ) + u.0))) =~= seq![tag] + (v.line.subrange(s, e) + (encode_blocks(v.line, c, e)
            + u.0)));
    }
}

/// The emission of a held line with repeat count `rep` writes `rep`, then the line's blocks.
pub proof fn lemma_emit_line(v: EncoderView, inp: Seq<u8>)
    requires
        encoder_wf(v),
        v.flush is Begin,
        v.chunk_size > 0,
    ensures
        ({
            let w = EncoderView { flush: FlushLineBufferState::Idle, ..v };
            let t = encode_trace(v, inp);
            let u = encode_trace(w, inp);
            &&& t.0 == seq![v.flush->Begin_line_repeat] + encode_blocks(
                v.line,
                v.chunk_size as int,
                0,
            ) + u.0
            &&& t.1 == u.1
            &&& t.2 == u.2
        }),
{
    lemma_flush_progress(v);
    let v1 = flush_step(v).0;
    lemma_emit_blocks(v1, inp);
    let w = EncoderView { flush: FlushLineBufferState::Idle, ..v };
    let u = encode_trace(w, inp);
    assert(seq![v.flush->Begin_line_repeat] + (encode_blocks(v.line, v.chunk_size as int, 0)
        + u.0) =~= seq![v.flush->Begin_line_repeat] + encode_blocks(
        v.line,
        v.chunk_size as int,
        0,
    ) + u.0);
}

// ----- the decoder's side: what those bytes decode to -----

/// The chunks of a run are each equal to the one before them.
proof fn lemma_run_chunks(l: Seq<u8>, c: int, first: int, p: int, tag: nat)
    requires
        c > 0,
        0 <= first,
        p == first + (tag + 1) * c,
        p <= l.len(),
        tag <= 0x7F,
        same_chunk(l, c, p - c, first),
        forall|i: int| first + c <= i < p ==> #[trigger] l[i] == l[i - c],
    ensures
        ({
            let (t, e) = run_extent(l, c, first, p, tag);
            &&& e == first + (t + 1) * c
            &&& e <= l.len()
            &&& forall|i: int| first + c <= i < e ==> #[trigger] l[i] == l[i - c]
        }),
    decreases l.len() - p,
{
    assert(p >= first + c) by (nonlinear_arith)
        requires
            p == first + (tag + 1) * c,
            c > 0,
    ;
    if c > 0 && tag < 0x7F && p + c <= l.len() && same_chunk(l, c, p, first) {
        assert forall|i: int| first + c <= i < p + c implies #[trigger] l[i] == l[i - c] by {
            if i >= p {
                assert(l.subrange(p, p + c)[i - p] == l.subrange(first, first + c)[i - p]);
                assert(l.subrange(p - c, p)[i - p] == l.subrange(first, first + c)[i - p]);
            }
        }
        assert(p + c == first + (tag + 2) * c) by (nonlinear_arith)
            requires
                p == first + (tag + 1) * c,
        ;
        lemma_run_chunks(l, c, first, p + c, tag + 1);
    }
}

/// The end of a verbatim sequence lies `count` chunks after its start.
proof fn lemma_literal_end(l: Seq<u8>, c: int, start: int, prev: int, count: nat)
    requires
        c > 0,
        prev == start + count * c,
    ensures
        ({
            let (n, e) = literal_extent(l, c, prev, count);
            e == start + n * c
        }),
    decreases l.len() - prev,
{
    if c > 0 && count < 0x7F && prev + 2 * c <= l.len() && !same_chunk(l, c, prev + c, prev) {
        assert(prev + c == start + (count + 1) * c) by (nonlinear_arith)
            requires
                prev == start + count * c,
        ;
        lemma_literal_end(l, c, start, prev + c, count + 1);
    }
}

/// Copying chunks backwards reproduces a line whose bytes each equal the byte a chunk
/// before them.
proof fn lemma_copy_back_matches(buf: Seq<u8>, l: Seq<u8>, from: int, n: nat, c: int)
    requires
        0 < c <= from,
        from + n <= buf.len(),
        buf.len() == l.len(),
        buf.subrange(0, from) == l.subrange(0, from),
        forall|i: int| from <= i < from + n ==> #[trigger] l[i] == l[i - c],
    ensures
        copy_back(buf, from, n, c).len() == buf.len(),
        copy_back(buf, from, n, c).subrange(0, from + n) == l.subrange(0, from + n),
    decreases n,
{
    if n > 0 {
        lemma_copy_back_matches(buf, l, from, (n - 1) as nat, c);
        let prev = copy_back(buf, from, (n - 1) as nat, c);
        let k = from + n - 1;
        assert(prev.subrange(0, k)[k - c] == l.subrange(0, k)[k - c]);
        assert(copy_back(buf, from, n, c).subrange(0, from + n) =~= l.subrange(0, from + n)) by {
            assert forall|i: int| 0 <= i < from + n implies #[trigger] copy_back(
                buf,
                from,
                n,
                c,
            )[i] == l[i] by {
                if i < k {
                    assert(prev.subrange(0, k)[i] == l.subrange(0, k)[i]);
                }
            }
        }
    } else {
        assert(buf.subrange(0, from + n) =~= buf.subrange(0, from));
        assert(l.subrange(0, from + n) =~= l.subrange(0, from));
    }
}

/// Reading the `r` payload bytes `p` of a block.
proof fn lemma_read_payload(d: DecoderView, p: Seq<u8>, rest: Seq<u8>, eof: bool)
    requires
        decoder_wf(d),
        d.state is ReadBlock,
        p.len() == d.state->ReadBlock_remaining,
        d.bytes_remaining >= p.len(),
    ensures
        ({
            let rl = d.state->ReadBlock_repeat_last;
            let cur = d.state->ReadBlock_cursor;
            let copies = rl as nat * d.chunk_size as nat;
            let d2 = DecoderView {
                line: copy_back(
                    splice(d.line, cur as int, p),
                    cur + p.len(),
                    copies,
                    d.chunk_size as int,
                ),
                state: DecodeState::UseBuffer {
                    cursor: (cur + p.len()) as usize,
                    remaining: copies as usize,
                },
                bytes_remaining: (d.bytes_remaining - p.len()) as u64,
                ..d
            };
            let t = decode_trace(d, p + rest, eof);
            let u = decode_trace(d2, rest, eof);
            &&& t.0 == p + u.0
            &&& t.1 == u.1
            &&& t.2 == u.2
        }),
    decreases p.len(),
{
    let rl = d.state->ReadBlock_repeat_last;
    let cur = d.state->ReadBlock_cursor;
    let inp = p + rest;
    assert(inp[0] == p[0]);
    assert(inp.drop_first() =~= p.drop_first() + rest);
    let w = decode_step(d, p[0]).unwrap().0;
    if p.len() > 1 {
        lemma_read_payload(w, p.drop_first(), rest, eof);
        assert(splice(d.line.update(cur as int, p[0]), cur + 1, p.drop_first()) =~= splice(
            d.line,
            cur as int,
            p,
        ));
        let copies = rl as nat * d.chunk_size as nat;
        let d2 = DecoderView {
            line: copy_back(splice(d.line, cur as int, p), cur + p.len(), copies, d.chunk_size as int),
            state: DecodeState::UseBuffer {
                cursor: (cur + p.len()) as usize,
                remaining: copies as usize,
            },
            bytes_remaining: (d.bytes_remaining - p.len()) as u64,
            ..d
        };
        let u = decode_trace(d2, rest, eof);
        assert(seq![p[0]] + (p.drop_first() + u.0) =~= p + u.0);
    } else {
        assert(d.line.update(cur as int, p[0]) =~= splice(d.line, cur as int, p));
        assert(seq![p[0]] =~= p);
    }
}

#[verifier::rlimit(80)]
/// Decoding a run block.
proof fn lemma_decode_run(d: DecoderView, l: Seq<u8>, rest: Seq<u8>, eof: bool) -> (x: Seq<u8>)
    requires
        decoder_wf(d),
        d.state is BeginBlock,
        d.chunk_size > 0,
        d.line.len() == l.len(),
        (l.len() - d.state->BeginBlock_cursor) % (d.chunk_size as int) == 0,
        d.line.subrange(0, d.state->BeginBlock_cursor as int) == l.subrange(
            0,
            d.state->BeginBlock_cursor as int,
        ),
        d.bytes_remaining >= l.len() - d.state->BeginBlock_cursor,
        d.state->BeginBlock_cursor + 2 * d.chunk_size <= l.len(),
        same_chunk(l, d.chunk_size as int, d.state->BeginBlock_cursor as int, d.state->BeginBlock_cursor + d.chunk_size),
    ensures
        ({
            let start = d.state->BeginBlock_cursor as int;
            let c = d.chunk_size as int;
            let (tag, s, e) = next_block(l, c, start);
            let blk = seq![tag] + l.subrange(s, e);
            let d3 = DecoderView {
                line: x,
                state: DecodeState::UseBuffer { cursor: e as usize, remaining: 0 },
                bytes_remaining: (d.bytes_remaining - (e - start)) as u64,
                ..d
            };
            let t = decode_trace(d, blk + rest, eof);
            let u = decode_trace(d3, rest, eof);
            &&& start < e <= l.len()
            &&& (l.len() - e) % c == 0
            &&& x.len() == l.len()
            &&& x.subrange(0, e) == l.subrange(0, e)
            &&& t.0 == l.subrange(start, e) + u.0
            &&& t.1 == u.1
            &&& t.2 == u.2
        }),
{
    let start = d.state->BeginBlock_cursor as int;
    let c = d.chunk_size as int;
    let len = l.len() as int;
    lemma_next_block_bounds(l, c, start);
    let (tag, s, e) = next_block(l, c, start);
    let blk = seq![tag] + l.subrange(s, e);
    let inp = blk + rest;
    assert(inp[0] == tag);
    assert(inp.drop_first() =~= l.subrange(s, e) + rest);
    if start + c > len {
        lemma_small_mod((len - start) as nat, c as nat);
    }
    assert(start + c <= len);
    // a run: one chunk, then `tag` copies of it
    lemma_run_extent_bounds(l, c, start, start + 2 * c, 1);
    assert forall|i: int| start + c <= i < start + 2 * c implies #[trigger] l[i] == l[i
        - c] by {
        assert(l.subrange(start, start + c)[i - start - c] == l.subrange(
            start + c,
            start + 2 * c,
        )[i - start - c]);
    }
    lemma_run_chunks(l, c, start, start + 2 * c, 1);
    let k = tag as int;
    assert(e == start + (k + 1) * c);
    assert((k + 1) * c == c + k * c) by (nonlinear_arith);
    assert(tag as nat == run_extent(l, c, start, start + 2 * c, 1).0);
    assert(crate::decoder::block_extent(d.chunk_size, tag) == (k + 1) * c) by (
    nonlinear_arith)
        requires
            tag <= 0x7F,
            k == tag,
            c == d.chunk_size,
    ;
    let d1 = decode_step(d, tag).unwrap().0;
    let p = l.subrange(s, e);
    assert(p =~= l.subrange(start, start + c)) by {
        assert forall|i: int| 0 <= i < c implies p[i] == l[start + i] by {
            assert(l.subrange(e - c, e)[i] == l[e - c + i]);
            assert(e - c == start + k * c) by (nonlinear_arith)
                requires
                    e == start + (k + 1) * c,
            ;
            lemma_run_back(l, c, start, k as nat, i);
        }
    }
    lemma_read_payload(d1, p, rest, eof);
    let buf = splice(d.line, start, p);
    assert(buf.subrange(0, start + c) =~= l.subrange(0, start + c)) by {
        assert forall|i: int| 0 <= i < start + c implies buf[i] == l[i] by {
            if i < start {
                assert(d.line.subrange(0, start)[i] == l.subrange(0, start)[i]);
            }
        }
    }
    let copies = k as nat * c as nat;
    assert(start + c + copies == e);
    lemma_copy_back_matches(buf, l, start + c, copies, c);
    let x0 = copy_back(buf, start + c, copies, c);
    let d2 = DecoderView {
        line: x0,
        state: DecodeState::UseBuffer { cursor: (start + c) as usize, remaining: copies as usize },
        bytes_remaining: (d.bytes_remaining - c) as u64,
        ..d
    };
    lemma_drain_buffer(d2, rest, eof);
    let d3 = DecoderView {
        line: x0,
        state: DecodeState::UseBuffer { cursor: e as usize, remaining: 0 },
        bytes_remaining: (d.bytes_remaining - (e - start)) as u64,
        ..d
    };
    let u = decode_trace(d3, rest, eof);
    assert(x0.subrange(start + c, e) =~= l.subrange(start + c, e)) by {
        assert forall|i: int| 0 <= i < e - start - c implies #[trigger] x0.subrange(start + c, e)[i]
            == l.subrange(start + c, e)[i] by {
            assert(x0.subrange(0, e)[start + c + i] == l.subrange(0, e)[start + c + i]);
        }
    }
    assert(Seq::<u8>::empty() + (p + (x0.subrange(start + c, e) + u.0)) =~= l.subrange(
        start,
        e,
    ) + u.0);
    lemma_mod_multiples_vanish(-(k + 1), len - start, c);
    assert(len - e == c * (-(k + 1)) + (len - start)) by (nonlinear_arith)
        requires
            e == start + (k + 1) * c,
    ;
    assert((len - e) % c == (c * (-(k + 1)) + (len - start)) % c);
    x0}

#[verifier::rlimit(80)]
/// Decoding a verbatim block.
proof fn lemma_decode_literal(d: DecoderView, l: Seq<u8>, rest: Seq<u8>, eof: bool) -> (x: Seq<u8>)
    requires
        decoder_wf(d),
        d.state is BeginBlock,
        d.chunk_size > 0,
        d.line.len() == l.len(),
        (l.len() - d.state->BeginBlock_cursor) % (d.chunk_size as int) == 0,
        d.line.subrange(0, d.state->BeginBlock_cursor as int) == l.subrange(
            0,
            d.state->BeginBlock_cursor as int,
        ),
        d.bytes_remaining >= l.len() - d.state->BeginBlock_cursor,
        !(d.state->BeginBlock_cursor + 2 * d.chunk_size <= l.len() && same_chunk(l, d.chunk_size as int, d.state->BeginBlock_cursor as int, d.state->BeginBlock_cursor + d.chunk_size)),
    ensures
        ({
            let start = d.state->BeginBlock_cursor as int;
            let c = d.chunk_size as int;
            let (tag, s, e) = next_block(l, c, start);
            let blk = seq![tag] + l.subrange(s, e);
            let d3 = DecoderView {
                line: x,
                state: DecodeState::UseBuffer { cursor: e as usize, remaining: 0 },
                bytes_remaining: (d.bytes_remaining - (e - start)) as u64,
                ..d
            };
            let t = decode_trace(d, blk + rest, eof);
            let u = decode_trace(d3, rest, eof);
            &&& start < e <= l.len()
            &&& (l.len() - e) % c == 0
            &&& x.len() == l.len()
            &&& x.subrange(0, e) == l.subrange(0, e)
            &&& t.0 == l.subrange(start, e) + u.0
            &&& t.1 == u.1
            &&& t.2 == u.2
        }),
{
    let start = d.state->BeginBlock_cursor as int;
    let c = d.chunk_size as int;
    let len = l.len() as int;
    lemma_next_block_bounds(l, c, start);
    let (tag, s, e) = next_block(l, c, start);
    let blk = seq![tag] + l.subrange(s, e);
    let inp = blk + rest;
    assert(inp[0] == tag);
    assert(inp.drop_first() =~= l.subrange(s, e) + rest);
    if start + c > len {
        lemma_small_mod((len - start) as nat, c as nat);
    }
    assert(start + c <= len);
    // verbatim chunks: `count` of them, no copies
    let count: nat = if start + 2 * c <= len {
        literal_extent(l, c, start + c, 1).0
    } else {
        1
    };
    if start + 2 * c <= len {
        lemma_literal_extent_bounds(l, c, start + c, 1);
        lemma_literal_end(l, c, start, start + c, 1);
    }
    assert(e == start + count * c);
    assert(1 <= count <= 0x7F);
    assert(tag == literal_tag(count));
    assert(crate::decoder::block_extent(d.chunk_size, tag) == count * c) by (nonlinear_arith)
        requires
            1 <= count <= 0x7F,
            tag == literal_tag(count),
            c == d.chunk_size,
    ;
    assert(count * c >= c) by (nonlinear_arith)
        requires
            count >= 1,
            c > 0,
    ;
    let d1 = decode_step(d, tag).unwrap().0;
    let p = l.subrange(s, e);
    assert(d1.state == DecodeState::ReadBlock {
        repeat_last: 0,
        cursor: start as usize,
        remaining: (count * c) as usize,
    });
    assert(0 * c == 0);
    assert(e <= len);
    lemma_read_payload(d1, p, rest, eof);
    let buf = splice(d.line, start, p);
    assert(copy_back(buf, e, 0, c) == buf);
    assert(buf.subrange(0, e) =~= l.subrange(0, e)) by {
        assert forall|i: int| 0 <= i < e implies buf[i] == l[i] by {
            if i < start {
                assert(d.line.subrange(0, start)[i] == l.subrange(0, start)[i]);
            }
        }
    }
    let d3 = DecoderView {
        line: buf,
        state: DecodeState::UseBuffer { cursor: e as usize, remaining: 0 },
        bytes_remaining: (d.bytes_remaining - (e - start)) as u64,
        ..d
    };
    assert(p =~= l.subrange(start, e));
    lemma_mod_multiples_vanish(-(count as int), len - start, c);
    assert(len - e == c * (-(count as int)) + (len - start)) by (nonlinear_arith)
        requires
            e == start + count * c,
    ;
    assert((len - e) % c == (c * (-(count as int)) + (len - start)) % c);
    buf
}

/// Decoding one block that the encoder chose at `start`: the decoder delivers the line's
/// bytes `start..e` and holds them in its buffer. Gives the buffer it ends with.
proof fn lemma_decode_block(d: DecoderView, l: Seq<u8>, rest: Seq<u8>, eof: bool) -> (x: Seq<u8>)
    requires
        decoder_wf(d),
        d.state is BeginBlock,
        d.chunk_size > 0,
        d.line.len() == l.len(),
        (l.len() - d.state->BeginBlock_cursor) % (d.chunk_size as int) == 0,
        d.line.subrange(0, d.state->BeginBlock_cursor as int) == l.subrange(
            0,
            d.state->BeginBlock_cursor as int,
        ),
        d.bytes_remaining >= l.len() - d.state->BeginBlock_cursor,
    ensures
        ({
            let start = d.state->BeginBlock_cursor as int;
            let c = d.chunk_size as int;
            let (tag, s, e) = next_block(l, c, start);
            let blk = seq![tag] + l.subrange(s, e);
            let d3 = DecoderView {
                line: x,
                state: DecodeState::UseBuffer { cursor: e as usize, remaining: 0 },
                bytes_remaining: (d.bytes_remaining - (e - start)) as u64,
                ..d
            };
            let t = decode_trace(d, blk + rest, eof);
            let u = decode_trace(d3, rest, eof);
            &&& start < e <= l.len()
            &&& (l.len() - e) % c == 0
            &&& x.len() == l.len()
            &&& x.subrange(0, e) == l.subrange(0, e)
            &&& t.0 == l.subrange(start, e) + u.0
            &&& t.1 == u.1
            &&& t.2 == u.2
        }),
{
    let start = d.state->BeginBlock_cursor as int;
    let c = d.chunk_size as int;
    if start + 2 * c <= l.len() && same_chunk(l, c, start, start + c) {
        lemma_decode_run(d, l, rest, eof)
    } else {
        lemma_decode_literal(d, l, rest, eof)
    }
}

/// Inside a run of `k + 1` chunks, every byte of the last chunk equals the byte at the same
/// place of the first.
proof fn lemma_run_back(l: Seq<u8>, c: int, start: int, k: nat, i: int)
    requires
        0 < c,
        0 <= start,
        start + (k + 1) * c <= l.len(),
        0 <= i < c,
        forall|j: int| start + c <= j < start + (k + 1) * c ==> #[trigger] l[j] == l[j - c],
    ensures
        l[start + k * c + i] == l[start + i],
    decreases k,
{
    if k > 0 {
        assert(start + (k + 1) * c == start + k * c + c) by (nonlinear_arith);
        assert(start + k * c == start + (k - 1) * c + c) by (nonlinear_arith);
        assert(start + k * c >= start + c) by (nonlinear_arith)
            requires
                k >= 1,
                c > 0,
        ;
        lemma_run_back(l, c, start, (k - 1) as nat, i);
        assert(l[start + k * c + i] == l[start + k * c + i - c]);
    } else {
        assert(k * c == 0) by (nonlinear_arith)
            requires
                k == 0,
        ;
    }
}

/// Decoding the blocks that the encoder emits for `l` from `start` on: the decoder delivers
/// the rest of the line and ends at its end, holding all of it.
#[verifier::rlimit(100)]
proof fn lemma_decode_blocks(d: DecoderView, l: Seq<u8>, rest: Seq<u8>, eof: bool)
    requires
        decoder_wf(d),
        d.state is BeginBlock,
        d.chunk_size > 0,
        d.line.len() == l.len(),
        (l.len() - d.state->BeginBlock_cursor) % (d.chunk_size as int) == 0,
        d.line.subrange(0, d.state->BeginBlock_cursor as int) == l.subrange(
            0,
            d.state->BeginBlock_cursor as int,
        ),
        d.bytes_remaining >= l.len() - d.state->BeginBlock_cursor,
    ensures
        ({
            let start = d.state->BeginBlock_cursor as int;
            let d_end = DecoderView {
                line: l,
                state: DecodeState::UseBuffer { cursor: l.len() as usize, remaining: 0 },
                bytes_remaining: (d.bytes_remaining - (l.len() - start)) as u64,
                ..d
            };
            let t = decode_trace(d, encode_blocks(l, d.chunk_size as int, start) + rest, eof);
            let u = decode_trace(d_end, rest, eof);
            &&& t.0 == l.subrange(start, l.len() as int) + u.0
            &&& t.1 == u.1
            &&& t.2 == u.2
        }),
    decreases l.len() - d.state->BeginBlock_cursor,
{
    reveal(encode_blocks);
    let start = d.state->BeginBlock_cursor as int;
    let c = d.chunk_size as int;
    let len = l.len() as int;
    lemma_next_block_bounds(l, c, start);
    let (tag, s, e) = next_block(l, c, start);
    let blk = seq![tag] + l.subrange(s, e);
    let tail = encode_blocks(l, c, e);
    let x = lemma_decode_block(d, l, tail + rest, eof);
    assert(encode_blocks(l, c, start) == blk + tail);
    assert(blk + tail + rest =~= blk + (tail + rest));
    let d3 = DecoderView {
        line: x,
        state: DecodeState::UseBuffer { cursor: e as usize, remaining: 0 },
        bytes_remaining: (d.bytes_remaining - (e - start)) as u64,
        ..d
    };
    if e == len {
        assert(x.subrange(0, len) =~= x);
        assert(l.subrange(0, len) =~= l);
        assert(x =~= l);
        assert(tail == Seq::<u8>::empty());
        assert(tail + rest =~= rest);
    } else {
        let d4 = DecoderView { state: DecodeState::BeginBlock { cursor: e as usize }, ..d3 };
        assert(free_step(d3).0 == d4);
        assert(decode_trace(d3, tail + rest, eof).0 == Seq::<u8>::empty() + decode_trace(d4, tail + rest, eof).0);
        assert(decode_trace(d3, tail + rest, eof).1 == decode_trace(d4, tail + rest, eof).1);
        assert(decode_trace(d3, tail + rest, eof).2 == decode_trace(d4, tail + rest, eof).2);
        lemma_decode_blocks(d4, l, rest, eof);
        let d_end = DecoderView {
            line: l,
            state: DecodeState::UseBuffer { cursor: l.len() as usize, remaining: 0 },
            bytes_remaining: (d.bytes_remaining - (l.len() - start)) as u64,
            ..d
        };
        let u = decode_trace(d_end, rest, eof);
        assert(Seq::<u8>::empty() + decode_trace(d4, tail + rest, eof).0 =~= decode_trace(
            d4,
            tail + rest,
            eof,
        ).0);
        assert(l.subrange(start, e) + (l.subrange(e, len) + u.0) =~= l.subrange(start, len)
            + u.0);
    }
}

/// From the end of a line held in the buffer with `k` repeats left, the decoder delivers the
/// line `k` more times.
proof fn lemma_decode_repeats(d: DecoderView, rest: Seq<u8>, eof: bool)
    requires
        decoder_wf(d),
        d.state == (DecodeState::UseBuffer { cursor: d.line.len() as usize, remaining: 0 }),
        d.line.len() > 0,
        d.bytes_remaining >= repeat_line(d.line, d.line_repeat as nat).len(),
    ensures
        ({
            let d_end = DecoderView {
                line_repeat: 0,
                bytes_remaining: (d.bytes_remaining - repeat_line(
                    d.line,
                    d.line_repeat as nat,
                ).len()) as u64,
                ..d
            };
            let t = decode_trace(d, rest, eof);
            let u = decode_trace(d_end, rest, eof);
            &&& t.0 == repeat_line(d.line, d.line_repeat as nat) + u.0
            &&& t.1 == u.1
            &&& t.2 == u.2
        }),
    decreases d.line_repeat,
{
    reveal(repeat_line);
    let k = d.line_repeat as nat;
    if k == 0 {
        assert(repeat_line(d.line, 0) + decode_trace(d, rest, eof).0 =~= decode_trace(
            d,
            rest,
            eof,
        ).0);
    } else {
        let len = d.line.len();
        assert(repeat_line(d.line, k).len() == repeat_line(d.line, (k - 1) as nat).len() + len);
        let d1 = free_step(d).0;
        lemma_drain_buffer(d1, rest, eof);
        let d2 = DecoderView {
            state: DecodeState::UseBuffer { cursor: len as usize, remaining: 0 },
            bytes_remaining: (d.bytes_remaining - len) as u64,
            line_repeat: (k - 1) as u8,
            ..d
        };
        lemma_decode_repeats(d2, rest, eof);
        assert(d.line.subrange(0, len as int) =~= d.line);
        let d_end = DecoderView {
            line_repeat: 0,
            bytes_remaining: (d.bytes_remaining - repeat_line(d.line, k).len()) as u64,
            ..d
        };
        let u = decode_trace(d_end, rest, eof);
        assert(Seq::<u8>::empty() + (d.line + (repeat_line(d.line, (k - 1) as nat) + u.0))
            =~= repeat_line(d.line, k) + u.0) by {
            lemma_repeat_line_front(d.line, k);
        }
    }
}

/// The line repeated `k` times starts with one copy of it.
proof fn lemma_repeat_line_front(l: Seq<u8>, k: nat)
    requires
        k > 0,
    ensures
        repeat_line(l, k) == l + repeat_line(l, (k - 1) as nat),
    decreases k,
{
    reveal(repeat_line);
    if k == 1 {
        assert(repeat_line(l, 1) =~= l + repeat_line(l, 0));
    } else {
        lemma_repeat_line_front(l, (k - 1) as nat);
        assert(repeat_line(l, k) =~= l + repeat_line(l, (k - 1) as nat));
    }
}

/// Round trip of a line group: when the encoder holds a line of whole chunks and emits it
/// with repeat count `rep`, a decoder at the start of a line (with the same chunk size and
/// line length, and room in the page) turns exactly the emitted bytes back into that line,
/// `rep + 1` times, and stands at the end of the line with no repeat left.
pub proof fn lemma_line_group_round_trip(ve: EncoderView, vd: DecoderView, rest: Seq<u8>, eof: bool)
    requires
        encoder_wf(ve),
        ve.flush is Begin,
        ve.chunk_size > 0,
        ve.line.len() > 0,
        ve.line.len() as int % (ve.chunk_size as int) == 0,
        decoder_wf(vd),
        vd.state is Begin,
        vd.chunk_size == ve.chunk_size,
        vd.line.len() == ve.line.len(),
        vd.bytes_remaining >= repeat_line(ve.line, ve.flush->Begin_line_repeat as nat + 1).len(),
    ensures
        ({
            let rep = ve.flush->Begin_line_repeat;
            let emitted = encode_trace(ve, Seq::empty()).0;
            let d_end = DecoderView {
                line: ve.line,
                line_repeat: 0,
                state: DecodeState::UseBuffer { cursor: ve.line.len() as usize, remaining: 0 },
                bytes_remaining: (vd.bytes_remaining - repeat_line(
                    ve.line,
                    rep as nat + 1,
                ).len()) as u64,
                ..vd
            };
            let t = decode_trace(vd, emitted + rest, eof);
            let u = decode_trace(d_end, rest, eof);
            &&& emitted == seq![rep] + encode_blocks(ve.line, ve.chunk_size as int, 0)
            &&& t.0 == repeat_line(ve.line, rep as nat + 1) + u.0
            &&& t.1 == u.1
            &&& t.2 == u.2
        }),
{
    reveal(repeat_line);
    let l = ve.line;
    let c = ve.chunk_size as int;
    let rep = ve.flush->Begin_line_repeat;
    lemma_emit_line(ve, Seq::empty());
    let w = EncoderView { flush: FlushLineBufferState::Idle, ..ve };
    assert(encode_trace(w, Seq::<u8>::empty()).0 == Seq::<u8>::empty());
    let emitted = encode_trace(ve, Seq::empty()).0;
    assert(emitted =~= seq![rep] + encode_blocks(l, c, 0));
    let inp = emitted + rest;
    assert(inp[0] == rep);
    assert(inp.drop_first() =~= encode_blocks(l, c, 0) + rest);
    let d1 = decode_step(vd, rep).unwrap().0;
    assert(d1.line.subrange(0, 0) =~= l.subrange(0, 0));
    assert(repeat_line(l, rep as nat + 1).len() == repeat_line(l, rep as nat).len() + l.len());
    lemma_decode_blocks(d1, l, rest, eof);
    let d2 = DecoderView {
        line: l,
        state: DecodeState::UseBuffer { cursor: l.len() as usize, remaining: 0 },
        bytes_remaining: (d1.bytes_remaining - l.len()) as u64,
        ..d1
    };
    lemma_decode_repeats(d2, rest, eof);
    lemma_repeat_line_after(l, rep as nat + 1);
    let d_end = DecoderView {
        line: l,
        line_repeat: 0,
        state: DecodeState::UseBuffer { cursor: l.len() as usize, remaining: 0 },
        bytes_remaining: (vd.bytes_remaining - repeat_line(l, rep as nat + 1).len()) as u64,
        ..vd
    };
    let u = decode_trace(d_end, rest, eof);
    assert(l.subrange(0, l.len() as int) =~= l);
    assert(Seq::<u8>::empty() + (l + (repeat_line(l, rep as nat) + u.0)) =~= repeat_line(
        l,
        rep as nat + 1,
    ) + u.0) by {
        lemma_repeat_line_front(l, rep as nat + 1);
    }
}

/// The length of a line repeated `k` times.
proof fn lemma_repeat_line_after(l: Seq<u8>, k: nat)
    requires
        k > 0,
    ensures
        repeat_line(l, k).len() == repeat_line(l, (k - 1) as nat).len() + l.len(),
{
    reveal(repeat_line);
}

// ----- whole pages -----

/// The length of a line repeated `k` times.
proof fn lemma_repeat_line_len(l: Seq<u8>, k: nat)
    ensures
        repeat_line(l, k).len() == k * l.len(),
    decreases k,
{
    reveal(repeat_line);
    if k > 0 {
        lemma_repeat_line_len(l, (k - 1) as nat);
        assert(repeat_line(l, k).len() == repeat_line(l, (k - 1) as nat).len() + l.len());
        assert(k * l.len() == (k - 1) * l.len() + l.len()) by (nonlinear_arith)
            requires
                k >= 1,
        ;
    } else {
        assert(k * l.len() == 0) by (nonlinear_arith)
            requires
                k == 0,
        ;
    }
}

/// Taking the rest of a line into an encoder that holds no line yet.
proof fn lemma_enc_fill(v: EncoderView, inp: Seq<u8>)
    requires
        encoder_wf(v),
        v.flush is Idle,
        v.line_repeat is None,
        v.line.len() > 0,
        inp.len() >= v.line.len() - v.pos_in_line,
        v.bytes_remaining >= v.line.len() - v.pos_in_line,
    ensures
        ({
            let n = (v.line.len() - v.pos_in_line) as nat;
            let l = v.line.take(v.pos_in_line as int) + inp.take(n as int);
            let left = (v.bytes_remaining - n) as u64;
            let w = if left == 0 {
                EncoderView {
                    line: l,
                    pos_in_line: 0,
                    flush: FlushLineBufferState::Begin { line_repeat: 0 },
                    bytes_remaining: left,
                    ..v
                }
            } else {
                EncoderView {
                    line: l,
                    pos_in_line: 0,
                    line_repeat: Some(0u8),
                    bytes_remaining: left,
                    ..v
                }
            };
            &&& encoder_wf(w)
            &&& encode_trace(v, inp) == encode_trace(w, inp.skip(n as int))
        }),
    decreases v.line.len() - v.pos_in_line,
{
    let p = v.pos_in_line as int;
    let n = (v.line.len() - p) as nat;
    let v1 = encode_step(v, inp[0]);
    assert(takes_byte(v, inp[0]));
    assert(encode_trace(v, inp) == encode_trace(v1, inp.drop_first()));
    if p + 1 < v.line.len() {
        lemma_enc_fill(v1, inp.drop_first());
        assert(v1.line.take(p + 1) + inp.drop_first().take(n - 1) =~= v.line.take(p) + inp.take(
            n as int,
        ));
        assert(inp.drop_first().skip(n - 1) =~= inp.skip(n as int));
    } else {
        assert(v1.line =~= v.line.take(p) + inp.take(n as int));
        assert(inp.drop_first() =~= inp.skip(n as int));
    }
}

/// Comparing the next input with the rest of the held line: either all of it matches and the
/// line is counted once more, or the first difference ends the repetition.
proof fn lemma_enc_match(v: EncoderView, inp: Seq<u8>) -> (j: nat)
    requires
        encoder_wf(v),
        v.flush is Idle,
        v.line_repeat is Some,
        v.line.len() > 0,
        inp.len() >= v.line.len() - v.pos_in_line,
        v.bytes_remaining >= v.line.len() - v.pos_in_line,
    ensures
        ({
            let p = v.pos_in_line as int;
            let len = v.line.len() as int;
            let k = v.line_repeat->Some_0;
            &&& j <= len - p
            &&& inp.take(j as int) == v.line.subrange(p, p + j)
            &&& if j == len - p {
                let left = (v.bytes_remaining - j) as u64;
                let w = if k + 1 == 0xFF || left == 0 {
                    EncoderView {
                        pos_in_line: 0,
                        line_repeat: None,
                        flush: FlushLineBufferState::Begin { line_repeat: (k + 1) as u8 },
                        bytes_remaining: left,
                        ..v
                    }
                } else {
                    EncoderView {
                        pos_in_line: 0,
                        line_repeat: Some((k + 1) as u8),
                        bytes_remaining: left,
                        ..v
                    }
                };
                &&& encoder_wf(w)
                &&& encode_trace(v, inp) == encode_trace(w, inp.skip(j as int))
            } else {
                let w = EncoderView {
                    pos_in_line: (p + j) as usize,
                    line_repeat: None,
                    flush: FlushLineBufferState::Begin { line_repeat: k },
                    bytes_remaining: (v.bytes_remaining - j) as u64,
                    ..v
                };
                &&& encoder_wf(w)
                &&& encode_trace(v, inp) == encode_trace(w, inp.skip(j as int))
            }
        }),
    decreases v.line.len() - v.pos_in_line,
{
    let p = v.pos_in_line as int;
    let len = v.line.len() as int;
    let v1 = encode_step(v, inp[0]);
    if inp[0] != v.line[p] {
        assert(!takes_byte(v, inp[0]));
        assert(encode_trace(v, inp) == encode_trace(v1, inp));
        assert(inp.skip(0) =~= inp);
        assert(inp.take(0) =~= v.line.subrange(p, p));
        0
    } else {
        assert(takes_byte(v, inp[0]));
        assert(encode_trace(v, inp) == encode_trace(v1, inp.drop_first()));
        if p + 1 < len {
            let j1 = lemma_enc_match(v1, inp.drop_first());
            assert(inp.take(j1 + 1int) =~= seq![inp[0]] + inp.drop_first().take(j1 as int));
            assert(v.line.subrange(p, p + j1 + 1) =~= seq![v.line[p]] + v.line.subrange(
                p + 1,
                p + 1 + j1,
            ));
            assert(inp.drop_first().skip(j1 as int) =~= inp.skip(j1 + 1int));
            j1 + 1
        } else {
            assert(inp.take(1) =~= v.line.subrange(p, p + 1));
            assert(inp.drop_first() =~= inp.skip(1));
            1
        }
    }
}

/// Splitting the input after a line that matched the held one.
proof fn lemma_scan_split(inp: Seq<u8>, l: Seq<u8>, m1: nat, j1: nat)
    requires
        inp.len() >= l.len(),
        inp.take(l.len() as int) == l,
        inp.skip(l.len() as int).take(repeat_line(l, m1).len() as int) == repeat_line(l, m1),
        inp.skip(l.len() as int).skip(repeat_line(l, m1).len() as int).take(j1 as int) == l.take(
            j1 as int,
        ),
        l.len() + repeat_line(l, m1).len() + j1 <= inp.len(),
    ensures
        repeat_line(l, m1 + 1).len() == l.len() + repeat_line(l, m1).len(),
        inp.take(repeat_line(l, m1 + 1).len() as int) == repeat_line(l, m1 + 1),
        inp.skip(repeat_line(l, m1 + 1).len() as int).take(j1 as int) == l.take(j1 as int),
        inp.skip(l.len() as int).skip(repeat_line(l, m1).len() + j1 as int) == inp.skip(
            repeat_line(l, m1 + 1).len() + j1 as int,
        ),
{
    let len = l.len() as int;
    let rl = repeat_line(l, m1).len() as int;
    lemma_repeat_line_front(l, m1 + 1);
    let rest = inp.skip(len);
    assert(inp.take(len + rl) =~= inp.take(len) + rest.take(rl));
    assert(inp.skip(len + rl) =~= rest.skip(rl));
    assert(rest.skip(rl + j1) =~= inp.skip(len + rl + j1));
}

/// Counting the repetitions of the held line: gives how many more copies of it the input
/// holds (`m`) and where the repetition ends within the next line (`j`). The encoder then
/// emits the line with its count.
#[verifier::rlimit(100)]
proof fn lemma_enc_scan(v: EncoderView, inp: Seq<u8>) -> (r: (nat, nat))
    requires
        encoder_wf(v),
        v.flush is Idle,
        v.line_repeat is Some,
        v.pos_in_line == 0,
        v.line.len() > 0,
        v.bytes_remaining > 0,
        inp.len() == v.bytes_remaining,
        inp.len() as int % v.line.len() as int == 0,
    ensures
        ({
            let (m, j) = r;
            let l = v.line;
            let k = v.line_repeat->Some_0;
            let used = repeat_line(l, m).len() + j;
            let w = EncoderView {
                pos_in_line: j as usize,
                line_repeat: None,
                flush: FlushLineBufferState::Begin { line_repeat: (k + m) as u8 },
                bytes_remaining: (v.bytes_remaining - used) as u64,
                ..v
            };
            &&& k + m <= 0xFF
            &&& j < l.len()
            &&& used <= inp.len()
            &&& inp.take(repeat_line(l, m).len() as int) == repeat_line(l, m)
            &&& inp.skip(repeat_line(l, m).len() as int).take(j as int) == l.take(j as int)
            &&& encoder_wf(w)
            &&& encode_trace(v, inp) == encode_trace(w, inp.skip(used as int))
        }),
    decreases inp.len(),
{
    reveal(repeat_line);
    let l = v.line;
    let len = l.len() as int;
    let k = v.line_repeat->Some_0;
    assert(inp.len() >= len) by {
        if inp.len() < len {
            vstd::arithmetic::div_mod::lemma_small_mod(inp.len(), len as nat);
        }
    }
    let j = lemma_enc_match(v, inp);
    assert(repeat_line(l, 0) =~= Seq::<u8>::empty());
    assert(inp.take(0) =~= Seq::<u8>::empty());
    assert(inp.skip(0) =~= inp);
    if j < len {
        assert(l.subrange(0, j as int) =~= l.take(j as int));
        (0, j)
    } else {
        let left = (v.bytes_remaining - len) as u64;
        assert(repeat_line(l, 1) =~= l) by {
            assert(repeat_line(l, 0) =~= Seq::<u8>::empty());
        }
        assert(inp.take(len) =~= l) by {
            assert(l.subrange(0, len) =~= l);
        }
        if k + 1 == 0xFF || left == 0 {
            assert(inp.skip(len).take(0) =~= l.take(0));
            (1, 0)
        } else {
            let v1 = EncoderView {
                pos_in_line: 0,
                line_repeat: Some((k + 1) as u8),
                bytes_remaining: left,
                ..v
            };
            let rest = inp.skip(len);
            vstd::arithmetic::div_mod::lemma_mod_sub_multiples_vanish(inp.len() as int, len);
            let (m1, j1) = lemma_enc_scan(v1, rest);
            lemma_scan_split(inp, l, m1, j1);
            (m1 + 1, j1)
        }
    }
}

/// One line group, on the encoder's side: from a line boundary where the encoder holds the
/// first `pos_in_line` bytes of `d`, it takes the line and its `m` copies (and the `j` bytes
/// of the next line that match it), then emits the line with count `m`.
#[verifier::rlimit(100)]
proof fn lemma_enc_group(ve: EncoderView, d: Seq<u8>) -> (r: (nat, nat))
    requires
        encoder_wf(ve),
        ve.flush is Idle,
        ve.line_repeat is None,
        ve.chunk_size > 0,
        ve.line.len() > 0,
        d.len() > 0,
        d.len() as int % ve.line.len() as int == 0,
        ve.pos_in_line <= d.len(),
        ve.line.take(ve.pos_in_line as int) == d.take(ve.pos_in_line as int),
        ve.bytes_remaining == d.len() - ve.pos_in_line,
    ensures
        ({
            let (m, j) = r;
            let len = ve.line.len() as int;
            let l = d.take(len);
            let rl = repeat_line(l, m).len() as int;
            let v2 = EncoderView {
                line: l,
                pos_in_line: j as usize,
                line_repeat: None,
                flush: FlushLineBufferState::Begin { line_repeat: m as u8 },
                bytes_remaining: (d.len() - (len + rl + j)) as u64,
                ..ve
            };
            &&& m <= 0xFF
            &&& j < len
            &&& len + rl + j <= d.len()
            &&& d.len() >= len
            &&& d.skip(len).take(rl) == repeat_line(l, m)
            &&& d.skip(len + rl).take(j as int) == l.take(j as int)
            &&& encoder_wf(v2)
            &&& encode_trace(ve, d.skip(ve.pos_in_line as int)) == encode_trace(
                v2,
                d.skip(len + rl + j),
            )
        }),
{
    reveal(repeat_line);
    let p = ve.pos_in_line as int;
    let len = ve.line.len() as int;
    let inp = d.skip(p);
    assert(d.len() >= len) by {
        if d.len() < len {
            vstd::arithmetic::div_mod::lemma_small_mod(d.len(), len as nat);
        }
    }
    lemma_enc_fill(ve, inp);
    let l = ve.line.take(p) + inp.take(len - p);
    assert(l =~= d.take(len)) by {
        assert forall|i: int| 0 <= i < len implies l[i] == d.take(len)[i] by {
            if i < p {
                assert(ve.line.take(p)[i] == d.take(p)[i]);
            }
        }
    }
    let left = (ve.bytes_remaining - (len - p)) as u64;
    let after_fill = inp.skip(len - p);
    assert(after_fill =~= d.skip(len));
    if left == 0 {
        assert(after_fill.skip(0) =~= after_fill);
        assert(repeat_line(l, 0) =~= Seq::<u8>::empty());
        assert(d.skip(len).take(0) =~= repeat_line(l, 0));
        assert(d.skip(len).take(0) =~= l.take(0));
        assert(d.skip(len + 0 + 0) =~= after_fill);
        (0, 0)
    } else {
        let v1 = EncoderView {
            line: l,
            pos_in_line: 0,
            line_repeat: Some(0u8),
            bytes_remaining: left,
            ..ve
        };
        vstd::arithmetic::div_mod::lemma_mod_sub_multiples_vanish(d.len() as int, len);
        let (m, j) = lemma_enc_scan(v1, after_fill);
        let rl = repeat_line(l, m).len() as int;
        assert(after_fill.skip(rl + j) =~= d.skip(len + rl + j));
        assert(after_fill.skip(rl) =~= d.skip(len + rl));
        (m, j)
    }
}

/// Round trip of a page, from any line boundary: an encoder that holds the first
/// `pos_in_line` bytes of the rest `d` of the page (and no line to repeat), fed the rest of
/// `d`, emits bytes that a decoder at the start of a line turns back into `d`.
#[verifier::rlimit(100)]
proof fn lemma_round_trip_from(ve: EncoderView, vd: DecoderView, d: Seq<u8>)
    requires
        encoder_wf(ve),
        ve.flush is Idle,
        ve.line_repeat is None,
        ve.chunk_size > 0,
        ve.line.len() > 0,
        ve.line.len() as int % ve.chunk_size as int == 0,
        d.len() as int % ve.line.len() as int == 0,
        ve.pos_in_line <= d.len(),
        ve.line.take(ve.pos_in_line as int) == d.take(ve.pos_in_line as int),
        ve.bytes_remaining == d.len() - ve.pos_in_line,
        decoder_wf(vd),
        vd.state is Begin,
        vd.chunk_size == ve.chunk_size,
        vd.line.len() == ve.line.len(),
        vd.bytes_remaining == d.len(),
    ensures
        decode_trace(vd, encode_trace(ve, d.skip(ve.pos_in_line as int)).0, true).0 == d,
    decreases d.len(), 0nat,
{
    let p = ve.pos_in_line as int;
    let len = ve.line.len() as int;
    if d.len() == 0 {
        lemma_empty_page(ve, vd, d);
    } else {
        let (m, j) = lemma_enc_group(ve, d);
        let l = d.take(len);
        let rl = repeat_line(l, m).len() as int;
        let v2 = EncoderView {
            line: l,
            pos_in_line: j as usize,
            line_repeat: None,
            flush: FlushLineBufferState::Begin { line_repeat: m as u8 },
            bytes_remaining: (d.len() - (len + rl + j)) as u64,
            ..ve
        };
        let inp2 = d.skip(len + rl + j);
        lemma_emit_line(v2, inp2);
        let v3 = EncoderView { flush: FlushLineBufferState::Idle, ..v2 };
        let e3 = encode_trace(v3, inp2).0;
        lemma_repeat_line_after(l, m + 1);
        lemma_line_group_round_trip(v2, vd, e3, true);
        let d2 = d.skip(len + rl);
        lemma_group_data(d, l, m, len, rl);
        let d_end = DecoderView {
            line: l,
            line_repeat: 0,
            state: DecodeState::UseBuffer { cursor: len as usize, remaining: 0 },
            bytes_remaining: (vd.bytes_remaining - repeat_line(l, m + 1).len()) as u64,
            ..vd
        };
        lemma_repeat_line_len(l, m);
        vstd::arithmetic::div_mod::lemma_mod_multiples_vanish(-((m + 1) as int), d.len() as int, len);
        assert(d2.len() == len * (-((m + 1) as int)) + d.len()) by (nonlinear_arith)
            requires
                d2.len() == d.len() - (len + rl),
                rl == m * len,
        ;
        assert(d2.len() as int % len == (len * (-((m + 1) as int)) + d.len()) % len);
        assert(inp2 =~= d2.skip(j as int));
        lemma_next_group(v3, d_end, d2, e3, j);
        assert(repeat_line(l, m + 1) + d2 =~= d);
    }
}

/// An empty page encodes to nothing and decodes to nothing.
proof fn lemma_empty_page(ve: EncoderView, vd: DecoderView, d: Seq<u8>)
    requires
        ve.flush is Idle,
        ve.bytes_remaining == 0,
        vd.bytes_remaining == 0,
        d.len() == 0,
    ensures
        decode_trace(vd, encode_trace(ve, d.skip(ve.pos_in_line as int)).0, true).0 == d,
{
    assert(d =~= Seq::<u8>::empty());
}

/// The page's bytes are the line, `m` more copies of it, then the rest.
proof fn lemma_group_data(d: Seq<u8>, l: Seq<u8>, m: nat, len: int, rl: int)
    requires
        len == l.len(),
        rl == repeat_line(l, m).len(),
        len + rl <= d.len(),
        l == d.take(len),
        d.skip(len).take(rl) == repeat_line(l, m),
    ensures
        d == repeat_line(l, m + 1) + d.skip(len + rl),
{
    lemma_repeat_line_front(l, m + 1);
    assert(d =~= d.take(len) + d.skip(len).take(rl) + d.skip(len + rl));
    assert(repeat_line(l, m + 1) + d.skip(len + rl) =~= l + repeat_line(l, m) + d.skip(
        len + rl,
    ));
}

/// After a line group the decoder, at the end of the line, goes on with the next one.
proof fn lemma_next_group(v3: EncoderView, d_end: DecoderView, d2: Seq<u8>, e3: Seq<u8>, j: nat)
    requires
        encoder_wf(v3),
        v3.flush is Idle,
        v3.line_repeat is None,
        v3.chunk_size > 0,
        v3.line.len() > 0,
        v3.line.len() as int % v3.chunk_size as int == 0,
        v3.pos_in_line == j,
        d2.len() as int % v3.line.len() as int == 0,
        j <= d2.len() || d2.len() == 0,
        d2.len() > 0 ==> v3.line.take(j as int) == d2.take(j as int),
        d2.len() > 0 ==> v3.bytes_remaining == d2.len() - j,
        d2.len() == 0 ==> v3.bytes_remaining == 0,
        e3 == encode_trace(v3, d2.skip(j as int)).0,
        decoder_wf(d_end),
        d_end.state == (DecodeState::UseBuffer { cursor: d_end.line.len() as usize, remaining: 0 }),
        d_end.line_repeat == 0,
        d_end.chunk_size == v3.chunk_size,
        d_end.line.len() == v3.line.len(),
        d_end.bytes_remaining == d2.len(),
    ensures
        decode_trace(d_end, e3, true).0 == d2,
    decreases d2.len(), 1nat,
{
    if d2.len() == 0 {
        assert(d2 =~= Seq::<u8>::empty());
    } else {
        let vd2 = DecoderView { state: DecodeState::Begin, ..d_end };
        assert(free_step(d_end).0 == vd2);
        assert(decode_trace(d_end, e3, true).0 == Seq::<u8>::empty() + decode_trace(vd2, e3, true).0);
        lemma_round_trip_from(v3, vd2, d2);
        assert(Seq::<u8>::empty() + decode_trace(vd2, e3, true).0 =~= d2);
    }
}

/// Round trip of a whole page: a fresh encoder fed the page's bytes `data` emits bytes that a
/// fresh decoder with the same chunk size and line length turns back into `data`, for lines
/// of whole chunks and a page of whole lines.
pub proof fn lemma_page_round_trip(ve: EncoderView, vd: DecoderView, data: Seq<u8>)
    requires
        encoder_wf(ve),
        ve.flush is Idle,
        ve.line_repeat is None,
        ve.pos_in_line == 0,
        ve.bytes_remaining == data.len(),
        data.len() > 0 ==> {
            &&& ve.chunk_size > 0
            &&& ve.line.len() > 0
            &&& ve.line.len() as int % ve.chunk_size as int == 0
            &&& data.len() as int % ve.line.len() as int == 0
        },
        decoder_wf(vd),
        vd.state is Begin,
        vd.chunk_size == ve.chunk_size,
        vd.line.len() == ve.line.len(),
        vd.bytes_remaining == data.len(),
    ensures
        decode_trace(vd, encode_trace(ve, data).0, true).0 == data,
{
    if data.len() == 0 {
        assert(encode_trace(ve, data).0 == Seq::<u8>::empty());
        assert(data =~= Seq::<u8>::empty());
    } else {
        assert(data.skip(0) =~= data);
        assert(ve.line.take(0) =~= data.take(0));
        lemma_round_trip_from(ve, vd, data);
    }
}

} // verus!
