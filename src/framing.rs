use vstd::prelude::*;

use crate::error::CodecError;

verus! {

/// What one call of `HeaderReader::feed` achieved.
#[derive(Clone, Copy, Debug, PartialEq, Eq, Structural)]
pub enum FrameStatus {
    /// `consumed` bytes were taken and more are needed.
    Incomplete { consumed: usize },
    /// `consumed` bytes were taken and the header is complete.
    Complete { consumed: usize },
    /// The input ended cleanly before the header's first byte: there are no more pages.
    NoMore,
}

/// Gathers a fixed-size header from input that may come in pieces of any size.
pub struct HeaderReader {
    size: usize,
    buf: Vec<u8>,
}

impl HeaderReader {
    pub closed spec fn size(&self) -> nat {
        self.size as nat
    }

    /// The bytes gathered so far.
    pub closed spec fn gathered(&self) -> Seq<u8> {
        self.buf@
    }

    pub open spec fn wf(&self) -> bool {
        self.gathered().len() <= self.size()
    }

    pub open spec fn is_complete(&self) -> bool {
        self.gathered().len() == self.size()
    }

    pub fn new(size: usize) -> (r: HeaderReader)
        ensures
            r.wf(),
            r.size() == size,
            r.gathered().len() == 0,
    {
        HeaderReader { size, buf: Vec::new() }
    }

    /// Takes as many bytes of `input` as the header still needs. `eof` says that the input
    /// ends after `input`: before the first byte that is a clean end (`NoMore`), after it
    /// `UnexpectedEof`.
    pub fn feed(&mut self, input: &[u8], eof: bool) -> (r: Result<FrameStatus, CodecError>)
        requires
            old(self).wf(),
        ensures
            final(self).wf(),
            final(self).size() == old(self).size(),
            ({
                let need = (old(self).size() - old(self).gathered().len()) as nat;
                let k = if input@.len() < need {
                    input@.len()
                } else {
                    need
                };
                &&& final(self).gathered() == old(self).gathered() + input@.take(k as int)
                &&& match r {
                    Ok(FrameStatus::Complete { consumed }) => {
                        consumed == k && final(self).is_complete()
                    },
                    Ok(FrameStatus::Incomplete { consumed }) => {
                        consumed == k && !final(self).is_complete() && !eof
                    },
                    Ok(FrameStatus::NoMore) => eof && old(self).gathered().len() == 0
                        && input@.len() == 0 && need > 0,
                    Err(e) => e == CodecError::UnexpectedEof && eof && !final(self).is_complete()
                        && old(self).gathered().len() + input@.len() > 0,
                }
            }),
    {
        let need = self.size - self.buf.len();
        let k = if input.len() < need {
            input.len()
        } else {
            need
        };
        let ghost start = self.buf@;
        let mut i: usize = 0;
        while i < k
            invariant
                i <= k,
                k <= input@.len(),
                self.buf@ == start + input@.take(i as int),
                self.size == old(self).size,
                start == old(self).buf@,
            decreases k - i,
        {
            self.buf.push(input[i]);
            i = i + 1;
            assert(self.buf@ =~= start + input@.take(i as int));
        }
        if self.buf.len() == self.size {
            Ok(FrameStatus::Complete { consumed: k })
        } else if !eof {
            Ok(FrameStatus::Incomplete { consumed: k })
        } else if self.buf.len() == 0 {
            Ok(FrameStatus::NoMore)
        } else {
            Err(CodecError::UnexpectedEof)
        }
    }

    /// The gathered header bytes.
    pub fn bytes(&self) -> (r: &[u8])
        ensures
            r@ == self.gathered(),
    {
        self.buf.as_slice()
    }
}

/// Hands out a fixed-size header to a transport that may take it in pieces of any size.
pub struct HeaderWriter {
    bytes: Vec<u8>,
    written: usize,
}

impl HeaderWriter {
    pub closed spec fn bytes(&self) -> Seq<u8> {
        self.bytes@
    }

    pub closed spec fn written(&self) -> nat {
        self.written as nat
    }

    pub open spec fn wf(&self) -> bool {
        self.written() <= self.bytes().len()
    }

    pub open spec fn is_done(&self) -> bool {
        self.written() == self.bytes().len()
    }

    pub fn new(bytes: Vec<u8>) -> (r: HeaderWriter)
        ensures
            r.wf(),
            r.bytes() == bytes@,
            r.written() == 0,
    {
        HeaderWriter { bytes, written: 0 }
    }

    /// Appends to `out` as many of the header's remaining bytes as `room` allows; fails with
    /// `WriteZero` when bytes remain, there is no room and the transport is `closed`.
    pub fn emit(&mut self, room: usize, closed: bool, out: &mut Vec<u8>) -> (r: Result<
        usize,
        CodecError,
    >)
        requires
            old(self).wf(),
        ensures
            final(self).wf(),
            final(self).bytes() == old(self).bytes(),
            match r {
                Ok(n) => {
                    let left = old(self).bytes().len() - old(self).written();
                    &&& n == if room < left {
                        room as int
                    } else {
                        left
                    }
                    &&& final(self).written() == old(self).written() + n
                    &&& final(out)@ == old(out)@ + old(self).bytes().subrange(
                        old(self).written() as int,
                        old(self).written() + n,
                    )
                    &&& !(closed && room == 0 && left > 0)
                },
                Err(e) => {
                    &&& e == CodecError::WriteZero
                    &&& closed && room == 0 && !old(self).is_done()
                    &&& final(out)@ == old(out)@
                    &&& final(self).written() == old(self).written()
                },
            },
    {
        let total = self.bytes.len();
        let left = total - self.written;
        if closed && room == 0 && left > 0 {
            return Err(CodecError::WriteZero);
        }
        let n = if room < left {
            room
        } else {
            left
        };
        let ghost start = out@;
        let w0 = self.written;
        let mut i: usize = 0;
        while i < n
            invariant
                i <= n,
                w0 + n <= self.bytes@.len(),
                total == self.bytes@.len(),
                self.bytes@ == old(self).bytes@,
                w0 == old(self).written,
                out@ == start + self.bytes@.subrange(w0 as int, w0 + i),
            decreases n - i,
        {
            out.push(self.bytes[w0 + i]);
            i = i + 1;
            assert(out@ =~= start + self.bytes@.subrange(w0 as int, w0 + i));
        }
        self.written = w0 + n;
        Ok(n)
    }

    pub fn done(&self) -> (r: bool)
        ensures
            r == self.is_done(),
    {
        self.written == self.bytes.len()
    }
}

} // verus!
