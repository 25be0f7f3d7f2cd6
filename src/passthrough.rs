use vstd::prelude::*;

use crate::error::CodecError;
use crate::limits::Limits;

verus! {

/// The smallest of three lengths.
pub open spec fn min3(a: nat, b: nat, c: nat) -> nat {
    if a <= b && a <= c {
        a
    } else if b <= c {
        b
    } else {
        c
    }
}

/// Decoder for an uncompressed page body: a copy limited to the page's byte count.
pub struct UncompressedRasterDecoder {
    bytes_remaining: u64,
}

impl UncompressedRasterDecoder {
    pub closed spec fn remaining(&self) -> u64 {
        self.bytes_remaining
    }

    /// Makes a decoder for a page of `num_bytes` bytes; fails with `InvalidData` when that
    /// exceeds the limit on a page.
    pub fn new(limits: &Limits, num_bytes: u64) -> (r: Result<UncompressedRasterDecoder, CodecError>)
        ensures
            r is Ok <==> num_bytes <= limits.bytes_per_page,
            r matches Ok(d) ==> d.remaining() == num_bytes,
            r is Err ==> r == Err::<UncompressedRasterDecoder, CodecError>(CodecError::InvalidData),
    {
        if num_bytes > limits.bytes_per_page {
            return Err(CodecError::InvalidData);
        }
        Ok(UncompressedRasterDecoder { bytes_remaining: num_bytes })
    }

    /// Number of bytes still to be delivered.
    pub fn bytes_remaining(&self) -> (r: u64)
        ensures
            r == self.remaining(),
    {
        self.bytes_remaining
    }

    /// Copies as many bytes of `input` to `out` as the page still holds, up to `max`; gives
    /// their number.
    pub fn read(&mut self, input: &[u8], max: usize, out: &mut Vec<u8>) -> (n: usize)
        ensures
            n == min3(old(self).remaining() as nat, max as nat, input@.len()),
            final(out)@ == old(out)@ + input@.take(n as int),
            final(self).remaining() == old(self).remaining() - n,
    {
        let mut n: usize = if (input.len() as u64) < self.bytes_remaining {
            input.len()
        } else {
            self.bytes_remaining as usize
        };
        if max < n {
            n = max;
        }
        let mut i: usize = 0;
        while i < n
            invariant
                i <= n,
                n <= input@.len(),
                out@ == old(out)@ + input@.take(i as int),
            decreases n - i,
        {
            out.push(input[i]);
            i = i + 1;
            assert(out@ =~= old(out)@ + input@.take(i as int));
        }
        self.bytes_remaining = self.bytes_remaining - n as u64;
        n
    }
}

/// Encoder for an uncompressed page body: a copy limited to the page's byte count.
pub struct UncompressedRasterEncoder {
    bytes_remaining: u64,
}

impl UncompressedRasterEncoder {
    pub closed spec fn remaining(&self) -> u64 {
        self.bytes_remaining
    }

    /// Makes an encoder for a page of `num_bytes` bytes.
    pub fn new(num_bytes: u64) -> (r: UncompressedRasterEncoder)
        ensures
            r.remaining() == num_bytes,
    {
        UncompressedRasterEncoder { bytes_remaining: num_bytes }
    }

    /// Number of bytes still to be written.
    pub fn bytes_remaining(&self) -> (r: u64)
        ensures
            r == self.remaining(),
    {
        self.bytes_remaining
    }

    /// Copies as many bytes of `input` to `out` as the page still takes, up to the `room` that
    /// the transport offers; gives their number.
    pub fn write(&mut self, input: &[u8], room: usize, out: &mut Vec<u8>) -> (n: usize)
        ensures
            n == min3(old(self).remaining() as nat, room as nat, input@.len()),
            final(out)@ == old(out)@ + input@.take(n as int),
            final(self).remaining() == old(self).remaining() - n,
    {
        let mut n: usize = if (input.len() as u64) < self.bytes_remaining {
            input.len()
        } else {
            self.bytes_remaining as usize
        };
        if room < n {
            n = room;
        }
        let mut i: usize = 0;
        while i < n
            invariant
                i <= n,
                n <= input@.len(),
                out@ == old(out)@ + input@.take(i as int),
            decreases n - i,
        {
            out.push(input[i]);
            i = i + 1;
            assert(out@ =~= old(out)@ + input@.take(i as int));
        }
        self.bytes_remaining = self.bytes_remaining - n as u64;
        n
    }
}

} // verus!
