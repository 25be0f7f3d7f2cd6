use vstd::prelude::*;

verus! {

/// The unsigned 32-bit value of the four bytes at `i`, most significant first.
pub open spec fn be_u32_at(b: Seq<u8>, i: int) -> u32 {
    (b[i] as int * 0x1000000 + b[i + 1] as int * 0x10000 + b[i + 2] as int * 0x100 + b[i
        + 3] as int) as u32
}

/// The unsigned 32-bit value of the four bytes at `i`, least significant first.
pub open spec fn le_u32_at(b: Seq<u8>, i: int) -> u32 {
    (b[i + 3] as int * 0x1000000 + b[i + 2] as int * 0x10000 + b[i + 1] as int * 0x100
        + b[i] as int) as u32
}

/// The four bytes of `x`, most significant first.
pub open spec fn be_bytes(x: u32) -> Seq<u8> {
    seq![
        (x / 0x1000000) as u8,
        (x / 0x10000 % 0x100) as u8,
        (x / 0x100 % 0x100) as u8,
        (x % 0x100) as u8,
    ]
}

/// The four bytes of `x`, least significant first.
pub open spec fn le_bytes(x: u32) -> Seq<u8> {
    seq![
        (x % 0x100) as u8,
        (x / 0x100 % 0x100) as u8,
        (x / 0x10000 % 0x100) as u8,
        (x / 0x1000000) as u8,
    ]
}

pub fn read_be_u32(b: &[u8], i: usize) -> (r: u32)
    requires
        i + 4 <= b@.len(),
    ensures
        r == be_u32_at(b@, i as int),
{
    let len = b.len();
    b[i] as u32 * 0x1000000 + b[i + 1] as u32 * 0x10000 + b[i + 2] as u32 * 0x100 + b[i + 3] as u32
}

pub fn read_le_u32(b: &[u8], i: usize) -> (r: u32)
    requires
        i + 4 <= b@.len(),
    ensures
        r == le_u32_at(b@, i as int),
{
    let len = b.len();
    b[i + 3] as u32 * 0x1000000 + b[i + 2] as u32 * 0x10000 + b[i + 1] as u32 * 0x100 + b[i] as u32
}

pub fn push_be_u32(out: &mut Vec<u8>, x: u32)
    ensures
        final(out)@ == old(out)@ + be_bytes(x),
{
    out.push((x / 0x1000000) as u8);
    out.push((x / 0x10000 % 0x100) as u8);
    out.push((x / 0x100 % 0x100) as u8);
    out.push((x % 0x100) as u8);
    assert(out@ =~= old(out)@ + be_bytes(x));
}

pub fn push_le_u32(out: &mut Vec<u8>, x: u32)
    ensures
        final(out)@ == old(out)@ + le_bytes(x),
{
    out.push((x % 0x100) as u8);
    out.push((x / 0x100 % 0x100) as u8);
    out.push((x / 0x10000 % 0x100) as u8);
    out.push((x / 0x1000000) as u8);
    assert(out@ =~= old(out)@ + le_bytes(x));
}

/// Reading back the bytes of `x` gives `x`, in either order.
pub proof fn lemma_u32_bytes_round_trip(x: u32)
    ensures
        be_u32_at(be_bytes(x), 0) == x,
        le_u32_at(le_bytes(x), 0) == x,
{
    let b = be_bytes(x);
    let l = le_bytes(x);
    assert(b[0] as int * 0x1000000 + b[1] as int * 0x10000 + b[2] as int * 0x100 + b[3] as int
        == x) by (nonlinear_arith)
        requires
            b[0] == (x / 0x1000000) as u8,
            b[1] == (x / 0x10000 % 0x100) as u8,
            b[2] == (x / 0x100 % 0x100) as u8,
            b[3] == (x % 0x100) as u8,
            x <= 0xFFFF_FFFF,
    ;
    assert(l[3] as int * 0x1000000 + l[2] as int * 0x10000 + l[1] as int * 0x100 + l[0] as int
        == x) by (nonlinear_arith)
        requires
            l[3] == (x / 0x1000000) as u8,
            l[2] == (x / 0x10000 % 0x100) as u8,
            l[1] == (x / 0x100 % 0x100) as u8,
            l[0] == (x % 0x100) as u8,
            x <= 0xFFFF_FFFF,
    ;
}

/// The byte order of the scalars of a header.
#[derive(Clone, Copy, Debug, PartialEq, Eq, Hash, Structural)]
pub enum RasterByteOrder {
    BigEndian,
    LittleEndian,
}

/// The unsigned 32-bit value of the four bytes at `i`, in the byte order `order`.
pub open spec fn u32_at(order: RasterByteOrder, b: Seq<u8>, i: int) -> u32 {
    match order {
        RasterByteOrder::BigEndian => be_u32_at(b, i),
        RasterByteOrder::LittleEndian => le_u32_at(b, i),
    }
}

/// The four bytes of `x` in the byte order `order`.
pub open spec fn u32_bytes(order: RasterByteOrder, x: u32) -> Seq<u8> {
    match order {
        RasterByteOrder::BigEndian => be_bytes(x),
        RasterByteOrder::LittleEndian => le_bytes(x),
    }
}

pub fn read_u32(order: RasterByteOrder, b: &[u8], i: usize) -> (r: u32)
    requires
        i + 4 <= b@.len(),
    ensures
        r == u32_at(order, b@, i as int),
{
    match order {
        RasterByteOrder::BigEndian => read_be_u32(b, i),
        RasterByteOrder::LittleEndian => read_le_u32(b, i),
    }
}

pub fn write_u32(order: RasterByteOrder, out: &mut Vec<u8>, x: u32)
    ensures
        final(out)@ == old(out)@ + u32_bytes(order, x),
{
    match order {
        RasterByteOrder::BigEndian => push_be_u32(out, x),
        RasterByteOrder::LittleEndian => push_le_u32(out, x),
    }
}

} // verus!
