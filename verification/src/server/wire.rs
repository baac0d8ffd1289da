//! Byte-level encoding of the X11 protocol in either byte order.

use vstd::prelude::*;

verus! {

/// Byte order a client chose when it connected.
#[derive(Debug, Clone, Copy, PartialEq, Eq, Structural)]
pub enum ByteOrder {
    BigEndian,
    LittleEndian,
}

/// The two bytes of a 16-bit value on the wire.
pub open spec fn bytes16(order: ByteOrder, v: u16) -> Seq<u8> {
    match order {
        ByteOrder::BigEndian => seq![(v / 256) as u8, (v % 256) as u8],
        ByteOrder::LittleEndian => seq![(v % 256) as u8, (v / 256) as u8],
    }
}

/// The four bytes of a 32-bit value on the wire.
pub open spec fn bytes32(order: ByteOrder, v: u32) -> Seq<u8> {
    let b3 = (v / 0x1000000) as u8;
    let b2 = ((v / 0x10000) % 256) as u8;
    let b1 = ((v / 256) % 256) as u8;
    let b0 = (v % 256) as u8;
    match order {
        ByteOrder::BigEndian => seq![b3, b2, b1, b0],
        ByteOrder::LittleEndian => seq![b0, b1, b2, b3],
    }
}

/// One byte on the wire.
pub open spec fn byte(v: u8) -> Seq<u8> {
    seq![v]
}

/// A run of zero bytes.
pub open spec fn zeros(n: nat) -> Seq<u8> {
    Seq::new(n, |i: int| 0u8)
}

/// Bytes that are there only if they are wanted.
pub open spec fn only_if(wanted: bool, b: Seq<u8>) -> Seq<u8> {
    if wanted {
        b
    } else {
        Seq::empty()
    }
}

/// A 16-bit value read at an offset.
pub open spec fn u16_at(order: ByteOrder, data: Seq<u8>, at: int) -> u16 {
    match order {
        ByteOrder::BigEndian => (data[at] * 256 + data[at + 1]) as u16,
        ByteOrder::LittleEndian => (data[at + 1] * 256 + data[at]) as u16,
    }
}

/// A 32-bit value read at an offset.
pub open spec fn u32_at(order: ByteOrder, data: Seq<u8>, at: int) -> u32 {
    match order {
        ByteOrder::BigEndian => (data[at] * 0x1000000 + data[at + 1] * 0x10000 + data[at + 2] * 256
            + data[at + 3]) as u32,
        ByteOrder::LittleEndian => (data[at + 3] * 0x1000000 + data[at + 2] * 0x10000 + data[at + 1]
            * 256 + data[at]) as u32,
    }
}

/// The 16-bit pattern of a signed value.
pub open spec fn pattern16(v: i16) -> u16 {
    if v < 0 {
        (v + 0x10000) as u16
    } else {
        v as u16
    }
}

/// The signed value of a 16-bit pattern.
pub open spec fn signed16(v: u16) -> i16 {
    if v < 0x8000 {
        v as i16
    } else {
        (v - 0x10000) as i16
    }
}

/// A signed 16-bit value read at an offset.
pub open spec fn i16_at(order: ByteOrder, data: Seq<u8>, at: int) -> i16 {
    signed16(u16_at(order, data, at))
}

/// The low sixteen bits of a 32-bit value.
pub open spec fn low16(v: u32) -> u16 {
    (v % 0x10000) as u16
}

/// The low eight bits of a 32-bit value.
pub open spec fn low8(v: u32) -> u8 {
    (v % 256) as u8
}

/// The smallest multiple of four that is at least `n`.
pub open spec fn padded4(n: int) -> int {
    (n + 3) / 4 * 4
}

/// The number of bytes that bring `n` to a multiple of four.
pub open spec fn pad4(n: int) -> int {
    padded4(n) - n
}

/// Writes one byte.
pub fn put_u8(buf: &mut Vec<u8>, v: u8)
    ensures
        final(buf)@ == old(buf)@ + byte(v),
{
    buf.push(v);
    assert(buf@ =~= old(buf)@ + byte(v));
}

/// Writes `n` zero bytes.
pub fn put_zeros(buf: &mut Vec<u8>, n: usize)
    ensures
        final(buf)@ == old(buf)@ + zeros(n as nat),
{
    let ghost start = buf@;
    for i in 0..n
        invariant
            buf@ =~= start + zeros(i as nat),
    {
        buf.push(0);
    }
}

/// Writes a run of bytes.
pub fn put_bytes(buf: &mut Vec<u8>, bytes: &[u8])
    ensures
        final(buf)@ == old(buf)@ + bytes@,
{
    let ghost start = buf@;
    for i in 0..bytes.len()
        invariant
            buf@ =~= start + bytes@.take(i as int),
    {
        buf.push(bytes[i]);
    }
    assert(bytes@.take(bytes@.len() as int) =~= bytes@);
}

/// Writes a 16-bit value in the given byte order.
pub fn put_u16(order: ByteOrder, buf: &mut Vec<u8>, v: u16)
    ensures
        final(buf)@ == old(buf)@ + bytes16(order, v),
{
    let hi: u8 = (v / 256) as u8;
    let lo: u8 = (v % 256) as u8;
    match order {
        ByteOrder::BigEndian => {
            buf.push(hi);
            buf.push(lo);
        },
        ByteOrder::LittleEndian => {
            buf.push(lo);
            buf.push(hi);
        },
    }
    assert(buf@ =~= old(buf)@ + bytes16(order, v));
}

/// Writes a 32-bit value in the given byte order.
pub fn put_u32(order: ByteOrder, buf: &mut Vec<u8>, v: u32)
    ensures
        final(buf)@ == old(buf)@ + bytes32(order, v),
{
    let b3: u8 = (v / 0x1000000) as u8;
    let b2: u8 = ((v / 0x10000) % 256) as u8;
    let b1: u8 = ((v / 256) % 256) as u8;
    let b0: u8 = (v % 256) as u8;
    match order {
        ByteOrder::BigEndian => {
            buf.push(b3);
            buf.push(b2);
            buf.push(b1);
            buf.push(b0);
        },
        ByteOrder::LittleEndian => {
            buf.push(b0);
            buf.push(b1);
            buf.push(b2);
            buf.push(b3);
        },
    }
    assert(buf@ =~= old(buf)@ + bytes32(order, v));
}

/// Reinterprets a signed 16-bit value as its bit pattern.
pub fn to_pattern16(v: i16) -> (r: u16)
    ensures
        r == pattern16(v),
{
    let r: u16 = v as u16;
    assert(r == (if v < 0 { v + 0x10000 } else { v + 0 })) by (bit_vector)
        requires
            r == v as u16,
    ;
    r
}

/// Reinterprets a 16-bit pattern as a signed value.
pub fn to_signed16(v: u16) -> (r: i16)
    ensures
        r == signed16(v),
{
    let r: i16 = v as i16;
    assert(r == (if v < 0x8000 { v + 0 } else { v - 0x10000 })) by (bit_vector)
        requires
            r == v as i16,
    ;
    r
}

/// Keeps the low sixteen bits of a 32-bit value.
pub fn to_low16(v: u32) -> (r: u16)
    ensures
        r == low16(v),
{
    (v % 0x10000) as u16
}

/// Keeps the low eight bits of a 32-bit value.
pub fn to_low8(v: u32) -> (r: u8)
    ensures
        r == low8(v),
{
    (v % 256) as u8
}

/// A number reduced to sixteen bits, two's complement.
pub open spec fn wrap16(v: int) -> i16 {
    if v % 0x10000 < 0x8000 {
        (v % 0x10000) as i16
    } else {
        (v % 0x10000 - 0x10000) as i16
    }
}

/// Reduces a 32-bit number to sixteen bits.
pub fn truncate16(v: i32) -> (r: i16)
    ensures
        r == wrap16(v as int),
{
    let r: i16 = v as i16;
    assert(r == (if v % 0x10000 < 0x8000 {
        v % 0x10000 + 0
    } else {
        v % 0x10000 - 0x10000
    })) by (bit_vector)
        requires
            r == v as i16,
    ;
    r
}

/// Reads a 16-bit value at an offset.
pub fn get_u16(order: ByteOrder, data: &[u8], at: usize) -> (r: u16)
    requires
        at + 2 <= data@.len(),
    ensures
        r == u16_at(order, data@, at as int),
{
    let a: u16 = data[at] as u16;
    let b: u16 = data[at + 1] as u16;
    match order {
        ByteOrder::BigEndian => a * 256 + b,
        ByteOrder::LittleEndian => b * 256 + a,
    }
}

/// Reads a signed 16-bit value at an offset.
pub fn get_i16(order: ByteOrder, data: &[u8], at: usize) -> (r: i16)
    requires
        at + 2 <= data@.len(),
    ensures
        r == i16_at(order, data@, at as int),
{
    to_signed16(get_u16(order, data, at))
}

/// Reads a 32-bit value at an offset.
pub fn get_u32(order: ByteOrder, data: &[u8], at: usize) -> (r: u32)
    requires
        at + 4 <= data@.len(),
    ensures
        r == u32_at(order, data@, at as int),
{
    let a: u32 = data[at] as u32;
    let b: u32 = data[at + 1] as u32;
    let c: u32 = data[at + 2] as u32;
    let d: u32 = data[at + 3] as u32;
    match order {
        ByteOrder::BigEndian => a * 0x1000000 + b * 0x10000 + c * 256 + d,
        ByteOrder::LittleEndian => d * 0x1000000 + c * 0x10000 + b * 256 + a,
    }
}

/// Overwrites two bytes of an event with a 16-bit value.
pub fn put_at16(order: ByteOrder, buf: &mut [u8; 32], at: usize, v: u16)
    requires
        at + 2 <= 32,
    ensures
        final(buf)@ == splice(old(buf)@, at as int, bytes16(order, v)),
{
    let hi: u8 = (v / 256) as u8;
    let lo: u8 = (v % 256) as u8;
    match order {
        ByteOrder::BigEndian => {
            buf[at] = hi;
            buf[at + 1] = lo;
        },
        ByteOrder::LittleEndian => {
            buf[at] = lo;
            buf[at + 1] = hi;
        },
    }
    assert(buf@ =~= splice(old(buf)@, at as int, bytes16(order, v)));
}

/// Overwrites four bytes of an event with a 32-bit value.
pub fn put_at32(order: ByteOrder, buf: &mut [u8; 32], at: usize, v: u32)
    requires
        at + 4 <= 32,
    ensures
        final(buf)@ == splice(old(buf)@, at as int, bytes32(order, v)),
{
    let b3: u8 = (v / 0x1000000) as u8;
    let b2: u8 = ((v / 0x10000) % 256) as u8;
    let b1: u8 = ((v / 256) % 256) as u8;
    let b0: u8 = (v % 256) as u8;
    match order {
        ByteOrder::BigEndian => {
            buf[at] = b3;
            buf[at + 1] = b2;
            buf[at + 2] = b1;
            buf[at + 3] = b0;
        },
        ByteOrder::LittleEndian => {
            buf[at] = b0;
            buf[at + 1] = b1;
            buf[at + 2] = b2;
            buf[at + 3] = b3;
        },
    }
    assert(buf@ =~= splice(old(buf)@, at as int, bytes32(order, v)));
}

/// A sequence with a run of its elements replaced from an offset on.
pub open spec fn splice(s: Seq<u8>, at: int, piece: Seq<u8>) -> Seq<u8> {
    Seq::new(
        s.len(),
        |i: int|
            if at <= i < at + piece.len() {
                piece[i - at]
            } else {
                s[i]
            },
    )
}

/// Copies a vector of plain values.
pub fn copy_vec<T: Copy>(v: &Vec<T>) -> (r: Vec<T>)
    ensures
        r@ == v@,
{
    let mut r: Vec<T> = Vec::with_capacity(v.len());
    for i in 0..v.len()
        invariant
            r@ =~= v@.take(i as int),
    {
        r.push(v[i]);
    }
    assert(v@.take(v@.len() as int) =~= v@);
    r
}

/// Copies part of a byte run.
pub fn copy_range(data: &[u8], from: usize, to: usize) -> (r: Vec<u8>)
    requires
        from <= to <= data@.len(),
    ensures
        r@ == data@.subrange(from as int, to as int),
{
    let mut r: Vec<u8> = Vec::with_capacity(to - from);
    for i in from..to
        invariant
            from <= to <= data@.len(),
            r@ =~= data@.subrange(from as int, i as int),
    {
        r.push(data[i]);
    }
    r
}

/// Reading a 16-bit value gives back what was written, in either byte order.
pub proof fn law_u16_round_trip(order: ByteOrder, before: Seq<u8>, v: u16, after: Seq<u8>)
    ensures
        u16_at(order, before + bytes16(order, v) + after, before.len() as int) == v,
{
    let s = before + bytes16(order, v) + after;
    let n = before.len() as int;
    assert(s[n] == bytes16(order, v)[0]);
    assert(s[n + 1] == bytes16(order, v)[1]);
}

/// Reading a 32-bit value gives back what was written, in either byte order.
pub proof fn law_u32_round_trip(order: ByteOrder, before: Seq<u8>, v: u32, after: Seq<u8>)
    ensures
        u32_at(order, before + bytes32(order, v) + after, before.len() as int) == v,
{
    let s = before + bytes32(order, v) + after;
    let n = before.len() as int;
    assert(s[n] == bytes32(order, v)[0]);
    assert(s[n + 1] == bytes32(order, v)[1]);
    assert(s[n + 2] == bytes32(order, v)[2]);
    assert(s[n + 3] == bytes32(order, v)[3]);
}

/// A signed value survives the trip through its bit pattern.
pub proof fn law_i16_round_trip(v: i16)
    ensures
        signed16(pattern16(v)) == v,
{
}

/// Reading two bytes written by overwriting gives the value back, and every
/// other byte is as it was.
pub proof fn law_overwrite_u16(order: ByteOrder, s: Seq<u8>, at: int, v: u16)
    requires
        0 <= at,
        at + 2 <= s.len(),
    ensures
        u16_at(order, splice(s, at, bytes16(order, v)), at) == v,
        splice(s, at, bytes16(order, v)).len() == s.len(),
        forall|i: int|
            0 <= i < s.len() && (i < at || at + 2 <= i) ==> splice(s, at, bytes16(order, v))[i] == s[i],
{
}

/// Reading four bytes written by overwriting gives the value back, and every
/// other byte is as it was.
pub proof fn law_overwrite_u32(order: ByteOrder, s: Seq<u8>, at: int, v: u32)
    requires
        0 <= at,
        at + 4 <= s.len(),
    ensures
        u32_at(order, splice(s, at, bytes32(order, v)), at) == v,
        splice(s, at, bytes32(order, v)).len() == s.len(),
        forall|i: int|
            0 <= i < s.len() && (i < at || at + 4 <= i) ==> splice(s, at, bytes32(order, v))[i] == s[i],
{
}

} // verus!
