//! A client's connection: its identity, its place in the request stream and
//! the events queued for it.

use vstd::prelude::*;

use super::events::{set16, set32, stamped};
use super::wire::{
    byte, bytes16, bytes32, copy_range, get_i16, get_u16, get_u32, i16_at, pattern16, put_u16,
    put_u32, put_u8, put_zeros, to_pattern16, u16_at, u32_at, zeros,
};

pub use super::wire::ByteOrder;

verus! {

/// Per-client connection state.
#[derive(Debug, Clone, Copy)]
pub struct ClientConnection {
    pub id: u32,
    pub resource_id_base: u32,
    pub resource_id_mask: u32,
    pub byte_order: ByteOrder,
    /// Sequence number of the next request.
    pub sequence_number: u16,
    /// Grows each time the client fetches the keyboard mapping.
    pub mapping_gen: u32,
}

impl ClientConnection {
    /// Sequence number of the request being handled.
    pub open spec fn request_sequence(self) -> u16 {
        self.sequence_number.wrapping_sub(1)
    }

    /// Counts one request and gives the number it has.
    pub fn next_sequence(&mut self) -> (r: u16)
        ensures
            r == old(self).sequence_number,
            *final(self) == (ClientConnection {
                sequence_number: old(self).sequence_number.wrapping_add(1),
                ..*old(self)
            }),
            final(self).request_sequence() == r,
    {
        let r: u16 = self.sequence_number;
        self.sequence_number = r.wrapping_add(1);
        r
    }

    /// Sequence number of the request being handled, for use in replies.
    pub fn current_request_sequence(&self) -> (r: u16)
        ensures
            r == self.request_sequence(),
    {
        self.sequence_number.wrapping_sub(1)
    }
}

/// The bytes of an event: inline for the common 32-byte kind.
#[derive(Debug)]
pub enum EventData {
    /// A standard 32-byte event.
    Fixed([u8; 32]),
    /// A longer event.
    Extended(Vec<u8>),
}

impl View for EventData {
    type V = Seq<u8>;

    open spec fn view(&self) -> Seq<u8> {
        match *self {
            EventData::Fixed(buf) => buf@,
            EventData::Extended(v) => v@,
        }
    }
}

impl EventData {
    /// The event's bytes.
    pub fn as_slice(&self) -> (r: &[u8])
        ensures
            r@ == self@,
    {
        match self {
            EventData::Fixed(buf) => buf.as_slice(),
            EventData::Extended(v) => v.as_slice(),
        }
    }

    /// The event's bytes, for writing. Its kind stays.
    pub fn as_mut_slice(&mut self) -> (r: &mut [u8])
        ensures
            r@ == old(self)@,
            final(self)@ == final(r)@,
            (*final(self)) is Fixed <==> (*old(self)) is Fixed,
    {
        match self {
            EventData::Fixed(buf) => buf,
            EventData::Extended(v) => v.as_mut_slice(),
        }
    }
}

impl From<[u8; 32]> for EventData {
    fn from(buf: [u8; 32]) -> (r: EventData) {
        EventData::Fixed(buf)
    }
}

impl vstd::std_specs::convert::FromSpecImpl<[u8; 32]> for EventData {
    open spec fn obeys_from_spec() -> bool {
        true
    }

    open spec fn from_spec(buf: [u8; 32]) -> EventData {
        EventData::Fixed(buf)
    }
}

impl From<Vec<u8>> for EventData {
    fn from(v: Vec<u8>) -> (r: EventData) {
        EventData::Extended(v)
    }
}

impl vstd::std_specs::convert::FromSpecImpl<Vec<u8>> for EventData {
    open spec fn obeys_from_spec() -> bool {
        true
    }

    open spec fn from_spec(v: Vec<u8>) -> EventData {
        EventData::Extended(v)
    }
}

/// Reads a 16-bit value at an offset, in the client's byte order.
pub fn read_u16(conn: &ClientConnection, data: &[u8], at: usize) -> (r: u16)
    requires
        at + 2 <= data@.len(),
    ensures
        r == u16_at(conn.byte_order, data@, at as int),
{
    get_u16(conn.byte_order, data, at)
}

/// Reads a signed 16-bit value at an offset, in the client's byte order.
pub fn read_i16(conn: &ClientConnection, data: &[u8], at: usize) -> (r: i16)
    requires
        at + 2 <= data@.len(),
    ensures
        r == i16_at(conn.byte_order, data@, at as int),
{
    get_i16(conn.byte_order, data, at)
}

/// Reads a 32-bit value at an offset, in the client's byte order.
pub fn read_u32(conn: &ClientConnection, data: &[u8], at: usize) -> (r: u32)
    requires
        at + 4 <= data@.len(),
    ensures
        r == u32_at(conn.byte_order, data@, at as int),
{
    get_u32(conn.byte_order, data, at)
}

/// Appends a 16-bit value in the client's byte order.
pub fn write_u16_to(conn: &ClientConnection, buf: &mut Vec<u8>, val: u16)
    ensures
        final(buf)@ == old(buf)@ + bytes16(conn.byte_order, val),
{
    put_u16(conn.byte_order, buf, val);
}

/// Appends a signed 16-bit value in the client's byte order.
pub fn write_i16_to(conn: &ClientConnection, buf: &mut Vec<u8>, val: i16)
    ensures
        final(buf)@ == old(buf)@ + bytes16(conn.byte_order, pattern16(val)),
{
    put_u16(conn.byte_order, buf, to_pattern16(val));
}

/// Appends a 32-bit value in the client's byte order.
pub fn write_u32_to(conn: &ClientConnection, buf: &mut Vec<u8>, val: u32)
    ensures
        final(buf)@ == old(buf)@ + bytes32(conn.byte_order, val),
{
    put_u32(conn.byte_order, buf, val);
}

/// Overwrites four bytes with a value in the client's byte order.
pub fn write_u32_at(conn: &ClientConnection, buf: &mut [u8], offset: usize, val: u32)
    requires
        offset + 4 <= old(buf)@.len(),
    ensures
        final(buf)@ == set32(conn.byte_order, old(buf)@, offset as int, val),
{
    let len: usize = buf.len();
    assert(offset + 4 <= len);
    let mut bytes: Vec<u8> = Vec::with_capacity(4);
    put_u32(conn.byte_order, &mut bytes, val);
    assert(bytes@ =~= bytes32(conn.byte_order, val));
    buf[offset] = bytes[0];
    buf[offset + 1] = bytes[1];
    buf[offset + 2] = bytes[2];
    buf[offset + 3] = bytes[3];
    assert(buf@ =~= set32(conn.byte_order, old(buf)@, offset as int, val));
}

/// Overwrites two bytes with a value in the client's byte order.
pub fn write_u16_at(conn: &ClientConnection, buf: &mut [u8], offset: usize, val: u16)
    requires
        offset + 2 <= old(buf)@.len(),
    ensures
        final(buf)@ == set16(conn.byte_order, old(buf)@, offset as int, val),
{
    let len: usize = buf.len();
    assert(offset + 2 <= len);
    let mut bytes: Vec<u8> = Vec::with_capacity(2);
    put_u16(conn.byte_order, &mut bytes, val);
    assert(bytes@ =~= bytes16(conn.byte_order, val));
    buf[offset] = bytes[0];
    buf[offset + 1] = bytes[1];
    assert(buf@ =~= set16(conn.byte_order, old(buf)@, offset as int, val));
}

/// How every reply starts: a detail byte, the request's number and the length
/// of what follows the first 32 bytes, in words.
pub open spec fn reply_head(conn: ClientConnection, detail: u8, words: u32) -> Seq<u8> {
    let o = conn.byte_order;
    byte(1) + byte(detail) + bytes16(o, conn.request_sequence()) + bytes32(o, words)
}

/// Starts a reply.
pub fn start_reply(conn: &ClientConnection, detail: u8, words: u32) -> (r: Vec<u8>)
    ensures
        r@ == reply_head(*conn, detail, words),
{
    let mut r: Vec<u8> = Vec::with_capacity(32);
    put_u8(&mut r, 1);
    assert(r@ =~= byte(1));
    put_u8(&mut r, detail);
    put_u16(conn.byte_order, &mut r, conn.current_request_sequence());
    put_u32(conn.byte_order, &mut r, words);
    r
}

/// A reply without data: its head and zeros up to 32 bytes.
pub open spec fn empty_reply(conn: ClientConnection, detail: u8) -> Seq<u8> {
    reply_head(conn, detail, 0) + zeros(24)
}

/// Builds a reply without data.
pub fn build_empty_reply(conn: &ClientConnection, detail: u8) -> (r: Vec<u8>)
    ensures
        r@ == empty_reply(*conn, detail),
{
    let mut r = start_reply(conn, detail, 0);
    put_zeros(&mut r, 24);
    r
}

/// Copies an event into a buffer for writing.
pub fn event_bytes(e: &[u8; 32]) -> (r: Vec<u8>)
    ensures
        r@ == e@,
{
    let r = copy_range(e.as_slice(), 0, 32);
    assert(r@ =~= e@);
    r
}

/// Stamps a sequence number on an event.
pub fn set_event_sequence(conn: &ClientConnection, event: &mut [u8], seq: u16)
    requires
        old(event)@.len() >= 4,
    ensures
        final(event)@ == stamped(*conn, old(event)@, seq),
{
    write_u16_at(conn, event, 2, seq);
}

} // verus!
