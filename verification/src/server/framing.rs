//! How a client's bytes are cut into requests.
//!
//! A request says how many words it is long. A length of zero announces a big
//! request, whose length follows in a word of its own; what comes out of the
//! buffer has that word taken out, so that both kinds look alike.

use vstd::prelude::*;

use super::wire::{bytes16, bytes32, get_u16, get_u32, u16_at, u32_at, zeros, ByteOrder};

verus! {

/// `bytes::BytesMut`, a buffer of bytes; nothing inside it is visible.
#[verifier::external_type_specification]
#[verifier::external_body]
pub struct ExBytesMut(bytes::BytesMut);

/// The bytes a buffer holds.
pub uninterp spec fn bytes_in(b: bytes::BytesMut) -> Seq<u8>;

/// `BytesMut::with_capacity`: a buffer without bytes.
#[verifier::external_body]
fn new_buffer(capacity: usize) -> (r: bytes::BytesMut)
    requires
        capacity <= isize::MAX,
    ensures
        bytes_in(r) == Seq::<u8>::empty(),
{
    bytes::BytesMut::with_capacity(capacity)
}

/// `BytesMut::extend_from_slice`: the bytes are added at the end. To make room
/// the buffer may ask for a few times what it is to hold, and it panics where
/// that is more than can be allocated.
#[verifier::external_body]
fn extend_buffer(b: &mut bytes::BytesMut, data: &[u8])
    requires
        bytes_in(*old(b)).len() + data@.len() <= isize::MAX / 8,
    ensures
        bytes_in(*final(b)) == bytes_in(*old(b)) + data@,
{
    b.extend_from_slice(data);
}

/// `BytesMut::as_ref`: the bytes of the buffer.
#[verifier::external_body]
pub(crate) fn buffered(b: &bytes::BytesMut) -> (r: &[u8])
    ensures
        r@ == bytes_in(*b),
{
    b.as_ref()
}

/// `BytesMut::split_to`: the first bytes leave the buffer for one of their own.
#[verifier::external_body]
fn split_front(b: &mut bytes::BytesMut, at: usize) -> (r: bytes::BytesMut)
    requires
        at <= bytes_in(*old(b)).len(),
    ensures
        bytes_in(r) == bytes_in(*old(b)).take(at as int),
        bytes_in(*final(b)) == bytes_in(*old(b)).skip(at as int),
{
    b.split_to(at)
}

/// What the front of a stream holds.
pub enum Framing {
    /// A request that has not arrived completely.
    Incomplete,
    /// A big request that is too short for its own length.
    Malformed,
    /// A request, and how many bytes of the stream it takes.
    Whole { size: nat, request: Seq<u8> },
}

/// What the front of a stream holds.
pub open spec fn framed(o: ByteOrder, stream: Seq<u8>) -> Framing {
    if stream.len() < 4 {
        Framing::Incomplete
    } else if u16_at(o, stream, 2) != 0 {
        let size = 4 * u16_at(o, stream, 2);
        if stream.len() < size {
            Framing::Incomplete
        } else {
            Framing::Whole { size: size as nat, request: stream.take(size) }
        }
    } else if stream.len() < 8 {
        Framing::Incomplete
    } else if u32_at(o, stream, 4) < 2 {
        Framing::Malformed
    } else {
        let size = 4 * u32_at(o, stream, 4);
        if stream.len() < size {
            Framing::Incomplete
        } else {
            Framing::Whole {
                size: size as nat,
                request: stream.take(4) + stream.subrange(8, size),
            }
        }
    }
}

/// The requests of a stream, as far as they have arrived.
pub open spec fn requests(o: ByteOrder, stream: Seq<u8>) -> Seq<Seq<u8>>
    decreases stream.len(),
{
    match framed(o, stream) {
        Framing::Whole { size, request } => if 0 < size <= stream.len() {
            seq![request] + requests(o, stream.skip(size as int))
        } else {
            Seq::empty()
        },
        _ => Seq::empty(),
    }
}

/// What is left of a stream after its requests.
pub open spec fn remainder(o: ByteOrder, stream: Seq<u8>) -> Seq<u8>
    decreases stream.len(),
{
    match framed(o, stream) {
        Framing::Whole { size, request } => if 0 < size <= stream.len() {
            remainder(o, stream.skip(size as int))
        } else {
            stream
        },
        _ => stream,
    }
}

/// A request takes its place in the stream and comes out whole words long.
pub proof fn law_request_size(o: ByteOrder, stream: Seq<u8>)
    ensures
        match framed(o, stream) {
            Framing::Whole { size, request } => 4 <= size <= stream.len() && size % 4 == 0 && 4
                <= request.len() <= size && request.len() % 4 == 0 && request[0] == stream[0]
                && request[1] == stream[1],
            _ => true,
        },
{
}

/// What arrives later does not change what the front of a stream holds.
pub proof fn law_later_bytes(o: ByteOrder, stream: Seq<u8>, more: Seq<u8>)
    ensures
        framed(o, stream) !is Incomplete ==> framed(o, stream + more) == framed(o, stream),
{
    let all = stream + more;
    if framed(o, stream) !is Incomplete {
        assert(u16_at(o, all, 2) == u16_at(o, stream, 2));
        if u16_at(o, stream, 2) == 0 {
            assert(u32_at(o, all, 4) == u32_at(o, stream, 4));
            if u32_at(o, stream, 4) >= 2 {
                let size = 4 * u32_at(o, stream, 4);
                assert(all.take(4) =~= stream.take(4));
                assert(all.subrange(8, size) =~= stream.subrange(8, size));
            }
        } else {
            let size = 4 * u16_at(o, stream, 2);
            assert(all.take(size) =~= stream.take(size));
        }
    }
}

/// Requests come out the same however the stream is chopped: those that a part
/// of it holds come first, and the rest come from what was left and what follows.
pub proof fn law_chopping(o: ByteOrder, first: Seq<u8>, second: Seq<u8>)
    ensures
        requests(o, first + second) == requests(o, first) + requests(
            o,
            remainder(o, first) + second,
        ),
        remainder(o, first + second) == remainder(o, remainder(o, first) + second),
    decreases first.len(),
{
    let all = first + second;
    law_request_size(o, first);
    match framed(o, first) {
        Framing::Whole { size, request } => {
            law_later_bytes(o, first, second);
            assert(all.skip(size as int) =~= first.skip(size as int) + second);
            law_chopping(o, first.skip(size as int), second);
            let rest = remainder(o, first) + second;
            assert(requests(o, all) =~= seq![request] + (requests(o, first.skip(size as int))
                + requests(o, rest)));
            assert(requests(o, first) =~= seq![request] + requests(o, first.skip(size as int)));
            assert(requests(o, all) =~= requests(o, first) + requests(o, rest));
        },
        _ => {
            assert(requests(o, first) =~= Seq::empty());
            assert(requests(o, all) =~= requests(o, first) + requests(o, all));
        },
    }
}

/// A request as a client sends it: opcode, detail and length, and its data.
pub open spec fn sent_request(o: ByteOrder, opcode: u8, detail: u8, body: Seq<u8>) -> Seq<u8> {
    seq![opcode, detail] + bytes16(o, ((4 + body.len()) / 4) as u16) + body
}

/// A big request as a client sends it.
pub open spec fn sent_big_request(o: ByteOrder, opcode: u8, detail: u8, body: Seq<u8>) -> Seq<u8> {
    seq![opcode, detail] + zeros(2) + bytes32(o, ((8 + body.len()) / 4) as u32) + body
}

/// A request comes out of the stream as it was sent.
pub proof fn law_request_arrives(o: ByteOrder, opcode: u8, detail: u8, body: Seq<u8>, rest: Seq<u8>)
    requires
        body.len() % 4 == 0,
        (4 + body.len()) / 4 <= u16::MAX,
    ensures
        framed(o, sent_request(o, opcode, detail, body) + rest) == (Framing::Whole {
            size: sent_request(o, opcode, detail, body).len(),
            request: sent_request(o, opcode, detail, body),
        }),
{
    let r = sent_request(o, opcode, detail, body);
    let words = ((4 + body.len()) / 4) as u16;
    super::wire::law_u16_round_trip(o, seq![opcode, detail], words, body + rest);
    assert(r + rest =~= seq![opcode, detail] + bytes16(o, words) + (body + rest));
    assert((r + rest).take(r.len() as int) =~= r);
}

/// A big request comes out of the stream as the plain request would, with the
/// length left zero.
pub proof fn law_big_request_arrives(
    o: ByteOrder,
    opcode: u8,
    detail: u8,
    body: Seq<u8>,
    rest: Seq<u8>,
)
    requires
        body.len() % 4 == 0,
        (8 + body.len()) / 4 <= u32::MAX,
    ensures
        framed(o, sent_big_request(o, opcode, detail, body) + rest) == (Framing::Whole {
            size: sent_big_request(o, opcode, detail, body).len(),
            request: seq![opcode, detail] + zeros(2) + body,
        }),
{
    let r = sent_big_request(o, opcode, detail, body);
    let words = ((8 + body.len()) / 4) as u32;
    let head = seq![opcode, detail] + zeros(2);
    super::wire::law_u32_round_trip(o, head, words, body + rest);
    assert(r + rest =~= head + bytes32(o, words) + (body + rest));
    assert((r + rest).take(4) + (r + rest).subrange(8, r.len() as int) =~= head + body);
    assert(u16_at(o, r + rest, 2) == 0);
}

/// What the next request of a stream is.
pub enum NextRequest {
    /// It has not arrived completely.
    Incomplete,
    /// It is too short for its own length; nothing can follow it.
    Malformed,
    /// It is there.
    Request(bytes::BytesMut),
}

/// The bytes of a client that are not yet handled.
pub struct RequestBuffer {
    pending: bytes::BytesMut,
}

impl View for RequestBuffer {
    type V = Seq<u8>;

    closed spec fn view(&self) -> Seq<u8> {
        bytes_in(self.pending)
    }
}

impl RequestBuffer {
    /// A buffer never holds more than can be moved to another.
    pub open spec fn wf(&self) -> bool {
        self@.len() <= isize::MAX / 8
    }

    /// A buffer without bytes.
    pub fn new() -> (r: RequestBuffer)
        ensures
            r.wf(),
            r@ == Seq::<u8>::empty(),
    {
        RequestBuffer { pending: new_buffer(65536) }
    }

    /// Adds bytes that arrived. A buffer that cannot grow so far is left as it is.
    pub fn push(&mut self, data: &[u8]) -> (r: bool)
        requires
            old(self).wf(),
        ensures
            final(self).wf(),
            r == (old(self)@.len() + data@.len() <= isize::MAX / 8),
            final(self)@ == (if r {
                old(self)@ + data@
            } else {
                old(self)@
            }),
    {
        let len: usize = buffered(&self.pending).len();
        let limit: usize = isize::MAX as usize / 8;
        if data.len() > limit || len > limit - data.len() {
            return false;
        }
        extend_buffer(&mut self.pending, data);
        true
    }

    /// Takes the next request out of the buffer, if it is there.
    pub fn next_request(&mut self, order: ByteOrder) -> (r: NextRequest)
        requires
            old(self).wf(),
        ensures
            final(self).wf(),
            match framed(order, old(self)@) {
                Framing::Incomplete => r is Incomplete && final(self)@ == old(self)@,
                Framing::Malformed => r is Malformed && final(self)@ == old(self)@,
                Framing::Whole { size, request } => match r {
                    NextRequest::Request(b) => bytes_in(b) == request && final(self)@ == old(
                        self,
                    )@.skip(size as int),
                    _ => false,
                },
            },
    {
        let pending: &[u8] = buffered(&self.pending);
        let len: usize = pending.len();
        if len < 4 {
            return NextRequest::Incomplete;
        }
        let words: u16 = get_u16(order, pending, 2);
        if words != 0 {
            let size: usize = words as usize * 4;
            if len < size {
                return NextRequest::Incomplete;
            }
            return NextRequest::Request(split_front(&mut self.pending, size));
        }
        if len < 8 {
            return NextRequest::Incomplete;
        }
        let ext: u32 = get_u32(order, pending, 4);
        if ext < 2 {
            return NextRequest::Malformed;
        }
        if (len as u64) < ext as u64 * 4 {
            return NextRequest::Incomplete;
        }
        let size: usize = (ext as u64 * 4) as usize;
        let raw = split_front(&mut self.pending, size);
        let bytes: &[u8] = buffered(&raw);
        proof {
            assert(bytes@ == old(self)@.take(size as int));
        }
        let mut normalized = new_buffer(size - 4);
        extend_buffer(&mut normalized, vstd::slice::slice_subrange(bytes, 0, 4));
        extend_buffer(&mut normalized, vstd::slice::slice_subrange(bytes, 8, size));
        assert(bytes_in(normalized) =~= old(self)@.take(4) + old(self)@.subrange(8, size as int));
        NextRequest::Request(normalized)
    }
}

} // verus!
