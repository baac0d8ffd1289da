//! Requests as clients write them, and how their fields are read back.

use vstd::prelude::*;

use super::values::{has_bit, values_fit};
use super::wire::{bytes16, bytes32, u16_at, u32_at, ByteOrder};

verus! {

/// Sixteen-bit numbers one after the other.
#[verifier::opaque]
pub open spec fn halves(o: ByteOrder, hs: Seq<u16>) -> Seq<u8> {
    Seq::new(2 * hs.len(), |i: int| bytes16(o, hs[i / 2])[i % 2])
}

/// Thirty-two-bit numbers one after the other.
#[verifier::opaque]
pub open spec fn words(o: ByteOrder, ws: Seq<u32>) -> Seq<u8> {
    Seq::new(4 * ws.len(), |i: int| bytes32(o, ws[i / 4])[i % 4])
}

/// A request: its opcode, its detail, its length in words and what follows.
#[verifier::opaque]
pub open spec fn request(o: ByteOrder, opcode: u8, detail: u8, body: Seq<u8>) -> Seq<u8> {
    seq![opcode, detail] + bytes16(o, (1 + body.len() / 4) as u16) + body
}

/// A number among sixteen-bit numbers is read where it was written.
pub proof fn lemma_half(o: ByteOrder, before: Seq<u8>, hs: Seq<u16>, after: Seq<u8>, i: int)
    requires
        0 <= i < hs.len(),
    ensures
        u16_at(o, before + halves(o, hs) + after, before.len() + 2 * i) == hs[i],
{
    reveal(halves);
    let s = before + halves(o, hs) + after;
    let at = before.len() + 2 * i;
    assert((2 * i) / 2 == i && (2 * i) % 2 == 0 && (2 * i + 1) / 2 == i && (2 * i + 1) % 2 == 1);
    assert(s[at] == bytes16(o, hs[i])[0]);
    assert(s[at + 1] == bytes16(o, hs[i])[1]);
}

/// Two bytes are read as the number that they were written for.
pub proof fn lemma_two_bytes(o: ByteOrder, s: Seq<u8>, at: int, v: u16)
    requires
        s[at] == bytes16(o, v)[0],
        s[at + 1] == bytes16(o, v)[1],
    ensures
        u16_at(o, s, at) == v,
{
}

/// Four bytes are read as the number that they were written for.
pub proof fn lemma_four_bytes(o: ByteOrder, s: Seq<u8>, at: int, v: u32)
    requires
        s[at] == bytes32(o, v)[0],
        s[at + 1] == bytes32(o, v)[1],
        s[at + 2] == bytes32(o, v)[2],
        s[at + 3] == bytes32(o, v)[3],
    ensures
        u32_at(o, s, at) == v,
{
}

/// A number among thirty-two-bit numbers is read where it was written.
pub proof fn lemma_word(o: ByteOrder, before: Seq<u8>, ws: Seq<u32>, after: Seq<u8>, i: int)
    requires
        0 <= i < ws.len(),
    ensures
        u32_at(o, before + words(o, ws) + after, before.len() + 4 * i) == ws[i],
{
    let all = words(o, ws);
    let s = before + all + after;
    let at = before.len() + 4 * i;
    assert(all.len() == 4 * ws.len() && all[4 * i] == bytes32(o, ws[i])[0] && all[4 * i + 1]
        == bytes32(o, ws[i])[1] && all[4 * i + 2] == bytes32(o, ws[i])[2] && all[4 * i + 3]
        == bytes32(o, ws[i])[3]) by {
        reveal(words);
        assert((4 * i) / 4 == i && (4 * i) % 4 == 0);
        assert((4 * i + 1) / 4 == i && (4 * i + 1) % 4 == 1);
        assert((4 * i + 2) / 4 == i && (4 * i + 2) % 4 == 2);
        assert((4 * i + 3) / 4 == i && (4 * i + 3) % 4 == 3);
    }
    assert(s[at] == all[4 * i]);
    assert(s[at + 1] == all[4 * i + 1]);
    assert(s[at + 2] == all[4 * i + 2]);
    assert(s[at + 3] == all[4 * i + 3]);
    lemma_four_bytes(o, s, at, ws[i]);
}

/// The fields of a request that has words alone.
pub proof fn lemma_words_request(o: ByteOrder, opcode: u8, detail: u8, ws: Seq<u32>)
    ensures
        ({
            let data = request(o, opcode, detail, words(o, ws));
            &&& data.len() == 4 + 4 * ws.len()
            &&& data[0] == opcode
            &&& data[1] == detail
            &&& forall|i: int| #![trigger ws[i]]
                0 <= i < ws.len() ==> u32_at(o, data, 4 + 4 * i) == ws[i]
        }),
{
    lemma_request(o, opcode, detail, ws, seq![], seq![], seq![]);
    assert(halves(o, seq![]) =~= seq![]) by {
        reveal(halves);
    }
    assert(words(o, seq![]) =~= seq![]) by {
        reveal(words);
    }
    assert(words(o, ws) + halves(o, seq![]) + words(o, seq![]) + seq![] =~= words(o, ws));
}

/// The fields of a request that has words, then sixteen-bit numbers, then words,
/// then bytes.
pub proof fn lemma_request(
    o: ByteOrder,
    opcode: u8,
    detail: u8,
    ws: Seq<u32>,
    hs: Seq<u16>,
    more: Seq<u32>,
    rest: Seq<u8>,
)
    ensures
        ({
            let data = request(
                o,
                opcode,
                detail,
                words(o, ws) + halves(o, hs) + words(o, more) + rest,
            );
            let mid = 4 + 4 * ws.len();
            let end = mid + 2 * hs.len();
            &&& data.len() == end + 4 * more.len() + rest.len()
            &&& data[0] == opcode
            &&& data[1] == detail
            &&& forall|i: int| #![trigger ws[i]]
                0 <= i < ws.len() ==> u32_at(o, data, 4 + 4 * i) == ws[i]
            &&& forall|i: int| #![trigger hs[i]]
                0 <= i < hs.len() ==> u16_at(o, data, mid + 2 * i) == hs[i]
            &&& forall|i: int| #![trigger more[i]]
                0 <= i < more.len() ==> u32_at(o, data, end + 4 * i) == more[i]
            &&& data.skip((end + 4 * more.len()) as int) == rest
        }),
{
    reveal(request);
    assert(words(o, ws).len() == 4 * ws.len() && words(o, more).len() == 4 * more.len()) by {
        reveal(words);
    }
    assert(halves(o, hs).len() == 2 * hs.len()) by {
        reveal(halves);
    }
    let body = words(o, ws) + halves(o, hs) + words(o, more) + rest;
    let data = request(o, opcode, detail, body);
    let head = seq![opcode, detail] + bytes16(o, (1 + body.len() / 4) as u16);
    let mid = head + words(o, ws);
    let end = mid + halves(o, hs);
    assert(data =~= head + words(o, ws) + (halves(o, hs) + words(o, more) + rest));
    assert(data =~= mid + halves(o, hs) + (words(o, more) + rest));
    assert(data =~= end + words(o, more) + rest);
    assert forall|i: int| #![trigger ws[i]] 0 <= i < ws.len() implies u32_at(o, data, 4 + 4 * i)
        == ws[i] by {
        lemma_word(o, head, ws, halves(o, hs) + words(o, more) + rest, i);
    }
    assert forall|i: int| #![trigger hs[i]] 0 <= i < hs.len() implies u16_at(
        o,
        data,
        4 + 4 * ws.len() + 2 * i,
    ) == hs[i] by {
        lemma_half(o, mid, hs, words(o, more) + rest, i);
    }
    assert forall|i: int| #![trigger more[i]] 0 <= i < more.len() implies u32_at(
        o,
        data,
        4 + 4 * ws.len() + 2 * hs.len() + 4 * i,
    ) == more[i] by {
        lemma_word(o, end, more, rest, i);
    }
    assert(data.skip((4 + 4 * ws.len() + 2 * hs.len() + 4 * more.len()) as int) =~= rest);
}

/// The fields of a request that has words, then bytes, then sixteen-bit numbers.
pub proof fn lemma_request_with_bytes(
    o: ByteOrder,
    opcode: u8,
    detail: u8,
    ws: Seq<u32>,
    bytes: Seq<u8>,
    hs: Seq<u16>,
)
    ensures
        ({
            let data = request(o, opcode, detail, words(o, ws) + (bytes + halves(o, hs)));
            let mid = 4 + 4 * ws.len();
            let end = mid + bytes.len();
            &&& data.len() == end + 2 * hs.len()
            &&& data[0] == opcode
            &&& data[1] == detail
            &&& forall|i: int| #![trigger ws[i]]
                0 <= i < ws.len() ==> u32_at(o, data, 4 + 4 * i) == ws[i]
            &&& forall|i: int| #![trigger bytes[i]]
                0 <= i < bytes.len() ==> data[mid + i] == bytes[i]
            &&& forall|i: int| #![trigger hs[i]]
                0 <= i < hs.len() ==> u16_at(o, data, end + 2 * i) == hs[i]
        }),
{
    reveal(request);
    assert(words(o, ws).len() == 4 * ws.len()) by {
        reveal(words);
    }
    assert(halves(o, hs).len() == 2 * hs.len()) by {
        reveal(halves);
    }
    let body = words(o, ws) + (bytes + halves(o, hs));
    let data = request(o, opcode, detail, body);
    let head = seq![opcode, detail] + bytes16(o, (1 + body.len() / 4) as u16);
    let end = head + words(o, ws) + bytes;
    assert(data =~= head + words(o, ws) + (bytes + halves(o, hs)));
    assert(data =~= end + halves(o, hs) + seq![]);
    assert forall|i: int| #![trigger ws[i]] 0 <= i < ws.len() implies u32_at(o, data, 4 + 4 * i)
        == ws[i] by {
        lemma_word(o, head, ws, bytes + halves(o, hs), i);
    }
    assert forall|i: int| #![trigger hs[i]] 0 <= i < hs.len() implies u16_at(
        o,
        data,
        4 + 4 * ws.len() + bytes.len() + 2 * i,
    ) == hs[i] by {
        lemma_half(o, end, hs, seq![], i);
    }
}

/// How many bits of a mask are set from one bit up to another.
pub open spec fn rank(mask: u32, from: int, to: int) -> int
    decreases to - from,
{
    if from >= to {
        0
    } else {
        rank(mask, from + 1, to) + if has_bit(mask, from) {
            1int
        } else {
            0int
        }
    }
}

/// A bit that is set has its place among those that are.
pub proof fn lemma_rank(mask: u32, from: int, b: int, to: int)
    requires
        from <= b < to,
        has_bit(mask, b),
    ensures
        0 <= rank(mask, from, b) < rank(mask, from, to),
    decreases b - from,
{
    lemma_rank_positive(mask, b + 1, to);
    if from < b {
        lemma_rank(mask, from + 1, b, to);
    }
}

pub proof fn lemma_rank_positive(mask: u32, from: int, to: int)
    ensures
        0 <= rank(mask, from, to),
    decreases to - from,
{
    if from < to {
        lemma_rank_positive(mask, from + 1, to);
    }
}

/// A value list with a value for each bit can be read.
pub proof fn lemma_values_fit(mask: u32, read: u32, len: int, at: int, bit: int, end: int)
    requires
        at + 4 * rank(mask, bit, end) <= len,
    ensures
        values_fit(mask, read, len, at, bit, end),
    decreases end - bit,
{
    if bit < end {
        lemma_rank_positive(mask, bit + 1, end);
        if has_bit(mask, bit) {
            lemma_values_fit(mask, read, len, at + 4, bit + 1, end);
        } else {
            lemma_values_fit(mask, read, len, at, bit + 1, end);
        }
    }
}

} // verus!
