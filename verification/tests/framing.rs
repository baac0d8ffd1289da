use pslxserver::server::framing::{NextRequest, RequestBuffer};
use pslxserver::server::wire::ByteOrder;

fn next(b: &mut RequestBuffer, order: ByteOrder) -> Option<Vec<u8>> {
    match b.next_request(order) {
        NextRequest::Request(r) => Some(r.to_vec()),
        NextRequest::Incomplete => None,
        NextRequest::Malformed => panic!("malformed"),
    }
}

#[test]
fn whole_requests_come_out() {
    let mut b = RequestBuffer::new();
    assert!(b.push(&[43, 0, 1, 0, 14, 0, 2, 0, 1, 2, 3, 4]));
    assert_eq!(next(&mut b, ByteOrder::LittleEndian), Some(vec![43, 0, 1, 0]));
    assert_eq!(next(&mut b, ByteOrder::LittleEndian), Some(vec![14, 0, 2, 0, 1, 2, 3, 4]));
    assert_eq!(next(&mut b, ByteOrder::LittleEndian), None);
}

#[test]
fn big_endian_lengths() {
    let mut b = RequestBuffer::new();
    b.push(&[14, 0, 0, 2, 1, 2, 3, 4, 43, 0, 0, 1]);
    assert_eq!(next(&mut b, ByteOrder::BigEndian), Some(vec![14, 0, 0, 2, 1, 2, 3, 4]));
    assert_eq!(next(&mut b, ByteOrder::BigEndian), Some(vec![43, 0, 0, 1]));
}

#[test]
fn chopping_does_not_matter() {
    let stream: Vec<u8> = vec![
        14, 0, 2, 0, 1, 2, 3, 4, 9, 9, 0, 0, 3, 0, 0, 0, 5, 6, 7, 8, 43, 0, 1, 0, 16, 1,
    ];
    let mut whole = RequestBuffer::new();
    whole.push(&stream);
    let mut all = Vec::new();
    while let Some(r) = next(&mut whole, ByteOrder::LittleEndian) {
        all.push(r);
    }
    assert_eq!(all.len(), 3);
    for size in 1..stream.len() {
        let mut b = RequestBuffer::new();
        let mut got = Vec::new();
        for piece in stream.chunks(size) {
            b.push(piece);
            while let Some(r) = next(&mut b, ByteOrder::LittleEndian) {
                got.push(r);
            }
        }
        assert_eq!(got, all);
    }
}

#[test]
fn big_requests_lose_their_length() {
    let mut b = RequestBuffer::new();
    // three words: header, length, one word of data
    b.push(&[72, 2, 0, 0, 3, 0, 0, 0, 0xA, 0xB, 0xC]);
    assert_eq!(next(&mut b, ByteOrder::LittleEndian), None);
    b.push(&[0xD]);
    assert_eq!(next(&mut b, ByteOrder::LittleEndian), Some(vec![72, 2, 0, 0, 0xA, 0xB, 0xC, 0xD]));
    // no data at all
    b.push(&[133, 0, 0, 0, 2, 0, 0, 0]);
    assert_eq!(next(&mut b, ByteOrder::LittleEndian), Some(vec![133, 0, 0, 0]));
}

#[test]
fn too_short_for_its_own_length() {
    for n in [0u8, 1] {
        let mut b = RequestBuffer::new();
        b.push(&[72, 2, 0, 0, n, 0, 0, 0]);
        assert!(matches!(b.next_request(ByteOrder::LittleEndian), NextRequest::Malformed));
    }
    let mut b = RequestBuffer::new();
    b.push(&[72, 2, 0, 0, 0, 0, 0]);
    assert!(matches!(b.next_request(ByteOrder::LittleEndian), NextRequest::Incomplete));
}
