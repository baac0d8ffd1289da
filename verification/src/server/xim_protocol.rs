//! Messages of the X Input Method protocol and what they do.
//!
//! A message starts with its number and its length in words. It travels in
//! client messages of twenty bytes each; all but the last say that more follows.

use vstd::prelude::*;

use super::connection::{ClientConnection, EventData};
use super::events::{set16, set32, set8};
use super::properties::{filled, put_filled};
use super::protocol::event_type;
use super::resources::{with_property, Property, PropertyModel, WindowModel};
use super::tables;
use super::wire::{
    byte, bytes16, bytes32, copy_range, get_u16, get_u32, put_at16, put_at32, put_bytes, put_u16,
    put_u32, put_u8, put_zeros, splice, u16_at, u32_at, zeros, ByteOrder,
};
use super::xim::{XimConnection, XimConnectionModel, XimInputContext, XimModel, XimServer};
use super::{ServerModel, XServer};
use crate::display::Xid;

verus! {

pub const XIM_CONNECT: u8 = 1;

pub const XIM_CONNECT_REPLY: u8 = 2;

pub const XIM_DISCONNECT: u8 = 3;

pub const XIM_DISCONNECT_REPLY: u8 = 4;

pub const XIM_OPEN: u8 = 30;

pub const XIM_OPEN_REPLY: u8 = 31;

pub const XIM_CLOSE: u8 = 32;

pub const XIM_CLOSE_REPLY: u8 = 33;

pub const XIM_ENCODING_NEGOTIATION: u8 = 38;

pub const XIM_ENCODING_NEGOTIATION_REPLY: u8 = 39;

pub const XIM_QUERY_EXTENSION: u8 = 40;

pub const XIM_QUERY_EXTENSION_REPLY: u8 = 41;

pub const XIM_SET_IM_VALUES: u8 = 42;

pub const XIM_SET_IM_VALUES_REPLY: u8 = 43;

pub const XIM_GET_IM_VALUES: u8 = 44;

pub const XIM_GET_IM_VALUES_REPLY: u8 = 45;

pub const XIM_CREATE_IC: u8 = 50;

pub const XIM_CREATE_IC_REPLY: u8 = 51;

pub const XIM_DESTROY_IC: u8 = 52;

pub const XIM_DESTROY_IC_REPLY: u8 = 53;

pub const XIM_SET_IC_VALUES: u8 = 54;

pub const XIM_SET_IC_VALUES_REPLY: u8 = 55;

pub const XIM_GET_IC_VALUES: u8 = 56;

pub const XIM_GET_IC_VALUES_REPLY: u8 = 57;

pub const XIM_FORWARD_EVENT: u8 = 60;

pub const XIM_SYNC_REPLY: u8 = 62;

pub const XIM_RESET_IC: u8 = 64;

pub const XIM_RESET_IC_REPLY: u8 = 65;

pub const XIM_SET_EVENT_MASK: u8 = 70;

/// The client draws text being composed where it is typed.
pub const XIM_PREEDIT_CALLBACKS: u32 = 0x0002;

/// The client leaves drawing to the server.
pub const XIM_PREEDIT_NOTHING: u32 = 0x0008;

pub const XIM_STATUS_NOTHING: u32 = 0x0400;

pub const IC_ATTR_INPUT_STYLE: u16 = 0;

pub const IC_ATTR_CLIENT_WINDOW: u16 = 1;

pub const IC_ATTR_FOCUS_WINDOW: u16 = 2;

pub const IC_ATTR_SPOT_LOCATION: u16 = 3;

pub const IM_ATTR_QUERY_INPUT_STYLE: u16 = 0;

/// Messages are little-endian whatever the client's byte order.
pub open spec fn le16(v: u16) -> Seq<u8> {
    bytes16(ByteOrder::LittleEndian, v)
}

/// Messages are little-endian whatever the client's byte order.
pub open spec fn le32(v: u32) -> Seq<u8> {
    bytes32(ByteOrder::LittleEndian, v)
}

pub fn put_le16(buf: &mut Vec<u8>, v: u16)
    ensures
        final(buf)@ == old(buf)@ + le16(v),
{
    put_u16(ByteOrder::LittleEndian, buf, v);
}

pub fn put_le32(buf: &mut Vec<u8>, v: u32)
    ensures
        final(buf)@ == old(buf)@ + le32(v),
{
    put_u32(ByteOrder::LittleEndian, buf, v);
}

/// A message: its number, the length of its body in words, and its body filled
/// up to whole words.
pub open spec fn xim_frame(opcode: u8, body: Seq<u8>) -> Seq<u8> {
    byte(opcode) + byte(0) + le16((filled(body).len() / 4) as u16) + filled(body)
}

pub fn frame_message(opcode: u8, body: &Vec<u8>) -> (r: Vec<u8>)
    ensures
        r@ == xim_frame(opcode, body@),
{
    let mut tail: Vec<u8> = Vec::new();
    put_filled(&mut tail, body.as_slice());
    assert(tail@ =~= filled(body@));
    let mut r: Vec<u8> = Vec::new();
    put_u8(&mut r, opcode);
    assert(r@ =~= byte(opcode));
    put_u8(&mut r, 0);
    put_le16(&mut r, (tail.len() / 4) as u16);
    put_bytes(&mut r, tail.as_slice());
    r
}

/// A client message of bytes. It carries no sequence number.
pub open spec fn byte_message(o: ByteOrder, kind: u32, window: u32, data: Seq<u8>) -> Seq<u8> {
    let e = set8(set8(zeros(32), 0, event_type::CLIENT_MESSAGE), 1, 8);
    splice(set32(o, set32(o, e, 4, window), 8, kind), 12, data)
}

fn build_client_message_8(kind: u32, window: Xid, data: &[u8], order: ByteOrder) -> (r: [u8; 32])
    requires
        data@.len() <= 20,
    ensures
        r@ == byte_message(order, kind, window, data@),
{
    let mut e: [u8; 32] = [0u8; 32];
    assert(e@ =~= zeros(32));
    e[0] = event_type::CLIENT_MESSAGE;
    e[1] = 8;
    put_at32(order, &mut e, 4, window);
    put_at32(order, &mut e, 8, kind);
    let ghost head = e@;
    assert(e@ =~= splice(head, 12, data@.take(0)));
    for i in 0..data.len()
        invariant
            data@.len() <= 20,
            head.len() == 32,
            e@ == splice(head, 12, data@.take(i as int)),
    {
        e[12 + i] = data[i];
        assert(e@ =~= splice(head, 12, data@.take(i + 1)));
    }
    assert(data@.take(data@.len() as int) =~= data@);
    e
}

/// A client message of five words. It carries no sequence number.
pub open spec fn word_message(o: ByteOrder, kind: u32, window: u32, first: u32) -> Seq<u8> {
    let e = set8(set8(zeros(32), 0, event_type::CLIENT_MESSAGE), 1, 32);
    set32(o, set32(o, set32(o, e, 4, window), 8, kind), 12, first)
}

fn build_client_message_32(kind: u32, window: Xid, first: u32, order: ByteOrder) -> (r: [u8; 32])
    ensures
        r@ == word_message(order, kind, window, first),
{
    let mut e: [u8; 32] = [0u8; 32];
    assert(e@ =~= zeros(32));
    e[0] = event_type::CLIENT_MESSAGE;
    e[1] = 32;
    put_at32(order, &mut e, 4, window);
    put_at32(order, &mut e, 8, kind);
    put_at32(order, &mut e, 12, first);
    e
}

/// How much of a message one client message carries.
pub const CHUNK: usize = 20;

/// A message cut into chunks, from a place on.
pub open spec fn chunks_from(data: Seq<u8>, at: int) -> Seq<Seq<u8>>
    decreases data.len() - at,
{
    if at < 0 || data.len() - at <= CHUNK {
        seq![data.skip(at)]
    } else {
        seq![data.subrange(at, at + CHUNK)] + chunks_from(data, at + CHUNK)
    }
}

/// Chunks put together again.
pub open spec fn together(chunks: Seq<Seq<u8>>) -> Seq<u8>
    decreases chunks.len(),
{
    if chunks.len() == 0 {
        Seq::empty()
    } else {
        chunks[0] + together(chunks.drop_first())
    }
}

/// Chunks put together again give the message, and each fits in a client
/// message.
pub proof fn law_chunks_make_the_message(data: Seq<u8>, at: int)
    requires
        0 <= at <= data.len(),
    ensures
        together(chunks_from(data, at)) == data.skip(at),
        forall|i: int| 0 <= i < chunks_from(data, at).len() ==> (#[trigger] chunks_from(
            data,
            at,
        )[i]).len() <= CHUNK,
    decreases data.len() - at,
{
    let all = chunks_from(data, at);
    if data.len() - at <= CHUNK {
        assert(all.drop_first() =~= Seq::empty());
        assert(together(all.drop_first()) =~= Seq::empty());
        assert(together(all) =~= data.skip(at));
    } else {
        law_chunks_make_the_message(data, at + CHUNK);
        assert(all.drop_first() =~= chunks_from(data, at + CHUNK));
        assert(together(all) =~= data.skip(at));
        assert forall|i: int| 0 <= i < all.len() implies (#[trigger] all[i]).len() <= CHUNK by {
            if i > 0 {
                assert(all[i] == chunks_from(data, at + CHUNK)[i - 1]);
            }
        }
    }
}

/// The state after the chunks of a message from a place on were queued.
pub open spec fn chunks_sent(s: ServerModel, id: u32, c: XimConnectionModel, data: Seq<u8>, at: int) -> ServerModel
    decreases data.len() - at,
{
    if at < 0 || data.len() - at <= CHUNK {
        s.sending(
            id,
            byte_message(
                c.byte_order,
                s.xim.atoms.xim_protocol,
                c.client_comm_window,
                data.skip(at),
            ),
        )
    } else {
        let more = byte_message(
            c.byte_order,
            s.xim.atoms.xim_moredata,
            c.client_comm_window,
            data.subrange(at, at + CHUNK),
        );
        chunks_sent(s.sending(id, more), id, c, data, at + CHUNK)
    }
}

/// The state after a message was sent to an input method's client over a
/// connection.
pub open spec fn xim_sent(s: ServerModel, id: u32, im: u16, data: Seq<u8>) -> ServerModel {
    if s.xim.connections.dom().contains(im) {
        chunks_sent(s, id, s.xim.connections[im], data, 0)
    } else {
        s
    }
}

/// Sends a message to an input method's client.
pub fn send_xim_message(server: &mut XServer, id: u32, im: u16, data: &Vec<u8>)
    ensures
        final(server)@ == xim_sent(old(server)@, id, im, data@),
{
    if let Some(c) = tables::get_xim_connection(&server.xim.connections, im) {
        let len: usize = data.len();
        let mut at: usize = 0;
        let protocol: u32 = server.xim.atoms.xim_protocol;
        let moredata: u32 = server.xim.atoms.xim_moredata;
        let ghost goal = chunks_sent(server@, id, c@, data@, 0);
        let ghost atoms = server@.xim.atoms;
        while len - at > CHUNK
            invariant
                len == data@.len(),
                at <= len,
                atoms == server@.xim.atoms,
                moredata == atoms.xim_moredata,
                goal == chunks_sent(server@, id, c@, data@, at as int),
            decreases len - at,
        {
            let chunk = copy_range(data.as_slice(), at, at + CHUNK);
            let e = build_client_message_8(
                moredata,
                c.client_comm_window,
                chunk.as_slice(),
                c.byte_order,
            );
            server.send(id, EventData::Fixed(e));
            at = at + CHUNK;
        }
        let chunk = copy_range(data.as_slice(), at, len);
        assert(chunk@ =~= data@.skip(at as int));
        let e = build_client_message_8(
            protocol,
            c.client_comm_window,
            chunk.as_slice(),
            c.byte_order,
        );
        server.send(id, EventData::Fixed(e));
    }
}

fn answer(server: &mut XServer, id: u32, im: u16, opcode: u8, body: &Vec<u8>)
    ensures
        final(server)@ == xim_sent(old(server)@, id, im, xim_frame(opcode, body@)),
{
    let message = frame_message(opcode, body);
    send_xim_message(server, id, im, &message);
}

/// The state with an input method connection put in place.
pub open spec fn with_xim(s: ServerModel, im: u16, c: XimConnectionModel) -> ServerModel {
    ServerModel {
        xim: XimModel { connections: s.xim.connections.insert(im, c), ..s.xim },
        ..s
    }
}

/// The two numbers that most bodies start with.
pub open spec fn two(a: u16, b: u16) -> Seq<u8> {
    le16(a) + le16(b)
}

fn put_two(a: u16, b: u16) -> (r: Vec<u8>)
    ensures
        r@ == two(a, b),
{
    let mut r: Vec<u8> = Vec::new();
    put_le16(&mut r, a);
    put_le16(&mut r, b);
    assert(r@ =~= two(a, b));
    r
}

/// The input context that a message names.
pub open spec fn named_context(data: Seq<u8>) -> u16 {
    if data.len() > 7 {
        u16_at(ByteOrder::LittleEndian, data, 6)
    } else {
        0
    }
}

fn read_context(data: &[u8]) -> (r: u16)
    ensures
        r == named_context(data@),
{
    if data.len() > 7 {
        get_u16(ByteOrder::LittleEndian, data, 6)
    } else {
        0
    }
}

/// XIM_CONNECT: the client says its byte order.
pub open spec fn xim_connected(s: ServerModel, id: u32, im: u16, data: Seq<u8>) -> ServerModel {
    let ordered = if data.len() > 4 && s.xim.connections.dom().contains(im) {
        with_xim(
            s,
            im,
            XimConnectionModel {
                byte_order: if data[4] == 0x42 {
                    ByteOrder::BigEndian
                } else {
                    ByteOrder::LittleEndian
                },
                ..s.xim.connections[im]
            },
        )
    } else {
        s
    };
    xim_sent(ordered, id, im, xim_frame(XIM_CONNECT_REPLY, two(1, 0)))
}

fn handle_xim_connect(server: &mut XServer, id: u32, im: u16, data: &[u8])
    ensures
        final(server)@ == xim_connected(old(server)@, id, im, data@),
{
    if data.len() > 4 {
        let found = tables::get_xim_connection(&server.xim.connections, im);
        if let Some(mut c) = found {
            c.byte_order =
            if data[4] == 0x42 {
                ByteOrder::BigEndian
            } else {
                ByteOrder::LittleEndian
            };
            tables::put_xim_connection(&mut server.xim.connections, im, c);
        }
    }
    answer(server, id, im, XIM_CONNECT_REPLY, &put_two(1, 0));
}

/// XIM_DISCONNECT: answered, then forgotten.
pub open spec fn xim_disconnected(s: ServerModel, id: u32, im: u16) -> ServerModel {
    let told = xim_sent(s, id, im, xim_frame(XIM_DISCONNECT_REPLY, Seq::empty()));
    if told.xim.connections.dom().contains(im) {
        ServerModel {
            xim: XimModel {
                connections: told.xim.connections.remove(im),
                comm_to_im: told.xim.comm_to_im.remove(
                    told.xim.connections[im].client_comm_window,
                ),
                ..told.xim
            },
            ..told
        }
    } else {
        told
    }
}

fn handle_xim_disconnect(server: &mut XServer, id: u32, im: u16)
    ensures
        final(server)@ == xim_disconnected(old(server)@, id, im),
{
    let body: Vec<u8> = Vec::new();
    assert(body@ =~= Seq::empty());
    answer(server, id, im, XIM_DISCONNECT_REPLY, &body);
    if let Some(c) = tables::get_xim_connection(&server.xim.connections, im) {
        tables::drop_xim_connection(&mut server.xim.connections, im);
        tables::drop_method(&mut server.xim.comm_to_im, c.client_comm_window);
    }
}

/// An attribute the server offers: number, type and name, in whole words.
pub open spec fn attribute(id: u16, kind: u16, name: Seq<char>) -> Seq<u8> {
    let b = vstd::utf8::encode_utf8(name);
    filled(le16(id) + le16(kind) + le16(b.len() as u16) + b)
}

fn put_attribute(buf: &mut Vec<u8>, id: u16, kind: u16, name: &str)
    ensures
        final(buf)@ == old(buf)@ + attribute(id, kind, name@),
{
    let bytes: &[u8] = name.as_bytes();
    let mut a: Vec<u8> = Vec::new();
    put_le16(&mut a, id);
    assert(a@ =~= le16(id));
    put_le16(&mut a, kind);
    put_le16(&mut a, bytes.len() as u16);
    put_bytes(&mut a, bytes);
    put_filled(buf, a.as_slice());
}

/// The attributes of input methods.
pub open spec fn method_attributes() -> Seq<u8> {
    attribute(IM_ATTR_QUERY_INPUT_STYLE, 0x000D, "queryInputStyle"@)
}

/// The attributes of input contexts.
pub open spec fn context_attributes() -> Seq<u8> {
    attribute(IC_ATTR_INPUT_STYLE, 0x000A, "inputStyle"@) + attribute(
        IC_ATTR_CLIENT_WINDOW,
        3,
        "clientWindow"@,
    ) + attribute(IC_ATTR_FOCUS_WINDOW, 3, "focusWindow"@) + attribute(
        IC_ATTR_SPOT_LOCATION,
        6,
        "spotLocation"@,
    )
}

/// The body of the reply to XIM_OPEN.
pub open spec fn open_body(im: u16) -> Seq<u8> {
    le16(im) + le16(method_attributes().len() as u16) + method_attributes() + le16(
        context_attributes().len() as u16,
    ) + zeros(2) + context_attributes()
}

fn handle_xim_open(server: &mut XServer, id: u32, im: u16)
    ensures
        final(server)@ == xim_sent(old(server)@, id, im, xim_frame(XIM_OPEN_REPLY, open_body(im))),
{
    let mut methods: Vec<u8> = Vec::new();
    put_attribute(&mut methods, IM_ATTR_QUERY_INPUT_STYLE, 0x000D, "queryInputStyle");
    assert(methods@ =~= method_attributes());
    let mut contexts: Vec<u8> = Vec::new();
    put_attribute(&mut contexts, IC_ATTR_INPUT_STYLE, 0x000A, "inputStyle");
    assert(contexts@ =~= attribute(IC_ATTR_INPUT_STYLE, 0x000A, "inputStyle"@));
    put_attribute(&mut contexts, IC_ATTR_CLIENT_WINDOW, 3, "clientWindow");
    put_attribute(&mut contexts, IC_ATTR_FOCUS_WINDOW, 3, "focusWindow");
    put_attribute(&mut contexts, IC_ATTR_SPOT_LOCATION, 6, "spotLocation");
    let mut body: Vec<u8> = Vec::new();
    put_le16(&mut body, im);
    assert(body@ =~= le16(im));
    put_le16(&mut body, methods.len() as u16);
    put_bytes(&mut body, methods.as_slice());
    put_le16(&mut body, contexts.len() as u16);
    put_zeros(&mut body, 2);
    put_bytes(&mut body, contexts.as_slice());
    answer(server, id, im, XIM_OPEN_REPLY, &body);
}

/// The body of the reply to XIM_GET_IM_VALUES: the two styles that are offered.
pub open spec fn styles_body(im: u16) -> Seq<u8> {
    le16(im) + le16(16) + le16(IM_ATTR_QUERY_INPUT_STYLE) + le16(12) + le16(2) + zeros(2) + le32(
        0x0402,
    ) + le32(0x0408)
}

fn handle_get_im_values(server: &mut XServer, id: u32, im: u16)
    ensures
        final(server)@ == xim_sent(
            old(server)@,
            id,
            im,
            xim_frame(XIM_GET_IM_VALUES_REPLY, styles_body(im)),
        ),
{
    let mut body: Vec<u8> = Vec::new();
    put_le16(&mut body, im);
    assert(body@ =~= le16(im));
    put_le16(&mut body, 16);
    put_le16(&mut body, IM_ATTR_QUERY_INPUT_STYLE);
    put_le16(&mut body, 12);
    put_le16(&mut body, 2);
    put_zeros(&mut body, 2);
    put_le32(&mut body, 0x0402);
    put_le32(&mut body, 0x0408);
    answer(server, id, im, XIM_GET_IM_VALUES_REPLY, &body);
}

/// A context with one attribute set, where its value is long enough.
pub open spec fn with_attribute(c: XimInputContext, id: u16, value: Seq<u8>, styled: bool) -> XimInputContext {
    if value.len() < 4 {
        c
    } else {
        let v = u32_at(ByteOrder::LittleEndian, value, 0);
        if id == IC_ATTR_INPUT_STYLE && styled {
            XimInputContext { input_style: v, ..c }
        } else if id == IC_ATTR_CLIENT_WINDOW {
            XimInputContext { client_window: v, ..c }
        } else if id == IC_ATTR_FOCUS_WINDOW {
            XimInputContext { focus_window: v, ..c }
        } else {
            c
        }
    }
}

/// A context after a list of attributes, from a place on. Each is a number, a
/// length, and a value in whole words; the style only counts where asked.
pub open spec fn with_attributes(c: XimInputContext, list: Seq<u8>, at: int, styled: bool) -> XimInputContext
    decreases
            if at <= list.len() {
                list.len() - at
            } else {
                0
            },
{
    if at < 0 || at + 4 > list.len() {
        c
    } else {
        let id = u16_at(ByteOrder::LittleEndian, list, at);
        let n = u16_at(ByteOrder::LittleEndian, list, at + 2);
        let end = if at + 4 + n < list.len() {
            at + 4 + n
        } else {
            list.len() as int
        };
        with_attributes(
            with_attribute(c, id, list.subrange(at + 4, end), styled),
            list,
            at + 4 + (n + 3) / 4 * 4,
            styled,
        )
    }
}

fn read_attributes(context: XimInputContext, list: &Vec<u8>, styled: bool) -> (r: XimInputContext)
    ensures
        r == with_attributes(context, list@, 0, styled),
{
    let len: usize = list.len();
    let mut c = context;
    let mut at: usize = 0;
    let ghost goal = with_attributes(context, list@, 0, styled);
    while len >= 4 && at <= len - 4
        invariant
            len == list@.len(),
            goal == with_attributes(context, list@, 0, styled),
            goal == with_attributes(c, list@, at as int, styled),
        decreases (if at <= len {
            len - at
        } else {
            0
        }),
    {
        let id: u16 = get_u16(ByteOrder::LittleEndian, list.as_slice(), at);
        let n: usize = get_u16(ByteOrder::LittleEndian, list.as_slice(), at + 2) as usize;
        let from: usize = at + 4;
        let end: usize = if n < len - from {
            from + n
        } else {
            len
        };
        let ghost value = list@.subrange(from as int, end as int);
        if end - from >= 4 {
            let v: u32 = get_u32(ByteOrder::LittleEndian, list.as_slice(), from);
            assert(v == u32_at(ByteOrder::LittleEndian, value, 0));
            if id == IC_ATTR_INPUT_STYLE && styled {
                c.input_style = v;
            } else if id == IC_ATTR_CLIENT_WINDOW {
                c.client_window = v;
            } else if id == IC_ATTR_FOCUS_WINDOW {
                c.focus_window = v;
            }
        }
        let step: usize = (n + 3) / 4 * 4;
        assert(goal == with_attributes(c, list@, from + step, styled));
        if step > len - from {
            return c;
        }
        at = from + step;
    }
    c
}

/// The part of a message that holds attributes.
pub open spec fn attribute_list(data: Seq<u8>, from: int, n: u16) -> Seq<u8> {
    data.subrange(
        from,
        if from + n < data.len() {
            from + n
        } else {
            data.len() as int
        },
    )
}

fn take_attributes(data: &[u8], from: usize, n: u16) -> (r: Vec<u8>)
    requires
        from <= data@.len(),
    ensures
        r@ == attribute_list(data@, from as int, n),
{
    let len: usize = data.len();
    let end: usize = if (n as usize) < len - from {
        from + n as usize
    } else {
        len
    };
    copy_range(data, from, end)
}

/// The context that XIM_CREATE_IC makes.
pub open spec fn new_context(s: ServerModel, im: u16, data: Seq<u8>) -> XimInputContext {
    let fresh = XimInputContext {
        ic_id: s.xim.next_ic_id,
        im_id: im,
        client_window: 0,
        focus_window: 0,
        input_style: 0x0408,
    };
    let c = if data.len() > 8 {
        with_attributes(
            fresh,
            attribute_list(data, 8, u16_at(ByteOrder::LittleEndian, data, 6)),
            0,
            true,
        )
    } else {
        fresh
    };
    if c.focus_window == 0 {
        XimInputContext { focus_window: c.client_window, ..c }
    } else {
        c
    }
}

/// XIM_CREATE_IC: the context gets a number, and the client is told that no
/// events need to be forwarded.
pub open spec fn context_created(s: ServerModel, id: u32, im: u16, data: Seq<u8>) -> ServerModel {
    let ic = s.xim.next_ic_id;
    let numbered = ServerModel {
        xim: XimModel { next_ic_id: ic.wrapping_add(1), ..s.xim },
        ..s
    };
    let kept = if s.xim.connections.dom().contains(im) {
        let c = s.xim.connections[im];
        with_xim(
            numbered,
            im,
            XimConnectionModel { contexts: c.contexts.insert(ic, new_context(s, im, data)), ..c },
        )
    } else {
        numbered
    };
    let told = xim_sent(kept, id, im, xim_frame(XIM_CREATE_IC_REPLY, two(im, ic)));
    xim_sent(told, id, im, xim_frame(XIM_SET_EVENT_MASK, two(im, ic) + le32(0) + le32(0)))
}

fn handle_create_ic(server: &mut XServer, id: u32, im: u16, data: &[u8])
    ensures
        final(server)@ == context_created(old(server)@, id, im, data@),
{
    let ic: u16 = server.xim.next_ic_id;
    server.xim.next_ic_id = ic.wrapping_add(1);
    let mut context = XimInputContext {
        ic_id: ic,
        im_id: im,
        client_window: 0,
        focus_window: 0,
        input_style: 0x0408,
    };
    if data.len() > 8 {
        let list = take_attributes(data, 8, get_u16(ByteOrder::LittleEndian, data, 6));
        context = read_attributes(context, &list, true);
    }
    if context.focus_window == 0 {
        context.focus_window = context.client_window;
    }
    assert(context == new_context(old(server)@, im, data@));
    let found = tables::get_xim_connection(&server.xim.connections, im);
    if let Some(mut c) = found {
        tables::put_context(&mut c.contexts, ic, context);
        tables::put_xim_connection(&mut server.xim.connections, im, c);
    }
    answer(server, id, im, XIM_CREATE_IC_REPLY, &put_two(im, ic));
    let mut body = put_two(im, ic);
    put_le32(&mut body, 0);
    put_le32(&mut body, 0);
    answer(server, id, im, XIM_SET_EVENT_MASK, &body);
}

/// XIM_DESTROY_IC.
pub open spec fn context_destroyed(s: ServerModel, id: u32, im: u16, data: Seq<u8>) -> ServerModel {
    let ic = named_context(data);
    let gone = if s.xim.connections.dom().contains(im) {
        let c = s.xim.connections[im];
        with_xim(s, im, XimConnectionModel { contexts: c.contexts.remove(ic), ..c })
    } else {
        s
    };
    xim_sent(gone, id, im, xim_frame(XIM_DESTROY_IC_REPLY, two(im, ic)))
}

fn handle_destroy_ic(server: &mut XServer, id: u32, im: u16, data: &[u8])
    ensures
        final(server)@ == context_destroyed(old(server)@, id, im, data@),
{
    let ic: u16 = read_context(data);
    let found = tables::get_xim_connection(&server.xim.connections, im);
    if let Some(mut c) = found {
        tables::drop_context(&mut c.contexts, ic);
        tables::put_xim_connection(&mut server.xim.connections, im, c);
    }
    answer(server, id, im, XIM_DESTROY_IC_REPLY, &put_two(im, ic));
}

/// XIM_SET_IC_VALUES: the windows of a context may change, its style does not.
pub open spec fn context_changed(s: ServerModel, id: u32, im: u16, data: Seq<u8>) -> ServerModel {
    let ic = named_context(data);
    let changed = if data.len() > 12 && s.xim.connections.dom().contains(im)
        && s.xim.connections[im].contexts.dom().contains(ic) {
        let c = s.xim.connections[im];
        let list = attribute_list(data, 12, u16_at(ByteOrder::LittleEndian, data, 8));
        with_xim(
            s,
            im,
            XimConnectionModel {
                contexts: c.contexts.insert(ic, with_attributes(c.contexts[ic], list, 0, false)),
                ..c
            },
        )
    } else {
        s
    };
    xim_sent(changed, id, im, xim_frame(XIM_SET_IC_VALUES_REPLY, two(im, ic)))
}

fn handle_set_ic_values(server: &mut XServer, id: u32, im: u16, data: &[u8])
    ensures
        final(server)@ == context_changed(old(server)@, id, im, data@),
{
    let ic: u16 = read_context(data);
    if data.len() > 12 {
        let found = tables::get_xim_connection(&server.xim.connections, im);
        if let Some(mut c) = found {
            if let Some(context) = tables::get_context(&c.contexts, ic) {
                let list = take_attributes(data, 12, get_u16(ByteOrder::LittleEndian, data, 8));
                let changed = read_attributes(context, &list, false);
                tables::put_context(&mut c.contexts, ic, changed);
                tables::put_xim_connection(&mut server.xim.connections, im, c);
            }
        }
    }
    answer(server, id, im, XIM_SET_IC_VALUES_REPLY, &put_two(im, ic));
}

/// XIM_FORWARD_EVENT: the event goes back to the client, and where it waits for
/// that, it is told so.
pub open spec fn event_forwarded(s: ServerModel, id: u32, im: u16, data: Seq<u8>) -> ServerModel {
    if data.len() < 44 {
        s
    } else {
        let sent = s.sending(id, data.subrange(12, 44));
        if u16_at(ByteOrder::LittleEndian, data, 8) & 1 != 0 {
            xim_sent(
                sent,
                id,
                im,
                xim_frame(XIM_SYNC_REPLY, two(im, u16_at(ByteOrder::LittleEndian, data, 6))),
            )
        } else {
            sent
        }
    }
}

fn handle_forward_event(server: &mut XServer, id: u32, im: u16, data: &[u8])
    ensures
        final(server)@ == event_forwarded(old(server)@, id, im, data@),
{
    if data.len() < 44 {
        return;
    }
    let ic: u16 = get_u16(ByteOrder::LittleEndian, data, 6);
    let flag: u16 = get_u16(ByteOrder::LittleEndian, data, 8);
    let mut e: [u8; 32] = [0u8; 32];
    for i in 0..32usize
        invariant
            data@.len() >= 44,
            forall|j: int| 0 <= j < i ==> e@[j] == data@[12 + j],
    {
        e[i] = data[12 + i];
    }
    assert(e@ =~= data@.subrange(12, 44));
    server.send(id, EventData::Fixed(e));
    if flag & 1 != 0 {
        answer(server, id, im, XIM_SYNC_REPLY, &put_two(im, ic));
    }
}

/// The state after a message from an input method's client.
pub open spec fn xim_handled(s: ServerModel, id: u32, im: u16, data: Seq<u8>) -> ServerModel {
    let ic = named_context(data);
    if data.len() < 4 {
        s
    } else if data[0] == XIM_CONNECT {
        xim_connected(s, id, im, data)
    } else if data[0] == XIM_DISCONNECT {
        xim_disconnected(s, id, im)
    } else if data[0] == XIM_OPEN {
        xim_sent(s, id, im, xim_frame(XIM_OPEN_REPLY, open_body(im)))
    } else if data[0] == XIM_CLOSE {
        xim_sent(s, id, im, xim_frame(XIM_CLOSE_REPLY, two(im, 0)))
    } else if data[0] == XIM_QUERY_EXTENSION {
        xim_sent(s, id, im, xim_frame(XIM_QUERY_EXTENSION_REPLY, two(im, 0)))
    } else if data[0] == XIM_ENCODING_NEGOTIATION {
        xim_sent(s, id, im, xim_frame(XIM_ENCODING_NEGOTIATION_REPLY, two(im, 0) + two(0, 0)))
    } else if data[0] == XIM_SET_IM_VALUES {
        xim_sent(s, id, im, xim_frame(XIM_SET_IM_VALUES_REPLY, two(im, 0)))
    } else if data[0] == XIM_GET_IM_VALUES {
        xim_sent(s, id, im, xim_frame(XIM_GET_IM_VALUES_REPLY, styles_body(im)))
    } else if data[0] == XIM_CREATE_IC {
        context_created(s, id, im, data)
    } else if data[0] == XIM_DESTROY_IC {
        context_destroyed(s, id, im, data)
    } else if data[0] == XIM_SET_IC_VALUES {
        context_changed(s, id, im, data)
    } else if data[0] == XIM_GET_IC_VALUES {
        xim_sent(s, id, im, xim_frame(XIM_GET_IC_VALUES_REPLY, two(im, ic) + two(0, 0)))
    } else if data[0] == XIM_FORWARD_EVENT {
        event_forwarded(s, id, im, data)
    } else if data[0] == XIM_RESET_IC {
        xim_sent(s, id, im, xim_frame(XIM_RESET_IC_REPLY, two(im, ic) + two(0, 0)))
    } else {
        s
    }
}

fn answer_four(server: &mut XServer, id: u32, im: u16, opcode: u8, second: u16)
    ensures
        final(server)@ == xim_sent(
            old(server)@,
            id,
            im,
            xim_frame(opcode, two(im, second) + two(0, 0)),
        ),
{
    let mut body = put_two(im, second);
    let tail = put_two(0, 0);
    put_bytes(&mut body, tail.as_slice());
    answer(server, id, im, opcode, &body);
}

fn dispatch_xim_message(server: &mut XServer, id: u32, im: u16, data: &[u8])
    ensures
        final(server)@ == xim_handled(old(server)@, id, im, data@),
{
    if data.len() < 4 {
        return;
    }
    match data[0] {
        XIM_CONNECT => handle_xim_connect(server, id, im, data),
        XIM_DISCONNECT => handle_xim_disconnect(server, id, im),
        XIM_OPEN => handle_xim_open(server, id, im),
        XIM_CLOSE => answer(server, id, im, XIM_CLOSE_REPLY, &put_two(im, 0)),
        XIM_QUERY_EXTENSION => answer(server, id, im, XIM_QUERY_EXTENSION_REPLY, &put_two(im, 0)),
        XIM_ENCODING_NEGOTIATION => answer_four(
            server,
            id,
            im,
            XIM_ENCODING_NEGOTIATION_REPLY,
            0,
        ),
        XIM_SET_IM_VALUES => answer(server, id, im, XIM_SET_IM_VALUES_REPLY, &put_two(im, 0)),
        XIM_GET_IM_VALUES => handle_get_im_values(server, id, im),
        XIM_CREATE_IC => handle_create_ic(server, id, im, data),
        XIM_DESTROY_IC => handle_destroy_ic(server, id, im, data),
        XIM_SET_IC_VALUES => handle_set_ic_values(server, id, im, data),
        XIM_GET_IC_VALUES => answer_four(
            server,
            id,
            im,
            XIM_GET_IC_VALUES_REPLY,
            read_context(data),
        ),
        XIM_FORWARD_EVENT => handle_forward_event(server, id, im, data),
        XIM_RESET_IC => answer_four(server, id, im, XIM_RESET_IC_REPLY, read_context(data)),
        _ => {},
    }
}

/// The state after a client opened a transport to the input method server.
pub open spec fn transport_opened(s: ServerModel, window: u32, conn: ClientConnection) -> ServerModel {
    let im = s.xim.next_im_id;
    let kept = ServerModel {
        xim: XimModel {
            next_im_id: im.wrapping_add(1),
            connections: s.xim.connections.insert(
                im,
                XimConnectionModel {
                    im_id: im,
                    client_comm_window: window,
                    conn_id: conn.id,
                    byte_order: conn.byte_order,
                    contexts: Map::empty(),
                },
            ),
            comm_to_im: s.xim.comm_to_im.insert(window, im),
            ..s.xim
        },
        ..s
    };
    kept.sending(
        conn.id,
        word_message(
            conn.byte_order,
            s.xim.atoms.xim_xconnect,
            window,
            s.xim.server_comm_window,
        ),
    )
}

/// Whether a state follows when a message comes in on a connection: one of the
/// input methods opened on it, if there is one, gets it.
pub open spec fn message_may_lead_to(
    s: ServerModel,
    conn: ClientConnection,
    data: Seq<u8>,
    conn_id: u32,
    after: ServerModel,
) -> bool {
    ||| exists|key: u16| #[trigger]
        s.xim.connections.dom().contains(key) && s.xim.connections[key].conn_id == conn_id && after
            == xim_handled(s, conn.id, s.xim.connections[key].im_id, data)
    ||| after == s && forall|key: u16| #[trigger]
        s.xim.connections.dom().contains(key) ==> s.xim.connections[key].conn_id != conn_id
}

/// What a text sets on a window of the client that asked for a selection.
pub open spec fn text_property_set(s: ServerModel, window: u32, property: u32, kind: u32, data: Seq<u8>) -> ServerModel {
    match s.window(window) {
        Some(w) => s.with_window(
            window,
            WindowModel {
                properties: with_property(
                    w.properties,
                    PropertyModel { name: property, type_atom: kind, format: 8, data },
                ),
                ..w
            },
        ),
        None => s,
    }
}

fn set_text_property(server: &mut XServer, window: Xid, property: u32, kind: u32, data: &[u8])
    ensures
        final(server)@ == text_property_set(old(server)@, window, property, kind, data@),
{
    let found: Option<super::resources::WindowState> = server.window(window);
    if let Some(mut w) = found {
        let copy = copy_range(data, 0, data.len());
        assert(copy@ =~= data@);
        w.set_property(Property { name: property, type_atom: kind, format: 8, data: copy });
        server.set_window(window, w);
    }
}

/// The notification that a selection was converted, with the request's number.
pub open spec fn selection_notify(
    conn: ClientConnection,
    time: u32,
    requestor: u32,
    selection: u32,
    target: u32,
    property: u32,
) -> Seq<u8> {
    let o = conn.byte_order;
    let e = set8(zeros(32), 0, event_type::SELECTION_NOTIFY);
    let e = set16(o, e, 2, conn.request_sequence());
    let e = set32(o, e, 4, time);
    let e = set32(o, e, 8, requestor);
    let e = set32(o, e, 12, selection);
    let e = set32(o, e, 16, target);
    set32(o, e, 20, property)
}

fn build_selection_notify(
    conn: &ClientConnection,
    time: u32,
    requestor: Xid,
    selection: u32,
    target: u32,
    property: u32,
) -> (r: [u8; 32])
    ensures
        r@ == selection_notify(*conn, time, requestor, selection, target, property),
{
    let o = conn.byte_order;
    let mut e: [u8; 32] = [0u8; 32];
    assert(e@ =~= zeros(32));
    e[0] = event_type::SELECTION_NOTIFY;
    put_at16(o, &mut e, 2, conn.current_request_sequence());
    put_at32(o, &mut e, 4, time);
    put_at32(o, &mut e, 8, requestor);
    put_at32(o, &mut e, 12, selection);
    put_at32(o, &mut e, 16, target);
    put_at32(o, &mut e, 20, property);
    e
}

/// What the input method server answers when asked for a target of its
/// selection: its locales, its transport, or nothing.
pub open spec fn xim_answer(s: ServerModel, target: u32) -> Seq<u8> {
    if target == s.xim.atoms.locales {
        vstd::utf8::encode_utf8("@locale=C,en_US.UTF-8,ja_JP.UTF-8,ja_JP.utf8\0"@)
    } else if target == s.xim.atoms.transport {
        vstd::utf8::encode_utf8("@transport=X/\0"@)
    } else {
        Seq::empty()
    }
}

/// The state after a client asked for a target of the input method server's
/// selection.
pub open spec fn xim_selection_answered(
    s: ServerModel,
    requestor: u32,
    selection: u32,
    target: u32,
    property: u32,
    conn: ClientConnection,
) -> ServerModel {
    text_property_set(s, requestor, property, target, xim_answer(s, target)).sending(
        conn.id,
        selection_notify(conn, s.time(), requestor, selection, target, property),
    )
}

impl XimServer {
    /// Answers a client that asks for the input method server's selection; says
    /// whether it did.
    pub fn handle_selection_request(
        server: &mut XServer,
        requestor: Xid,
        selection: u32,
        target: u32,
        property: u32,
        conn: &ClientConnection,
    ) -> (r: bool)
        ensures
            r == (selection == old(server)@.xim.atoms.server_atom),
            r ==> final(server)@ == xim_selection_answered(
                old(server)@,
                requestor,
                selection,
                target,
                property,
                *conn,
            ),
            !r ==> final(server)@ == old(server)@,
    {
        if selection != server.xim.atoms.server_atom {
            return false;
        }
        if target == server.xim.atoms.locales {
            set_text_property(
                server,
                requestor,
                property,
                target,
                "@locale=C,en_US.UTF-8,ja_JP.UTF-8,ja_JP.utf8\0".as_bytes(),
            );
        } else if target == server.xim.atoms.transport {
            set_text_property(server, requestor, property, target, "@transport=X/\0".as_bytes());
        } else {
            let empty: Vec<u8> = Vec::new();
            assert(empty@ =~= Seq::empty());
            set_text_property(server, requestor, property, target, empty.as_slice());
        }
        let e = build_selection_notify(
            conn,
            server.current_time(),
            requestor,
            selection,
            target,
            property,
        );
        server.send(conn.id, EventData::Fixed(e));
        true
    }

    /// Opens a transport for a client.
    pub fn handle_xconnect(server: &mut XServer, client_comm_window: Xid, conn: &ClientConnection)
        ensures
            final(server)@ == transport_opened(old(server)@, client_comm_window, *conn),
    {
        let im: u16 = server.xim.next_im_id;
        server.xim.next_im_id = im.wrapping_add(1);
        let c = XimConnection {
            im_id: im,
            client_comm_window,
            conn_id: conn.id,
            byte_order: conn.byte_order,
            contexts: tables::new_contexts(),
        };
        tables::put_xim_connection(&mut server.xim.connections, im, c);
        tables::put_method(&mut server.xim.comm_to_im, client_comm_window, im);
        let e = build_client_message_32(
            server.xim.atoms.xim_xconnect,
            client_comm_window,
            server.xim.server_comm_window,
            conn.byte_order,
        );
        server.send(conn.id, EventData::Fixed(e));
    }

    /// Handles a message by the connection it came in on.
    pub fn handle_protocol_message_by_conn(
        server: &mut XServer,
        conn_id: u32,
        event_data: &[u8],
        conn: &ClientConnection,
    )
        ensures
            message_may_lead_to(old(server)@, *conn, event_data@, conn_id, final(server)@),
    {
        let ids = tables::xim_connection_ids(&server.xim.connections);
        let ghost m = server@.xim.connections;
        for i in 0..ids.len()
            invariant
                server@ == old(server)@,
                m == server@.xim.connections,
                forall|key: u16| m.dom().contains(key) <==> ids@.contains(key),
                forall|j: int| 0 <= j < i ==> m[#[trigger] ids@[j]].conn_id != conn_id,
        {
            assert(ids@.contains(ids@[i as int]));
            assert(m.dom().contains(ids@[i as int]));
            if let Some(c) = tables::get_xim_connection(&server.xim.connections, ids[i]) {
                if c.conn_id == conn_id {
                    dispatch_xim_message(server, conn.id, c.im_id, event_data);
                    return;
                }
            }
        }
        assert forall|key: u16| #[trigger] m.dom().contains(key) implies m[key].conn_id
            != conn_id by {
            assert(ids@.contains(key));
            let j = choose|j: int| 0 <= j < ids@.len() && ids@[j] == key;
            assert(ids@[j] == key);
        }
    }

    /// Handles a message by the communication window it is about. Messages that
    /// come in several parts are not put together; each part counts as one.
    pub fn handle_protocol_message(
        server: &mut XServer,
        client_comm_window: Xid,
        event_data: &[u8],
        conn: &ClientConnection,
    )
        ensures
            final(server)@ == if old(server)@.xim.comm_to_im.dom().contains(client_comm_window) {
                xim_handled(
                    old(server)@,
                    conn.id,
                    old(server)@.xim.comm_to_im[client_comm_window],
                    event_data@,
                )
            } else {
                old(server)@
            },
    {
        if let Some(im) = tables::get_method(&server.xim.comm_to_im, client_comm_window) {
            dispatch_xim_message(server, conn.id, im, event_data);
        }
    }
}

/// Disconnecting undoes connecting: no trace of the transport is left.
pub proof fn law_transport_closed(s: ServerModel, window: u32, conn: ClientConnection)
    ensures
        ({
            let opened = transport_opened(s, window, conn);
            let closed = xim_disconnected(opened, conn.id, s.xim.next_im_id);
            &&& !closed.xim.connections.dom().contains(s.xim.next_im_id)
            &&& !closed.xim.comm_to_im.dom().contains(window)
        }),
{
    let opened = transport_opened(s, window, conn);
    let im = s.xim.next_im_id;
    lemma_sent_keeps_xim(opened, conn.id, im, xim_frame(XIM_DISCONNECT_REPLY, Seq::empty()));
}

proof fn lemma_chunks_keep_xim(s: ServerModel, id: u32, c: XimConnectionModel, data: Seq<u8>, at: int)
    ensures
        chunks_sent(s, id, c, data, at).xim == s.xim,
        chunks_sent(s, id, c, data, at).resources == s.resources,
    decreases data.len() - at,
{
    if !(at < 0 || data.len() - at <= CHUNK) {
        let more = byte_message(
            c.byte_order,
            s.xim.atoms.xim_moredata,
            c.client_comm_window,
            data.subrange(at, at + CHUNK),
        );
        lemma_chunks_keep_xim(s.sending(id, more), id, c, data, at + CHUNK);
    }
}

/// Sending a message changes nothing of the input method server.
pub proof fn lemma_sent_keeps_xim(s: ServerModel, id: u32, im: u16, data: Seq<u8>)
    ensures
        xim_sent(s, id, im, data).xim == s.xim,
        xim_sent(s, id, im, data).resources == s.resources,
{
    if s.xim.connections.dom().contains(im) {
        lemma_chunks_keep_xim(s, id, s.xim.connections[im], data, 0);
    }
}

/// Every message says its own length: the words after its head.
pub proof fn law_message_length(opcode: u8, body: Seq<u8>)
    requires
        body.len() <= 0x3FFFC,
    ensures
        xim_frame(opcode, body).len() == 4 + 4 * u16_at(
            ByteOrder::LittleEndian,
            xim_frame(opcode, body),
            2,
        ),
        xim_frame(opcode, body)[0] == opcode,
{
    let f = filled(body);
    let words = (f.len() / 4) as u16;
    let head = byte(opcode) + byte(0);
    super::wire::law_u16_round_trip(ByteOrder::LittleEndian, head, words, f);
    assert(xim_frame(opcode, body) =~= head + bytes16(ByteOrder::LittleEndian, words) + f);
}

} // verus!
