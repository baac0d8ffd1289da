//! What clients of the input method read of it.

use vstd::prelude::*;

use super::connection::ClientConnection;
use super::events::{set16, set32, set8};
use super::layout::{lemma_four_bytes, lemma_two_bytes};
use super::pasting::queued;
use super::properties::filled;
use super::readings::{lemma_set16, lemma_set32, lemma_set8, reads_selection_notify};
use super::resources::{property_named, PropertyModel};
use super::wire::{splice, u16_at, u32_at, zeros, ByteOrder};
use super::xim::{XimConnectionModel, XimInputContext};
use super::xim_notify::{notice_message, ImNoticeModel};
use super::xim_protocol::{
    byte_message, chunks_sent, le16, le32, new_context, selection_notify, transport_opened, two,
    with_attribute, with_attributes, word_message, xim_answer, xim_frame, xim_selection_answered,
    xim_sent,
};
use super::{ActionModel, ServerModel};

verus! {

/// A message of bytes as a client reads it.
pub open spec fn reads_bytes(
    o: ByteOrder,
    e: Seq<u8>,
    window: u32,
    kind: u32,
    data: Seq<u8>,
) -> bool {
    &&& e.len() == 32
    &&& e[0] == 33
    &&& e[1] == 8
    &&& u32_at(o, e, 4) == window
    &&& u32_at(o, e, 8) == kind
    &&& forall|i: int| #![trigger data[i]] 0 <= i < data.len() ==> e[12 + i] == data[i]
}

/// A message of bytes is read as it was written.
pub proof fn law_byte_messages_are_read(o: ByteOrder, kind: u32, window: u32, data: Seq<u8>)
    requires
        data.len() <= 20,
    ensures
        reads_bytes(o, byte_message(o, kind, window, data), window, kind, data),
{
    let e = set8(set8(zeros(32), 0, 33), 1, 8);
    lemma_set8(o, zeros(32), 0, 33);
    lemma_set8(o, set8(zeros(32), 0, 33), 1, 8);
    lemma_set32(o, e, 4, window);
    let e1 = set32(o, e, 4, window);
    lemma_set32(o, e1, 8, kind);
    let e2 = set32(o, e1, 8, kind);
    let t = splice(e2, 12, data);
    assert forall|i: int| 0 <= i < 12 implies #[trigger] t[i] == e2[i] by {}
    assert(u32_at(o, t, 4) == u32_at(o, e2, 4));
    assert(u32_at(o, t, 8) == u32_at(o, e2, 8));
}

/// A message of words is read as it was written.
pub proof fn law_word_messages_are_read(o: ByteOrder, kind: u32, window: u32, first: u32)
    ensures
        ({
            let e = word_message(o, kind, window, first);
            &&& e.len() == 32
            &&& e[0] == 33
            &&& e[1] == 32
            &&& u32_at(o, e, 4) == window
            &&& u32_at(o, e, 8) == kind
            &&& u32_at(o, e, 12) == first
        }),
{
    let e = set8(set8(zeros(32), 0, 33), 1, 32);
    lemma_set8(o, zeros(32), 0, 33);
    lemma_set8(o, set8(zeros(32), 0, 33), 1, 32);
    lemma_set32(o, e, 4, window);
    let e1 = set32(o, e, 4, window);
    lemma_set32(o, e1, 8, kind);
    let e2 = set32(o, e1, 8, kind);
    lemma_set32(o, e2, 12, first);
}

/// How many messages carry data from a place on.
pub open spec fn message_count(len: int) -> int {
    if len <= 20 {
        1
    } else {
        (len + 19) / 20
    }
}

/// Whether queued events carry data from a place on: twenty bytes in each, as more
/// to come, and the rest in the last.
pub open spec fn carries(
    new: Seq<ActionModel>,
    id: u32,
    o: ByteOrder,
    window: u32,
    more: u32,
    last: u32,
    data: Seq<u8>,
    at: int,
) -> bool {
    &&& new.len() == message_count(data.len() - at)
    &&& forall|i: int| #![trigger new[i]]
        0 <= i < new.len() ==> (new[i] matches ActionModel::Event { conn, data: e } && conn == id
            && reads_bytes(
            o,
            e,
            window,
            if i == new.len() - 1 {
                last
            } else {
                more
            },
            if i == new.len() - 1 {
                data.skip(at + 20 * i)
            } else {
                data.subrange(at + 20 * i, at + 20 * i + 20)
            },
        ))
}

proof fn lemma_chunks(s: ServerModel, id: u32, c: XimConnectionModel, data: Seq<u8>, at: int)
    requires
        0 <= at <= data.len(),
    ensures
        ({
            let t = chunks_sent(s, id, c, data, at);
            &&& t == ServerModel { outbox: t.outbox, ..s }
            &&& t.outbox.len() >= s.outbox.len()
            &&& t.outbox.take(s.outbox.len() as int) == s.outbox
            &&& carries(
                t.outbox.skip(s.outbox.len() as int),
                id,
                c.byte_order,
                c.client_comm_window,
                s.xim.atoms.xim_moredata,
                s.xim.atoms.xim_protocol,
                data,
                at,
            )
        }),
    decreases data.len() - at,
{
    let o = c.byte_order;
    let w = c.client_comm_window;
    let n = s.outbox.len() as int;
    let t = chunks_sent(s, id, c, data, at);
    let new = t.outbox.skip(n);
    if data.len() - at <= 20 {
        let e = byte_message(o, s.xim.atoms.xim_protocol, w, data.skip(at));
        law_byte_messages_are_read(o, s.xim.atoms.xim_protocol, w, data.skip(at));
        assert(t.outbox.take(n) =~= s.outbox);
        assert(new[0] == (ActionModel::Event { conn: id, data: e }));
        assert(data.skip(at + 20 * 0) == data.skip(at));
    } else {
        let piece = data.subrange(at, at + 20);
        let e = byte_message(o, s.xim.atoms.xim_moredata, w, piece);
        law_byte_messages_are_read(o, s.xim.atoms.xim_moredata, w, piece);
        let s1 = s.sending(id, e);
        lemma_chunks(s1, id, c, data, at + 20);
        let later = t.outbox.skip(n + 1);
        assert(s1.outbox.len() == n + 1);
        assert(t.outbox.take(n) =~= s.outbox) by {
            assert forall|i: int| 0 <= i < n implies t.outbox.take(n)[i] == s.outbox[i] by {
                assert(t.outbox.take(n + 1)[i] == s1.outbox[i]);
            }
        }
        assert(t.outbox[n] == (ActionModel::Event { conn: id, data: e })) by {
            assert(t.outbox.take(n + 1)[n] == s1.outbox[n]);
        }
        assert(message_count(data.len() - at) == 1 + message_count(data.len() - (at + 20)));
        assert(new.len() == later.len() + 1);
        assert forall|i: int| #![trigger new[i]] 0 <= i < new.len() implies (new[i]
            matches ActionModel::Event { conn, data: e } && conn == id && reads_bytes(
            o,
            e,
            w,
            if i == new.len() - 1 {
                s.xim.atoms.xim_protocol
            } else {
                s.xim.atoms.xim_moredata
            },
            if i == new.len() - 1 {
                data.skip(at + 20 * i)
            } else {
                data.subrange(at + 20 * i, at + 20 * i + 20)
            },
        )) by {
            if i > 0 {
                assert(new[i] == later[i - 1]);
                assert(at + 20 + 20 * (i - 1) == at + 20 * i);
            } else {
                assert(new[0] == t.outbox[n]);
            }
        }
    }
}

/// What the input method says to a client goes out in messages that carry all of
/// it, in order.
pub proof fn law_input_method_is_heard(s: ServerModel, id: u32, im: u16, data: Seq<u8>)
    requires
        s.xim.connections.dom().contains(im),
    ensures
        ({
            let c = s.xim.connections[im];
            let t = xim_sent(s, id, im, data);
            &&& t.outbox.len() >= s.outbox.len()
            &&& t.outbox.take(s.outbox.len() as int) == s.outbox
            &&& carries(
                t.outbox.skip(s.outbox.len() as int),
                id,
                c.byte_order,
                c.client_comm_window,
                s.xim.atoms.xim_moredata,
                s.xim.atoms.xim_protocol,
                data,
                0,
            )
        }),
{
    lemma_chunks(s, id, s.xim.connections[im], data, 0);
}

/// A frame starts with its opcode and its length in words; its body follows.
proof fn lemma_frame(opcode: u8, body: Seq<u8>)
    requires
        filled(body).len() / 4 < 0x10000,
    ensures
        ({
            let f = xim_frame(opcode, body);
            &&& f.len() == 4 + filled(body).len()
            &&& f[0] == opcode
            &&& f[1] == 0
            &&& u16_at(ByteOrder::LittleEndian, f, 2) == filled(body).len() / 4
            &&& forall|i: int| 0 <= i < body.len() ==> #[trigger] body[i] == f[4 + i]
        }),
{
    let f = xim_frame(opcode, body);
    lemma_two_bytes(ByteOrder::LittleEndian, f, 2, (filled(body).len() / 4) as u16);
}

/// What is committed goes out with the input method's and context's numbers, the
/// text's length and the text.
pub proof fn law_committed_text_is_read(text: Seq<u8>, im: u16, ic: u16)
    requires
        text.len() < 0x8000,
    ensures
        ({
            let o = ByteOrder::LittleEndian;
            let f = notice_message(ImNoticeModel::Commit { text }, im, ic);
            &&& f.len() >= 12 + text.len()
            &&& f[0] == 63
            &&& u16_at(o, f, 4) == im
            &&& u16_at(o, f, 6) == ic
            &&& u16_at(o, f, 8) == 2
            &&& u16_at(o, f, 10) == text.len()
            &&& f.subrange(12, 12 + text.len() as int) == text
        }),
{
    let o = ByteOrder::LittleEndian;
    let head = two(im, ic) + le16(2) + le16(text.len() as u16);
    let body = head + filled(text);
    assert(head.len() == 8);
    lemma_two_bytes(o, head, 0, im);
    lemma_two_bytes(o, head, 2, ic);
    lemma_two_bytes(o, head, 4, 2);
    lemma_two_bytes(o, head, 6, text.len() as u16);
    lemma_frame(63, body);
    let f = xim_frame(63, body);
    assert forall|i: int| 4 <= i < 12 implies #[trigger] f[i] == head[i - 4] by {
        assert(body[i - 4] == f[4 + (i - 4)]);
    }
    assert(f.subrange(12, 12 + text.len() as int) =~= text) by {
        assert forall|i: int| 0 <= i < text.len() implies f.subrange(
            12,
            12 + text.len() as int,
        )[i] == text[i] by {
            assert(body[8 + i] == f[4 + (8 + i)]);
        }
    }
}

/// Text that is being composed goes out with the numbers, where the caret stands,
/// the text's length and the text.
pub proof fn law_composed_text_is_read(text: Seq<u8>, chars: nat, caret: u32, im: u16, ic: u16)
    requires
        text.len() < 0x8000,
        filled(
            two(im, ic) + le32(caret) + le32(0) + le32(0) + le32(0) + le16(text.len() as u16)
                + filled(text) + super::xim_notify::underlines(chars),
        ).len() / 4 < 0x10000,
    ensures
        ({
            let o = ByteOrder::LittleEndian;
            let f = notice_message(ImNoticeModel::PreeditDraw { text, chars, caret }, im, ic);
            &&& f.len() >= 26 + text.len()
            &&& f[0] == 75
            &&& u16_at(o, f, 4) == im
            &&& u16_at(o, f, 6) == ic
            &&& u32_at(o, f, 8) == caret
            &&& u16_at(o, f, 24) == text.len()
            &&& f.subrange(26, 26 + text.len() as int) == text
        }),
{
    let o = ByteOrder::LittleEndian;
    let head = two(im, ic) + le32(caret) + le32(0) + le32(0) + le32(0) + le16(text.len() as u16);
    let body = head + filled(text) + super::xim_notify::underlines(chars);
    assert(head.len() == 22);
    lemma_two_bytes(o, head, 0, im);
    lemma_two_bytes(o, head, 2, ic);
    lemma_four_bytes(o, head, 4, caret);
    lemma_two_bytes(o, head, 20, text.len() as u16);
    lemma_frame(75, body);
    let f = xim_frame(75, body);
    assert forall|i: int| 4 <= i < 26 implies #[trigger] f[i] == head[i - 4] by {
        assert(body[i - 4] == f[4 + (i - 4)]);
    }
    assert(f.subrange(26, 26 + text.len() as int) =~= text) by {
        assert forall|i: int| 0 <= i < text.len() implies f.subrange(
            26,
            26 + text.len() as int,
        )[i] == text[i] by {
            assert(body[22 + i] == f[4 + (22 + i)]);
        }
    }
}

/// A client that opens the transport gets an input method of its own, and a message
/// that names the server's window.
pub proof fn law_transport_is_opened(s: ServerModel, window: u32, conn: ClientConnection)
    ensures
        ({
            let t = transport_opened(s, window, conn);
            let im = s.xim.next_im_id;
            let o = conn.byte_order;
            &&& t.xim.connections.dom().contains(im)
            &&& t.xim.connections[im].im_id == im
            &&& t.xim.connections[im].client_comm_window == window
            &&& t.xim.connections[im].conn_id == conn.id
            &&& t.xim.connections[im].byte_order == o
            &&& t.xim.comm_to_im.dom().contains(window)
            &&& t.xim.comm_to_im[window] == im
            &&& exists|e: Seq<u8>| #[trigger]
                queued(s, t, conn.id, e) && e.len() == 32 && e[0] == 33 && e[1] == 32 && u32_at(
                    o,
                    e,
                    4,
                ) == window && u32_at(o, e, 8) == s.xim.atoms.xim_xconnect && u32_at(o, e, 12)
                    == s.xim.server_comm_window
        }),
{
    let o = conn.byte_order;
    let e = word_message(o, s.xim.atoms.xim_xconnect, window, s.xim.server_comm_window);
    law_word_messages_are_read(o, s.xim.atoms.xim_xconnect, window, s.xim.server_comm_window);
    assert(queued(s, transport_opened(s, window, conn), conn.id, e));
}

/// Attributes with values of four bytes, one after the other.
pub open spec fn attributes(pairs: Seq<(u16, u32)>) -> Seq<u8>
    decreases pairs.len(),
{
    if pairs.len() == 0 {
        Seq::empty()
    } else {
        le16(pairs[0].0) + le16(4) + le32(pairs[0].1) + attributes(pairs.drop_first())
    }
}

/// An input context after attributes were set, one after the other.
pub open spec fn attributed(c: XimInputContext, pairs: Seq<(u16, u32)>) -> XimInputContext
    decreases pairs.len(),
{
    if pairs.len() == 0 {
        c
    } else {
        let (id, v) = pairs[0];
        attributed(
            if id == 0 {
                XimInputContext { input_style: v, ..c }
            } else if id == 1 {
                XimInputContext { client_window: v, ..c }
            } else if id == 2 {
                XimInputContext { focus_window: v, ..c }
            } else {
                c
            },
            pairs.drop_first(),
        )
    }
}

proof fn lemma_attribute_head(id: u16, v: u32, rest: Seq<u8>)
    ensures
        ({
            let o = ByteOrder::LittleEndian;
            let a = le16(id) + le16(4) + le32(v) + rest;
            &&& a.len() == 8 + rest.len()
            &&& u16_at(o, a, 0) == id
            &&& u16_at(o, a, 2) == 4
            &&& u32_at(o, a.subrange(4, 8), 0) == v
            &&& a.skip(8) == rest
        }),
{
    let o = ByteOrder::LittleEndian;
    let a = le16(id) + le16(4) + le32(v) + rest;
    lemma_two_bytes(o, a, 0, id);
    lemma_two_bytes(o, a, 2, 4);
    lemma_four_bytes(o, a.subrange(4, 8), 0, v);
    assert(a.skip(8) =~= rest);
}

proof fn lemma_attributes(c: XimInputContext, list: Seq<u8>, at: int, pairs: Seq<(u16, u32)>)
    requires
        0 <= at <= list.len(),
        list.skip(at) == attributes(pairs),
    ensures
        with_attributes(c, list, at, true) == attributed(c, pairs),
    decreases pairs.len(),
{
    if pairs.len() == 0 {
        assert(list.skip(at).len() == 0);
    } else {
        let o = ByteOrder::LittleEndian;
        let (id, v) = pairs[0];
        let rest = attributes(pairs.drop_first());
        let a = list.skip(at);
        lemma_attribute_head(id, v, rest);
        assert(u16_at(o, list, at) == u16_at(o, a, 0)) by {
            assert(a[0] == list[at] && a[1] == list[at + 1]);
        }
        assert(u16_at(o, list, at + 2) == u16_at(o, a, 2)) by {
            assert(a[2] == list[at + 2] && a[3] == list[at + 3]);
        }
        assert(list.subrange(at + 4, at + 8) =~= a.subrange(4, 8));
        assert(list.skip(at + 8) =~= a.skip(8));
        let next = with_attribute(c, id, list.subrange(at + 4, at + 8), true);
        lemma_attributes(next, list, at + 8, pairs.drop_first());
    }
}

/// An input context is made with the attributes that were sent: its style, its
/// client window and its focus window, which is the client window where none was
/// sent.
pub proof fn law_contexts_are_made_as_asked(
    s: ServerModel,
    im: u16,
    data: Seq<u8>,
    pairs: Seq<(u16, u32)>,
)
    requires
        pairs.len() > 0,
        data.len() == 8 + attributes(pairs).len(),
        data.skip(8) == attributes(pairs),
        u16_at(ByteOrder::LittleEndian, data, 6) == attributes(pairs).len(),
    ensures
        ({
            let fresh = XimInputContext {
                ic_id: s.xim.next_ic_id,
                im_id: im,
                client_window: 0,
                focus_window: 0,
                input_style: 0x0408,
            };
            let c = attributed(fresh, pairs);
            new_context(s, im, data) == if c.focus_window == 0 {
                XimInputContext { focus_window: c.client_window, ..c }
            } else {
                c
            }
        }),
{
    let fresh = XimInputContext {
        ic_id: s.xim.next_ic_id,
        im_id: im,
        client_window: 0,
        focus_window: 0,
        input_style: 0x0408,
    };
    let n = u16_at(ByteOrder::LittleEndian, data, 6);
    let list = super::xim_protocol::attribute_list(data, 8, n);
    assert(attributes(pairs).len() > 0) by {
        let (id, v) = pairs[0];
        lemma_attribute_head(id, v, attributes(pairs.drop_first()));
    }
    assert(list =~= data.skip(8));
    assert(list.skip(0) =~= list);
    lemma_attributes(fresh, list, 0, pairs);
}

proof fn lemma_selection_notify(
    conn: ClientConnection,
    time: u32,
    requestor: u32,
    selection: u32,
    target: u32,
    property: u32,
)
    ensures
        reads_selection_notify(
            conn.byte_order,
            selection_notify(conn, time, requestor, selection, target, property),
            time,
            requestor,
            selection,
            target,
            property,
        ),
{
    let o = conn.byte_order;
    let e0 = set8(zeros(32), 0, 31);
    lemma_set8(o, zeros(32), 0, 31);
    lemma_set16(o, e0, 2, conn.request_sequence());
    let e = set16(o, e0, 2, conn.request_sequence());
    lemma_set32(o, e, 4, time);
    let e1 = set32(o, e, 4, time);
    lemma_set32(o, e1, 8, requestor);
    let e2 = set32(o, e1, 8, requestor);
    lemma_set32(o, e2, 12, selection);
    let e3 = set32(o, e2, 12, selection);
    lemma_set32(o, e3, 16, target);
    let e4 = set32(o, e3, 16, target);
    lemma_set32(o, e4, 20, property);
}

/// A client that asks for the input method's selection finds the answer in the
/// property that it named, with the target as its type, and is told so.
pub proof fn law_input_method_answers(
    s: ServerModel,
    conn: ClientConnection,
    requestor: u32,
    selection: u32,
    target: u32,
    property: u32,
)
    requires
        s.window(requestor) is Some,
    ensures
        ({
            let t = xim_selection_answered(s, requestor, selection, target, property, conn);
            &&& t.window(requestor) is Some
            &&& property_named(t.window(requestor)->0.properties, property) == Some(
                (PropertyModel {
                    name: property,
                    type_atom: target,
                    format: 8,
                    data: xim_answer(s, target),
                }),
            )
            &&& exists|e: Seq<u8>| #[trigger]
                queued(s, t, conn.id, e) && reads_selection_notify(
                    conn.byte_order,
                    e,
                    s.time(),
                    requestor,
                    selection,
                    target,
                    property,
                )
        }),
{
    let t = xim_selection_answered(s, requestor, selection, target, property, conn);
    let p = PropertyModel {
        name: property,
        type_atom: target,
        format: 8,
        data: xim_answer(s, target),
    };
    super::resources::law_set_then_get(s.window(requestor)->0.properties, p, property);
    lemma_selection_notify(conn, s.time(), requestor, selection, target, property);
    assert(queued(
        s,
        t,
        conn.id,
        selection_notify(conn, s.time(), requestor, selection, target, property),
    ));
}

/// Whether a message of the input method names a method and a context.
pub open spec fn names_context(f: Seq<u8>, opcode: u8, im: u16, ic: u16) -> bool {
    &&& f.len() == 8
    &&& f[0] == opcode
    &&& u16_at(ByteOrder::LittleEndian, f, 2) == 1
    &&& u16_at(ByteOrder::LittleEndian, f, 4) == im
    &&& u16_at(ByteOrder::LittleEndian, f, 6) == ic
}

proof fn lemma_two(opcode: u8, im: u16, ic: u16)
    ensures
        names_context(xim_frame(opcode, two(im, ic)), opcode, im, ic),
{
    let o = ByteOrder::LittleEndian;
    let body = two(im, ic);
    let f = xim_frame(opcode, body);
    lemma_frame(opcode, body);
    lemma_two_bytes(o, body, 0, im);
    lemma_two_bytes(o, body, 2, ic);
    assert forall|i: int| 4 <= i < 8 implies #[trigger] f[i] == body[i - 4] by {
        assert(body[i - 4] == f[4 + (i - 4)]);
    }
}

/// What the input method says in eight bytes goes out in one message.
proof fn lemma_short(s: ServerModel, id: u32, im: u16, f: Seq<u8>)
    requires
        s.xim.connections.dom().contains(im),
        f.len() == 8,
    ensures
        ({
            let c = s.xim.connections[im];
            let t = xim_sent(s, id, im, f);
            &&& t.outbox.len() == s.outbox.len() + 1
            &&& t.outbox.drop_last() == s.outbox
            &&& t.outbox.last() matches ActionModel::Event { conn, data: e } && conn == id
                && reads_bytes(
                c.byte_order,
                e,
                c.client_comm_window,
                s.xim.atoms.xim_protocol,
                f,
            )
        }),
{
    let c = s.xim.connections[im];
    let t = xim_sent(s, id, im, f);
    let n = s.outbox.len() as int;
    law_input_method_is_heard(s, id, im, f);
    let new = t.outbox.skip(n);
    assert(new[0] == t.outbox.last());
    assert(f.skip(0) =~= f);
    assert(t.outbox.drop_last() =~= s.outbox) by {
        assert forall|i: int| 0 <= i < n implies t.outbox.drop_last()[i] == s.outbox[i] by {
            assert(t.outbox.take(n)[i] == s.outbox[i]);
        }
    }
}

/// A context that is made gets the next number, is kept with the input method, and
/// the client is told its number.
pub proof fn law_made_contexts_are_told(s: ServerModel, id: u32, im: u16, data: Seq<u8>)
    requires
        s.xim.connections.dom().contains(im),
    ensures
        ({
            let t = super::xim_protocol::context_created(s, id, im, data);
            let ic = s.xim.next_ic_id;
            let c = s.xim.connections[im];
            &&& t.xim.connections[im].contexts.dom().contains(ic)
            &&& t.xim.connections[im].contexts[ic] == new_context(s, im, data)
            &&& t.outbox.len() > s.outbox.len()
            &&& t.outbox[s.outbox.len() as int] matches ActionModel::Event { conn, data: e } && conn
                == id && exists|f: Seq<u8>| #[trigger]
                reads_bytes(
                    c.byte_order,
                    e,
                    c.client_comm_window,
                    s.xim.atoms.xim_protocol,
                    f,
                ) && names_context(f, 51, im, ic)
        }),
{
    let ic = s.xim.next_ic_id;
    let c = s.xim.connections[im];
    let numbered = ServerModel {
        xim: super::xim::XimModel { next_ic_id: ic.wrapping_add(1), ..s.xim },
        ..s
    };
    let kept = super::xim_protocol::with_xim(
        numbered,
        im,
        XimConnectionModel { contexts: c.contexts.insert(ic, new_context(s, im, data)), ..c },
    );
    let f = xim_frame(51, two(im, ic));
    lemma_two(51, im, ic);
    lemma_short(kept, id, im, f);
    let told = xim_sent(kept, id, im, f);
    lemma_chunks(kept, id, kept.xim.connections[im], f, 0);
    let g = xim_frame(70, two(im, ic) + le32(0) + le32(0));
    lemma_chunks(told, id, told.xim.connections[im], g, 0);
    let t = xim_sent(told, id, im, g);
    assert(t == super::xim_protocol::context_created(s, id, im, data));
    assert(t.outbox[s.outbox.len() as int] == told.outbox.last()) by {
        assert(t.outbox.take(told.outbox.len() as int)[s.outbox.len() as int]
            == told.outbox[s.outbox.len() as int]);
    }
}

} // verus!
