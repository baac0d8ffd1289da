//! Events in a client's byte order.

use vstd::prelude::*;

use super::connection::ClientConnection;
use super::protocol::event_type;
use super::wire::{
    bytes16, bytes32, pattern16, put_at16, put_at32, splice, to_pattern16, zeros, ByteOrder,
};
use crate::display::Xid;

verus! {

/// An event of the given type for a client, all other fields zero.
pub open spec fn event(conn: ClientConnection, kind: u8) -> Seq<u8> {
    set16(
        conn.byte_order,
        set8(zeros(32), 0, kind),
        2,
        conn.request_sequence(),
    )
}

/// A buffer with one byte overwritten.
pub open spec fn set8(s: Seq<u8>, at: int, v: u8) -> Seq<u8> {
    s.update(at, v)
}

/// A buffer with a 16-bit value written at an offset.
pub open spec fn set16(order: ByteOrder, s: Seq<u8>, at: int, v: u16) -> Seq<u8> {
    splice(s, at, bytes16(order, v))
}

/// A buffer with a signed 16-bit value written at an offset.
pub open spec fn set16i(order: ByteOrder, s: Seq<u8>, at: int, v: i16) -> Seq<u8> {
    set16(order, s, at, pattern16(v))
}

/// A buffer with a 32-bit value written at an offset.
pub open spec fn set32(order: ByteOrder, s: Seq<u8>, at: int, v: u32) -> Seq<u8> {
    splice(s, at, bytes32(order, v))
}

/// Builds a 32-byte event in the client's byte order.
pub struct EventBuilder<'a> {
    pub conn: &'a ClientConnection,
    pub buf: [u8; 32],
}

impl<'a> EventBuilder<'a> {
    /// An event of the given type with the current sequence number.
    pub fn new(conn: &'a ClientConnection, event_type: u8) -> (r: EventBuilder<'a>)
        ensures
            r.conn == conn,
            r.buf@ == event(*conn, event_type),
    {
        let mut buf: [u8; 32] = [0u8; 32];
        assert(buf@ =~= zeros(32));
        buf[0] = event_type;
        put_at16(conn.byte_order, &mut buf, 2, conn.current_request_sequence());
        EventBuilder { conn, buf }
    }

    pub fn set_u8(&mut self, offset: usize, val: u8) -> (r: &mut EventBuilder<'a>)
        requires
            offset < 32,
        ensures
            r.conn == old(self).conn,
            r.buf@ == set8(old(self).buf@, offset as int, val),
            *final(self) == *final(r),
    {
        self.buf[offset] = val;
        self
    }

    pub fn set_u16(&mut self, offset: usize, val: u16) -> (r: &mut EventBuilder<'a>)
        requires
            offset + 2 <= 32,
        ensures
            r.conn == old(self).conn,
            r.buf@ == set16(old(self).conn.byte_order, old(self).buf@, offset as int, val),
            *final(self) == *final(r),
    {
        put_at16(self.conn.byte_order, &mut self.buf, offset, val);
        self
    }

    pub fn set_i16(&mut self, offset: usize, val: i16) -> (r: &mut EventBuilder<'a>)
        requires
            offset + 2 <= 32,
        ensures
            r.conn == old(self).conn,
            r.buf@ == set16i(old(self).conn.byte_order, old(self).buf@, offset as int, val),
            *final(self) == *final(r),
    {
        put_at16(self.conn.byte_order, &mut self.buf, offset, to_pattern16(val));
        self
    }

    pub fn set_u32(&mut self, offset: usize, val: u32) -> (r: &mut EventBuilder<'a>)
        requires
            offset + 4 <= 32,
        ensures
            r.conn == old(self).conn,
            r.buf@ == set32(old(self).conn.byte_order, old(self).buf@, offset as int, val),
            *final(self) == *final(r),
    {
        put_at32(self.conn.byte_order, &mut self.buf, offset, val);
        self
    }

    /// The finished event.
    pub fn build(self) -> (r: [u8; 32])
        ensures
            r@ == self.buf@,
    {
        self.buf
    }
}

/// A key, button, motion or crossing event up to the state field.
pub open spec fn input_event(
    conn: ClientConnection,
    kind: u8,
    detail: u8,
    time: u32,
    root: u32,
    window: u32,
    child: u32,
    root_x: i16,
    root_y: i16,
    x: i16,
    y: i16,
    state: u16,
) -> Seq<u8> {
    let o = conn.byte_order;
    let e = set8(event(conn, kind), 1, detail);
    let e = set32(o, e, 4, time);
    let e = set32(o, e, 8, root);
    let e = set32(o, e, 12, window);
    let e = set32(o, e, 16, child);
    let e = set16i(o, e, 20, root_x);
    let e = set16i(o, e, 22, root_y);
    let e = set16i(o, e, 24, x);
    let e = set16i(o, e, 26, y);
    set16(o, e, 28, state)
}

/// A key, button or motion event.
pub open spec fn key_event(
    conn: ClientConnection,
    kind: u8,
    detail: u8,
    time: u32,
    root: u32,
    window: u32,
    child: u32,
    root_x: i16,
    root_y: i16,
    x: i16,
    y: i16,
    state: u16,
    same_screen: bool,
) -> Seq<u8> {
    set8(
        input_event(conn, kind, detail, time, root, window, child, root_x, root_y, x, y, state),
        30,
        if same_screen {
            1
        } else {
            0
        },
    )
}

/// Builds a key, button or motion event.
pub fn build_key_event(
    conn: &ClientConnection,
    event_type: u8,
    keycode: u8,
    time: u32,
    root: Xid,
    event_window: Xid,
    child: Xid,
    root_x: i16,
    root_y: i16,
    event_x: i16,
    event_y: i16,
    state: u16,
    same_screen: bool,
) -> (r: [u8; 32])
    ensures
        r@ == key_event(
            *conn,
            event_type,
            keycode,
            time,
            root,
            event_window,
            child,
            root_x,
            root_y,
            event_x,
            event_y,
            state,
            same_screen,
        ),
{
    let mut eb = EventBuilder::new(conn, event_type);
    eb.set_u8(1, keycode).set_u32(4, time).set_u32(8, root).set_u32(12, event_window).set_u32(
        16,
        child,
    ).set_i16(20, root_x).set_i16(22, root_y).set_i16(24, event_x).set_i16(26, event_y).set_u16(
        28,
        state,
    ).set_u8(
        30,
        if same_screen {
            1
        } else {
            0
        },
    );
    eb.build()
}

/// An enter or leave event.
pub open spec fn crossing_event(
    conn: ClientConnection,
    kind: u8,
    time: u32,
    root: u32,
    window: u32,
    root_x: i16,
    root_y: i16,
    x: i16,
    y: i16,
    state: u16,
) -> Seq<u8> {
    set8(
        set8(
            input_event(conn, kind, 0, time, root, window, 0, root_x, root_y, x, y, state),
            30,
            0,
        ),
        31,
        1,
    )
}

/// Builds an enter or leave event.
pub fn build_crossing_event(
    conn: &ClientConnection,
    event_type: u8,
    time: u32,
    root: Xid,
    window: Xid,
    root_x: i16,
    root_y: i16,
    x: i16,
    y: i16,
    state: u16,
) -> (r: [u8; 32])
    ensures
        r@ == crossing_event(*conn, event_type, time, root, window, root_x, root_y, x, y, state),
{
    let mut eb = EventBuilder::new(conn, event_type);
    eb.set_u8(1, 0).set_u32(4, time).set_u32(8, root).set_u32(12, window).set_u32(16, 0).set_i16(
        20,
        root_x,
    ).set_i16(22, root_y).set_i16(24, x).set_i16(26, y).set_u16(28, state).set_u8(30, 0).set_u8(
        31,
        1,
    );
    eb.build()
}

/// A focus event.
pub open spec fn focus_event(conn: ClientConnection, kind: u8, window: u32) -> Seq<u8> {
    set8(set32(conn.byte_order, set8(event(conn, kind), 1, 0), 4, window), 8, 0)
}

/// Builds a focus event.
pub fn build_focus_event(conn: &ClientConnection, event_type: u8, window: Xid) -> (r: [u8; 32])
    ensures
        r@ == focus_event(*conn, event_type, window),
{
    let mut eb = EventBuilder::new(conn, event_type);
    eb.set_u8(1, 0).set_u32(4, window).set_u8(8, 0);
    eb.build()
}

/// An exposure.
pub open spec fn expose_event(
    conn: ClientConnection,
    window: u32,
    x: u16,
    y: u16,
    width: u16,
    height: u16,
    count: u16,
) -> Seq<u8> {
    let o = conn.byte_order;
    let e = set32(o, event(conn, event_type::EXPOSE), 4, window);
    let e = set16(o, e, 8, x);
    let e = set16(o, e, 10, y);
    let e = set16(o, e, 12, width);
    let e = set16(o, e, 14, height);
    set16(o, e, 16, count)
}

/// Builds an exposure.
pub fn build_expose_event(
    conn: &ClientConnection,
    window: Xid,
    x: u16,
    y: u16,
    width: u16,
    height: u16,
    count: u16,
) -> (r: [u8; 32])
    ensures
        r@ == expose_event(*conn, window, x, y, width, height, count),
{
    let mut eb = EventBuilder::new(conn, event_type::EXPOSE);
    eb.set_u32(4, window).set_u16(8, x).set_u16(10, y).set_u16(12, width).set_u16(
        14,
        height,
    ).set_u16(16, count);
    eb.build()
}

/// A change of a window's geometry.
pub open spec fn configure_notify(
    conn: ClientConnection,
    event_window: u32,
    window: u32,
    above_sibling: u32,
    x: i16,
    y: i16,
    width: u16,
    height: u16,
    border_width: u16,
    override_redirect: bool,
) -> Seq<u8> {
    let o = conn.byte_order;
    let e = set32(o, event(conn, event_type::CONFIGURE_NOTIFY), 4, event_window);
    let e = set32(o, e, 8, window);
    let e = set32(o, e, 12, above_sibling);
    let e = set16i(o, e, 16, x);
    let e = set16i(o, e, 18, y);
    let e = set16(o, e, 20, width);
    let e = set16(o, e, 22, height);
    let e = set16(o, e, 24, border_width);
    set8(
        e,
        26,
        if override_redirect {
            1
        } else {
            0
        },
    )
}

/// Builds a notification of a window's geometry.
pub fn build_configure_notify(
    conn: &ClientConnection,
    event_window: Xid,
    window: Xid,
    above_sibling: Xid,
    x: i16,
    y: i16,
    width: u16,
    height: u16,
    border_width: u16,
    override_redirect: bool,
) -> (r: [u8; 32])
    ensures
        r@ == configure_notify(
            *conn,
            event_window,
            window,
            above_sibling,
            x,
            y,
            width,
            height,
            border_width,
            override_redirect,
        ),
{
    let mut eb = EventBuilder::new(conn, event_type::CONFIGURE_NOTIFY);
    eb.set_u32(4, event_window).set_u32(8, window).set_u32(12, above_sibling).set_i16(
        16,
        x,
    ).set_i16(18, y).set_u16(20, width).set_u16(22, height).set_u16(24, border_width).set_u8(
        26,
        if override_redirect {
            1
        } else {
            0
        },
    );
    eb.build()
}

/// A window having been mapped.
pub open spec fn map_notify(
    conn: ClientConnection,
    event_window: u32,
    window: u32,
    override_redirect: bool,
) -> Seq<u8> {
    let o = conn.byte_order;
    let e = set32(o, event(conn, event_type::MAP_NOTIFY), 4, event_window);
    let e = set32(o, e, 8, window);
    set8(
        e,
        12,
        if override_redirect {
            1
        } else {
            0
        },
    )
}

/// Builds a notification of a window having been mapped.
pub fn build_map_notify(
    conn: &ClientConnection,
    event_window: Xid,
    window: Xid,
    override_redirect: bool,
) -> (r: [u8; 32])
    ensures
        r@ == map_notify(*conn, event_window, window, override_redirect),
{
    let mut eb = EventBuilder::new(conn, event_type::MAP_NOTIFY);
    eb.set_u32(4, event_window).set_u32(8, window).set_u8(
        12,
        if override_redirect {
            1
        } else {
            0
        },
    );
    eb.build()
}

/// A message between clients.
pub open spec fn client_message(
    conn: ClientConnection,
    format: u8,
    window: u32,
    message_type: u32,
    data: Seq<u32>,
) -> Seq<u8> {
    let o = conn.byte_order;
    let e = set8(event(conn, event_type::CLIENT_MESSAGE), 1, format);
    let e = set32(o, e, 4, window);
    let e = set32(o, e, 8, message_type);
    let e = set32(o, e, 12, data[0]);
    let e = set32(o, e, 16, data[1]);
    let e = set32(o, e, 20, data[2]);
    let e = set32(o, e, 24, data[3]);
    set32(o, e, 28, data[4])
}

/// Builds a message between clients.
pub fn build_client_message(
    conn: &ClientConnection,
    format: u8,
    window: Xid,
    message_type: u32,
    data: &[u32; 5],
) -> (r: [u8; 32])
    ensures
        r@ == client_message(*conn, format, window, message_type, data@),
{
    let mut eb = EventBuilder::new(conn, event_type::CLIENT_MESSAGE);
    eb.set_u8(1, format).set_u32(4, window).set_u32(8, message_type).set_u32(12, data[0]).set_u32(
        16,
        data[1],
    ).set_u32(20, data[2]).set_u32(24, data[3]).set_u32(28, data[4]);
    eb.build()
}

/// An event with its sequence number stamped anew.
pub open spec fn stamped(conn: ClientConnection, event: Seq<u8>, seq: u16) -> Seq<u8> {
    set16(conn.byte_order, event, 2, seq)
}

/// Every event is 32 bytes long, starts with its type, and carries the number
/// of the request being handled.
pub proof fn law_event_header(conn: ClientConnection, kind: u8)
    ensures
        event(conn, kind).len() == 32,
        event(conn, kind)[0] == kind,
        super::wire::u16_at(conn.byte_order, event(conn, kind), 2) == conn.request_sequence(),
        forall|i: int| 4 <= i < 32 ==> event(conn, kind)[i] == 0,
{
    super::wire::law_overwrite_u16(
        conn.byte_order,
        set8(zeros(32), 0, kind),
        2,
        conn.request_sequence(),
    );
}

/// Stamping a sequence number changes bytes 2 and 3 only.
pub proof fn law_stamp_touches_sequence_only(conn: ClientConnection, event: Seq<u8>, seq: u16)
    requires
        event.len() >= 4,
    ensures
        stamped(conn, event, seq).len() == event.len(),
        super::wire::u16_at(conn.byte_order, stamped(conn, event, seq), 2) == seq,
        forall|i: int|
            0 <= i < event.len() && i != 2 && i != 3 ==> stamped(conn, event, seq)[i] == event[i],
{
    super::wire::law_overwrite_u16(conn.byte_order, event, 2, seq);
}

/// An event built with the current sequence number is already stamped with it.
pub proof fn law_fresh_event_is_stamped(conn: ClientConnection, kind: u8)
    ensures
        stamped(conn, event(conn, kind), conn.request_sequence()) == event(conn, kind),
{
    assert(stamped(conn, event(conn, kind), conn.request_sequence()) =~= event(conn, kind));
}

} // verus!
