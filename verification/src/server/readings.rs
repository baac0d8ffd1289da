//! What a client reads in the events it is sent.

use vstd::prelude::*;

use super::connection::ClientConnection;
use super::dispatch::selection_request;
use super::events::{
    configure_notify, crossing_event, event, expose_event, focus_event, input_event, key_event,
    map_notify, set16, set32, set8, stamped,
};
use super::selections::refusal;
use super::wire::{bytes16, bytes32, i16_at, pattern16, u16_at, u32_at, zeros, ByteOrder};

verus! {

/// A key, button, motion or crossing event as a client reads it.
pub open spec fn reads_input(
    o: ByteOrder,
    e: Seq<u8>,
    kind: u8,
    detail: u8,
    time: u32,
    root: u32,
    window: u32,
    child: u32,
    root_x: i16,
    root_y: i16,
    x: i16,
    y: i16,
    state: u16,
) -> bool {
    &&& e.len() == 32
    &&& e[0] == kind
    &&& e[1] == detail
    &&& u32_at(o, e, 4) == time
    &&& u32_at(o, e, 8) == root
    &&& u32_at(o, e, 12) == window
    &&& u32_at(o, e, 16) == child
    &&& i16_at(o, e, 20) == root_x
    &&& i16_at(o, e, 22) == root_y
    &&& i16_at(o, e, 24) == x
    &&& i16_at(o, e, 26) == y
    &&& u16_at(o, e, 28) == state
}

/// A change of geometry as a client reads it.
pub open spec fn reads_configured(
    o: ByteOrder,
    e: Seq<u8>,
    window: u32,
    x: i16,
    y: i16,
    width: u16,
    height: u16,
    border_width: u16,
) -> bool {
    &&& e.len() == 32
    &&& e[0] == 22
    &&& u32_at(o, e, 4) == window
    &&& u32_at(o, e, 8) == window
    &&& u32_at(o, e, 12) == 0
    &&& i16_at(o, e, 16) == x
    &&& i16_at(o, e, 18) == y
    &&& u16_at(o, e, 20) == width
    &&& u16_at(o, e, 22) == height
    &&& u16_at(o, e, 24) == border_width
}

/// An exposure as a client reads it.
pub open spec fn reads_exposed(
    o: ByteOrder,
    e: Seq<u8>,
    window: u32,
    x: u16,
    y: u16,
    width: u16,
    height: u16,
    count: u16,
) -> bool {
    &&& e.len() == 32
    &&& e[0] == 12
    &&& u32_at(o, e, 4) == window
    &&& u16_at(o, e, 8) == x
    &&& u16_at(o, e, 10) == y
    &&& u16_at(o, e, 12) == width
    &&& u16_at(o, e, 14) == height
    &&& u16_at(o, e, 16) == count
}

/// A window's appearance as a client reads it.
pub open spec fn reads_mapped(o: ByteOrder, e: Seq<u8>, window: u32) -> bool {
    e.len() == 32 && e[0] == 19 && u32_at(o, e, 4) == window && u32_at(o, e, 8) == window
}

/// A change of focus as a client reads it.
pub open spec fn reads_focus(o: ByteOrder, e: Seq<u8>, kind: u8, window: u32) -> bool {
    e.len() == 32 && e[0] == kind && e[1] == 0 && u32_at(o, e, 4) == window
}

/// A request for a selection as its owner reads it.
pub open spec fn reads_selection_request(
    o: ByteOrder,
    e: Seq<u8>,
    time: u32,
    owner: u32,
    requestor: u32,
    selection: u32,
    target: u32,
    property: u32,
) -> bool {
    &&& e.len() == 32
    &&& e[0] == 30
    &&& u32_at(o, e, 4) == time
    &&& u32_at(o, e, 8) == owner
    &&& u32_at(o, e, 12) == requestor
    &&& u32_at(o, e, 16) == selection
    &&& u32_at(o, e, 20) == target
    &&& u32_at(o, e, 24) == property
}

/// The answer to a request for a selection as the one who asked reads it.
pub open spec fn reads_selection_notify(
    o: ByteOrder,
    e: Seq<u8>,
    time: u32,
    requestor: u32,
    selection: u32,
    target: u32,
    property: u32,
) -> bool {
    &&& e.len() == 32
    &&& e[0] == 31
    &&& u32_at(o, e, 4) == time
    &&& u32_at(o, e, 8) == requestor
    &&& u32_at(o, e, 12) == selection
    &&& u32_at(o, e, 16) == target
    &&& u32_at(o, e, 20) == property
}

/// A field of two bytes is read as it was written; the others stay.
pub proof fn lemma_set16(o: ByteOrder, s: Seq<u8>, at: int, v: u16)
    requires
        0 <= at,
        at + 2 <= s.len(),
    ensures
        set16(o, s, at, v).len() == s.len(),
        u16_at(o, set16(o, s, at, v), at) == v,
        forall|p: int| #![trigger u16_at(o, set16(o, s, at, v), p)]
            0 <= p && p + 2 <= s.len() && (p + 2 <= at || at + 2 <= p) ==> u16_at(
                o,
                set16(o, s, at, v),
                p,
            ) == u16_at(o, s, p),
        forall|p: int| #![trigger u32_at(o, set16(o, s, at, v), p)]
            0 <= p && p + 4 <= s.len() && (p + 4 <= at || at + 2 <= p) ==> u32_at(
                o,
                set16(o, s, at, v),
                p,
            ) == u32_at(o, s, p),
        forall|p: int| #![trigger set16(o, s, at, v)[p]]
            0 <= p < s.len() && (p < at || at + 2 <= p) ==> set16(o, s, at, v)[p] == s[p],
{
    let t = set16(o, s, at, v);
    assert(t[at] == bytes16(o, v)[0]);
    assert(t[at + 1] == bytes16(o, v)[1]);
}

/// A field of four bytes is read as it was written; the others stay.
pub proof fn lemma_set32(o: ByteOrder, s: Seq<u8>, at: int, v: u32)
    requires
        0 <= at,
        at + 4 <= s.len(),
    ensures
        set32(o, s, at, v).len() == s.len(),
        u32_at(o, set32(o, s, at, v), at) == v,
        forall|p: int| #![trigger u16_at(o, set32(o, s, at, v), p)]
            0 <= p && p + 2 <= s.len() && (p + 2 <= at || at + 4 <= p) ==> u16_at(
                o,
                set32(o, s, at, v),
                p,
            ) == u16_at(o, s, p),
        forall|p: int| #![trigger u32_at(o, set32(o, s, at, v), p)]
            0 <= p && p + 4 <= s.len() && (p + 4 <= at || at + 4 <= p) ==> u32_at(
                o,
                set32(o, s, at, v),
                p,
            ) == u32_at(o, s, p),
        forall|p: int| #![trigger set32(o, s, at, v)[p]]
            0 <= p < s.len() && (p < at || at + 4 <= p) ==> set32(o, s, at, v)[p] == s[p],
{
    let t = set32(o, s, at, v);
    assert(t[at] == bytes32(o, v)[0]);
    assert(t[at + 1] == bytes32(o, v)[1]);
    assert(t[at + 2] == bytes32(o, v)[2]);
    assert(t[at + 3] == bytes32(o, v)[3]);
    super::layout::lemma_four_bytes(o, t, at, v);
}

/// A byte is read as it was written; the fields that it is no part of stay.
pub proof fn lemma_set8(o: ByteOrder, s: Seq<u8>, at: int, v: u8)
    requires
        0 <= at < s.len(),
    ensures
        set8(s, at, v).len() == s.len(),
        set8(s, at, v)[at] == v,
        forall|p: int| #![trigger u16_at(o, set8(s, at, v), p)]
            0 <= p && p + 2 <= s.len() && (p + 2 <= at || at + 1 <= p) ==> u16_at(
                o,
                set8(s, at, v),
                p,
            ) == u16_at(o, s, p),
        forall|p: int| #![trigger u32_at(o, set8(s, at, v), p)]
            0 <= p && p + 4 <= s.len() && (p + 4 <= at || at + 1 <= p) ==> u32_at(
                o,
                set8(s, at, v),
                p,
            ) == u32_at(o, s, p),
        forall|p: int| #![trigger set8(s, at, v)[p]]
            0 <= p < s.len() && p != at ==> set8(s, at, v)[p] == s[p],
{
}

proof fn lemma_input_event(
    conn: ClientConnection,
    kind: u8,
    detail: u8,
    time: u32,
    root: u32,
    window: u32,
    child: u32,
    root_x: i16,
    root_y: i16,
    x: i16,
    y: i16,
    state: u16,
)
    ensures
        reads_input(
            conn.byte_order,
            input_event(conn, kind, detail, time, root, window, child, root_x, root_y, x, y, state),
            kind,
            detail,
            time,
            root,
            window,
            child,
            root_x,
            root_y,
            x,
            y,
            state,
        ),
{
    let o = conn.byte_order;
    let e = event(conn, kind);
    super::events::law_event_header(conn, kind);
    lemma_set8(o, e, 1, detail);
    let e1 = set8(e, 1, detail);
    lemma_set32(o, e1, 4, time);
    let e2 = set32(o, e1, 4, time);
    lemma_set32(o, e2, 8, root);
    let e3 = set32(o, e2, 8, root);
    lemma_set32(o, e3, 12, window);
    let e4 = set32(o, e3, 12, window);
    lemma_set32(o, e4, 16, child);
    let e5 = set32(o, e4, 16, child);
    lemma_set16(o, e5, 20, pattern16(root_x));
    let e6 = set16(o, e5, 20, pattern16(root_x));
    lemma_set16(o, e6, 22, pattern16(root_y));
    let e7 = set16(o, e6, 22, pattern16(root_y));
    lemma_set16(o, e7, 24, pattern16(x));
    let e8 = set16(o, e7, 24, pattern16(x));
    lemma_set16(o, e8, 26, pattern16(y));
    let e9 = set16(o, e8, 26, pattern16(y));
    lemma_set16(o, e9, 28, state);
}

/// A key, button or motion event says what happened, where and when.
pub proof fn law_input_is_read(
    conn: ClientConnection,
    kind: u8,
    detail: u8,
    time: u32,
    root: u32,
    window: u32,
    child: u32,
    root_x: i16,
    root_y: i16,
    x: i16,
    y: i16,
    state: u16,
    same_screen: bool,
)
    ensures
        ({
            let e = key_event(
                conn,
                kind,
                detail,
                time,
                root,
                window,
                child,
                root_x,
                root_y,
                x,
                y,
                state,
                same_screen,
            );
            &&& reads_input(
                conn.byte_order,
                e,
                kind,
                detail,
                time,
                root,
                window,
                child,
                root_x,
                root_y,
                x,
                y,
                state,
            )
            &&& e[30] == if same_screen {
                1u8
            } else {
                0u8
            }
        }),
{
    lemma_input_event(conn, kind, detail, time, root, window, child, root_x, root_y, x, y, state);
    let e = input_event(
        conn,
        kind,
        detail,
        time,
        root,
        window,
        child,
        root_x,
        root_y,
        x,
        y,
        state,
    );
    let v = if same_screen {
        1u8
    } else {
        0u8
    };
    lemma_set8(conn.byte_order, e, 30, v);
}

/// An enter or leave event says where the pointer crossed, and when.
pub proof fn law_crossing_is_read(
    conn: ClientConnection,
    kind: u8,
    time: u32,
    root: u32,
    window: u32,
    root_x: i16,
    root_y: i16,
    x: i16,
    y: i16,
    state: u16,
)
    ensures
        reads_input(
            conn.byte_order,
            crossing_event(conn, kind, time, root, window, root_x, root_y, x, y, state),
            kind,
            0,
            time,
            root,
            window,
            0,
            root_x,
            root_y,
            x,
            y,
            state,
        ),
{
    lemma_input_event(conn, kind, 0, time, root, window, 0, root_x, root_y, x, y, state);
    let e = input_event(conn, kind, 0, time, root, window, 0, root_x, root_y, x, y, state);
    lemma_set8(conn.byte_order, e, 30, 0);
    lemma_set8(conn.byte_order, set8(e, 30, 0), 31, 1);
}

/// A notice of a window's geometry says it.
pub proof fn law_geometry_is_read(
    conn: ClientConnection,
    window: u32,
    x: i16,
    y: i16,
    width: u16,
    height: u16,
    border_width: u16,
    override_redirect: bool,
)
    ensures
        reads_configured(
            conn.byte_order,
            configure_notify(
                conn,
                window,
                window,
                0,
                x,
                y,
                width,
                height,
                border_width,
                override_redirect,
            ),
            window,
            x,
            y,
            width,
            height,
            border_width,
        ),
{
    let o = conn.byte_order;
    let e = event(conn, 22);
    super::events::law_event_header(conn, 22);
    lemma_set32(o, e, 4, window);
    let e1 = set32(o, e, 4, window);
    lemma_set32(o, e1, 8, window);
    let e2 = set32(o, e1, 8, window);
    lemma_set32(o, e2, 12, 0);
    let e3 = set32(o, e2, 12, 0);
    lemma_set16(o, e3, 16, pattern16(x));
    let e4 = set16(o, e3, 16, pattern16(x));
    lemma_set16(o, e4, 18, pattern16(y));
    let e5 = set16(o, e4, 18, pattern16(y));
    lemma_set16(o, e5, 20, width);
    let e6 = set16(o, e5, 20, width);
    lemma_set16(o, e6, 22, height);
    let e7 = set16(o, e6, 22, height);
    lemma_set16(o, e7, 24, border_width);
    let e8 = set16(o, e7, 24, border_width);
    let v = if override_redirect {
        1u8
    } else {
        0u8
    };
    lemma_set8(o, e8, 26, v);
}

/// An exposure says which part of the window it is about.
pub proof fn law_exposure_is_read(
    conn: ClientConnection,
    window: u32,
    x: u16,
    y: u16,
    width: u16,
    height: u16,
    count: u16,
)
    ensures
        reads_exposed(
            conn.byte_order,
            expose_event(conn, window, x, y, width, height, count),
            window,
            x,
            y,
            width,
            height,
            count,
        ),
{
    let o = conn.byte_order;
    let e = event(conn, 12);
    super::events::law_event_header(conn, 12);
    lemma_set32(o, e, 4, window);
    let e1 = set32(o, e, 4, window);
    lemma_set16(o, e1, 8, x);
    let e2 = set16(o, e1, 8, x);
    lemma_set16(o, e2, 10, y);
    let e3 = set16(o, e2, 10, y);
    lemma_set16(o, e3, 12, width);
    let e4 = set16(o, e3, 12, width);
    lemma_set16(o, e4, 14, height);
    let e5 = set16(o, e4, 14, height);
    lemma_set16(o, e5, 16, count);
}

/// A notice of a window's appearance names it.
pub proof fn law_appearance_is_read(conn: ClientConnection, window: u32, override_redirect: bool)
    ensures
        reads_mapped(
            conn.byte_order,
            map_notify(conn, window, window, override_redirect),
            window,
        ),
{
    let o = conn.byte_order;
    let e = event(conn, 19);
    super::events::law_event_header(conn, 19);
    lemma_set32(o, e, 4, window);
    let e1 = set32(o, e, 4, window);
    lemma_set32(o, e1, 8, window);
    let e2 = set32(o, e1, 8, window);
    let v = if override_redirect {
        1u8
    } else {
        0u8
    };
    lemma_set8(o, e2, 12, v);
}

/// A focus event says which window gains or loses the focus.
pub proof fn law_focus_is_read(conn: ClientConnection, kind: u8, window: u32)
    ensures
        reads_focus(conn.byte_order, focus_event(conn, kind, window), kind, window),
{
    let o = conn.byte_order;
    let e = event(conn, kind);
    super::events::law_event_header(conn, kind);
    lemma_set8(o, e, 1, 0);
    let e1 = set8(e, 1, 0);
    lemma_set32(o, e1, 4, window);
    let e2 = set32(o, e1, 4, window);
    lemma_set8(o, e2, 8, 0);
}

/// A request for a selection says who asks for which selection, in which form and
/// where to.
pub proof fn law_selection_request_is_read(
    conn: ClientConnection,
    time: u32,
    owner: u32,
    requestor: u32,
    selection: u32,
    target: u32,
    property: u32,
)
    ensures
        reads_selection_request(
            conn.byte_order,
            selection_request(conn, time, owner, requestor, selection, target, property),
            time,
            owner,
            requestor,
            selection,
            target,
            property,
        ),
{
    let o = conn.byte_order;
    let e = set8(zeros(32), 0, 30);
    lemma_set32(o, e, 4, time);
    let e1 = set32(o, e, 4, time);
    lemma_set32(o, e1, 8, owner);
    let e2 = set32(o, e1, 8, owner);
    lemma_set32(o, e2, 12, requestor);
    let e3 = set32(o, e2, 12, requestor);
    lemma_set32(o, e3, 16, selection);
    let e4 = set32(o, e3, 16, selection);
    lemma_set32(o, e4, 20, target);
    let e5 = set32(o, e4, 20, target);
    lemma_set32(o, e5, 24, property);
}

/// A refusal of a selection says what was asked for, and names no property.
pub proof fn law_refusal_is_read(
    conn: ClientConnection,
    time: u32,
    requestor: u32,
    selection: u32,
    target: u32,
)
    ensures
        reads_selection_notify(
            conn.byte_order,
            refusal(conn, time, requestor, selection, target),
            time,
            requestor,
            selection,
            target,
            0,
        ),
{
    let o = conn.byte_order;
    let e = set8(zeros(32), 0, 31);
    lemma_set32(o, e, 4, time);
    let e1 = set32(o, e, 4, time);
    lemma_set32(o, e1, 8, requestor);
    let e2 = set32(o, e1, 8, requestor);
    lemma_set32(o, e2, 12, selection);
    let e3 = set32(o, e2, 12, selection);
    lemma_set32(o, e3, 16, target);
    let e4 = set32(o, e3, 16, target);
    lemma_set32(o, e4, 20, 0);
}

/// Stamping an event with a number leaves what it says.
pub proof fn lemma_stamped(conn: ClientConnection, e: Seq<u8>, seq: u16)
    requires
        e.len() == 32,
    ensures
        ({
            let o = conn.byte_order;
            let t = stamped(conn, e, seq);
            &&& t.len() == 32
            &&& t[0] == e[0]
            &&& t[1] == e[1]
            &&& u16_at(o, t, 2) == seq
            &&& forall|p: int| #![trigger u16_at(o, t, p)]
                4 <= p <= 30 ==> u16_at(o, t, p) == u16_at(o, e, p)
            &&& forall|p: int| #![trigger u32_at(o, t, p)]
                4 <= p <= 28 ==> u32_at(o, t, p) == u32_at(o, e, p)
        }),
{
    lemma_set16(conn.byte_order, e, 2, seq);
}

} // verus!
