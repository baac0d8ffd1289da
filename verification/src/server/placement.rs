//! Where windows end up, and with which attributes, when a client says so.

use vstd::prelude::*;

use super::connection::ClientConnection;
use super::events::{configure_notify, expose_event, stamped};
use super::layout::{
    halves, lemma_four_bytes, lemma_rank, lemma_request, lemma_two_bytes, lemma_values_fit,
    lemma_words_request, rank, request, words,
};
use super::pasting::answered;
use super::protocol::event_mask;
use super::readings::{
    law_exposure_is_read, law_geometry_is_read, lemma_stamped, reads_configured, reads_exposed,
};
use super::requests::{
    counted, counting, kind_of, processing_may_lead_to, window_fits, window_request, Kind, Pending,
};
use super::resources::WindowModel;
use super::values::has_bit;
use super::windows::{
    anyone_selects, configure_window, configured_after, geometry_reply, resized_all,
};
use super::wire::{i16_at, pattern16, u16_at, u32_at, ByteOrder};
use super::{ActionModel, ServerModel};
use crate::display::DisplayModel;

verus! {

/// A request about windows, once it was processed.
pub proof fn lemma_window_processed(
    s: ServerModel,
    id: u32,
    data: Seq<u8>,
    after: ServerModel,
    r: Option<Pending>,
)
    requires
        s.connections.dom().contains(id),
        data.len() >= 4,
        kind_of(data[0]) == Kind::Window,
        window_fits(counted(s, id), counting(s.connections[id]), data),
        processing_may_lead_to(s, id, data, after, r),
    ensures
        window_request(counted(s, id), counting(s.connections[id]), data).1 is Ok ==> after
            == window_request(counted(s, id), counting(s.connections[id]), data).0,
{
}

/// ConfigureWindow with some of x, y, width, height and border width. A value
/// stands in the first half of its word.
pub open spec fn configure_request(o: ByteOrder, window: u32, mask: u16, values: Seq<u16>) -> Seq<u8> {
    request(
        o,
        12,
        0,
        words(o, seq![window]) + halves(o, seq![mask, 0u16] + values) + words(o, seq![]) + seq![],
    )
}

proof fn lemma_configure_request(o: ByteOrder, window: u32, mask: u16, values: Seq<u16>)
    ensures
        ({
            let data = configure_request(o, window, mask, values);
            &&& data.len() == 12 + 2 * values.len()
            &&& data[0] == 12
            &&& u32_at(o, data, 4) == window
            &&& u16_at(o, data, 8) == mask
            &&& forall|i: int| #![trigger values[i]]
                0 <= i < values.len() ==> u16_at(o, data, 12 + 2 * i) == values[i]
        }),
{
    let ws = seq![window];
    let hs = seq![mask, 0u16] + values;
    let data = configure_request(o, window, mask, values);
    lemma_request(o, 12, 0, ws, hs, seq![], seq![]);
    assert(ws[0] == window);
    assert(hs[0] == mask);
    assert forall|i: int| #![trigger values[i]] 0 <= i < values.len() implies u16_at(
        o,
        data,
        12 + 2 * i,
    ) == values[i] by {
        assert(hs[i + 2] == values[i]);
    }
}

/// Whether a window has a value for a bit of ConfigureWindow's mask.
pub open spec fn has_geometry(w: WindowModel, b: int, v: u16) -> bool {
    if b == 0 {
        pattern16(w.x) == v
    } else if b == 1 {
        pattern16(w.y) == v
    } else if b == 2 {
        w.width == v
    } else if b == 3 {
        w.height == v
    } else {
        w.border_width == v
    }
}

proof fn lemma_configured_keeps(
    w: WindowModel,
    o: ByteOrder,
    data: Seq<u8>,
    at: int,
    mask: u32,
    bit: int,
    b: int,
    v: u16,
)
    requires
        0 <= b < 5,
        0 <= bit,
        b < bit || !has_bit(mask, b),
        has_geometry(w, b, v),
    ensures
        has_geometry(configured_after(w, o, data, at, mask, bit), b, v),
    decreases 5 - bit,
{
    if bit < 5 {
        if has_bit(mask, bit) {
            let next = if bit == 0 {
                WindowModel { x: i16_at(o, data, at), ..w }
            } else if bit == 1 {
                WindowModel { y: i16_at(o, data, at), ..w }
            } else if bit == 2 {
                WindowModel { width: u16_at(o, data, at), ..w }
            } else if bit == 3 {
                WindowModel { height: u16_at(o, data, at), ..w }
            } else {
                WindowModel { border_width: u16_at(o, data, at), ..w }
            };
            lemma_configured_keeps(next, o, data, at + 4, mask, bit + 1, b, v);
        } else {
            lemma_configured_keeps(w, o, data, at, mask, bit + 1, b, v);
        }
    }
}

proof fn lemma_configured_sets(
    w: WindowModel,
    o: ByteOrder,
    data: Seq<u8>,
    at: int,
    mask: u32,
    bit: int,
    b: int,
)
    requires
        0 <= bit <= b < 5,
        has_bit(mask, b),
    ensures
        has_geometry(
            configured_after(w, o, data, at, mask, bit),
            b,
            u16_at(o, data, at + 4 * rank(mask, bit, b)),
        ),
    decreases 5 - bit,
{
    if has_bit(mask, bit) {
        let next = if bit == 0 {
            WindowModel { x: i16_at(o, data, at), ..w }
        } else if bit == 1 {
            WindowModel { y: i16_at(o, data, at), ..w }
        } else if bit == 2 {
            WindowModel { width: u16_at(o, data, at), ..w }
        } else if bit == 3 {
            WindowModel { height: u16_at(o, data, at), ..w }
        } else {
            WindowModel { border_width: u16_at(o, data, at), ..w }
        };
        if bit == b {
            lemma_configured_keeps(
                next,
                o,
                data,
                at + 4,
                mask,
                bit + 1,
                b,
                u16_at(o, data, at),
            );
        } else {
            lemma_configured_sets(next, o, data, at + 4, mask, bit + 1, b);
        }
    } else {
        lemma_configured_sets(w, o, data, at, mask, bit + 1, b);
    }
}

/// Configuring changes nothing but the geometry.
proof fn lemma_configured_frame(
    w: WindowModel,
    o: ByteOrder,
    data: Seq<u8>,
    at: int,
    mask: u32,
    bit: int,
)
    requires
        0 <= bit,
    ensures
        ({
            let c = configured_after(w, o, data, at, mask, bit);
            c == WindowModel {
                x: c.x,
                y: c.y,
                width: c.width,
                height: c.height,
                border_width: c.border_width,
                ..w
            }
        }),
    decreases 5 - bit,
{
    if bit < 5 {
        if has_bit(mask, bit) {
            let next = if bit == 0 {
                WindowModel { x: i16_at(o, data, at), ..w }
            } else if bit == 1 {
                WindowModel { y: i16_at(o, data, at), ..w }
            } else if bit == 2 {
                WindowModel { width: u16_at(o, data, at), ..w }
            } else if bit == 3 {
                WindowModel { height: u16_at(o, data, at), ..w }
            } else {
                WindowModel { border_width: u16_at(o, data, at), ..w }
            };
            lemma_configured_frame(next, o, data, at + 4, mask, bit + 1);
        } else {
            lemma_configured_frame(w, o, data, at, mask, bit + 1);
        }
    }
}

/// Giving windows a size changes no window otherwise.
proof fn lemma_resized_frame(
    s: ServerModel,
    conn: ClientConnection,
    ids: Seq<u32>,
    width: u16,
    height: u16,
    k: u32,
)
    ensures
        ({
            let t = resized_all(s, conn, ids, width, height);
            &&& t.outbox.len() >= s.outbox.len()
            &&& t.outbox.take(s.outbox.len() as int) == s.outbox
            &&& t.connections == s.connections
            &&& t.screen == s.screen
            &&& match s.window(k) {
                Some(w) => t.window(k) == Some(w) || t.window(k) == Some(
                    (WindowModel { width, height, ..w }),
                ),
                None => t.window(k) is None,
            }
        }),
    decreases ids.len(),
{
    if ids.len() == 0 {
        assert(s.outbox.take(s.outbox.len() as int) =~= s.outbox);
    } else {
        lemma_resized_frame(s, conn, ids.drop_last(), width, height, k);
        let before = resized_all(s, conn, ids.drop_last(), width, height);
        let t = resized_all(s, conn, ids, width, height);
        assert(t.outbox.take(s.outbox.len() as int) =~= before.outbox.take(s.outbox.len() as int));
    }
}

proof fn lemma_is_configure(s: ServerModel, conn: ClientConnection, data: Seq<u8>)
    requires
        data[0] == 12,
    ensures
        window_request(s, conn, data) == configure_window(s, conn, data),
{
    reveal(window_request);
}

/// After ConfigureWindow the window has each value that was sent, at the place
/// of its bit among those of the mask, and is otherwise as it was.
pub proof fn law_windows_take_their_place(
    s: ServerModel,
    id: u32,
    window: u32,
    mask: u16,
    values: Seq<u16>,
    after: ServerModel,
    r: Option<Pending>,
)
    requires
        s.connections.dom().contains(id),
        s.window(window) is Some,
        mask < 32,
        values.len() == 2 * rank(mask as u32, 0, 5),
        processing_may_lead_to(
            s,
            id,
            configure_request(s.connections[id].byte_order, window, mask, values),
            after,
            r,
        ),
    ensures
        after.window(window) is Some,
        ({
            let old = s.window(window)->0;
            let new = after.window(window)->0;
            &&& new == WindowModel {
                x: new.x,
                y: new.y,
                width: new.width,
                height: new.height,
                border_width: new.border_width,
                ..old
            }
            &&& forall|b: int, v: u16| #![trigger has_geometry(old, b, v)]
                0 <= b < 5 && !has_bit(mask as u32, b) && has_geometry(old, b, v) ==> has_geometry(
                    new,
                    b,
                    v,
                )
            &&& forall|b: int| #![trigger has_bit(mask as u32, b)]
                0 <= b < 5 && has_bit(mask as u32, b) ==> has_geometry(
                    new,
                    b,
                    values[2 * rank(mask as u32, 0, b)],
                )
            &&& after.outbox.len() >= s.outbox.len()
            &&& place_is_told(
                s.connections[id].byte_order,
                s.connections[id].id,
                window,
                new,
                new.width != old.width || new.height != old.height,
                after.outbox.skip(s.outbox.len() as int),
            )
        }),
        after.connections == counted(s, id).connections,
        after.screen == s.screen,
{
    let o = s.connections[id].byte_order;
    let conn = counting(s.connections[id]);
    let begun = counted(s, id);
    let data = configure_request(o, window, mask, values);
    let old = s.window(window)->0;
    let m = mask as u32;
    lemma_configure_request(o, window, mask, values);
    lemma_values_fit(m, 0x1F, data.len() as int, 12, 0, 5);
    lemma_is_configure(begun, conn, data);
    lemma_window_processed(s, id, data, after, r);
    let w = configured_after(old, o, data, 12, m, 0);
    lemma_configured_frame(old, o, data, 12, m, 0);
    lemma_configure_leaves(begun, conn, data, window);
    let new = after.window(window)->0;
    assert(new == w);
    assert forall|b: int, v: u16| #![trigger has_geometry(old, b, v)]
        0 <= b < 5 && !has_bit(m, b) && has_geometry(old, b, v) implies has_geometry(new, b, v) by {
        lemma_configured_keeps(old, o, data, 12, m, 0, b, v);
    }
    assert forall|b: int| #![trigger has_bit(m, b)] 0 <= b < 5 && has_bit(m, b) implies has_geometry(
        new,
        b,
        values[2 * rank(m, 0, b)],
    ) by {
        lemma_configured_sets(old, o, data, 12, m, 0, b);
        lemma_rank(m, 0, b, 5);
        assert(12 + 2 * (2 * rank(m, 0, b)) == 12 + 4 * rank(m, 0, b));
        assert(values[2 * rank(m, 0, b)] == u16_at(o, data, 12 + 4 * rank(m, 0, b)));
    }
}

/// Whether the native window, and a client that asked to hear of it, were told
/// where a window is now.
pub open spec fn place_is_told(
    o: ByteOrder,
    who: u32,
    window: u32,
    w: WindowModel,
    resized: bool,
    new: Seq<ActionModel>,
) -> bool {
    &&& w.native_window matches Some(handle) ==> exists|i: int|
        0 <= i < new.len() && #[trigger] new[i] == ActionModel::Display(
            DisplayModel::MoveResizeWindow {
                handle,
                x: w.x,
                y: w.y,
                width: w.width,
                height: w.height,
            },
        )
    &&& anyone_selects(w.event_selections, 0x20000) ==> exists|i: int|
        0 <= i < new.len() && (#[trigger] new[i] matches ActionModel::Reply { conn, data } && conn
            == who && reads_configured(
            o,
            data,
            window,
            w.x,
            w.y,
            w.width,
            w.height,
            w.border_width,
        ))
    &&& resized ==> exists|i: int|
        0 <= i < new.len() && (#[trigger] new[i] matches ActionModel::Reply { conn, data } && conn
            == who && reads_exposed(o, data, window, 0, 0, w.width, w.height, 0))
}

/// What ConfigureWindow has told before it turns to the children.
spec fn configure_told(
    s: ServerModel,
    conn: ClientConnection,
    window: u32,
    old: WindowModel,
    w: WindowModel,
) -> ServerModel {
    let resized = w.width != old.width || w.height != old.height;
    let placed = s.with_window(window, w);
    let shown = match w.native_window {
        Some(handle) => {
            let quiet = if resized {
                placed.doing(ActionModel::SuppressResizeEvents)
            } else {
                placed
            };
            quiet.showing(
                DisplayModel::MoveResizeWindow {
                    handle,
                    x: w.x,
                    y: w.y,
                    width: w.width,
                    height: w.height,
                },
            )
        },
        None => placed,
    };
    let seq = conn.request_sequence();
    let told = if anyone_selects(w.event_selections, event_mask::STRUCTURE_NOTIFY) {
        shown.replying(
            conn,
            stamped(
                conn,
                configure_notify(
                    conn,
                    window,
                    window,
                    0,
                    w.x,
                    w.y,
                    w.width,
                    w.height,
                    w.border_width,
                    w.override_redirect,
                ),
                seq,
            ),
        )
    } else {
        shown
    };
    if resized {
        told.replying(
            conn,
            stamped(conn, expose_event(conn, window, 0, 0, w.width, w.height, 0), seq),
        )
    } else {
        told
    }
}

proof fn lemma_configure_told(
    s: ServerModel,
    conn: ClientConnection,
    window: u32,
    old: WindowModel,
    w: WindowModel,
    last: Seq<ActionModel>,
)
    requires
        configure_told(s, conn, window, old, w).outbox.len() <= last.len(),
        configure_told(s, conn, window, old, w).outbox == last.take(
            configure_told(s, conn, window, old, w).outbox.len() as int,
        ),
    ensures
        last.len() >= s.outbox.len(),
        place_is_told(
            conn.byte_order,
            conn.id,
            window,
            w,
            w.width != old.width || w.height != old.height,
            last.skip(s.outbox.len() as int),
        ),
{
    let told = configure_told(s, conn, window, old, w).outbox;
    let resized = w.width != old.width || w.height != old.height;
    let native = w.native_window is Some;
    let heard = anyone_selects(w.event_selections, event_mask::STRUCTURE_NOTIFY);
    let n = s.outbox.len();
    let new = last.skip(n as int);
    let seq = conn.request_sequence();
    let c = configure_notify(
        conn,
        window,
        window,
        0,
        w.x,
        w.y,
        w.width,
        w.height,
        w.border_width,
        w.override_redirect,
    );
    law_geometry_is_read(
        conn,
        window,
        w.x,
        w.y,
        w.width,
        w.height,
        w.border_width,
        w.override_redirect,
    );
    lemma_stamped(conn, c, seq);
    let x = expose_event(conn, window, 0, 0, w.width, w.height, 0);
    law_exposure_is_read(conn, window, 0, 0, w.width, w.height, 0);
    lemma_stamped(conn, x, seq);
    assert forall|i: int| 0 <= i < told.len() - n implies new[i] == #[trigger] told[n + i] by {
        assert(told[n + i] == last[n + i]);
    }
    let moved = if native && resized {
        1int
    } else {
        0int
    };
    if native {
        assert(new[moved] == told[n + moved]);
    }
    let noted = if native {
        moved + 1
    } else {
        0int
    };
    if heard {
        assert(new[noted] == told[n + noted]);
    }
    let bared = if heard {
        noted + 1
    } else {
        noted
    };
    if resized {
        assert(new[bared] == told[n + bared]);
    }
}

/// What ConfigureWindow leaves of the window it is about.
proof fn lemma_configure_leaves(s: ServerModel, conn: ClientConnection, data: Seq<u8>, window: u32)
    requires
        data.len() >= 12,
        u32_at(conn.byte_order, data, 4) == window,
        s.window(window) is Some,
    ensures
        ({
            let o = conn.byte_order;
            let old = s.window(window)->0;
            let w = configured_after(old, o, data, 12, u16_at(o, data, 8) as u32, 0);
            let out = configure_window(s, conn, data);
            &&& out.1 is Ok
            &&& out.0.window(window) == Some(w)
            &&& out.0.connections == s.connections
            &&& out.0.screen == s.screen
            &&& out.0.outbox.len() >= s.outbox.len()
            &&& place_is_told(
                o,
                conn.id,
                window,
                w,
                w.width != old.width || w.height != old.height,
                out.0.outbox.skip(s.outbox.len() as int),
            )
        }),
{
    let o = conn.byte_order;
    let old = s.window(window)->0;
    let w = configured_after(old, o, data, 12, u16_at(o, data, 8) as u32, 0);
    let told = configure_told(s, conn, window, old, w);
    let resized = w.width != old.width || w.height != old.height;
    let out = configure_window(s, conn, data).0;
    if resized {
        assert(out == resized_all(told, conn, w.children, w.width, w.height));
        lemma_resized_frame(told, conn, w.children, w.width, w.height, window);
    } else {
        assert(out == told);
        assert(told.outbox =~= out.outbox.take(told.outbox.len() as int));
    }
    lemma_configure_told(s, conn, window, old, w, out.outbox);
}

/// The answer to GetGeometry as a client reads it.
pub open spec fn reads_geometry(
    o: ByteOrder,
    e: Seq<u8>,
    root: u32,
    depth: u8,
    x: i16,
    y: i16,
    width: u16,
    height: u16,
    border_width: u16,
) -> bool {
    &&& e.len() == 32
    &&& e[0] == 1
    &&& e[1] == depth
    &&& u32_at(o, e, 4) == 0
    &&& u32_at(o, e, 8) == root
    &&& u16_at(o, e, 12) == pattern16(x)
    &&& u16_at(o, e, 14) == pattern16(y)
    &&& u16_at(o, e, 16) == width
    &&& u16_at(o, e, 18) == height
    &&& u16_at(o, e, 20) == border_width
}

proof fn lemma_geometry_reply(
    s: ServerModel,
    conn: ClientConnection,
    depth: u8,
    x: i16,
    y: i16,
    width: u16,
    height: u16,
    border_width: u16,
)
    ensures
        reads_geometry(
            conn.byte_order,
            geometry_reply(s, conn, depth, x, y, width, height, border_width),
            s.root(),
            depth,
            x,
            y,
            width,
            height,
            border_width,
        ),
{
    let o = conn.byte_order;
    let e = geometry_reply(s, conn, depth, x, y, width, height, border_width);
    lemma_four_bytes(o, e, 4, 0);
    lemma_four_bytes(o, e, 8, s.root());
    lemma_two_bytes(o, e, 12, pattern16(x));
    lemma_two_bytes(o, e, 14, pattern16(y));
    lemma_two_bytes(o, e, 16, width);
    lemma_two_bytes(o, e, 18, height);
    lemma_two_bytes(o, e, 20, border_width);
}

/// GetGeometry as a client writes it.
pub open spec fn geometry_request(o: ByteOrder, drawable: u32) -> Seq<u8> {
    request(o, 14, 0, words(o, seq![drawable]))
}

proof fn lemma_is_get_geometry(s: ServerModel, conn: ClientConnection, window: u32) -> (e: Seq<u8>)
    requires
        s.window(window) is Some,
        window != 0,
        window != s.root(),
    ensures
        ({
            let o = conn.byte_order;
            let data = geometry_request(o, window);
            let w = s.window(window)->0;
            &&& data.len() == 8
            &&& data[0] == 14
            &&& window_fits(s, conn, data)
            &&& window_request(s, conn, data).1 is Ok
            &&& window_request(s, conn, data).0 == s.replying(conn, e)
            &&& reads_geometry(
                o,
                e,
                s.root(),
                w.depth,
                w.x,
                w.y,
                w.width,
                w.height,
                w.border_width,
            )
        }),
{
    let o = conn.byte_order;
    let w = s.window(window)->0;
    let ws = seq![window];
    lemma_words_request(o, 14, 0, ws);
    assert(ws[0] == window);
    reveal(window_request);
    lemma_geometry_reply(s, conn, w.depth, w.x, w.y, w.width, w.height, w.border_width);
    geometry_reply(s, conn, w.depth, w.x, w.y, w.width, w.height, w.border_width)
}

/// GetGeometry on a window replies with the window's depth, position, size and
/// border width, each in its place.
pub proof fn law_geometry_is_replied(
    s: ServerModel,
    id: u32,
    window: u32,
    after: ServerModel,
    r: Option<Pending>,
)
    requires
        s.connections.dom().contains(id),
        s.window(window) is Some,
        window != 0,
        window != s.root(),
        processing_may_lead_to(
            s,
            id,
            geometry_request(s.connections[id].byte_order, window),
            after,
            r,
        ),
    ensures
        ({
            let w = s.window(window)->0;
            exists|e: Seq<u8>| #[trigger]
                answered(s, after, s.connections[id].id, e) && reads_geometry(
                    s.connections[id].byte_order,
                    e,
                    s.root(),
                    w.depth,
                    w.x,
                    w.y,
                    w.width,
                    w.height,
                    w.border_width,
                )
        }),
{
    let data = geometry_request(s.connections[id].byte_order, window);
    let e = lemma_is_get_geometry(counted(s, id), counting(s.connections[id]), window);
    lemma_window_processed(s, id, data, after, r);
    assert(answered(s, after, s.connections[id].id, e));
}

/// A window that ConfigureWindow was told to take a place and a size is where and
/// as large as that: GetGeometry replies with the four values that were sent, and
/// with the depth and border width that the window had.
pub proof fn law_configured_geometry_is_replied(
    s: ServerModel,
    id: u32,
    window: u32,
    x: i16,
    y: i16,
    width: u16,
    height: u16,
    pad: u16,
    mid: ServerModel,
    q: Option<Pending>,
    after: ServerModel,
    r: Option<Pending>,
)
    requires
        s.connections.dom().contains(id),
        s.window(window) is Some,
        window != 0,
        window != s.root(),
        processing_may_lead_to(
            s,
            id,
            configure_request(
                s.connections[id].byte_order,
                window,
                0x0F,
                seq![pattern16(x), pad, pattern16(y), pad, width, pad, height, pad],
            ),
            mid,
            q,
        ),
        processing_may_lead_to(
            mid,
            id,
            geometry_request(s.connections[id].byte_order, window),
            after,
            r,
        ),
    ensures
        ({
            let w = s.window(window)->0;
            exists|e: Seq<u8>| #[trigger]
                answered(mid, after, s.connections[id].id, e) && reads_geometry(
                    s.connections[id].byte_order,
                    e,
                    s.root(),
                    w.depth,
                    x,
                    y,
                    width,
                    height,
                    w.border_width,
                )
        }),
{
    let old = s.window(window)->0;
    let values = seq![pattern16(x), pad, pattern16(y), pad, width, pad, height, pad];
    lemma_low_bits();
    law_windows_take_their_place(s, id, window, 0x0F, values, mid, q);
    let new = mid.window(window)->0;
    assert(has_bit(0x0Fu16 as u32, 0) && has_bit(0x0Fu16 as u32, 1) && has_bit(0x0Fu16 as u32, 2)
        && has_bit(0x0Fu16 as u32, 3));
    assert(values[0] == pattern16(x) && values[2] == pattern16(y) && values[4] == width && values[6]
        == height);
    assert(has_geometry(new, 0, pattern16(x)));
    assert(has_geometry(new, 1, pattern16(y)));
    assert(has_geometry(old, 4, old.border_width));
    assert(has_geometry(new, 4, old.border_width));
    law_geometry_is_replied(mid, id, window, after, r);
}

proof fn lemma_low_bits()
    ensures
        has_bit(0x0Fu32, 0),
        has_bit(0x0Fu32, 1),
        has_bit(0x0Fu32, 2),
        has_bit(0x0Fu32, 3),
        !has_bit(0x0Fu32, 4),
        rank(0x0Fu32, 0, 0) == 0,
        rank(0x0Fu32, 0, 1) == 1,
        rank(0x0Fu32, 0, 2) == 2,
        rank(0x0Fu32, 0, 3) == 3,
        rank(0x0Fu32, 0, 4) == 4,
        rank(0x0Fu32, 0, 5) == 4,
{
    assert(15u32 & (1u32 << 0u32) != 0 && 15u32 & (1u32 << 1u32) != 0 && 15u32 & (1u32 << 2u32) != 0
        && 15u32 & (1u32 << 3u32) != 0 && 15u32 & (1u32 << 4u32) == 0) by (bit_vector);
    reveal_with_fuel(rank, 6);
}

} // verus!
