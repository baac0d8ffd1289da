//! Where clients find the pointer and the focus, and where they put them.

use vstd::prelude::*;

use super::aim::{ancestor, parent_of, position_in, same16};
use super::connection::{reply_head, ClientConnection};
use super::layout::{lemma_four_bytes, lemma_two_bytes};
use super::pasting::answered;
use super::pointer::{
    highest_below_root, offset_below, pointer_in, screen_position, translated, warp_event,
    warp_told, warped, warped_all,
};
use super::readings::{law_input_is_read, reads_input};
use super::requests::{
    counted, counting, input_fits, input_request, kind_of, processing_may_lead_to, Kind, Pending,
};
use super::resources::ResourceModel;
use super::search::MAX_ASCENT;
use super::tidings::{grows, heard, lemma_grows_on, lemma_heard_later, lemma_heard_more};
use super::wire::{bytes16, bytes32, i16_at, pattern16, u16_at, u32_at, wrap16, zeros, ByteOrder};
use super::{window_in, ActionModel, ServerModel};

verus! {

/// A request about the pointer, the keyboard or the focus, once it was processed.
pub proof fn lemma_input_processed(
    s: ServerModel,
    id: u32,
    data: Seq<u8>,
    after: ServerModel,
    r: Option<Pending>,
)
    requires
        s.connections.dom().contains(id),
        data.len() >= 4,
        kind_of(data[0]) == Kind::Input,
        input_fits(data),
        processing_may_lead_to(s, id, data, after, r),
    ensures
        input_request(counted(s, id), counting(s.connections[id]), data).1 is Ok ==> after
            == input_request(counted(s, id), counting(s.connections[id]), data).0,
{
}

/// Whether a window lies a number of levels below another, with windows all the
/// way up, none of them the root or the other one.
pub open spec fn lies_below(
    m: Map<u32, ResourceModel>,
    root: u32,
    window: u32,
    top: u32,
    n: nat,
) -> bool {
    &&& ancestor(m, window, n) == top
    &&& forall|i: nat|
        i < n ==> {
            let a = #[trigger] ancestor(m, window, i);
            a != top && a != root && a != 0 && window_in(m, a) is Some
        }
}

proof fn lemma_below_parent(
    m: Map<u32, ResourceModel>,
    root: u32,
    window: u32,
    top: u32,
    n: nat,
)
    requires
        n > 0,
        lies_below(m, root, window, top, n),
    ensures
        window != top,
        window != root,
        window != 0,
        window_in(m, window) is Some,
        lies_below(m, root, parent_of(m, window), top, (n - 1) as nat),
{
    assert(ancestor(m, window, 0) == window);
    let p = parent_of(m, window);
    assert forall|i: nat| i < n - 1 implies {
        let a = #[trigger] ancestor(m, p, i);
        a != top && a != root && a != 0 && window_in(m, a) is Some
    } by {
        assert(ancestor(m, window, i + 1) == ancestor(m, p, i));
    }
}

/// The offset of a window below another is the sum of the positions between them.
proof fn lemma_offset(
    m: Map<u32, ResourceModel>,
    stop: u32,
    root: u32,
    window: u32,
    fuel: nat,
    n: nat,
)
    requires
        lies_below(m, root, window, stop, n),
        n <= fuel,
    ensures
        offset_below(m, stop, root, window, fuel) == position_in(m, window, n),
        -32768 * n <= position_in(m, window, n).0 <= 32767 * n,
        -32768 * n <= position_in(m, window, n).1 <= 32767 * n,
    decreases n,
{
    if n > 0 {
        lemma_below_parent(m, root, window, stop, n);
        lemma_offset(m, stop, root, parent_of(m, window), (fuel - 1) as nat, (n - 1) as nat);
    }
}

proof fn lemma_highest(
    m: Map<u32, ResourceModel>,
    root: u32,
    window: u32,
    fuel: nat,
    n: nat,
)
    requires
        lies_below(m, root, window, root, n),
        0 < n <= fuel,
    ensures
        highest_below_root(m, root, window, fuel) == ancestor(m, window, (n - 1) as nat),
    decreases n,
{
    lemma_below_parent(m, root, window, root, n);
    if n > 1 {
        lemma_below_parent(m, root, parent_of(m, window), root, (n - 1) as nat);
        lemma_highest(m, root, parent_of(m, window), (fuel - 1) as nat, (n - 1) as nat);
    }
}

/// The answer to QueryPointer as a client reads it.
pub open spec fn reads_pointer(
    o: ByteOrder,
    e: Seq<u8>,
    root: u32,
    root_x: i16,
    root_y: i16,
    x: i16,
    y: i16,
) -> bool {
    &&& e.len() == 32
    &&& e[0] == 1
    &&& e[1] == 1
    &&& u32_at(o, e, 8) == root
    &&& u32_at(o, e, 12) == 0
    &&& i16_at(o, e, 16) == root_x
    &&& i16_at(o, e, 18) == root_y
    &&& i16_at(o, e, 20) == x
    &&& i16_at(o, e, 22) == y
}

proof fn lemma_query_pointer(s: ServerModel, conn: ClientConnection, data: Seq<u8>, window: u32) -> (e: Seq<
    u8,
>)
    requires
        data.len() >= 8,
        data[0] == 38,
        u32_at(conn.byte_order, data, 4) == window,
    ensures
        input_request(s, conn, data).1 is Ok,
        input_request(s, conn, data).0 == s.replying(conn, e),
        reads_pointer(
            conn.byte_order,
            e,
            s.root(),
            wrap16(s.pointer_x as int),
            wrap16(s.pointer_y as int),
            pointer_in(s, window).0,
            pointer_in(s, window).1,
        ),
{
    reveal(input_request);
    let o = conn.byte_order;
    let (x, y) = pointer_in(s, window);
    let e = reply_head(conn, 1, 0) + bytes32(o, s.root()) + bytes32(o, 0) + bytes16(
        o,
        pattern16(wrap16(s.pointer_x as int)),
    ) + bytes16(o, pattern16(wrap16(s.pointer_y as int))) + bytes16(o, pattern16(x)) + bytes16(
        o,
        pattern16(y),
    ) + bytes16(o, 0) + zeros(6);
    lemma_four_bytes(o, e, 8, s.root());
    lemma_four_bytes(o, e, 12, 0);
    lemma_two_bytes(o, e, 16, pattern16(wrap16(s.pointer_x as int)));
    lemma_two_bytes(o, e, 18, pattern16(wrap16(s.pointer_y as int)));
    lemma_two_bytes(o, e, 20, pattern16(x));
    lemma_two_bytes(o, e, 22, pattern16(y));
    e
}

proof fn lemma_wrapped_difference(x: i16, d: int, w: i16)
    requires
        w == x.wrapping_sub(wrap16(d)),
    ensures
        same16(w + d, x as int),
{
}

/// The window just below the root comes up only at the end of the way.
proof fn lemma_top_is_last(m: Map<u32, ResourceModel>, root: u32, window: u32, n: nat)
    requires
        0 < n,
        lies_below(m, root, window, root, n),
    ensures
        lies_below(m, root, window, ancestor(m, window, (n - 1) as nat), (n - 1) as nat),
{
    let k = (n - 1) as nat;
    let top = ancestor(m, window, k);
    assert forall|i: nat| i < k implies {
        let a = #[trigger] ancestor(m, window, i);
        a != top && a != root && a != 0 && window_in(m, a) is Some
    } by {
        let a = ancestor(m, window, i);
        if a == top {
            lemma_ancestor_above(m, window, i);
            lemma_ancestor_above(m, window, k);
            assert(ancestor(m, window, i + 1) == root);
            assert(i + 1 < n);
        }
    }
}

proof fn lemma_ancestor_above(m: Map<u32, ResourceModel>, window: u32, n: nat)
    ensures
        ancestor(m, window, n + 1) == parent_of(m, ancestor(m, window, n)),
    decreases n,
{
    if n > 0 {
        lemma_ancestor_above(m, parent_of(m, window), (n - 1) as nat);
    } else {
        assert(ancestor(m, parent_of(m, window), 0) == parent_of(m, window));
    }
}

proof fn lemma_pointer_known(s: ServerModel, window: u32, n: nat)
    requires
        0 < n <= MAX_ASCENT,
        lies_below(s.resources, s.root(), window, s.root(), n),
        s.window_pointer.dom().contains(ancestor(s.resources, window, (n - 1) as nat)),
    ensures
        ({
            let m = s.resources;
            let top = ancestor(m, window, (n - 1) as nat);
            let (x, y) = pointer_in(s, window);
            &&& same16(x + position_in(m, window, (n - 1) as nat).0, s.window_pointer[top].0 as int)
            &&& same16(y + position_in(m, window, (n - 1) as nat).1, s.window_pointer[top].1 as int)
        }),
{
    let m = s.resources;
    let k = (n - 1) as nat;
    let top = ancestor(m, window, k);
    lemma_highest(m, s.root(), window, MAX_ASCENT as nat, n);
    lemma_top_is_last(m, s.root(), window, n);
    assert(ancestor(m, window, 0) == window);
    let (x, y) = pointer_in(s, window);
    let (tx, ty) = s.window_pointer[top];
    if window == top {
        assert(k == 0);
    } else {
        lemma_offset(m, top, s.root(), window, MAX_ASCENT as nat, k);
        lemma_wrapped_difference(tx, position_in(m, window, k).0, x);
        lemma_wrapped_difference(ty, position_in(m, window, k).1, y);
    }
}

proof fn lemma_pointer_unknown(s: ServerModel, window: u32, n: nat)
    requires
        0 < n <= MAX_ASCENT,
        lies_below(s.resources, s.root(), window, s.root(), n),
        !s.window_pointer.dom().contains(ancestor(s.resources, window, (n - 1) as nat)),
    ensures
        ({
            let m = s.resources;
            let (x, y) = pointer_in(s, window);
            &&& same16(x + position_in(m, window, n).0, wrap16(s.pointer_x as int) as int)
            &&& same16(y + position_in(m, window, n).1, wrap16(s.pointer_y as int) as int)
        }),
{
    let m = s.resources;
    lemma_highest(m, s.root(), window, MAX_ASCENT as nat, n);
    lemma_below_parent(m, s.root(), window, s.root(), n);
    lemma_offset(m, s.root(), s.root(), window, MAX_ASCENT as nat, n);
    let (x, y) = pointer_in(s, window);
    lemma_wrapped_difference(wrap16(s.pointer_x as int), position_in(m, window, n).0, x);
    lemma_wrapped_difference(wrap16(s.pointer_y as int), position_in(m, window, n).1, y);
}

/// QueryPointer on a window replies with the pointer in the window's coordinates:
/// with the positions of the windows above it they are the coordinates that the
/// native window last reported, or those on the screen where it reported none.
pub proof fn law_pointer_is_replied(
    s: ServerModel,
    id: u32,
    data: Seq<u8>,
    window: u32,
    n: nat,
    after: ServerModel,
    r: Option<Pending>,
)
    requires
        s.connections.dom().contains(id),
        data.len() >= 8,
        data[0] == 38,
        u32_at(s.connections[id].byte_order, data, 4) == window,
        0 < n <= 32,
        lies_below(s.resources, s.root(), window, s.root(), n),
        processing_may_lead_to(s, id, data, after, r),
    ensures
        exists|e: Seq<u8>, x: i16, y: i16| #[trigger]
            answered(s, after, s.connections[id].id, e) && #[trigger] reads_pointer(
                s.connections[id].byte_order,
                e,
                s.root(),
                wrap16(s.pointer_x as int),
                wrap16(s.pointer_y as int),
                x,
                y,
            ) && ({
                let m = s.resources;
                let k = (n - 1) as nat;
                let top = ancestor(m, window, k);
                if s.window_pointer.dom().contains(top) {
                    same16(x + position_in(m, window, k).0, s.window_pointer[top].0 as int)
                        && same16(y + position_in(m, window, k).1, s.window_pointer[top].1 as int)
                } else {
                    same16(x + position_in(m, window, n).0, s.pointer_x as int) && same16(
                        y + position_in(m, window, n).1,
                        s.pointer_y as int,
                    )
                }
            }),
{
    let begun = counted(s, id);
    let conn = counting(s.connections[id]);
    let e = lemma_query_pointer(begun, conn, data, window);
    lemma_input_processed(s, id, data, after, r);
    let (x, y) = pointer_in(begun, window);
    if s.window_pointer.dom().contains(ancestor(s.resources, window, (n - 1) as nat)) {
        lemma_pointer_known(begun, window, n);
    } else {
        lemma_pointer_unknown(begun, window, n);
        lemma_same16_wrap(x + position_in(s.resources, window, n).0, s.pointer_x as int);
        lemma_same16_wrap(y + position_in(s.resources, window, n).1, s.pointer_y as int);
    }
    assert(answered(s, after, s.connections[id].id, e));
    assert(reads_pointer(
        s.connections[id].byte_order,
        e,
        s.root(),
        wrap16(s.pointer_x as int),
        wrap16(s.pointer_y as int),
        x,
        y,
    ));
}

proof fn lemma_same16_wrap(a: int, b: int)
    requires
        same16(a, wrap16(b) as int),
    ensures
        same16(a, b),
{
}

proof fn lemma_translate(
    s: ServerModel,
    conn: ClientConnection,
    data: Seq<u8>,
    from: u32,
    to: u32,
    x: i16,
    y: i16,
) -> (e: Seq<u8>)
    requires
        data.len() >= 16,
        data[0] == 40,
        u32_at(conn.byte_order, data, 4) == from,
        u32_at(conn.byte_order, data, 8) == to,
        i16_at(conn.byte_order, data, 12) == x,
        i16_at(conn.byte_order, data, 14) == y,
    ensures
        input_request(s, conn, data).1 is Ok,
        input_request(s, conn, data).0 == s.replying(conn, e),
        reads_translated(
            conn.byte_order,
            e,
            translated(s, from, to, x, y).0,
            translated(s, from, to, x, y).1,
        ),
{
    reveal(input_request);
    let o = conn.byte_order;
    let (x, y) = translated(s, from, to, x, y);
    let e = reply_head(conn, 1, 0) + bytes32(o, 0) + bytes16(o, pattern16(x)) + bytes16(
        o,
        pattern16(y),
    ) + zeros(16);
    lemma_four_bytes(o, e, 8, 0);
    lemma_two_bytes(o, e, 12, pattern16(x));
    lemma_two_bytes(o, e, 14, pattern16(y));
    e
}

/// The answer to TranslateCoordinates as a client reads it.
pub open spec fn reads_translated(o: ByteOrder, e: Seq<u8>, x: i16, y: i16) -> bool {
    &&& e.len() == 32
    &&& e[0] == 1
    &&& e[1] == 1
    &&& u32_at(o, e, 8) == 0
    &&& i16_at(o, e, 12) == x
    &&& i16_at(o, e, 14) == y
}

/// TranslateCoordinates replies with the same point of the screen in the other
/// window's coordinates.
pub proof fn law_points_are_translated(
    s: ServerModel,
    id: u32,
    data: Seq<u8>,
    from: u32,
    to: u32,
    x: i16,
    y: i16,
    n: nat,
    k: nat,
    after: ServerModel,
    r: Option<Pending>,
)
    requires
        s.connections.dom().contains(id),
        data.len() >= 16,
        data[0] == 40,
        u32_at(s.connections[id].byte_order, data, 4) == from,
        u32_at(s.connections[id].byte_order, data, 8) == to,
        i16_at(s.connections[id].byte_order, data, 12) == x,
        i16_at(s.connections[id].byte_order, data, 14) == y,
        n <= 32,
        k <= 32,
        lies_below(s.resources, s.root(), from, s.root(), n),
        lies_below(s.resources, s.root(), to, s.root(), k),
        processing_may_lead_to(s, id, data, after, r),
    ensures
        exists|e: Seq<u8>, tx: i16, ty: i16| #[trigger]
            answered(s, after, s.connections[id].id, e) && #[trigger] reads_translated(
                s.connections[id].byte_order,
                e,
                tx,
                ty,
            ) && same16(
                tx + position_in(s.resources, to, k).0,
                x + position_in(s.resources, from, n).0,
            ) && same16(
                ty + position_in(s.resources, to, k).1,
                y + position_in(s.resources, from, n).1,
            ),
{
    let begun = counted(s, id);
    let conn = counting(s.connections[id]);
    let e = lemma_translate(begun, conn, data, from, to, x, y);
    lemma_input_processed(s, id, data, after, r);
    lemma_offset(s.resources, s.root(), s.root(), from, MAX_ASCENT as nat, n);
    lemma_offset(s.resources, s.root(), s.root(), to, MAX_ASCENT as nat, k);
    let (tx, ty) = translated(begun, from, to, x, y);
    lemma_translated_sum(
        x as int,
        position_in(s.resources, from, n).0,
        position_in(s.resources, to, k).0,
        tx,
    );
    lemma_translated_sum(
        y as int,
        position_in(s.resources, from, n).1,
        position_in(s.resources, to, k).1,
        ty,
    );
    assert(answered(s, after, s.connections[id].id, e));
    assert(reads_translated(s.connections[id].byte_order, e, tx, ty));
}

proof fn lemma_translated_sum(x: int, f: int, t: int, r: i16)
    requires
        r == wrap16(x + f - t),
    ensures
        same16(r + t, x + f),
{
}

proof fn lemma_warp_told_frame(
    s: ServerModel,
    sels: Seq<(u32, u32)>,
    window: u32,
    x: i16,
    y: i16,
    root_x: i16,
    root_y: i16,
)
    ensures
        ({
            let t = warp_told(s, sels, window, x, y, root_x, root_y);
            t == ServerModel { outbox: t.outbox, ..s }
        }),
    decreases sels.len(),
{
    if sels.len() > 0 {
        lemma_warp_told_frame(s, sels.drop_last(), window, x, y, root_x, root_y);
    }
}

proof fn lemma_warped_frame(
    s: ServerModel,
    window: u32,
    x: i16,
    y: i16,
    root_x: i16,
    root_y: i16,
    fuel: nat,
)
    ensures
        ({
            let t = warped(s, window, x, y, root_x, root_y, fuel);
            t == ServerModel { outbox: t.outbox, ..s }
        }),
    decreases fuel, 0nat,
{
    if fuel > 0 {
        match s.window(window) {
            Some(w) => {
                lemma_warp_told_frame(s, w.event_selections, window, x, y, root_x, root_y);
                lemma_warped_all_frame(
                    warp_told(s, w.event_selections, window, x, y, root_x, root_y),
                    w.children,
                    x,
                    y,
                    root_x,
                    root_y,
                    (fuel - 1) as nat,
                );
            },
            None => {},
        }
    }
}

proof fn lemma_warped_all_frame(
    s: ServerModel,
    ids: Seq<u32>,
    x: i16,
    y: i16,
    root_x: i16,
    root_y: i16,
    fuel: nat,
)
    ensures
        ({
            let t = warped_all(s, ids, x, y, root_x, root_y, fuel);
            t == ServerModel { outbox: t.outbox, ..s }
        }),
    decreases fuel, ids.len() + 1,
{
    if ids.len() > 0 {
        lemma_warped_all_frame(s, ids.drop_last(), x, y, root_x, root_y, fuel);
        let before = warped_all(s, ids.drop_last(), x, y, root_x, root_y, fuel);
        match before.window(ids.last()) {
            Some(c) => lemma_warped_frame(
                before,
                ids.last(),
                x.wrapping_sub(c.x),
                y.wrapping_sub(c.y),
                root_x,
                root_y,
                fuel,
            ),
            None => {},
        }
    }
}

proof fn lemma_warp(s: ServerModel, conn: ClientConnection, data: Seq<u8>)
    requires
        data.len() >= 24,
        data[0] == 41,
    ensures
        input_request(s, conn, data).1 is Ok,
        ({
            let o = conn.byte_order;
            let window = u32_at(o, data, 8);
            let (wx, wy) = if window != 0 {
                screen_position(s, window)
            } else {
                (0, 0)
            };
            let t = input_request(s, conn, data).0;
            t == ServerModel {
                pointer_x: (wx + i16_at(o, data, 20)) as i32,
                pointer_y: (wy + i16_at(o, data, 22)) as i32,
                outbox: t.outbox,
                ..s
            }
        }),
{
    reveal(input_request);
    let o = conn.byte_order;
    let window = u32_at(o, data, 8);
    let (wx, wy) = if window != 0 {
        screen_position(s, window)
    } else {
        (0, 0)
    };
    let x = wx + i16_at(o, data, 20);
    let y = wy + i16_at(o, data, 22);
    let moved = ServerModel { pointer_x: x as i32, pointer_y: y as i32, ..s };
    match moved.window(s.root()) {
        Some(w) => lemma_warped_all_frame(
            moved,
            w.children,
            wrap16(x),
            wrap16(y),
            wrap16(x),
            wrap16(y),
            super::pointer::WARP_DEPTH as nat,
        ),
        None => {},
    }
}

/// WarpPointer puts the pointer at a point of a window: on the screen it is that
/// point and the positions of the windows above it added up.
pub proof fn law_pointer_is_warped(
    s: ServerModel,
    id: u32,
    data: Seq<u8>,
    window: u32,
    x: i16,
    y: i16,
    n: nat,
    after: ServerModel,
    r: Option<Pending>,
)
    requires
        s.connections.dom().contains(id),
        data.len() >= 24,
        data[0] == 41,
        u32_at(s.connections[id].byte_order, data, 8) == window,
        i16_at(s.connections[id].byte_order, data, 20) == x,
        i16_at(s.connections[id].byte_order, data, 22) == y,
        window != 0,
        n <= 32,
        lies_below(s.resources, s.root(), window, s.root(), n),
        processing_may_lead_to(s, id, data, after, r),
    ensures
        after.pointer_x == x + position_in(s.resources, window, n).0,
        after.pointer_y == y + position_in(s.resources, window, n).1,
        after.resources == s.resources,
{
    let begun = counted(s, id);
    let conn = counting(s.connections[id]);
    lemma_warp(begun, conn, data);
    lemma_input_processed(s, id, data, after, r);
    lemma_offset(s.resources, s.root(), s.root(), window, MAX_ASCENT as nat, n);
    let (px, py) = position_in(s.resources, window, n);
    assert(-32768 * 32 <= px <= 32767 * 32);
    assert(-32768 * 32 <= py <= 32767 * 32);
}

proof fn lemma_grab(s: ServerModel, conn: ClientConnection, data: Seq<u8>) -> (e: Seq<u8>)
    requires
        data.len() >= 10,
        data[0] == 26,
    ensures
        input_request(s, conn, data).1 is Ok,
        ({
            let o = conn.byte_order;
            let held = ServerModel {
                pointer_grab: Some(
                    (u32_at(o, data, 4), data[1] != 0, u16_at(o, data, 8) as u32, conn.id),
                ),
                ..s
            };
            input_request(s, conn, data).0 == held.replying(conn, e)
        }),
        e.len() == 32,
        e[0] == 1,
        e[1] == 0,
{
    reveal(input_request);
    super::connection::empty_reply(conn, 0)
}

/// GrabPointer gives the pointer to the client that asked, for the window and the
/// events that it named, and says so.
pub proof fn law_pointer_is_grabbed(
    s: ServerModel,
    id: u32,
    data: Seq<u8>,
    after: ServerModel,
    r: Option<Pending>,
)
    requires
        s.connections.dom().contains(id),
        data.len() >= 10,
        data[0] == 26,
        processing_may_lead_to(s, id, data, after, r),
    ensures
        ({
            let o = s.connections[id].byte_order;
            after.pointer_grab == Some(
                (
                    u32_at(o, data, 4),
                    data[1] != 0,
                    u16_at(o, data, 8) as u32,
                    s.connections[id].id,
                ),
            )
        }),
        exists|e: Seq<u8>| #[trigger]
            answered(s, after, s.connections[id].id, e) && e.len() == 32 && e[0] == 1 && e[1] == 0,
{
    let begun = counted(s, id);
    let conn = counting(s.connections[id]);
    let e = lemma_grab(begun, conn, data);
    lemma_input_processed(s, id, data, after, r);
    assert(answered(s, after, s.connections[id].id, e));
}

proof fn lemma_get_focus(s: ServerModel, conn: ClientConnection, data: Seq<u8>) -> (e: Seq<u8>)
    requires
        data[0] == 43,
    ensures
        input_request(s, conn, data).1 is Ok,
        input_request(s, conn, data).0 == s.replying(conn, e),
        e.len() == 32,
        e[0] == 1,
        e[1] == s.focus_revert_to % 256,
        u32_at(conn.byte_order, e, 8) == s.focus_window,
{
    reveal(input_request);
    let o = conn.byte_order;
    let e = reply_head(conn, super::wire::low8(s.focus_revert_to), 0) + bytes32(o, s.focus_window)
        + zeros(20);
    lemma_four_bytes(o, e, 8, s.focus_window);
    e
}

proof fn lemma_set_focus(s: ServerModel, conn: ClientConnection, data: Seq<u8>)
    requires
        data.len() >= 8,
        data[0] == 42,
    ensures
        input_request(s, conn, data).1 is Ok,
        ({
            let t = input_request(s, conn, data).0;
            &&& t.focus_window == u32_at(conn.byte_order, data, 4)
            &&& t.focus_revert_to == data[1]
            &&& t.connections == s.connections
            &&& t.resources == s.resources
        }),
{
    reveal(input_request);
    let focus = u32_at(conn.byte_order, data, 4);
    let moved = ServerModel { focus_window: focus, focus_revert_to: data[1] as u32, ..s };
    let out = super::notify::focus_told(moved, super::protocol::event_type::FOCUS_OUT, s.focus_window);
    super::notify::law_telling_queues_events_only(
        moved,
        s.focus_window,
        super::protocol::event_mask::FOCUS_CHANGE,
        super::notify::Notice::Focus { kind: 10, window: s.focus_window },
    );
    super::notify::law_telling_queues_events_only(
        out,
        focus,
        super::protocol::event_mask::FOCUS_CHANGE,
        super::notify::Notice::Focus { kind: 9, window: focus },
    );
    super::notify::law_telling_queues_events_only(
        moved,
        focus,
        super::protocol::event_mask::FOCUS_CHANGE,
        super::notify::Notice::Focus { kind: 9, window: focus },
    );
}

/// SetInputFocus gives the focus to the window that was named, with where it is to
/// revert to.
pub proof fn law_focus_is_set(
    s: ServerModel,
    id: u32,
    data: Seq<u8>,
    after: ServerModel,
    r: Option<Pending>,
)
    requires
        s.connections.dom().contains(id),
        data.len() >= 8,
        data[0] == 42,
        processing_may_lead_to(s, id, data, after, r),
    ensures
        after.focus_window == u32_at(s.connections[id].byte_order, data, 4),
        after.focus_revert_to == data[1],
        after.resources == s.resources,
{
    lemma_set_focus(counted(s, id), counting(s.connections[id]), data);
    lemma_input_processed(s, id, data, after, r);
}

/// GetInputFocus replies with the window that has the focus and where it reverts
/// to.
pub proof fn law_focus_is_replied(
    s: ServerModel,
    id: u32,
    data: Seq<u8>,
    after: ServerModel,
    r: Option<Pending>,
)
    requires
        s.connections.dom().contains(id),
        data.len() >= 4,
        data[0] == 43,
        processing_may_lead_to(s, id, data, after, r),
    ensures
        exists|e: Seq<u8>| #[trigger]
            answered(s, after, s.connections[id].id, e) && e.len() == 32 && e[0] == 1 && e[1]
                == s.focus_revert_to % 256 && u32_at(s.connections[id].byte_order, e, 8)
                == s.focus_window,
{
    let e = lemma_get_focus(counted(s, id), counting(s.connections[id]), data);
    lemma_input_processed(s, id, data, after, r);
    assert(answered(s, after, s.connections[id].id, e));
}

proof fn lemma_warp_told_grows(
    s: ServerModel,
    sels: Seq<(u32, u32)>,
    window: u32,
    x: i16,
    y: i16,
    root_x: i16,
    root_y: i16,
)
    ensures
        grows(s.outbox, warp_told(s, sels, window, x, y, root_x, root_y).outbox),
    decreases sels.len(),
{
    let t = warp_told(s, sels, window, x, y, root_x, root_y);
    assert(s.outbox.take(s.outbox.len() as int) =~= s.outbox);
    if sels.len() > 0 {
        lemma_warp_told_grows(s, sels.drop_last(), window, x, y, root_x, root_y);
        let before = warp_told(s, sels.drop_last(), window, x, y, root_x, root_y);
        assert(t.outbox.take(before.outbox.len() as int) =~= before.outbox);
        lemma_grows_on(s.outbox, before.outbox, t.outbox);
    }
}

proof fn lemma_warped_grows(
    s: ServerModel,
    window: u32,
    x: i16,
    y: i16,
    root_x: i16,
    root_y: i16,
    fuel: nat,
)
    ensures
        grows(s.outbox, warped(s, window, x, y, root_x, root_y, fuel).outbox),
    decreases fuel, 0nat,
{
    assert(s.outbox.take(s.outbox.len() as int) =~= s.outbox);
    if fuel > 0 {
        match s.window(window) {
            Some(w) => {
                let told = warp_told(s, w.event_selections, window, x, y, root_x, root_y);
                lemma_warp_told_grows(s, w.event_selections, window, x, y, root_x, root_y);
                lemma_warped_all_grows(
                    told,
                    w.children,
                    x,
                    y,
                    root_x,
                    root_y,
                    (fuel - 1) as nat,
                );
                let t = warped_all(told, w.children, x, y, root_x, root_y, (fuel - 1) as nat);
                lemma_grows_on(s.outbox, told.outbox, t.outbox);
            },
            None => {},
        }
    }
}

proof fn lemma_warped_all_grows(
    s: ServerModel,
    ids: Seq<u32>,
    x: i16,
    y: i16,
    root_x: i16,
    root_y: i16,
    fuel: nat,
)
    ensures
        grows(s.outbox, warped_all(s, ids, x, y, root_x, root_y, fuel).outbox),
    decreases fuel, ids.len() + 1,
{
    assert(s.outbox.take(s.outbox.len() as int) =~= s.outbox);
    if ids.len() > 0 {
        lemma_warped_all_grows(s, ids.drop_last(), x, y, root_x, root_y, fuel);
        let before = warped_all(s, ids.drop_last(), x, y, root_x, root_y, fuel);
        match before.window(ids.last()) {
            Some(c) => {
                let (cx, cy) = (x.wrapping_sub(c.x), y.wrapping_sub(c.y));
                lemma_warped_grows(before, ids.last(), cx, cy, root_x, root_y, fuel);
                let t = warped(before, ids.last(), cx, cy, root_x, root_y, fuel);
                lemma_grows_on(s.outbox, before.outbox, t.outbox);
            },
            None => {},
        }
    }
}

proof fn lemma_warp_is_heard(
    s: ServerModel,
    sels: Seq<(u32, u32)>,
    window: u32,
    x: i16,
    y: i16,
    root_x: i16,
    root_y: i16,
    i: int,
)
    requires
        0 <= i < sels.len(),
        sels[i].1 & 0x40 != 0,
        s.connections.dom().contains(sels[i].0),
    ensures
        heard(
            s.outbox,
            warp_told(s, sels, window, x, y, root_x, root_y).outbox,
            sels[i].0,
            warp_event(s.connections[sels[i].0], s.root(), window, x, y, root_x, root_y, s.now),
        ),
    decreases sels.len(),
{
    let rest = sels.drop_last();
    let before = warp_told(s, rest, window, x, y, root_x, root_y);
    let t = warp_told(s, sels, window, x, y, root_x, root_y);
    let e = warp_event(s.connections[sels[i].0], s.root(), window, x, y, root_x, root_y, s.now);
    lemma_warp_told_frame(s, rest, window, x, y, root_x, root_y);
    lemma_warp_told_grows(s, rest, window, x, y, root_x, root_y);
    if i == sels.len() - 1 {
        assert(sels.last() == sels[i]);
        assert(t.outbox[before.outbox.len() as int] == (ActionModel::Event {
            conn: sels[i].0,
            data: e,
        }));
    } else {
        assert(rest[i] == sels[i]);
        lemma_warp_is_heard(s, rest, window, x, y, root_x, root_y, i);
        assert(t.outbox.take(before.outbox.len() as int) =~= before.outbox);
        lemma_heard_later(s.outbox, before.outbox, t.outbox, sels[i].0, e);
    }
}

/// When the pointer is put somewhere, each client that selected motion on a mapped
/// window of a list hears of it, in the window's own coordinates: those of the
/// parent less the window's position.
pub proof fn law_warps_are_heard(
    s: ServerModel,
    ids: Seq<u32>,
    x: i16,
    y: i16,
    root_x: i16,
    root_y: i16,
    fuel: nat,
    k: int,
    i: int,
)
    requires
        fuel > 0,
        0 <= k < ids.len(),
        s.window(ids[k]) is Some,
        s.window(ids[k])->0.mapped,
        0 <= i < s.window(ids[k])->0.event_selections.len(),
        s.window(ids[k])->0.event_selections[i].1 & 0x40 != 0,
        s.connections.dom().contains(s.window(ids[k])->0.event_selections[i].0),
        -0x8000 <= x - s.window(ids[k])->0.x <= 0x7FFF,
        -0x8000 <= y - s.window(ids[k])->0.y <= 0x7FFF,
    ensures
        ({
            let w = s.window(ids[k])->0;
            let who = w.event_selections[i].0;
            exists|e: Seq<u8>| #[trigger]
                heard(
                    s.outbox,
                    warped_all(s, ids, x, y, root_x, root_y, fuel).outbox,
                    who,
                    e,
                ) && reads_input(
                    s.connections[who].byte_order,
                    e,
                    6,
                    0,
                    s.now,
                    s.root(),
                    ids[k],
                    0,
                    root_x,
                    root_y,
                    (x - w.x) as i16,
                    (y - w.y) as i16,
                    0,
                )
        }),
    decreases ids.len(),
{
    let rest = ids.drop_last();
    let w = s.window(ids[k])->0;
    let who = w.event_selections[i].0;
    let before = warped_all(s, rest, x, y, root_x, root_y, fuel);
    let t = warped_all(s, ids, x, y, root_x, root_y, fuel);
    lemma_warped_all_frame(s, rest, x, y, root_x, root_y, fuel);
    lemma_warped_all_grows(s, rest, x, y, root_x, root_y, fuel);
    if k == ids.len() - 1 {
        assert(ids.last() == ids[k]);
        let (cx, cy) = (x.wrapping_sub(w.x), y.wrapping_sub(w.y));
        assert(cx == (x - w.x) as i16 && cy == (y - w.y) as i16);
        let told = warp_told(before, w.event_selections, ids[k], cx, cy, root_x, root_y);
        let e = warp_event(s.connections[who], s.root(), ids[k], cx, cy, root_x, root_y, s.now);
        lemma_warp_is_heard(before, w.event_selections, ids[k], cx, cy, root_x, root_y, i);
        lemma_warped_all_grows(told, w.children, cx, cy, root_x, root_y, (fuel - 1) as nat);
        assert(before.window(ids.last()) == Some(w));
        assert(t == warped(before, ids.last(), cx, cy, root_x, root_y, fuel));
        assert(warped(before, ids.last(), cx, cy, root_x, root_y, fuel) == warped_all(
            told,
            w.children,
            cx,
            cy,
            root_x,
            root_y,
            (fuel - 1) as nat,
        ));
        lemma_heard_later(before.outbox, told.outbox, t.outbox, who, e);
        lemma_heard_more(s.outbox, before.outbox, t.outbox, who, e);
        law_input_is_read(
            s.connections[who],
            6,
            0,
            s.now,
            s.root(),
            ids[k],
            0,
            root_x,
            root_y,
            cx,
            cy,
            0,
            true,
        );
    } else {
        assert(rest[k] == ids[k]);
        law_warps_are_heard(s, rest, x, y, root_x, root_y, fuel, k, i);
        let e = choose|e: Seq<u8>| #[trigger]
            heard(s.outbox, before.outbox, who, e) && reads_input(
                s.connections[who].byte_order,
                e,
                6,
                0,
                s.now,
                s.root(),
                ids[k],
                0,
                root_x,
                root_y,
                (x - w.x) as i16,
                (y - w.y) as i16,
                0,
            );
        match before.window(ids.last()) {
            Some(c) => lemma_warped_grows(
                before,
                ids.last(),
                x.wrapping_sub(c.x),
                y.wrapping_sub(c.y),
                root_x,
                root_y,
                fuel,
            ),
            None => {
                assert(before.outbox.take(before.outbox.len() as int) =~= before.outbox);
            },
        }
        lemma_heard_later(s.outbox, before.outbox, t.outbox, who, e);
    }
}

} // verus!
