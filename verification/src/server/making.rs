//! What windows, pixmaps and graphics contexts hold once a client made or changed
//! them.

use vstd::prelude::*;

use super::connection::ClientConnection;
use super::drawing::{gc_after, gc_with};
use super::layout::{
    halves, lemma_rank, lemma_rank_positive, lemma_request, lemma_values_fit, lemma_words_request,
    rank, request, words,
};
use super::placement::lemma_window_processed;
use super::requests::{
    counted, counting, drawing_request, processing_may_lead_to, window_request, Pending,
};
use super::resources::{
    fresh_gc, fresh_window, GContextState, PixmapModel, ResourceModel, WindowModel,
};
use super::strokes::lemma_drawing_processed;
use super::values::has_bit;
use super::windows::{
    changed_after, changed_with, class_number, created_after, created_with, new_window,
};
use super::wire::{i16_at, low8, pattern16, u16_at, u32_at, zeros, ByteOrder};
use super::{gc_in, ServerModel};

verus! {

/// Whether a window has a value for a bit of the mask of window attributes.
pub open spec fn has_attribute(w: WindowModel, b: int, v: u32) -> bool {
    &&& b == 1 ==> w.background_pixel == Some(v)
    &&& b == 3 ==> w.border_pixel == Some(v)
    &&& b == 4 ==> w.bit_gravity == v % 256
    &&& b == 5 ==> w.win_gravity == v % 256
    &&& b == 6 ==> w.backing_store == v % 256
    &&& b == 9 ==> w.override_redirect == (v != 0)
    &&& b == 12 ==> w.do_not_propagate_mask == v
    &&& b == 13 ==> w.colormap == v
    &&& b == 14 ==> w.cursor == v
}

/// Whether two windows agree on a bit of the mask of window attributes.
pub open spec fn same_attribute(w: WindowModel, u: WindowModel, b: int) -> bool {
    &&& b == 1 ==> w.background_pixel == u.background_pixel
    &&& b == 3 ==> w.border_pixel == u.border_pixel
    &&& b == 4 ==> w.bit_gravity == u.bit_gravity
    &&& b == 5 ==> w.win_gravity == u.win_gravity
    &&& b == 6 ==> w.backing_store == u.backing_store
    &&& b == 9 ==> w.override_redirect == u.override_redirect
    &&& b == 11 ==> w.event_mask == u.event_mask && w.event_selections == u.event_selections
    &&& b == 12 ==> w.do_not_propagate_mask == u.do_not_propagate_mask
    &&& b == 13 ==> w.colormap == u.colormap
    &&& b == 14 ==> w.cursor == u.cursor
}

/// Whether two windows agree on all but the attributes.
pub open spec fn same_otherwise(w: WindowModel, u: WindowModel) -> bool {
    w == WindowModel {
        background_pixel: w.background_pixel,
        border_pixel: w.border_pixel,
        bit_gravity: w.bit_gravity,
        win_gravity: w.win_gravity,
        backing_store: w.backing_store,
        override_redirect: w.override_redirect,
        event_mask: w.event_mask,
        event_selections: w.event_selections,
        do_not_propagate_mask: w.do_not_propagate_mask,
        colormap: w.colormap,
        cursor: w.cursor,
        ..u
    }
}

proof fn lemma_created_keeps(
    w: WindowModel,
    conn: ClientConnection,
    data: Seq<u8>,
    at: int,
    mask: u32,
    bit: int,
    b: int,
)
    requires
        0 <= bit,
        b < bit || !has_bit(mask, b),
    ensures
        same_attribute(created_after(w, conn, data, at, mask, bit), w, b),
    decreases 15 - bit,
{
    if bit < 15 {
        if has_bit(mask, bit) {
            let next = created_with(w, conn.id, bit, u32_at(conn.byte_order, data, at));
            lemma_created_keeps(next, conn, data, at + 4, mask, bit + 1, b);
        } else {
            lemma_created_keeps(w, conn, data, at, mask, bit + 1, b);
        }
    }
}

proof fn lemma_created_sets(
    w: WindowModel,
    conn: ClientConnection,
    data: Seq<u8>,
    at: int,
    mask: u32,
    bit: int,
    b: int,
)
    requires
        0 <= bit <= b < 15,
        has_bit(mask, b),
    ensures
        ({
            let new = created_after(w, conn, data, at, mask, bit);
            let v = u32_at(conn.byte_order, data, at + 4 * rank(mask, bit, b));
            &&& has_attribute(new, b, v)
            &&& b == 11 ==> new.event_selections == created_with(w, conn.id, 11, v).event_selections
            &&& b == 11 ==> new.event_mask == created_with(w, conn.id, 11, v).event_mask
        }),
    decreases 15 - bit,
{
    if has_bit(mask, bit) {
        let v = u32_at(conn.byte_order, data, at);
        let next = created_with(w, conn.id, bit, v);
        if bit == b {
            lemma_created_keeps(next, conn, data, at + 4, mask, bit + 1, b);
            assert(has_attribute(next, b, v));
        } else {
            lemma_created_sets(next, conn, data, at + 4, mask, bit + 1, b);
        }
    } else {
        lemma_created_sets(w, conn, data, at, mask, bit + 1, b);
    }
}

proof fn lemma_created_frame(
    w: WindowModel,
    conn: ClientConnection,
    data: Seq<u8>,
    at: int,
    mask: u32,
    bit: int,
)
    ensures
        same_otherwise(created_after(w, conn, data, at, mask, bit), w),
    decreases 15 - bit,
{
    if bit < 15 {
        if has_bit(mask, bit) {
            let next = created_with(w, conn.id, bit, u32_at(conn.byte_order, data, at));
            lemma_created_frame(next, conn, data, at + 4, mask, bit + 1);
        } else {
            lemma_created_frame(w, conn, data, at, mask, bit + 1);
        }
    }
}

proof fn lemma_changed_keeps(
    w: WindowModel,
    conn: ClientConnection,
    data: Seq<u8>,
    at: int,
    mask: u32,
    bit: int,
    b: int,
)
    requires
        0 <= bit,
        b < bit || !has_bit(mask, b),
    ensures
        same_attribute(changed_after(w, conn, data, at, mask, bit), w, b),
    decreases 15 - bit,
{
    if bit < 15 {
        if has_bit(mask, bit) {
            let next = changed_with(w, conn.id, bit, u32_at(conn.byte_order, data, at));
            lemma_changed_keeps(next, conn, data, at + 4, mask, bit + 1, b);
        } else {
            lemma_changed_keeps(w, conn, data, at, mask, bit + 1, b);
        }
    }
}

proof fn lemma_changed_sets(
    w: WindowModel,
    conn: ClientConnection,
    data: Seq<u8>,
    at: int,
    mask: u32,
    bit: int,
    b: int,
)
    requires
        0 <= bit <= b < 15,
        has_bit(mask, b),
    ensures
        ({
            let new = changed_after(w, conn, data, at, mask, bit);
            let v = u32_at(conn.byte_order, data, at + 4 * rank(mask, bit, b));
            &&& has_attribute(new, b, v)
            &&& b == 11 ==> new.event_selections == changed_with(w, conn.id, 11, v).event_selections
            &&& b == 11 ==> new.event_mask == changed_with(w, conn.id, 11, v).event_mask
        }),
    decreases 15 - bit,
{
    if has_bit(mask, bit) {
        let v = u32_at(conn.byte_order, data, at);
        let next = changed_with(w, conn.id, bit, v);
        if bit == b {
            lemma_changed_keeps(next, conn, data, at + 4, mask, bit + 1, b);
            assert(has_attribute(next, b, v));
        } else {
            lemma_changed_sets(next, conn, data, at + 4, mask, bit + 1, b);
        }
    } else {
        lemma_changed_sets(w, conn, data, at, mask, bit + 1, b);
    }
}

proof fn lemma_changed_frame(
    w: WindowModel,
    conn: ClientConnection,
    data: Seq<u8>,
    at: int,
    mask: u32,
    bit: int,
)
    ensures
        same_otherwise(changed_after(w, conn, data, at, mask, bit), w),
    decreases 15 - bit,
{
    if bit < 15 {
        if has_bit(mask, bit) {
            let next = changed_with(w, conn.id, bit, u32_at(conn.byte_order, data, at));
            lemma_changed_frame(next, conn, data, at + 4, mask, bit + 1);
        } else {
            lemma_changed_frame(w, conn, data, at, mask, bit + 1);
        }
    }
}

/// CreateWindow as a client writes it.
pub open spec fn create_request(
    o: ByteOrder,
    depth: u8,
    window: u32,
    parent: u32,
    x: u16,
    y: u16,
    width: u16,
    height: u16,
    border_width: u16,
    class: u16,
    visual: u32,
    mask: u32,
    values: Seq<u32>,
) -> Seq<u8> {
    request(
        o,
        1,
        depth,
        words(o, seq![window, parent]) + halves(
            o,
            seq![x, y, width, height, border_width, class],
        ) + words(o, seq![visual, mask] + values) + seq![],
    )
}

proof fn lemma_create_request(
    o: ByteOrder,
    depth: u8,
    window: u32,
    parent: u32,
    x: u16,
    y: u16,
    width: u16,
    height: u16,
    border_width: u16,
    class: u16,
    visual: u32,
    mask: u32,
    values: Seq<u32>,
)
    ensures
        ({
            let data = create_request(
                o,
                depth,
                window,
                parent,
                x,
                y,
                width,
                height,
                border_width,
                class,
                visual,
                mask,
                values,
            );
            &&& data.len() == 32 + 4 * values.len()
            &&& data[0] == 1
            &&& data[1] == depth
            &&& u32_at(o, data, 4) == window
            &&& u32_at(o, data, 8) == parent
            &&& u16_at(o, data, 12) == x
            &&& u16_at(o, data, 14) == y
            &&& u16_at(o, data, 16) == width
            &&& u16_at(o, data, 18) == height
            &&& u16_at(o, data, 20) == border_width
            &&& u16_at(o, data, 22) == class
            &&& u32_at(o, data, 24) == visual
            &&& u32_at(o, data, 28) == mask
            &&& forall|i: int| #![trigger values[i]]
                0 <= i < values.len() ==> u32_at(o, data, 32 + 4 * i) == values[i]
        }),
{
    let ws = seq![window, parent];
    let hs = seq![x, y, width, height, border_width, class];
    let more = seq![visual, mask] + values;
    lemma_request(o, 1, depth, ws, hs, more, seq![]);
    assert(ws[0] == window && ws[1] == parent);
    assert(hs[0] == x && hs[1] == y && hs[2] == width && hs[3] == height && hs[4] == border_width
        && hs[5] == class);
    assert(more[0] == visual && more[1] == mask);
    let data = create_request(
        o,
        depth,
        window,
        parent,
        x,
        y,
        width,
        height,
        border_width,
        class,
        visual,
        mask,
        values,
    );
    assert forall|i: int| #![trigger values[i]] 0 <= i < values.len() implies u32_at(
        o,
        data,
        32 + 4 * i,
    ) == values[i] by {
        assert(more[i + 2] == values[i]);
    }
}

proof fn lemma_is_create(s: ServerModel, conn: ClientConnection, data: Seq<u8>, window: u32)
    requires
        data.len() >= 32,
        data[0] == 1,
        u32_at(conn.byte_order, data, 4) == window,
    ensures
        window_request(s, conn, data).1 is Ok,
        window_request(s, conn, data).0.window(window) == Some(new_window(s, conn, data)),
        ({
            let parent = u32_at(conn.byte_order, data, 8);
            let t = window_request(s, conn, data).0;
            &&& t.outbox == s.outbox
            &&& parent != window ==> (s.window(parent) matches Some(p) ==> t.window(parent) == Some(
                (WindowModel { children: p.children.push(window), ..p }),
            ))
        }),
{
    reveal(window_request);
}

/// A window that CreateWindow made has the depth, position, size, border width,
/// class and visual that were sent, each attribute that was sent, and otherwise
/// the default; its parent lists it as its topmost child.
pub proof fn law_windows_are_made_as_asked(
    s: ServerModel,
    id: u32,
    depth: u8,
    window: u32,
    parent: u32,
    x: i16,
    y: i16,
    width: u16,
    height: u16,
    border_width: u16,
    class: u16,
    visual: u32,
    mask: u32,
    values: Seq<u32>,
    after: ServerModel,
    r: Option<Pending>,
)
    requires
        s.connections.dom().contains(id),
        parent != window,
        depth != 0,
        class <= 2,
        visual != 0,
        values.len() == rank(mask, 0, 15),
        processing_may_lead_to(
            s,
            id,
            create_request(
                s.connections[id].byte_order,
                depth,
                window,
                parent,
                pattern16(x),
                pattern16(y),
                width,
                height,
                border_width,
                class,
                visual,
                mask,
                values,
            ),
            after,
            r,
        ),
    ensures
        after.window(window) is Some,
        ({
            let w = after.window(window)->0;
            &&& w.id == window
            &&& w.parent == parent
            &&& w.x == x
            &&& w.y == y
            &&& w.width == width
            &&& w.height == height
            &&& w.border_width == border_width
            &&& w.depth == depth
            &&& class_number(w.class) == class
            &&& w.visual == visual
            &&& w.children.len() == 0
            &&& !w.mapped
            &&& w.native_window is None
            &&& forall|b: int| #![trigger has_bit(mask, b)]
                0 <= b < 15 && has_bit(mask, b) ==> has_attribute(w, b, values[rank(mask, 0, b)])
            &&& has_bit(mask, 11) ==> w.event_mask == values[rank(mask, 0, 11)]
                && w.event_selections == seq![(s.connections[id].id, w.event_mask)]
            &&& !has_bit(mask, 11) ==> w.event_mask == 0 && w.event_selections.len() == 0
            &&& !has_bit(mask, 1) ==> w.background_pixel is None
            &&& !has_bit(mask, 9) ==> !w.override_redirect
            &&& !has_bit(mask, 14) ==> w.cursor == 0
        }),
        s.window(parent) matches Some(p) ==> after.window(parent) == Some(
            (WindowModel { children: p.children.push(window), ..p }),
        ),
        after.outbox == s.outbox,
{
    let o = s.connections[id].byte_order;
    let conn = counting(s.connections[id]);
    let begun = counted(s, id);
    let data = create_request(
        o,
        depth,
        window,
        parent,
        pattern16(x),
        pattern16(y),
        width,
        height,
        border_width,
        class,
        visual,
        mask,
        values,
    );
    lemma_create_request(
        o,
        depth,
        window,
        parent,
        pattern16(x),
        pattern16(y),
        width,
        height,
        border_width,
        class,
        visual,
        mask,
        values,
    );
    lemma_values_fit(mask, 0x7FFF, data.len() as int, 32, 0, 15);
    lemma_is_create(begun, conn, data, window);
    lemma_window_processed(s, id, data, after, r);
    let fresh = fresh_window(
        window,
        parent,
        i16_at(o, data, 12),
        i16_at(o, data, 14),
        width,
        height,
        border_width,
        depth,
        super::windows::window_class(class),
        visual,
    );
    let w = after.window(window)->0;
    assert(w == created_after(fresh, conn, data, 32, mask, 0));
    lemma_created_frame(fresh, conn, data, 32, mask, 0);
    assert forall|b: int| #![trigger has_bit(mask, b)] 0 <= b < 15 && has_bit(
        mask,
        b,
    ) implies has_attribute(w, b, values[rank(mask, 0, b)]) by {
        lemma_created_sets(fresh, conn, data, 32, mask, 0, b);
        lemma_rank(mask, 0, b, 15);
        assert(values[rank(mask, 0, b)] == u32_at(o, data, 32 + 4 * rank(mask, 0, b)));
    }
    if has_bit(mask, 11) {
        lemma_created_sets(fresh, conn, data, 32, mask, 0, 11);
        lemma_rank(mask, 0, 11, 15);
        assert(values[rank(mask, 0, 11)] == u32_at(o, data, 32 + 4 * rank(mask, 0, 11)));
        assert(w.event_selections =~= seq![(s.connections[id].id, w.event_mask)]);
    } else {
        lemma_created_keeps(fresh, conn, data, 32, mask, 0, 11);
    }
    if !has_bit(mask, 1) {
        lemma_created_keeps(fresh, conn, data, 32, mask, 0, 1);
    }
    if !has_bit(mask, 9) {
        lemma_created_keeps(fresh, conn, data, 32, mask, 0, 9);
    }
    if !has_bit(mask, 14) {
        lemma_created_keeps(fresh, conn, data, 32, mask, 0, 14);
    }
}

/// ChangeWindowAttributes as a client writes it.
pub open spec fn change_request(o: ByteOrder, window: u32, mask: u32, values: Seq<u32>) -> Seq<u8> {
    request(o, 2, 0, words(o, seq![window, mask] + values))
}

proof fn lemma_is_change(s: ServerModel, conn: ClientConnection, data: Seq<u8>, window: u32)
    requires
        data.len() >= 12,
        data[0] == 2,
        u32_at(conn.byte_order, data, 4) == window,
        s.window(window) is Some,
    ensures
        window_request(s, conn, data).1 is Ok,
        window_request(s, conn, data).0.window(window) == Some(
            changed_after(
                s.window(window)->0,
                conn,
                data,
                12,
                u32_at(conn.byte_order, data, 8),
                0,
            ),
        ),
{
    reveal(window_request);
}

/// What a client selects on a window takes the place of what it selected before;
/// what others selected stays.
pub open spec fn selects_now(
    before: Seq<(u32, u32)>,
    now: Seq<(u32, u32)>,
    who: u32,
    mask: u32,
) -> bool {
    &&& exists|i: int| 0 <= i < now.len() && #[trigger] now[i] == (who, mask)
    &&& forall|i: int|
        0 <= i < before.len() && (#[trigger] before[i]).0 != who ==> i < now.len() && now[i]
            == before[i]
    &&& now.len() <= before.len() + 1
}

proof fn lemma_selects_now(sels: Seq<(u32, u32)>, who: u32, mask: u32)
    ensures
        selects_now(sels, super::windows::with_selection(sels, who, mask), who, mask),
    decreases sels.len(),
{
    let now = super::windows::with_selection(sels, who, mask);
    if sels.len() == 0 {
        assert(now[0] == (who, mask));
    } else if sels[0].0 == who {
        assert(now[0] == (who, mask));
    } else {
        let rest = sels.drop_first();
        lemma_selects_now(rest, who, mask);
        let then = super::windows::with_selection(rest, who, mask);
        let i = choose|i: int| 0 <= i < then.len() && #[trigger] then[i] == (who, mask);
        assert(now[i + 1] == then[i]);
        assert forall|i: int| 0 <= i < sels.len() && (#[trigger] sels[i]).0 != who implies i
            < now.len() && now[i] == sels[i] by {
            if i > 0 {
                assert(rest[i - 1] == sels[i]);
                assert(now[i] == then[i - 1]);
            }
        }
    }
}

/// A window that ChangeWindowAttributes changed has each attribute that was sent;
/// the others, and all that is no attribute, stay.
pub proof fn law_attributes_are_changed_as_asked(
    s: ServerModel,
    id: u32,
    window: u32,
    mask: u32,
    values: Seq<u32>,
    after: ServerModel,
    r: Option<Pending>,
)
    requires
        s.connections.dom().contains(id),
        s.window(window) is Some,
        values.len() == rank(mask, 0, 15),
        processing_may_lead_to(
            s,
            id,
            change_request(s.connections[id].byte_order, window, mask, values),
            after,
            r,
        ),
    ensures
        after.window(window) is Some,
        ({
            let old = s.window(window)->0;
            let w = after.window(window)->0;
            &&& same_otherwise(w, old)
            &&& forall|b: int| #![trigger has_bit(mask, b)]
                0 <= b < 15 && has_bit(mask, b) ==> has_attribute(w, b, values[rank(mask, 0, b)])
            &&& forall|b: int| #![trigger same_attribute(w, old, b)]
                0 <= b < 15 && !has_bit(mask, b) ==> same_attribute(w, old, b)
            &&& has_bit(mask, 11) ==> selects_now(
                old.event_selections,
                w.event_selections,
                s.connections[id].id,
                values[rank(mask, 0, 11)],
            )
        }),
{
    let o = s.connections[id].byte_order;
    let conn = counting(s.connections[id]);
    let begun = counted(s, id);
    let data = change_request(o, window, mask, values);
    let ws = seq![window, mask] + values;
    lemma_words_request(o, 2, 0, ws);
    assert(ws[0] == window && ws[1] == mask);
    lemma_values_fit(mask, super::windows::CHANGED_BITS, data.len() as int, 12, 0, 15);
    lemma_rank_positive(mask, 0, 15);
    lemma_is_change(begun, conn, data, window);
    lemma_window_processed(s, id, data, after, r);
    let old = s.window(window)->0;
    let w = after.window(window)->0;
    lemma_changed_frame(old, conn, data, 12, mask, 0);
    assert forall|b: int| #![trigger has_bit(mask, b)] 0 <= b < 15 && has_bit(
        mask,
        b,
    ) implies has_attribute(w, b, values[rank(mask, 0, b)]) by {
        lemma_changed_sets(old, conn, data, 12, mask, 0, b);
        lemma_rank(mask, 0, b, 15);
        assert(ws[rank(mask, 0, b) + 2] == values[rank(mask, 0, b)]);
    }
    assert forall|b: int| #![trigger same_attribute(w, old, b)] 0 <= b < 15 && !has_bit(
        mask,
        b,
    ) implies same_attribute(w, old, b) by {
        lemma_changed_keeps(old, conn, data, 12, mask, 0, b);
    }
    if has_bit(mask, 11) {
        lemma_changed_sets(old, conn, data, 12, mask, 0, 11);
        lemma_rank(mask, 0, 11, 15);
        assert(ws[rank(mask, 0, 11) + 2] == values[rank(mask, 0, 11)]);
        lemma_selects_now(old.event_selections, conn.id, values[rank(mask, 0, 11)]);
    }
}

proof fn lemma_is_reparent(s: ServerModel, conn: ClientConnection, data: Seq<u8>, window: u32)
    requires
        data.len() >= 16,
        data[0] == 7,
        u32_at(conn.byte_order, data, 4) == window,
        s.window(window) is Some,
        u32_at(conn.byte_order, data, 8) != window,
        s.window(window)->0.parent != window,
    ensures
        window_request(s, conn, data).1 is Ok,
        ({
            let o = conn.byte_order;
            let w = s.window(window)->0;
            let t = window_request(s, conn, data).0;
            &&& t.window(window) == Some(
                WindowModel {
                    parent: u32_at(o, data, 8),
                    x: i16_at(o, data, 12),
                    y: i16_at(o, data, 14),
                    ..w
                },
            )
            &&& s.window(u32_at(o, data, 8)) is Some ==> t.window(u32_at(o, data, 8)) is Some
                && t.window(u32_at(o, data, 8))->0.children.len() > 0 && t.window(
                u32_at(o, data, 8),
            )->0.children.last() == window
        }),
{
    reveal(window_request);
}

/// A window that ReparentWindow moved has the new parent, which lists it last, and
/// the position that was sent in it.
pub proof fn law_windows_move_to_their_new_parent(
    s: ServerModel,
    id: u32,
    window: u32,
    parent: u32,
    x: i16,
    y: i16,
    after: ServerModel,
    r: Option<Pending>,
)
    requires
        s.connections.dom().contains(id),
        s.window(window) is Some,
        parent != window,
        s.window(window)->0.parent != window,
        processing_may_lead_to(
            s,
            id,
            request(
                s.connections[id].byte_order,
                7,
                0,
                words(s.connections[id].byte_order, seq![window, parent]) + halves(
                    s.connections[id].byte_order,
                    seq![pattern16(x), pattern16(y)],
                ) + words(s.connections[id].byte_order, seq![]) + seq![],
            ),
            after,
            r,
        ),
    ensures
        after.window(window) == Some(
            (WindowModel { parent, x, y, ..s.window(window)->0 }),
        ),
        s.window(parent) is Some ==> after.window(parent) is Some && after.window(
            parent,
        )->0.children.len() > 0 && after.window(parent)->0.children.last() == window,
{
    let o = s.connections[id].byte_order;
    let ws = seq![window, parent];
    let hs = seq![pattern16(x), pattern16(y)];
    let data = request(o, 7, 0, words(o, ws) + halves(o, hs) + words(o, seq![]) + seq![]);
    lemma_request(o, 7, 0, ws, hs, seq![], seq![]);
    assert(ws[0] == window && ws[1] == parent);
    assert(hs[0] == pattern16(x) && hs[1] == pattern16(y));
    lemma_is_reparent(counted(s, id), counting(s.connections[id]), data, window);
    lemma_window_processed(s, id, data, after, r);
}

proof fn lemma_is_create_pixmap(s: ServerModel, conn: ClientConnection, data: Seq<u8>)
    requires
        data.len() >= 16,
        data[0] == 53,
    ensures
        drawing_request(s, conn, data).1 is Ok,
        ({
            let o = conn.byte_order;
            drawing_request(s, conn, data).0 == s.with_resource(
                u32_at(o, data, 4),
                ResourceModel::Pixmap(
                    PixmapModel {
                        id: u32_at(o, data, 4),
                        drawable: u32_at(o, data, 8),
                        width: u16_at(o, data, 12),
                        height: u16_at(o, data, 14),
                        depth: data[1],
                        data: zeros((u16_at(o, data, 12) * u16_at(o, data, 14) * 4) as nat),
                    },
                ),
            )
        }),
{
    reveal(drawing_request);
}

/// A pixmap that CreatePixmap made has the depth, width and height that were sent,
/// and all its pixels.
pub proof fn law_pixmaps_are_made_as_asked(
    s: ServerModel,
    id: u32,
    depth: u8,
    pixmap: u32,
    drawable: u32,
    width: u16,
    height: u16,
    after: ServerModel,
    r: Option<Pending>,
)
    requires
        s.connections.dom().contains(id),
        width * height * 4 <= usize::MAX,
        processing_may_lead_to(
            s,
            id,
            request(
                s.connections[id].byte_order,
                53,
                depth,
                words(s.connections[id].byte_order, seq![pixmap, drawable]) + halves(
                    s.connections[id].byte_order,
                    seq![width, height],
                ) + words(s.connections[id].byte_order, seq![]) + seq![],
            ),
            after,
            r,
        ),
    ensures
        after.resources.dom().contains(pixmap),
        after.resources[pixmap] matches ResourceModel::Pixmap(p) && p.width == width && p.height
            == height && p.depth == depth && p.data.len() == width * height * 4,
        forall|k: u32| #![trigger after.resources.dom().contains(k)]
            k != pixmap ==> after.resources.dom().contains(k) == s.resources.dom().contains(k),
        after.outbox == s.outbox,
{
    let o = s.connections[id].byte_order;
    let ws = seq![pixmap, drawable];
    let hs = seq![width, height];
    let data = request(o, 53, depth, words(o, ws) + halves(o, hs) + words(o, seq![]) + seq![]);
    lemma_request(o, 53, depth, ws, hs, seq![], seq![]);
    assert(ws[0] == pixmap && ws[1] == drawable);
    assert(hs[0] == width && hs[1] == height);
    lemma_is_create_pixmap(counted(s, id), counting(s.connections[id]), data);
    lemma_drawing_processed(s, id, data, after, r);
    assert(width * height * 4 >= 0) by (nonlinear_arith)
        requires
            width >= 0,
            height >= 0,
    ;
}

/// Whether a graphics context has a value for a bit of its mask.
pub open spec fn has_gc_value(g: GContextState, b: int, v: u32) -> bool {
    &&& b == 0 && v < 16 ==> g.function.number() == v
    &&& b == 1 ==> g.plane_mask == v
    &&& b == 2 ==> g.foreground == v
    &&& b == 3 ==> g.background == v
    &&& b == 4 ==> g.line_width == v % 0x10000
    &&& b == 5 ==> g.line_style == v % 256
    &&& b == 14 ==> g.font == v
    &&& b == 16 ==> g.graphics_exposures == (v != 0)
}

/// Whether two graphics contexts agree on a bit of their mask.
pub open spec fn same_gc_value(g: GContextState, h: GContextState, b: int) -> bool {
    &&& b == 0 ==> g.function == h.function
    &&& b == 1 ==> g.plane_mask == h.plane_mask
    &&& b == 2 ==> g.foreground == h.foreground
    &&& b == 3 ==> g.background == h.background
    &&& b == 4 ==> g.line_width == h.line_width
    &&& b == 5 ==> g.line_style == h.line_style
    &&& b == 14 ==> g.font == h.font
    &&& b == 16 ==> g.graphics_exposures == h.graphics_exposures
}

proof fn lemma_gc_keeps(
    g: GContextState,
    o: ByteOrder,
    data: Seq<u8>,
    at: int,
    mask: u32,
    bit: int,
    b: int,
)
    requires
        0 <= bit,
        b < bit || !has_bit(mask, b),
    ensures
        same_gc_value(gc_after(g, o, data, at, mask, bit), g, b),
    decreases 23 - bit,
{
    if bit < 23 {
        if mask & (1u32 << bit) == 0 {
            lemma_gc_keeps(g, o, data, at, mask, bit + 1, b);
        } else if at + 4 <= data.len() {
            let next = gc_with(g, bit, u32_at(o, data, at));
            lemma_gc_keeps(next, o, data, at + 4, mask, bit + 1, b);
        }
    }
}

proof fn lemma_gc_sets(
    g: GContextState,
    o: ByteOrder,
    data: Seq<u8>,
    at: int,
    mask: u32,
    bit: int,
    b: int,
)
    requires
        0 <= bit <= b < 23,
        has_bit(mask, b),
        at + 4 * rank(mask, bit, 23) <= data.len(),
    ensures
        has_gc_value(
            gc_after(g, o, data, at, mask, bit),
            b,
            u32_at(o, data, at + 4 * rank(mask, bit, b)),
        ),
    decreases 23 - bit,
{
    lemma_rank_positive(mask, bit + 1, 23);
    if has_bit(mask, bit) {
        let v = u32_at(o, data, at);
        let next = gc_with(g, bit, v);
        if bit == b {
            lemma_gc_keeps(next, o, data, at + 4, mask, bit + 1, b);
            if b == 0 && v < 16 {
                assert(low8(v) == v);
            }
            assert(has_gc_value(next, b, v));
        } else {
            lemma_gc_sets(next, o, data, at + 4, mask, bit + 1, b);
        }
    } else {
        lemma_gc_sets(g, o, data, at, mask, bit + 1, b);
    }
}

proof fn lemma_is_create_gc(s: ServerModel, conn: ClientConnection, data: Seq<u8>)
    requires
        data.len() >= 16,
        data[0] == 55,
    ensures
        drawing_request(s, conn, data).1 is Ok,
        ({
            let o = conn.byte_order;
            let gc = u32_at(o, data, 4);
            drawing_request(s, conn, data).0 == s.with_resource(
                gc,
                ResourceModel::GContext(
                    gc_after(
                        fresh_gc(gc, u32_at(o, data, 8)),
                        o,
                        data,
                        16,
                        u32_at(o, data, 12),
                        0,
                    ),
                ),
            )
        }),
{
    reveal(drawing_request);
}

/// A graphics context that CreateGC made has each value that was sent.
pub proof fn law_pens_are_made_as_asked(
    s: ServerModel,
    id: u32,
    gc: u32,
    drawable: u32,
    mask: u32,
    values: Seq<u32>,
    after: ServerModel,
    r: Option<Pending>,
)
    requires
        s.connections.dom().contains(id),
        values.len() == rank(mask, 0, 23),
        processing_may_lead_to(
            s,
            id,
            request(
                s.connections[id].byte_order,
                55,
                0,
                words(s.connections[id].byte_order, seq![gc, drawable, mask] + values),
            ),
            after,
            r,
        ),
    ensures
        gc_in(after.resources, gc) is Some,
        forall|b: int| #![trigger has_bit(mask, b)]
            0 <= b < 23 && has_bit(mask, b) ==> has_gc_value(
                gc_in(after.resources, gc)->0,
                b,
                values[rank(mask, 0, b)],
            ),
        after.outbox == s.outbox,
{
    let o = s.connections[id].byte_order;
    let ws = seq![gc, drawable, mask] + values;
    let data = request(o, 55, 0, words(o, ws));
    lemma_words_request(o, 55, 0, ws);
    assert(ws[0] == gc && ws[1] == drawable && ws[2] == mask);
    lemma_is_create_gc(counted(s, id), counting(s.connections[id]), data);
    lemma_drawing_processed(s, id, data, after, r);
    let fresh = fresh_gc(gc, drawable);
    assert forall|b: int| #![trigger has_bit(mask, b)] 0 <= b < 23 && has_bit(
        mask,
        b,
    ) implies has_gc_value(gc_in(after.resources, gc)->0, b, values[rank(mask, 0, b)]) by {
        lemma_gc_sets(fresh, o, data, 16, mask, 0, b);
        lemma_rank(mask, 0, b, 23);
        assert(ws[rank(mask, 0, b) + 3] == values[rank(mask, 0, b)]);
    }
}

proof fn lemma_is_change_gc(s: ServerModel, conn: ClientConnection, data: Seq<u8>, gc: u32)
    requires
        data.len() >= 12,
        data[0] == 56,
        gc == u32_at(conn.byte_order, data, 4),
        gc_in(s.resources, gc) is Some,
    ensures
        drawing_request(s, conn, data).1 is Ok,
        ({
            let o = conn.byte_order;
            drawing_request(s, conn, data).0 == s.with_resource(
                gc,
                ResourceModel::GContext(
                    gc_after(
                        gc_in(s.resources, gc)->0,
                        o,
                        data,
                        12,
                        u32_at(o, data, 8),
                        0,
                    ),
                ),
            )
        }),
{
    reveal(drawing_request);
}

/// A graphics context that ChangeGC changed has each value that was sent, and the
/// others as before.
pub proof fn law_pens_are_changed_as_asked(
    s: ServerModel,
    id: u32,
    gc: u32,
    mask: u32,
    values: Seq<u32>,
    after: ServerModel,
    r: Option<Pending>,
)
    requires
        s.connections.dom().contains(id),
        gc_in(s.resources, gc) is Some,
        values.len() == rank(mask, 0, 23),
        processing_may_lead_to(
            s,
            id,
            request(
                s.connections[id].byte_order,
                56,
                0,
                words(s.connections[id].byte_order, seq![gc, mask] + values),
            ),
            after,
            r,
        ),
    ensures
        gc_in(after.resources, gc) is Some,
        ({
            let g = gc_in(s.resources, gc)->0;
            let h = gc_in(after.resources, gc)->0;
            &&& forall|b: int| #![trigger has_bit(mask, b)]
                0 <= b < 23 && has_bit(mask, b) ==> has_gc_value(h, b, values[rank(mask, 0, b)])
            &&& forall|b: int| #![trigger same_gc_value(h, g, b)]
                !has_bit(mask, b) ==> same_gc_value(h, g, b)
        }),
        after.outbox == s.outbox,
{
    let o = s.connections[id].byte_order;
    let ws = seq![gc, mask] + values;
    let data = request(o, 56, 0, words(o, ws));
    lemma_words_request(o, 56, 0, ws);
    assert(ws[0] == gc && ws[1] == mask);
    lemma_is_change_gc(counted(s, id), counting(s.connections[id]), data, gc);
    lemma_drawing_processed(s, id, data, after, r);
    let g = gc_in(s.resources, gc)->0;
    let h = gc_in(after.resources, gc)->0;
    assert forall|b: int| #![trigger has_bit(mask, b)] 0 <= b < 23 && has_bit(
        mask,
        b,
    ) implies has_gc_value(h, b, values[rank(mask, 0, b)]) by {
        lemma_gc_sets(g, o, data, 12, mask, 0, b);
        lemma_rank(mask, 0, b, 23);
        assert(ws[rank(mask, 0, b) + 2] == values[rank(mask, 0, b)]);
    }
    assert forall|b: int| #![trigger same_gc_value(h, g, b)] !has_bit(
        mask,
        b,
    ) implies same_gc_value(h, g, b) by {
        lemma_gc_keeps(g, o, data, 12, mask, 0, b);
    }
}

} // verus!
