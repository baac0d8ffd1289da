//! How clients' text, and what they clear, is drawn.

use vstd::prelude::*;

use super::connection::ClientConnection;
use super::drawing::{drawn, spotted};
use super::events::{expose_event, stamped};
use super::labels::{
    image_text_drawn, item_text, items_readable, text_drawn, wide_count, wide_item_text, wide_text,
};
use super::readings::{law_exposure_is_read, lemma_stamped, reads_exposed};
use super::requests::{
    counted, counting, drawing_fits, drawing_request, processing_may_lead_to, Pending,
};
use super::strokes::lemma_drawing_processed;
use super::wire::{i16_at, pattern16, u16_at, u32_at, ByteOrder};
use super::{gc_in, ActionModel, ServerModel};
use crate::display::RenderModel;

verus! {

/// Whether some data starts like a request to draw text: the drawable, the graphics
/// context and the point.
pub open spec fn text_at(
    o: ByteOrder,
    data: Seq<u8>,
    drawable: u32,
    gc: u32,
    x: i16,
    y: i16,
) -> bool {
    &&& data.len() >= 16
    &&& u32_at(o, data, 4) == drawable
    &&& u32_at(o, data, 8) == gc
    &&& i16_at(o, data, 12) == x
    &&& i16_at(o, data, 14) == y
}

/// The characters of numbers, encoded one after the other.
pub open spec fn encoded(codes: Seq<u32>) -> Seq<u8>
    decreases codes.len(),
{
    if codes.len() == 0 {
        Seq::empty()
    } else {
        encoded(codes.drop_last()) + vstd::utf8::encode_scalar(codes.last())
    }
}

/// Whether wide characters stand at a place: the high byte, then the low one.
pub open spec fn wide_at(data: Seq<u8>, at: int, codes: Seq<u32>) -> bool {
    &&& 0 <= at
    &&& at + 2 * codes.len() <= data.len()
    &&& forall|i: int| #![trigger codes[i]]
        0 <= i < codes.len() ==> data[at + 2 * i] * 256 + data[at + 2 * i + 1] == codes[i]
            && vstd::utf8::is_scalar(codes[i])
}

proof fn lemma_wide_text(data: Seq<u8>, at: int, codes: Seq<u32>)
    requires
        wide_at(data, at, codes),
    ensures
        wide_text(data, at, codes.len()) == encoded(codes),
        wide_count(data, at, codes.len()) == codes.len(),
    decreases codes.len(),
{
    if codes.len() > 0 {
        let rest = codes.drop_last();
        assert forall|i: int| #![trigger rest[i]] 0 <= i < rest.len() implies data[at + 2 * i] * 256
            + data[at + 2 * i + 1] == rest[i] && vstd::utf8::is_scalar(rest[i]) by {
            assert(rest[i] == codes[i]);
        }
        lemma_wide_text(data, at, rest);
        let n = codes.len() - 1;
        assert(codes[n] == codes.last());
        assert(data[at + 2 * n] * 256 + data[at + 2 * n + 1] == codes[n]);
    }
}

proof fn lemma_image_text(s: ServerModel, conn: ClientConnection, data: Seq<u8>)
    requires
        data.len() >= 16,
        data[0] == 76 || data[0] == 77,
    ensures
        drawing_fits(conn, data),
        drawing_request(s, conn, data).1 is Ok,
        data[0] == 76 && 16 + data[1] <= data.len() ==> drawing_request(s, conn, data).0
            == image_text_drawn(s, conn, data, data.subrange(16, 16 + data[1]), data[1] * 6),
        data[0] == 77 && 16 + 2 * data[1] <= data.len() ==> drawing_request(s, conn, data).0
            == image_text_drawn(
            s,
            conn,
            data,
            wide_text(data, 16, data[1] as nat),
            wide_count(data, 16, data[1] as nat) as int * 12,
        ),
{
    reveal(drawing_request);
}

/// The text of ImageText8 is drawn at the point, over the background, in the
/// graphics context's font and colors; the input method's window goes behind it.
pub proof fn law_image_text_is_drawn(
    s: ServerModel,
    id: u32,
    data: Seq<u8>,
    drawable: u32,
    gc: u32,
    x: i16,
    y: i16,
    after: ServerModel,
    r: Option<Pending>,
)
    requires
        s.connections.dom().contains(id),
        data[0] == 76,
        text_at(s.connections[id].byte_order, data, drawable, gc, x, y),
        0 < data[1],
        16 + data[1] <= data.len(),
        x + 6 * data[1] <= 0x7FFF,
        gc_in(s.resources, gc) is Some,
        processing_may_lead_to(s, id, data, after, r),
    ensures
        ({
            let g = gc_in(s.resources, gc)->0;
            after == drawn(
                spotted(counted(s, id), drawable, (x + 6 * data[1]) as i16, y),
                drawable,
                seq![
                    RenderModel::DrawText {
                        x,
                        y,
                        text: data.subrange(16, 16 + data[1]),
                        font_id: g.font,
                        color: g.foreground,
                        bg_color: Some(g.background),
                        gc_function: 3,
                    },
                ],
            )
        }),
{
    lemma_image_text(counted(s, id), counting(s.connections[id]), data);
    lemma_drawing_processed(s, id, data, after, r);
}

/// The characters of ImageText16 are drawn likewise.
pub proof fn law_wide_image_text_is_drawn(
    s: ServerModel,
    id: u32,
    data: Seq<u8>,
    drawable: u32,
    gc: u32,
    x: i16,
    y: i16,
    codes: Seq<u32>,
    after: ServerModel,
    r: Option<Pending>,
)
    requires
        s.connections.dom().contains(id),
        data[0] == 77,
        text_at(s.connections[id].byte_order, data, drawable, gc, x, y),
        data[1] == codes.len(),
        wide_at(data, 16, codes),
        encoded(codes).len() > 0,
        x + 12 * data[1] <= 0x7FFF,
        gc_in(s.resources, gc) is Some,
        processing_may_lead_to(s, id, data, after, r),
    ensures
        ({
            let g = gc_in(s.resources, gc)->0;
            after == drawn(
                spotted(counted(s, id), drawable, (x + 12 * data[1]) as i16, y),
                drawable,
                seq![
                    RenderModel::DrawText {
                        x,
                        y,
                        text: encoded(codes),
                        font_id: g.font,
                        color: g.foreground,
                        bg_color: Some(g.background),
                        gc_function: 3,
                    },
                ],
            )
        }),
{
    lemma_image_text(counted(s, id), counting(s.connections[id]), data);
    lemma_wide_text(data, 16, codes);
    lemma_drawing_processed(s, id, data, after, r);
}

/// The input method's window goes to a point of the native window: that point of
/// the drawable, moved by where the drawable lies.
pub proof fn law_input_spot_is_where_text_ends(
    s: ServerModel,
    window: u32,
    x: i16,
    y: i16,
)
    requires
        s.window(window) is Some,
        s.window(window)->0.native_window is Some,
    ensures
        spotted(s, window, x, y).outbox == s.outbox.push(ActionModel::ImeSpot { x, y }),
{
}

/// The items of PolyText8: for each its length, its distance and its characters.
pub open spec fn items(texts: Seq<Seq<u8>>) -> Seq<u8>
    decreases texts.len(),
{
    if texts.len() == 0 {
        Seq::empty()
    } else {
        seq![texts[0].len() as u8, 0u8] + texts[0] + items(texts.drop_first())
    }
}

/// The characters of all items.
pub open spec fn run_on(texts: Seq<Seq<u8>>) -> Seq<u8>
    decreases texts.len(),
{
    if texts.len() == 0 {
        Seq::empty()
    } else {
        texts[0] + run_on(texts.drop_first())
    }
}

proof fn lemma_items(data: Seq<u8>, at: int, texts: Seq<Seq<u8>>)
    requires
        0 <= at <= data.len(),
        data.skip(at) == items(texts),
        forall|i: int| 0 <= i < texts.len() ==> 0 < (#[trigger] texts[i]).len() < 255,
    ensures
        item_text(data, at) == run_on(texts),
        items_readable(data, at, false),
    decreases texts.len(),
{
    if texts.len() == 0 {
        assert(data.skip(at).len() == 0);
    } else {
        let t = texts[0];
        let rest = texts.drop_first();
        let n = t.len() as int;
        let tail = data.skip(at);
        assert(tail.len() == 2 + n + items(rest).len());
        assert(tail[0] == data[at]);
        assert(data[at] == n);
        let next = at + 2 + n;
        assert(data.skip(next) =~= items(rest)) by {
            assert(data.skip(next) =~= tail.skip(2 + n));
        }
        assert(data.subrange(at + 2, next) =~= t) by {
            assert forall|i: int| 0 <= i < n implies data.subrange(at + 2, next)[i] == t[i] by {
                assert(tail[2 + i] == t[i]);
            }
        }
        assert forall|i: int| 0 <= i < rest.len() implies 0 < (#[trigger] rest[i]).len() < 255 by {
            assert(rest[i] == texts[i + 1]);
        }
        lemma_items(data, next, rest);
    }
}

proof fn lemma_poly_text(s: ServerModel, conn: ClientConnection, data: Seq<u8>)
    requires
        data.len() >= 16,
        data[0] == 74,
        items_readable(data, 16, false),
    ensures
        drawing_fits(conn, data),
        drawing_request(s, conn, data).1 is Ok,
        drawing_request(s, conn, data).0 == text_drawn(s, conn, data, item_text(data, 16)),
{
    reveal(drawing_request);
}

/// The items of PolyText8 are drawn one after the other, from the point, in the
/// graphics context's font, foreground and raster operation.
pub proof fn law_text_is_drawn(
    s: ServerModel,
    id: u32,
    data: Seq<u8>,
    drawable: u32,
    gc: u32,
    x: i16,
    y: i16,
    texts: Seq<Seq<u8>>,
    after: ServerModel,
    r: Option<Pending>,
)
    requires
        s.connections.dom().contains(id),
        data[0] == 74,
        text_at(s.connections[id].byte_order, data, drawable, gc, x, y),
        data.skip(16) == items(texts),
        texts.len() > 0,
        forall|i: int| 0 <= i < texts.len() ==> 0 < (#[trigger] texts[i]).len() < 255,
        gc_in(s.resources, gc) is Some,
        processing_may_lead_to(s, id, data, after, r),
    ensures
        ({
            let g = gc_in(s.resources, gc)->0;
            after == drawn(
                counted(s, id),
                drawable,
                seq![
                    RenderModel::DrawText {
                        x,
                        y,
                        text: run_on(texts),
                        font_id: g.font,
                        color: g.foreground,
                        bg_color: None,
                        gc_function: g.function.number(),
                    },
                ],
            )
        }),
{
    lemma_items(data, 16, texts);
    lemma_poly_text(counted(s, id), counting(s.connections[id]), data);
    assert(run_on(texts).len() > 0) by {
        assert(texts[0].len() > 0);
    }
    lemma_drawing_processed(s, id, data, after, r);
}

/// The items of PolyText16.
pub open spec fn wide_items(texts: Seq<Seq<u32>>) -> Seq<u8>
    decreases texts.len(),
{
    if texts.len() == 0 {
        Seq::empty()
    } else {
        seq![texts[0].len() as u8, 0u8] + wide_bytes(texts[0]) + wide_items(texts.drop_first())
    }
}

/// Characters of two bytes each, the high one first.
pub open spec fn wide_bytes(codes: Seq<u32>) -> Seq<u8> {
    Seq::new(
        2 * codes.len(),
        |i: int|
            if i % 2 == 0 {
                (codes[i / 2] / 256) as u8
            } else {
                (codes[i / 2] % 256) as u8
            },
    )
}

/// The characters of all items, encoded.
pub open spec fn wide_run_on(texts: Seq<Seq<u32>>) -> Seq<u8>
    decreases texts.len(),
{
    if texts.len() == 0 {
        Seq::empty()
    } else {
        encoded(texts[0]) + wide_run_on(texts.drop_first())
    }
}

/// Whether a list of items of wide characters can be written.
pub open spec fn writable(texts: Seq<Seq<u32>>) -> bool {
    forall|i: int|
        0 <= i < texts.len() ==> 0 < (#[trigger] texts[i]).len() < 255 && forall|j: int|
            0 <= j < texts[i].len() ==> (#[trigger] texts[i][j]) < 0x10000 && vstd::utf8::is_scalar(
                texts[i][j],
            )
}

proof fn lemma_wide_items(data: Seq<u8>, at: int, texts: Seq<Seq<u32>>)
    requires
        0 <= at <= data.len(),
        data.skip(at) == wide_items(texts),
        writable(texts),
    ensures
        wide_item_text(data, at) == wide_run_on(texts),
        items_readable(data, at, true),
    decreases texts.len(),
{
    if texts.len() == 0 {
        assert(data.skip(at).len() == 0);
    } else {
        let t = texts[0];
        let b = wide_bytes(t);
        let rest = texts.drop_first();
        let n = t.len() as int;
        let tail = data.skip(at);
        assert(tail.len() == 2 + 2 * n + wide_items(rest).len());
        assert(tail[0] == data[at]);
        assert(data[at] == n);
        let next = at + 2 + 2 * n;
        assert(data.skip(next) =~= wide_items(rest)) by {
            assert(data.skip(next) =~= tail.skip(2 + 2 * n));
        }
        assert forall|i: int| #![trigger t[i]] 0 <= i < t.len() implies data[at + 2 + 2 * i] * 256
            + data[at + 2 + 2 * i + 1] == t[i] && vstd::utf8::is_scalar(t[i]) by {
            assert(texts[0][i] < 0x10000);
            assert((2 * i) % 2 == 0 && (2 * i) / 2 == i && (2 * i + 1) % 2 == 1 && (2 * i + 1) / 2
                == i);
            assert(tail[2 + 2 * i] == b[2 * i]);
            assert(tail[2 + 2 * i + 1] == b[2 * i + 1]);
        }
        lemma_wide_text(data, at + 2, t);
        assert(writable(rest)) by {
            assert forall|i: int| 0 <= i < rest.len() implies 0 < (#[trigger] rest[i]).len() < 255
                && forall|j: int|
                0 <= j < rest[i].len() ==> (#[trigger] rest[i][j]) < 0x10000
                    && vstd::utf8::is_scalar(rest[i][j]) by {
                assert(rest[i] == texts[i + 1]);
            }
        }
        lemma_wide_items(data, next, rest);
    }
}

proof fn lemma_poly_wide_text(s: ServerModel, conn: ClientConnection, data: Seq<u8>)
    requires
        data.len() >= 16,
        data[0] == 75,
        items_readable(data, 16, true),
    ensures
        drawing_fits(conn, data),
        drawing_request(s, conn, data).1 is Ok,
        drawing_request(s, conn, data).0 == text_drawn(s, conn, data, wide_item_text(data, 16)),
{
    reveal(drawing_request);
}

/// The items of PolyText16 are drawn one after the other, from the point.
pub proof fn law_wide_text_is_drawn(
    s: ServerModel,
    id: u32,
    data: Seq<u8>,
    drawable: u32,
    gc: u32,
    x: i16,
    y: i16,
    texts: Seq<Seq<u32>>,
    after: ServerModel,
    r: Option<Pending>,
)
    requires
        s.connections.dom().contains(id),
        data[0] == 75,
        text_at(s.connections[id].byte_order, data, drawable, gc, x, y),
        data.skip(16) == wide_items(texts),
        writable(texts),
        wide_run_on(texts).len() > 0,
        gc_in(s.resources, gc) is Some,
        processing_may_lead_to(s, id, data, after, r),
    ensures
        ({
            let g = gc_in(s.resources, gc)->0;
            after == drawn(
                counted(s, id),
                drawable,
                seq![
                    RenderModel::DrawText {
                        x,
                        y,
                        text: wide_run_on(texts),
                        font_id: g.font,
                        color: g.foreground,
                        bg_color: None,
                        gc_function: g.function.number(),
                    },
                ],
            )
        }),
{
    lemma_wide_items(data, 16, texts);
    lemma_poly_wide_text(counted(s, id), counting(s.connections[id]), data);
    lemma_drawing_processed(s, id, data, after, r);
}

/// How far a window reaches from a point, where a request leaves a side out.
pub open spec fn side(asked: u16, whole: u16, from: i16) -> int {
    if asked != 0 {
        asked as int
    } else if 0 <= from <= whole {
        whole - from
    } else {
        0
    }
}

proof fn lemma_clear(s: ServerModel, conn: ClientConnection, data: Seq<u8>, window: u32) -> (e: Seq<
    u8,
>)
    requires
        data.len() >= 16,
        data[0] == 61,
        u32_at(conn.byte_order, data, 4) == window,
        s.window(window) is Some,
        s.window(window)->0.background_pixel is Some,
    ensures
        drawing_request(s, conn, data).1 is Ok,
        ({
            let o = conn.byte_order;
            let w = s.window(window)->0;
            let x = i16_at(o, data, 8);
            let y = i16_at(o, data, 10);
            let width = side(u16_at(o, data, 12), w.width, x);
            let height = side(u16_at(o, data, 14), w.height, y);
            let t = drawn(
                s,
                window,
                seq![
                    RenderModel::ClearArea {
                        x,
                        y,
                        width: width as u16,
                        height: height as u16,
                        bg_color: w.background_pixel->0,
                    },
                ],
            );
            0 <= x && 0 <= y ==> drawing_request(s, conn, data).0 == if data[1] != 0 && width > 0
                && height > 0 {
                t.replying(conn, e)
            } else {
                t
            } && reads_exposed(
                o,
                e,
                window,
                x as u16,
                y as u16,
                width as u16,
                height as u16,
                0,
            )
        }),
{
    reveal(drawing_request);
    let o = conn.byte_order;
    let w = s.window(window)->0;
    let x = i16_at(o, data, 8);
    let y = i16_at(o, data, 10);
    let width = side(u16_at(o, data, 12), w.width, x) as u16;
    let height = side(u16_at(o, data, 14), w.height, y) as u16;
    let plain = expose_event(conn, window, pattern16(x), pattern16(y), width, height, 0);
    law_exposure_is_read(conn, window, pattern16(x), pattern16(y), width, height, 0);
    lemma_stamped(conn, plain, conn.request_sequence());
    stamped(conn, plain, conn.request_sequence())
}

/// ClearArea fills the area with the window's background, to the window's edge
/// where a side is left out, and has the area exposed where that was asked for.
pub proof fn law_areas_are_cleared(
    s: ServerModel,
    id: u32,
    data: Seq<u8>,
    window: u32,
    x: i16,
    y: i16,
    width: u16,
    height: u16,
    after: ServerModel,
    r: Option<Pending>,
)
    requires
        s.connections.dom().contains(id),
        data.len() >= 16,
        data[0] == 61,
        u32_at(s.connections[id].byte_order, data, 4) == window,
        i16_at(s.connections[id].byte_order, data, 8) == x,
        i16_at(s.connections[id].byte_order, data, 10) == y,
        u16_at(s.connections[id].byte_order, data, 12) == width,
        u16_at(s.connections[id].byte_order, data, 14) == height,
        s.window(window) is Some,
        s.window(window)->0.background_pixel is Some,
        0 <= x,
        0 <= y,
        processing_may_lead_to(s, id, data, after, r),
    ensures
        ({
            let w = s.window(window)->0;
            let wide = side(width, w.width, x);
            let high = side(height, w.height, y);
            let t = drawn(
                counted(s, id),
                window,
                seq![
                    RenderModel::ClearArea {
                        x,
                        y,
                        width: wide as u16,
                        height: high as u16,
                        bg_color: w.background_pixel->0,
                    },
                ],
            );
            if data[1] != 0 && wide > 0 && high > 0 {
                exists|e: Seq<u8>|
                    after == #[trigger] t.replying(counting(s.connections[id]), e)
                        && reads_exposed(
                        s.connections[id].byte_order,
                        e,
                        window,
                        x as u16,
                        y as u16,
                        wide as u16,
                        high as u16,
                        0,
                    )
            } else {
                after == t
            }
        }),
{
    let e = lemma_clear(counted(s, id), counting(s.connections[id]), data, window);
    lemma_drawing_processed(s, id, data, after, r);
}

} // verus!
