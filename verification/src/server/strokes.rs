//! What drawing requests put on a surface: the figures that the client wrote.

use vstd::prelude::*;

use super::connection::ClientConnection;
use super::drawing::{
    absolute_point, arcs, clip_models, dots, drawn, fill_rectangles, filled_arcs, mapped_rects,
    outlines, pen, points_at, polyline, raw_points, segments,
};
use super::layout::{halves, lemma_request, lemma_request_with_bytes, request, words};
use super::requests::{
    counted, counting, drawing_fits, drawing_request, kind_of, processing_may_lead_to, Kind, Pending,
};
use super::resources::{GContextState, ResourceModel};
use super::wire::{pattern16, u16_at, u32_at, ByteOrder};
use super::{gc_in, ActionModel, ServerModel};
use crate::display::RenderModel;
use crate::util::coord::X11Rect;

verus! {

/// Whether a drawable has a surface of its own: a pixmap, or a window with a
/// native window.
pub open spec fn has_surface(s: ServerModel, drawable: u32) -> bool {
    s.resources.dom().contains(drawable) && match s.resources[drawable] {
        ResourceModel::Pixmap(_) => true,
        ResourceModel::Window(w) => w.native_window is Some,
        _ => false,
    }
}

/// Whether some drawing operations are all that was queued, for the surface of a
/// drawable.
pub open spec fn lands_on(s: ServerModel, after: ServerModel, drawable: u32, cs: Seq<RenderModel>) -> bool {
    match s.resources[drawable] {
        ResourceModel::Pixmap(_) => after.outbox == s.outbox.push(
            ActionModel::RenderPixmap { pixmap: drawable, commands: cs },
        ),
        ResourceModel::Window(w) => after.outbox == s.outbox.push(
            ActionModel::Render { window: w.native_window->0.id, commands: cs },
        ),
        _ => false,
    }
}

/// Whether an operation draws with the foreground and the raster operation of a
/// graphics context.
pub open spec fn inked(g: Option<GContextState>, color: u32, gc_function: u8) -> bool {
    g matches Some(g) ==> color == g.foreground && gc_function == g.function.number()
}

/// Whether an operation draws with the pen of a graphics context.
pub open spec fn penned(g: Option<GContextState>, color: u32, line_width: u16, gc_function: u8) -> bool {
    inked(g, color, gc_function) && (g matches Some(g) ==> line_width == g.line_width)
}

pub proof fn lemma_nothing_to_clip(cs: Seq<RenderModel>, rects: Seq<X11Rect>)
    requires
        forall|i: int| 0 <= i < cs.len() ==> !(#[trigger] cs[i] is ClearArea),
    ensures
        clip_models(cs, rects) == cs,
    decreases cs.len(),
{
    if cs.len() > 0 {
        let rest = cs.drop_last();
        assert forall|i: int| 0 <= i < rest.len() implies !(#[trigger] rest[i] is ClearArea) by {
            assert(rest[i] == cs[i]);
        }
        lemma_nothing_to_clip(rest, rects);
        assert(cs[cs.len() - 1] == cs.last());
        assert(clip_models(cs, rects) =~= cs);
    } else {
        assert(clip_models(cs, rects) =~= cs);
    }
}

/// A request that draws, once it was processed.
pub proof fn lemma_drawing_processed(
    s: ServerModel,
    id: u32,
    data: Seq<u8>,
    after: ServerModel,
    r: Option<Pending>,
)
    requires
        s.connections.dom().contains(id),
        data.len() >= 4,
        kind_of(data[0]) == Kind::Drawing,
        drawing_fits(counting(s.connections[id]), data),
        processing_may_lead_to(s, id, data, after, r),
    ensures
        drawing_request(counted(s, id), counting(s.connections[id]), data).1 is Ok ==> after
            == drawing_request(counted(s, id), counting(s.connections[id]), data).0,
{
}

/// Drawing without clearing on a surface queues the operations.
pub proof fn lemma_lands(
    s: ServerModel,
    begun: ServerModel,
    after: ServerModel,
    drawable: u32,
    cs: Seq<RenderModel>,
)
    requires
        begun.resources == s.resources,
        begun.outbox == s.outbox,
        has_surface(s, drawable),
        after == drawn(begun, drawable, cs),
        forall|i: int| 0 <= i < cs.len() ==> !(#[trigger] cs[i] is ClearArea),
    ensures
        lands_on(s, after, drawable, cs),
{
    match s.resources[drawable] {
        ResourceModel::Window(w) => {
            lemma_nothing_to_clip(cs, mapped_rects(begun.resources, w.children));
        },
        _ => {},
    }
}

/// The numbers of a list of segments.
pub open spec fn segment_numbers(segs: Seq<(i16, i16, i16, i16)>) -> Seq<u16> {
    Seq::new(
        4 * segs.len(),
        |k: int|
            {
                let g = segs[k / 4];
                pattern16(
                    if k % 4 == 0 {
                        g.0
                    } else if k % 4 == 1 {
                        g.1
                    } else if k % 4 == 2 {
                        g.2
                    } else {
                        g.3
                    },
                )
            },
    )
}

/// The numbers of a list of rectangles.
pub open spec fn rect_numbers(rects: Seq<X11Rect>) -> Seq<u16> {
    Seq::new(
        4 * rects.len(),
        |k: int|
            {
                let r = rects[k / 4];
                if k % 4 == 0 {
                    pattern16(r.x)
                } else if k % 4 == 1 {
                    pattern16(r.y)
                } else if k % 4 == 2 {
                    r.width
                } else {
                    r.height
                }
            },
    )
}

/// The numbers of a list of arcs: the rectangle around each and its angles.
pub open spec fn arc_numbers(arcs: Seq<(X11Rect, i16, i16)>) -> Seq<u16> {
    Seq::new(
        6 * arcs.len(),
        |k: int|
            {
                let (r, from, extent) = arcs[k / 6];
                if k % 6 == 0 {
                    pattern16(r.x)
                } else if k % 6 == 1 {
                    pattern16(r.y)
                } else if k % 6 == 2 {
                    r.width
                } else if k % 6 == 3 {
                    r.height
                } else if k % 6 == 4 {
                    pattern16(from)
                } else {
                    pattern16(extent)
                }
            },
    )
}

/// The numbers of a list of points.
pub open spec fn point_numbers(points: Seq<(i16, i16)>) -> Seq<u16> {
    Seq::new(
        2 * points.len(),
        |k: int|
            if k % 2 == 0 {
                pattern16(points[k / 2].0)
            } else {
                pattern16(points[k / 2].1)
            },
    )
}

/// A request that names a drawable and a graphics context, and then numbers.
pub open spec fn figures(
    o: ByteOrder,
    opcode: u8,
    detail: u8,
    drawable: u32,
    gc: u32,
    numbers: Seq<u16>,
) -> Seq<u8> {
    request(
        o,
        opcode,
        detail,
        words(o, seq![drawable, gc]) + halves(o, numbers) + words(o, seq![]) + seq![],
    )
}

proof fn lemma_figures(o: ByteOrder, opcode: u8, detail: u8, drawable: u32, gc: u32, ns: Seq<u16>)
    ensures
        ({
            let data = figures(o, opcode, detail, drawable, gc, ns);
            &&& data.len() == 12 + 2 * ns.len()
            &&& data[0] == opcode
            &&& data[1] == detail
            &&& u32_at(o, data, 4) == drawable
            &&& u32_at(o, data, 8) == gc
            &&& forall|i: int| #![trigger ns[i]]
                0 <= i < ns.len() ==> u16_at(o, data, 12 + 2 * i) == ns[i]
        }),
{
    let ws = seq![drawable, gc];
    lemma_request(o, opcode, detail, ws, ns, seq![], seq![]);
    assert(ws[0] == drawable && ws[1] == gc);
}

/// Whether operations draw some segments, each from end to end.
pub open spec fn are_segments(
    cs: Seq<RenderModel>,
    segs: Seq<(i16, i16, i16, i16)>,
    g: Option<GContextState>,
) -> bool {
    cs.len() == segs.len() && forall|i: int|
        0 <= i < segs.len() ==> (#[trigger] cs[i] matches RenderModel::DrawLine {
            x1,
            y1,
            x2,
            y2,
            color,
            line_width,
            gc_function,
        } && (x1, y1, x2, y2) == segs[i] && penned(g, color, line_width, gc_function))
}

proof fn lemma_segments(
    o: ByteOrder,
    drawable: u32,
    gc: u32,
    segs: Seq<(i16, i16, i16, i16)>,
    m: Map<u32, ResourceModel>,
)
    ensures
        are_segments(
            segments(
                o,
                figures(o, 66, 0, drawable, gc, segment_numbers(segs)),
                pen(m, gc, 0xFFFFFF),
            ),
            segs,
            gc_in(m, gc),
        ),
{
    let ns = segment_numbers(segs);
    let data = figures(o, 66, 0, drawable, gc, ns);
    lemma_figures(o, 66, 0, drawable, gc, ns);
    let cs = segments(o, data, pen(m, gc, 0xFFFFFF));
    assert forall|i: int| 0 <= i < segs.len() implies (#[trigger] cs[i] matches RenderModel::DrawLine {
        x1,
        y1,
        x2,
        y2,
        color,
        line_width,
        gc_function,
    } && (x1, y1, x2, y2) == segs[i] && penned(gc_in(m, gc), color, line_width, gc_function)) by {
        assert(ns[4 * i] == pattern16(segs[i].0));
        assert(ns[4 * i + 1] == pattern16(segs[i].1));
        assert(ns[4 * i + 2] == pattern16(segs[i].2));
        assert(ns[4 * i + 3] == pattern16(segs[i].3));
    }
}

proof fn lemma_poly_segment(s: ServerModel, conn: ClientConnection, data: Seq<u8>)
    requires
        data.len() >= 12,
        data[0] == 66,
    ensures
        ({
            let o = conn.byte_order;
            let out = drawing_request(s, conn, data);
            &&& out.1 is Ok
            &&& out.0 == drawn(
                s,
                u32_at(o, data, 4),
                segments(o, data, pen(s.resources, u32_at(o, data, 8), 0xFFFFFF)),
            )
        }),
{
    reveal(drawing_request);
}

/// PolySegment draws each segment that was sent, from end to end, with the
/// client's pen.
pub proof fn law_segments_are_drawn(
    s: ServerModel,
    id: u32,
    drawable: u32,
    gc: u32,
    segs: Seq<(i16, i16, i16, i16)>,
    after: ServerModel,
    r: Option<Pending>,
)
    requires
        s.connections.dom().contains(id),
        has_surface(s, drawable),
        processing_may_lead_to(
            s,
            id,
            figures(s.connections[id].byte_order, 66, 0, drawable, gc, segment_numbers(segs)),
            after,
            r,
        ),
    ensures
        exists|cs: Seq<RenderModel>| #[trigger]
            lands_on(s, after, drawable, cs) && are_segments(cs, segs, gc_in(s.resources, gc)),
{
    let o = s.connections[id].byte_order;
    let ns = segment_numbers(segs);
    let data = figures(o, 66, 0, drawable, gc, ns);
    let begun = counted(s, id);
    lemma_figures(o, 66, 0, drawable, gc, ns);
    lemma_drawing_processed(s, id, data, after, r);
    lemma_poly_segment(begun, counting(s.connections[id]), data);
    let cs = segments(o, data, pen(begun.resources, gc, 0xFFFFFF));
    lemma_segments(o, drawable, gc, segs, begun.resources);
    lemma_lands(s, begun, after, drawable, cs);
}


/// Whether operations draw the outlines of some rectangles.
pub open spec fn are_outlines(
    cs: Seq<RenderModel>,
    items: Seq<X11Rect>,
    g: Option<GContextState>,
) -> bool {
    cs.len() == items.len() && forall|i: int|
        0 <= i < items.len() ==> (#[trigger] cs[i] matches RenderModel::DrawRectangle {
            x,
            y,
            width,
            height,
            color,
            line_width,
            gc_function,
        } && (X11Rect { x, y, width, height }) == items[i] && penned(g, color, line_width, gc_function))
}

proof fn lemma_outlines(
    o: ByteOrder,
    drawable: u32,
    gc: u32,
    items: Seq<X11Rect>,
    m: Map<u32, ResourceModel>,
)
    ensures
        are_outlines(
            outlines(
                o,
                figures(o, 67, 0, drawable, gc, rect_numbers(items)),
                pen(m, gc, 0xFFFFFF),
            ),
            items,
            gc_in(m, gc),
        ),
{
    let ns = rect_numbers(items);
    let data = figures(o, 67, 0, drawable, gc, ns);
    lemma_figures(o, 67, 0, drawable, gc, ns);
    let cs = outlines(o, data, pen(m, gc, 0xFFFFFF));
    assert forall|i: int| 0 <= i < items.len() implies (#[trigger] cs[i] matches RenderModel::DrawRectangle {
        x,
        y,
        width,
        height,
        color,
        line_width,
        gc_function,
    } && (X11Rect { x, y, width, height }) == items[i] && penned(gc_in(m, gc), color, line_width, gc_function)) by {
        assert(ns[4 * i] == pattern16(items[i].x));
        assert(ns[4 * i + 1] == pattern16(items[i].y));
        assert(ns[4 * i + 2] == items[i].width);
        assert(ns[4 * i + 3] == items[i].height);
    }
}

proof fn lemma_poly_rectangle(s: ServerModel, conn: ClientConnection, data: Seq<u8>)
    requires
        data.len() >= 12,
        data[0] == 67,
    ensures
        ({
            let o = conn.byte_order;
            let out = drawing_request(s, conn, data);
            &&& out.1 is Ok
            &&& out.0 == drawn(
                s,
                u32_at(o, data, 4),
                outlines(o, data, pen(s.resources, u32_at(o, data, 8), 0xFFFFFF)),
            )
        }),
{
    reveal(drawing_request);
}

/// PolyRectangle outlines each rectangle that was sent, with the client's pen.
pub proof fn law_rectangles_are_outlined(
    s: ServerModel,
    id: u32,
    drawable: u32,
    gc: u32,
    items: Seq<X11Rect>,
    after: ServerModel,
    r: Option<Pending>,
)
    requires
        s.connections.dom().contains(id),
        has_surface(s, drawable),
        processing_may_lead_to(
            s,
            id,
            figures(s.connections[id].byte_order, 67, 0, drawable, gc, rect_numbers(items)),
            after,
            r,
        ),
    ensures
        exists|cs: Seq<RenderModel>| #[trigger]
            lands_on(s, after, drawable, cs) && are_outlines(cs, items, gc_in(s.resources, gc)),
{
    let o = s.connections[id].byte_order;
    let ns = rect_numbers(items);
    let data = figures(o, 67, 0, drawable, gc, ns);
    let begun = counted(s, id);
    lemma_figures(o, 67, 0, drawable, gc, ns);
    lemma_drawing_processed(s, id, data, after, r);
    lemma_poly_rectangle(begun, counting(s.connections[id]), data);
    let cs = outlines(o, data, pen(begun.resources, gc, 0xFFFFFF));
    lemma_outlines(o, drawable, gc, items, begun.resources);
    lemma_lands(s, begun, after, drawable, cs);
}

/// Whether operations fill some rectangles.
pub open spec fn are_fillings(
    cs: Seq<RenderModel>,
    items: Seq<X11Rect>,
    g: Option<GContextState>,
) -> bool {
    cs.len() == items.len() && forall|i: int|
        0 <= i < items.len() ==> (#[trigger] cs[i] matches RenderModel::FillRectangle {
            x,
            y,
            width,
            height,
            color,
            gc_function,
        } && (X11Rect { x, y, width, height }) == items[i] && inked(g, color, gc_function))
}

proof fn lemma_fillings(
    o: ByteOrder,
    drawable: u32,
    gc: u32,
    items: Seq<X11Rect>,
    m: Map<u32, ResourceModel>,
)
    ensures
        are_fillings(
            fill_rectangles(
                o,
                figures(o, 70, 0, drawable, gc, rect_numbers(items)),
                pen(m, gc, 0),
            ),
            items,
            gc_in(m, gc),
        ),
{
    let ns = rect_numbers(items);
    let data = figures(o, 70, 0, drawable, gc, ns);
    lemma_figures(o, 70, 0, drawable, gc, ns);
    let cs = fill_rectangles(o, data, pen(m, gc, 0));
    assert forall|i: int| 0 <= i < items.len() implies (#[trigger] cs[i] matches RenderModel::FillRectangle {
        x,
        y,
        width,
        height,
        color,
        gc_function,
    } && (X11Rect { x, y, width, height }) == items[i] && inked(gc_in(m, gc), color, gc_function)) by {
        assert(ns[4 * i] == pattern16(items[i].x));
        assert(ns[4 * i + 1] == pattern16(items[i].y));
        assert(ns[4 * i + 2] == items[i].width);
        assert(ns[4 * i + 3] == items[i].height);
    }
}

proof fn lemma_poly_fill_rectangle(s: ServerModel, conn: ClientConnection, data: Seq<u8>)
    requires
        data.len() >= 12,
        data[0] == 70,
    ensures
        ({
            let o = conn.byte_order;
            let out = drawing_request(s, conn, data);
            &&& out.1 is Ok
            &&& out.0 == drawn(
                s,
                u32_at(o, data, 4),
                fill_rectangles(o, data, pen(s.resources, u32_at(o, data, 8), 0)),
            )
        }),
{
    reveal(drawing_request);
}

/// PolyFillRectangle fills each rectangle that was sent, with the client's color.
pub proof fn law_rectangles_are_filled(
    s: ServerModel,
    id: u32,
    drawable: u32,
    gc: u32,
    items: Seq<X11Rect>,
    after: ServerModel,
    r: Option<Pending>,
)
    requires
        s.connections.dom().contains(id),
        has_surface(s, drawable),
        processing_may_lead_to(
            s,
            id,
            figures(s.connections[id].byte_order, 70, 0, drawable, gc, rect_numbers(items)),
            after,
            r,
        ),
    ensures
        exists|cs: Seq<RenderModel>| #[trigger]
            lands_on(s, after, drawable, cs) && are_fillings(cs, items, gc_in(s.resources, gc)),
{
    let o = s.connections[id].byte_order;
    let ns = rect_numbers(items);
    let data = figures(o, 70, 0, drawable, gc, ns);
    let begun = counted(s, id);
    lemma_figures(o, 70, 0, drawable, gc, ns);
    lemma_drawing_processed(s, id, data, after, r);
    lemma_poly_fill_rectangle(begun, counting(s.connections[id]), data);
    let cs = fill_rectangles(o, data, pen(begun.resources, gc, 0));
    lemma_fillings(o, drawable, gc, items, begun.resources);
    lemma_lands(s, begun, after, drawable, cs);
}

/// Whether operations draw some arcs.
pub open spec fn are_arcs(
    cs: Seq<RenderModel>,
    items: Seq<(X11Rect, i16, i16)>,
    g: Option<GContextState>,
) -> bool {
    cs.len() == items.len() && forall|i: int|
        0 <= i < items.len() ==> (#[trigger] cs[i] matches RenderModel::DrawArc {
            x,
            y,
            width,
            height,
            angle1,
            angle2,
            color,
            line_width,
            gc_function,
        } && ((X11Rect { x, y, width, height }), angle1, angle2) == items[i] && penned(g, color, line_width, gc_function))
}

proof fn lemma_arcs(
    o: ByteOrder,
    drawable: u32,
    gc: u32,
    items: Seq<(X11Rect, i16, i16)>,
    m: Map<u32, ResourceModel>,
)
    ensures
        are_arcs(
            arcs(
                o,
                figures(o, 68, 0, drawable, gc, arc_numbers(items)),
                pen(m, gc, 0xFFFFFF),
            ),
            items,
            gc_in(m, gc),
        ),
{
    let ns = arc_numbers(items);
    let data = figures(o, 68, 0, drawable, gc, ns);
    lemma_figures(o, 68, 0, drawable, gc, ns);
    let cs = arcs(o, data, pen(m, gc, 0xFFFFFF));
    assert forall|i: int| 0 <= i < items.len() implies (#[trigger] cs[i] matches RenderModel::DrawArc {
        x,
        y,
        width,
        height,
        angle1,
        angle2,
        color,
        line_width,
        gc_function,
    } && ((X11Rect { x, y, width, height }), angle1, angle2) == items[i] && penned(gc_in(m, gc), color, line_width, gc_function)) by {
        assert(ns[6 * i] == pattern16(items[i].0.x));
        assert(ns[6 * i + 1] == pattern16(items[i].0.y));
        assert(ns[6 * i + 2] == items[i].0.width);
        assert(ns[6 * i + 3] == items[i].0.height);
        assert(ns[6 * i + 4] == pattern16(items[i].1));
        assert(ns[6 * i + 5] == pattern16(items[i].2));
    }
}

proof fn lemma_poly_arc(s: ServerModel, conn: ClientConnection, data: Seq<u8>)
    requires
        data.len() >= 12,
        data[0] == 68,
    ensures
        ({
            let o = conn.byte_order;
            let out = drawing_request(s, conn, data);
            &&& out.1 is Ok
            &&& out.0 == drawn(
                s,
                u32_at(o, data, 4),
                arcs(o, data, pen(s.resources, u32_at(o, data, 8), 0xFFFFFF)),
            )
        }),
{
    reveal(drawing_request);
}

/// PolyArc draws each arc that was sent, with the client's pen.
pub proof fn law_arcs_are_drawn(
    s: ServerModel,
    id: u32,
    drawable: u32,
    gc: u32,
    items: Seq<(X11Rect, i16, i16)>,
    after: ServerModel,
    r: Option<Pending>,
)
    requires
        s.connections.dom().contains(id),
        has_surface(s, drawable),
        processing_may_lead_to(
            s,
            id,
            figures(s.connections[id].byte_order, 68, 0, drawable, gc, arc_numbers(items)),
            after,
            r,
        ),
    ensures
        exists|cs: Seq<RenderModel>| #[trigger]
            lands_on(s, after, drawable, cs) && are_arcs(cs, items, gc_in(s.resources, gc)),
{
    let o = s.connections[id].byte_order;
    let ns = arc_numbers(items);
    let data = figures(o, 68, 0, drawable, gc, ns);
    let begun = counted(s, id);
    lemma_figures(o, 68, 0, drawable, gc, ns);
    lemma_drawing_processed(s, id, data, after, r);
    lemma_poly_arc(begun, counting(s.connections[id]), data);
    let cs = arcs(o, data, pen(begun.resources, gc, 0xFFFFFF));
    lemma_arcs(o, drawable, gc, items, begun.resources);
    lemma_lands(s, begun, after, drawable, cs);
}

/// Whether operations fill some arcs.
pub open spec fn are_filled_arcs(
    cs: Seq<RenderModel>,
    items: Seq<(X11Rect, i16, i16)>,
    g: Option<GContextState>,
) -> bool {
    cs.len() == items.len() && forall|i: int|
        0 <= i < items.len() ==> (#[trigger] cs[i] matches RenderModel::FillArc {
            x,
            y,
            width,
            height,
            angle1,
            angle2,
            color,
            gc_function,
        } && ((X11Rect { x, y, width, height }), angle1, angle2) == items[i] && inked(g, color, gc_function))
}

proof fn lemma_filled_arcs(
    o: ByteOrder,
    drawable: u32,
    gc: u32,
    items: Seq<(X11Rect, i16, i16)>,
    m: Map<u32, ResourceModel>,
)
    ensures
        are_filled_arcs(
            filled_arcs(
                o,
                figures(o, 71, 0, drawable, gc, arc_numbers(items)),
                pen(m, gc, 0xFFFFFF),
            ),
            items,
            gc_in(m, gc),
        ),
{
    let ns = arc_numbers(items);
    let data = figures(o, 71, 0, drawable, gc, ns);
    lemma_figures(o, 71, 0, drawable, gc, ns);
    let cs = filled_arcs(o, data, pen(m, gc, 0xFFFFFF));
    assert forall|i: int| 0 <= i < items.len() implies (#[trigger] cs[i] matches RenderModel::FillArc {
        x,
        y,
        width,
        height,
        angle1,
        angle2,
        color,
        gc_function,
    } && ((X11Rect { x, y, width, height }), angle1, angle2) == items[i] && inked(gc_in(m, gc), color, gc_function)) by {
        assert(ns[6 * i] == pattern16(items[i].0.x));
        assert(ns[6 * i + 1] == pattern16(items[i].0.y));
        assert(ns[6 * i + 2] == items[i].0.width);
        assert(ns[6 * i + 3] == items[i].0.height);
        assert(ns[6 * i + 4] == pattern16(items[i].1));
        assert(ns[6 * i + 5] == pattern16(items[i].2));
    }
}

proof fn lemma_poly_fill_arc(s: ServerModel, conn: ClientConnection, data: Seq<u8>)
    requires
        data.len() >= 12,
        data[0] == 71,
    ensures
        ({
            let o = conn.byte_order;
            let out = drawing_request(s, conn, data);
            &&& out.1 is Ok
            &&& out.0 == drawn(
                s,
                u32_at(o, data, 4),
                filled_arcs(o, data, pen(s.resources, u32_at(o, data, 8), 0xFFFFFF)),
            )
        }),
{
    reveal(drawing_request);
}

/// PolyFillArc fills each arc that was sent, with the client's color.
pub proof fn law_arcs_are_filled(
    s: ServerModel,
    id: u32,
    drawable: u32,
    gc: u32,
    items: Seq<(X11Rect, i16, i16)>,
    after: ServerModel,
    r: Option<Pending>,
)
    requires
        s.connections.dom().contains(id),
        has_surface(s, drawable),
        processing_may_lead_to(
            s,
            id,
            figures(s.connections[id].byte_order, 71, 0, drawable, gc, arc_numbers(items)),
            after,
            r,
        ),
    ensures
        exists|cs: Seq<RenderModel>| #[trigger]
            lands_on(s, after, drawable, cs) && are_filled_arcs(cs, items, gc_in(s.resources, gc)),
{
    let o = s.connections[id].byte_order;
    let ns = arc_numbers(items);
    let data = figures(o, 71, 0, drawable, gc, ns);
    let begun = counted(s, id);
    lemma_figures(o, 71, 0, drawable, gc, ns);
    lemma_drawing_processed(s, id, data, after, r);
    lemma_poly_fill_arc(begun, counting(s.connections[id]), data);
    let cs = filled_arcs(o, data, pen(begun.resources, gc, 0xFFFFFF));
    lemma_filled_arcs(o, drawable, gc, items, begun.resources);
    lemma_lands(s, begun, after, drawable, cs);
}

proof fn lemma_raw_points(o: ByteOrder, data: Seq<u8>, start: int, points: Seq<(i16, i16)>)
    requires
        data.len() == start + 4 * points.len(),
        start >= 0,
        forall|i: int| #![trigger point_numbers(points)[i]]
            0 <= i < 2 * points.len() ==> u16_at(o, data, start + 2 * i) == point_numbers(points)[i],
    ensures
        raw_points(o, data, start) == points,
{
    let ns = point_numbers(points);
    let raw = raw_points(o, data, start);
    assert(raw.len() == points.len());
    assert forall|i: int| 0 <= i < points.len() implies #[trigger] raw[i] == points[i] by {
        assert(ns[2 * i] == pattern16(points[i].0));
        assert(ns[2 * i + 1] == pattern16(points[i].1));
    }
    assert(raw =~= points);
}

/// The detail of a request whose points are each relative to the one before, or
/// not.
pub open spec fn point_mode(relative: bool) -> u8 {
    if relative {
        1
    } else {
        0
    }
}

/// Whether points lie where a client said, each at its own place or as far from
/// the one before as it says.
pub open spec fn lie_at(at: Seq<(i16, i16)>, points: Seq<(i16, i16)>, relative: bool) -> bool {
    &&& at.len() == points.len()
    &&& points.len() > 0 ==> at[0] == points[0]
    &&& forall|i: int|
        1 <= i < points.len() ==> (#[trigger] at[i]) == if relative {
            (at[i - 1].0.wrapping_add(points[i].0), at[i - 1].1.wrapping_add(points[i].1))
        } else {
            points[i]
        }
}

proof fn lemma_lie_at(points: Seq<(i16, i16)>, relative: bool)
    ensures
        lie_at(points_at(points, relative), points, relative),
{
    let at = points_at(points, relative);
    if relative {
        assert forall|i: int| 1 <= i < points.len() implies (#[trigger] at[i]) == (
            at[i - 1].0.wrapping_add(points[i].0),
            at[i - 1].1.wrapping_add(points[i].1),
        ) by {
            let before = absolute_point(points, i - 1);
            let (a, b) = (before.0, points[i].0);
            let (c, d) = (before.1, points[i].1);
            assert(a.wrapping_add(b) == b.wrapping_add(a));
            assert(c.wrapping_add(d) == d.wrapping_add(c));
        }
    }
}

/// Whether operations dot some places.
pub open spec fn are_dots(cs: Seq<RenderModel>, at: Seq<(i16, i16)>, g: Option<GContextState>) -> bool {
    cs.len() == at.len() && forall|i: int|
        0 <= i < at.len() ==> (#[trigger] cs[i] matches RenderModel::FillRectangle {
            x,
            y,
            width,
            height,
            color,
            gc_function,
        } && (x, y) == at[i] && width == 1 && height == 1 && inked(g, color, gc_function))
}

/// Whether operations join some places with lines, each to the next.
pub open spec fn are_joints(cs: Seq<RenderModel>, at: Seq<(i16, i16)>, g: Option<GContextState>) -> bool {
    &&& cs.len() == if at.len() == 0 {
        0
    } else {
        at.len() - 1
    }
    &&& forall|i: int|
        0 <= i < cs.len() ==> (#[trigger] cs[i] matches RenderModel::DrawLine {
            x1,
            y1,
            x2,
            y2,
            color,
            line_width,
            gc_function,
        } && (x1, y1) == at[i] && (x2, y2) == at[i + 1] && penned(g, color, line_width, gc_function))
}

proof fn lemma_poly_point(s: ServerModel, conn: ClientConnection, data: Seq<u8>)
    requires
        data.len() >= 12,
        data[0] == 64 || data[0] == 65,
    ensures
        ({
            let o = conn.byte_order;
            let out = drawing_request(s, conn, data);
            let at = points_at(raw_points(o, data, 12), data[1] == 1);
            let gc = u32_at(o, data, 8);
            &&& out.1 is Ok
            &&& data[0] == 64 ==> out.0 == drawn(
                s,
                u32_at(o, data, 4),
                dots(at, pen(s.resources, gc, 0)),
            )
            &&& data[0] == 65 ==> out.0 == drawn(
                s,
                u32_at(o, data, 4),
                polyline(at, pen(s.resources, gc, 0xFFFFFF)),
            )
        }),
{
    reveal(drawing_request);
}

/// PolyPoint dots each place that was sent.
pub proof fn law_points_are_dotted(
    s: ServerModel,
    id: u32,
    drawable: u32,
    gc: u32,
    points: Seq<(i16, i16)>,
    relative: bool,
    after: ServerModel,
    r: Option<Pending>,
)
    requires
        s.connections.dom().contains(id),
        has_surface(s, drawable),
        processing_may_lead_to(
            s,
            id,
            figures(
                s.connections[id].byte_order,
                64,
                point_mode(relative),
                drawable,
                gc,
                point_numbers(points),
            ),
            after,
            r,
        ),
    ensures
        exists|cs: Seq<RenderModel>, at: Seq<(i16, i16)>| #[trigger]
            lie_at(at, points, relative) && #[trigger] lands_on(s, after, drawable, cs) && are_dots(
                cs,
                at,
                gc_in(s.resources, gc),
            ),
{
    let o = s.connections[id].byte_order;
    let ns = point_numbers(points);
    let data = figures(o, 64, point_mode(relative), drawable, gc, ns);
    let begun = counted(s, id);
    lemma_figures(o, 64, point_mode(relative), drawable, gc, ns);
    lemma_drawing_processed(s, id, data, after, r);
    lemma_poly_point(begun, counting(s.connections[id]), data);
    lemma_raw_points(o, data, 12, points);
    lemma_lie_at(points, relative);
    let at = points_at(points, relative);
    let cs = dots(at, pen(begun.resources, gc, 0));
    lemma_lands(s, begun, after, drawable, cs);
}

/// PolyLine joins the places that were sent, each with the next.
pub proof fn law_points_are_joined(
    s: ServerModel,
    id: u32,
    drawable: u32,
    gc: u32,
    points: Seq<(i16, i16)>,
    relative: bool,
    after: ServerModel,
    r: Option<Pending>,
)
    requires
        s.connections.dom().contains(id),
        has_surface(s, drawable),
        processing_may_lead_to(
            s,
            id,
            figures(
                s.connections[id].byte_order,
                65,
                point_mode(relative),
                drawable,
                gc,
                point_numbers(points),
            ),
            after,
            r,
        ),
    ensures
        exists|cs: Seq<RenderModel>, at: Seq<(i16, i16)>| #[trigger]
            lie_at(at, points, relative) && #[trigger] lands_on(s, after, drawable, cs)
                && are_joints(cs, at, gc_in(s.resources, gc)),
{
    let o = s.connections[id].byte_order;
    let ns = point_numbers(points);
    let data = figures(o, 65, point_mode(relative), drawable, gc, ns);
    let begun = counted(s, id);
    lemma_figures(o, 65, point_mode(relative), drawable, gc, ns);
    lemma_drawing_processed(s, id, data, after, r);
    lemma_poly_point(begun, counting(s.connections[id]), data);
    lemma_raw_points(o, data, 12, points);
    lemma_lie_at(points, relative);
    let at = points_at(points, relative);
    let cs = polyline(at, pen(begun.resources, gc, 0xFFFFFF));
    lemma_lands(s, begun, after, drawable, cs);
}

/// FillPoly as a client writes it.
pub open spec fn polygon(
    o: ByteOrder,
    shape: u8,
    relative: bool,
    drawable: u32,
    gc: u32,
    points: Seq<(i16, i16)>,
) -> Seq<u8> {
    request(
        o,
        69,
        0,
        words(o, seq![drawable, gc]) + (seq![shape, point_mode(relative), 0u8, 0u8] + halves(
            o,
            point_numbers(points),
        )),
    )
}

proof fn lemma_fill_poly(s: ServerModel, conn: ClientConnection, data: Seq<u8>)
    requires
        data.len() >= 16,
        data[0] == 69,
    ensures
        ({
            let o = conn.byte_order;
            let out = drawing_request(s, conn, data);
            let at = points_at(raw_points(o, data, 16), data[13] == 1);
            let p = pen(s.resources, u32_at(o, data, 8), 0xFFFFFF);
            &&& out.1 is Ok
            &&& out.0 == drawn(
                s,
                u32_at(o, data, 4),
                seq![
                    RenderModel::FillPolygon {
                        points: at,
                        color: p.color,
                        gc_function: p.function,
                    },
                ],
            )
        }),
{
    reveal(drawing_request);
}

/// FillPoly fills the polygon whose corners were sent.
pub proof fn law_polygons_are_filled(
    s: ServerModel,
    id: u32,
    drawable: u32,
    gc: u32,
    shape: u8,
    points: Seq<(i16, i16)>,
    relative: bool,
    after: ServerModel,
    r: Option<Pending>,
)
    requires
        s.connections.dom().contains(id),
        has_surface(s, drawable),
        processing_may_lead_to(
            s,
            id,
            polygon(s.connections[id].byte_order, shape, relative, drawable, gc, points),
            after,
            r,
        ),
    ensures
        exists|cs: Seq<RenderModel>| #[trigger]
            lands_on(s, after, drawable, cs) && cs.len() == 1 && (
            cs[0] matches RenderModel::FillPolygon { points: at, color, gc_function } && lie_at(
                at,
                points,
                relative,
            ) && inked(gc_in(s.resources, gc), color, gc_function)),
{
    let o = s.connections[id].byte_order;
    let data = polygon(o, shape, relative, drawable, gc, points);
    let begun = counted(s, id);
    let ws = seq![drawable, gc];
    let mid = seq![shape, point_mode(relative), 0u8, 0u8];
    lemma_request_with_bytes(o, 69, 0, ws, mid, point_numbers(points));
    assert(ws[0] == drawable && ws[1] == gc);
    assert(mid[1] == point_mode(relative));
    lemma_drawing_processed(s, id, data, after, r);
    lemma_fill_poly(begun, counting(s.connections[id]), data);
    lemma_raw_points(o, data, 16, points);
    lemma_lie_at(points, relative);
    let p = pen(begun.resources, gc, 0xFFFFFF);
    let cs = seq![
        RenderModel::FillPolygon {
            points: points_at(points, relative),
            color: p.color,
            gc_function: p.function,
        },
    ];
    lemma_lands(s, begun, after, drawable, cs);
}

} // verus!
