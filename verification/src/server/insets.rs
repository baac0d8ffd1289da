//! Drawing in windows that have no native window of their own.

use vstd::prelude::*;

use super::aim::{ancestor, parent_of, position_in, same16};
use super::clip::{
    any_covers, clear_models, cover_count, law_clip_covers, offset_model, offset_models,
    subtract_all,
};
use super::drawing::{clip_models, drawn, mapped_rects, native_above, MAX_DEPTH};
use super::resources::ResourceModel;
use super::{window_in, ActionModel, ServerModel};
use crate::display::RenderModel;
use crate::util::coord::X11Rect;

verus! {

/// Whether a drawing operation is another one moved by an offset: every coordinate
/// differs by it, in sixteen bits, and nothing else changes.
pub open spec fn moved_by(c: RenderModel, d: RenderModel, dx: int, dy: int) -> bool {
    match c {
        RenderModel::FillRectangle { x, y, width, height, color, gc_function } => {
            d matches RenderModel::FillRectangle {
                x: mx,
                y: my,
                width: nwidth,
                height: nheight,
                color: ncolor,
                gc_function: ngc_function,
            } && same16(x + dx, mx as int) && same16(y + dy, my as int) && nwidth == width
                && nheight == height && ncolor == color && ngc_function == gc_function
        },
        RenderModel::ClearArea { x, y, width, height, bg_color } => {
            d matches RenderModel::ClearArea {
                x: mx,
                y: my,
                width: nwidth,
                height: nheight,
                bg_color: nbg_color,
            } && same16(x + dx, mx as int) && same16(y + dy, my as int) && nwidth == width
                && nheight == height && nbg_color == bg_color
        },
        RenderModel::FillArc { x, y, width, height, angle1, angle2, color, gc_function } => {
            d matches RenderModel::FillArc {
                x: mx,
                y: my,
                width: nwidth,
                height: nheight,
                angle1: nangle1,
                angle2: nangle2,
                color: ncolor,
                gc_function: ngc_function,
            } && same16(x + dx, mx as int) && same16(y + dy, my as int) && nwidth == width
                && nheight == height && nangle1 == angle1 && nangle2 == angle2 && ncolor == color
                && ngc_function == gc_function
        },
        RenderModel::DrawArc {
            x,
            y,
            width,
            height,
            angle1,
            angle2,
            color,
            line_width,
            gc_function,
        } => {
            d matches RenderModel::DrawArc {
                x: mx,
                y: my,
                width: nwidth,
                height: nheight,
                angle1: nangle1,
                angle2: nangle2,
                color: ncolor,
                line_width: nline_width,
                gc_function: ngc_function,
            } && same16(x + dx, mx as int) && same16(y + dy, my as int) && nwidth == width
                && nheight == height && nangle1 == angle1 && nangle2 == angle2 && ncolor == color
                && nline_width == line_width && ngc_function == gc_function
        },
        RenderModel::DrawRectangle { x, y, width, height, color, line_width, gc_function } => {
            d matches RenderModel::DrawRectangle {
                x: mx,
                y: my,
                width: nwidth,
                height: nheight,
                color: ncolor,
                line_width: nline_width,
                gc_function: ngc_function,
            } && same16(x + dx, mx as int) && same16(y + dy, my as int) && nwidth == width
                && nheight == height && ncolor == color && nline_width == line_width
                && ngc_function == gc_function
        },
        RenderModel::PutImage { x, y, width, height, depth, format, data, gc_function } => {
            d matches RenderModel::PutImage {
                x: mx,
                y: my,
                width: nwidth,
                height: nheight,
                depth: ndepth,
                format: nformat,
                data: ndata,
                gc_function: ngc_function,
            } && same16(x + dx, mx as int) && same16(y + dy, my as int) && nwidth == width
                && nheight == height && ndepth == depth && nformat == format && ndata == data
                && ngc_function == gc_function
        },
        RenderModel::DrawText { x, y, text, font_id, color, bg_color, gc_function } => {
            d matches RenderModel::DrawText {
                x: mx,
                y: my,
                text: ntext,
                font_id: nfont_id,
                color: ncolor,
                bg_color: nbg_color,
                gc_function: ngc_function,
            } && same16(x + dx, mx as int) && same16(y + dy, my as int) && ntext == text
                && nfont_id == font_id && ncolor == color && nbg_color == bg_color
                && ngc_function == gc_function
        },
        RenderModel::DrawLine { x1, y1, x2, y2, color, line_width, gc_function } => {
            d matches RenderModel::DrawLine {
                x1: mx1,
                y1: my1,
                x2: mx2,
                y2: my2,
                color: ncolor,
                line_width: nline_width,
                gc_function: ngc_function,
            } && same16(x1 + dx, mx1 as int) && same16(y1 + dy, my1 as int)
                && same16(x2 + dx, mx2 as int) && same16(y2 + dy, my2 as int) && ncolor == color
                && nline_width == line_width && ngc_function == gc_function
        },
        RenderModel::CopyArea { src_x, src_y, dst_x, dst_y, width, height, gc_function } => {
            d matches RenderModel::CopyArea {
                src_x: msrc_x,
                src_y: msrc_y,
                dst_x: mdst_x,
                dst_y: mdst_y,
                width: nwidth,
                height: nheight,
                gc_function: ngc_function,
            } && same16(src_x + dx, msrc_x as int) && same16(src_y + dy, msrc_y as int)
                && same16(dst_x + dx, mdst_x as int) && same16(dst_y + dy, mdst_y as int)
                && nwidth == width && nheight == height && ngc_function == gc_function
        },
        RenderModel::FillPolygon { points, color, gc_function } => {
            d matches RenderModel::FillPolygon {
                points: mpoints,
                color: ncolor,
                gc_function: nfunction,
            }
                && ncolor == color && nfunction == gc_function && mpoints.len() == points.len()
                && forall|i: int| #![trigger points[i]]
                0 <= i < points.len() ==> same16(points[i].0 + dx, mpoints[i].0 as int) && same16(
                    points[i].1 + dy,
                    mpoints[i].1 as int,
                )
        },
    }
}

/// Whether the first window with a native one, on the way up from a window, lies a
/// number of levels above it.
pub open spec fn native_at(m: Map<u32, ResourceModel>, window: u32, n: nat) -> bool {
    &&& forall|i: nat|
        i < n ==> (window_in(m, #[trigger] ancestor(m, window, i)) matches Some(w)
            && w.native_window is None)
    &&& window_in(m, ancestor(m, window, n)) matches Some(w) && w.native_window is Some
}

proof fn lemma_native_parent(m: Map<u32, ResourceModel>, window: u32, n: nat)
    requires
        n > 0,
        native_at(m, window, n),
    ensures
        window_in(m, window) is Some,
        window_in(m, window)->0.native_window is None,
        native_at(m, parent_of(m, window), (n - 1) as nat),
{
    assert(ancestor(m, window, 0) == window);
    let p = parent_of(m, window);
    assert forall|i: nat| i < n - 1 implies (window_in(m, #[trigger] ancestor(m, p, i)) matches Some(
        w,
    ) && w.native_window is None) by {
        assert(ancestor(m, window, i + 1) == ancestor(m, p, i));
    }
}

proof fn lemma_native_above(
    m: Map<u32, ResourceModel>,
    window: u32,
    x: i16,
    y: i16,
    fuel: nat,
    n: nat,
)
    requires
        native_at(m, window, n),
        n < fuel,
    ensures
        ({
            let h = window_in(m, ancestor(m, window, n))->0.native_window->0;
            &&& native_above(m, window, x, y, fuel) matches Some(found) && found.0 == h && same16(
                x + position_in(m, window, n).0,
                found.1 as int,
            ) && same16(y + position_in(m, window, n).1, found.2 as int)
        }),
    decreases n,
{
    if n > 0 {
        lemma_native_parent(m, window, n);
        let w = window_in(m, window)->0;
        let p = parent_of(m, window);
        lemma_native_above(
            m,
            p,
            x.wrapping_add(w.x),
            y.wrapping_add(w.y),
            (fuel - 1) as nat,
            (n - 1) as nat,
        );
        let found = native_above(m, window, x, y, fuel)->0;
        lemma_step(x, w.x, position_in(m, p, (n - 1) as nat).0, found.1);
        lemma_step(y, w.y, position_in(m, p, (n - 1) as nat).1, found.2);
    }
}

proof fn lemma_step(x: i16, a: i16, up: int, f: i16)
    requires
        same16(x.wrapping_add(a) + up, f as int),
    ensures
        same16(x + (a + up), f as int),
{
}

proof fn lemma_added_offset(x: i16, d: i16, dx: int)
    requires
        same16(dx, d as int),
    ensures
        same16(x + dx, x.wrapping_add(d) as int),
{
}

proof fn lemma_offset_moves(c: RenderModel, d: i16, e: i16, dx: int, dy: int)
    requires
        same16(dx, d as int),
        same16(dy, e as int),
    ensures
        moved_by(c, offset_model(c, d, e), dx, dy),
{
    match c {
        RenderModel::DrawLine { x1, y1, x2, y2, .. } => {
            lemma_added_offset(x1, d, dx);
            lemma_added_offset(y1, e, dy);
            lemma_added_offset(x2, d, dx);
            lemma_added_offset(y2, e, dy);
        },
        RenderModel::CopyArea { src_x, src_y, dst_x, dst_y, .. } => {
            lemma_added_offset(src_x, d, dx);
            lemma_added_offset(src_y, e, dy);
            lemma_added_offset(dst_x, d, dx);
            lemma_added_offset(dst_y, e, dy);
        },
        RenderModel::FillPolygon { points, .. } => {
            assert forall|i: int| #![trigger points[i]] 0 <= i < points.len() implies same16(
                points[i].0 + dx,
                points[i].0.wrapping_add(d) as int,
            ) && same16(points[i].1 + dy, points[i].1.wrapping_add(e) as int) by {
                lemma_added_offset(points[i].0, d, dx);
                lemma_added_offset(points[i].1, e, dy);
            }
        },
        RenderModel::FillRectangle { x, y, .. } => {
            lemma_added_offset(x, d, dx);
            lemma_added_offset(y, e, dy);
        },
        RenderModel::ClearArea { x, y, .. } => {
            lemma_added_offset(x, d, dx);
            lemma_added_offset(y, e, dy);
        },
        RenderModel::FillArc { x, y, .. } => {
            lemma_added_offset(x, d, dx);
            lemma_added_offset(y, e, dy);
        },
        RenderModel::DrawArc { x, y, .. } => {
            lemma_added_offset(x, d, dx);
            lemma_added_offset(y, e, dy);
        },
        RenderModel::DrawRectangle { x, y, .. } => {
            lemma_added_offset(x, d, dx);
            lemma_added_offset(y, e, dy);
        },
        RenderModel::PutImage { x, y, .. } => {
            lemma_added_offset(x, d, dx);
            lemma_added_offset(y, e, dy);
        },
        RenderModel::DrawText { x, y, .. } => {
            lemma_added_offset(x, d, dx);
            lemma_added_offset(y, e, dy);
        },
    }
}

/// What is drawn in a window without a native one goes to the native window of the
/// nearest window above that has one, moved by where the window lies in it.
pub proof fn law_inner_windows_draw_in_their_place(
    s: ServerModel,
    window: u32,
    n: nat,
    cs: Seq<RenderModel>,
)
    requires
        0 < n <= 32,
        native_at(s.resources, window, n),
    ensures
        ({
            let m = s.resources;
            let t = drawn(s, window, cs);
            &&& t.outbox.len() == s.outbox.len() + 1
            &&& t.outbox.drop_last() == s.outbox
            &&& t.outbox.last() matches ActionModel::Render { window: native, commands } && native
                == window_in(m, ancestor(m, window, n))->0.native_window->0.id && commands.len()
                == cs.len() && forall|i: int| #![trigger cs[i]]
                0 <= i < cs.len() ==> moved_by(
                    cs[i],
                    commands[i],
                    position_in(m, window, n).0,
                    position_in(m, window, n).1,
                )
        }),
{
    let m = s.resources;
    lemma_native_parent(m, window, n);
    let w = window_in(m, window)->0;
    let p = parent_of(m, window);
    lemma_native_above(m, p, w.x, w.y, MAX_DEPTH as nat, (n - 1) as nat);
    let found = native_above(m, p, w.x, w.y, MAX_DEPTH as nat)->0;
    let t = drawn(s, window, cs);
    assert(t.outbox.drop_last() =~= s.outbox);
    assert forall|i: int| #![trigger cs[i]] 0 <= i < cs.len() implies moved_by(
        cs[i],
        offset_models(cs, found.1, found.2)[i],
        position_in(m, window, n).0,
        position_in(m, window, n).1,
    ) by {
        lemma_offset_moves(
            cs[i],
            found.1,
            found.2,
            position_in(m, window, n).0,
            position_in(m, window, n).1,
        );
    }
}

/// Whether a drawing operation clears a point with a color.
pub open spec fn clears(c: RenderModel, color: u32, px: int, py: int) -> bool {
    c matches RenderModel::ClearArea { x, y, width, height, bg_color } && bg_color == color && x
        <= px < x + width && y <= py < y + height
}

/// Whether a mapped window lies over a point of its parent.
pub open spec fn hides(m: Map<u32, ResourceModel>, child: u32, px: int, py: int) -> bool {
    window_in(m, child) matches Some(c) && c.mapped && c.x <= px < c.x + c.width && c.y <= py < c.y
        + c.height
}

/// Whether one of some drawing operations clears a point with a color.
pub open spec fn any_clears(cs: Seq<RenderModel>, color: u32, px: int, py: int) -> bool {
    exists|i: int| 0 <= i < cs.len() && clears(#[trigger] cs[i], color, px, py)
}

/// Whether one of some windows lies over a point of their parent.
pub open spec fn any_hides(m: Map<u32, ResourceModel>, children: Seq<u32>, px: int, py: int) -> bool {
    exists|i: int| 0 <= i < children.len() && hides(m, #[trigger] children[i], px, py)
}

proof fn lemma_mapped_rects(m: Map<u32, ResourceModel>, children: Seq<u32>, px: int, py: int)
    ensures
        any_covers(mapped_rects(m, children), px, py) <==> any_hides(m, children, px, py),
    decreases children.len(),
{
    if children.len() > 0 {
        let init = children.drop_last();
        let last = children.last();
        let before = mapped_rects(m, init);
        let all = mapped_rects(m, children);
        lemma_mapped_rects(m, init, px, py);
        assert(children[children.len() - 1] == last);
        if any_covers(all, px, py) {
            let k = choose|k: int| 0 <= k < all.len() && (#[trigger] all[k]).covers(px, py);
            if k < before.len() {
                assert(before[k].covers(px, py));
                let i = choose|i: int|
                    0 <= i < init.len() && hides(m, #[trigger] init[i], px, py);
                assert(hides(m, children[i], px, py));
            } else {
                assert(hides(m, children[children.len() - 1], px, py));
            }
        }
        if any_hides(m, children, px, py) {
            let i = choose|i: int|
                0 <= i < children.len() && hides(m, #[trigger] children[i], px, py);
            if i < init.len() {
                assert(hides(m, init[i], px, py));
                let k = choose|k: int|
                    0 <= k < before.len() && (#[trigger] before[k]).covers(px, py);
                assert(all[k].covers(px, py));
            } else {
                assert(all[before.len() as int].covers(px, py));
            }
        }
    }
}

proof fn lemma_counted_cover(rects: Seq<X11Rect>, px: int, py: int)
    ensures
        cover_count(rects, px, py) > 0 <==> any_covers(rects, px, py),
    decreases rects.len(),
{
    if rects.len() > 0 {
        let init = rects.drop_last();
        lemma_counted_cover(init, px, py);
        assert(rects[rects.len() - 1] == rects.last());
        if any_covers(init, px, py) {
            let k = choose|k: int| 0 <= k < init.len() && (#[trigger] init[k]).covers(px, py);
            assert(rects[k].covers(px, py));
        }
        if any_covers(rects, px, py) {
            let k = choose|k: int| 0 <= k < rects.len() && (#[trigger] rects[k]).covers(px, py);
            if k < init.len() {
                assert(init[k].covers(px, py));
            }
        }
    }
}

/// Clearing an area of a window that has a native one clears every point of the
/// area that no mapped child lies over, and no other point.
pub proof fn law_clearing_spares_the_children(
    s: ServerModel,
    window: u32,
    x: i16,
    y: i16,
    width: u16,
    height: u16,
    color: u32,
    px: int,
    py: int,
)
    requires
        s.window(window) is Some,
        s.window(window)->0.native_window is Some,
        x + width <= 0x8000,
        y + height <= 0x8000,
    ensures
        ({
            let w = s.window(window)->0;
            let t = drawn(
                s,
                window,
                seq![RenderModel::ClearArea { x, y, width, height, bg_color: color }],
            );
            &&& t.outbox.len() == s.outbox.len() + 1
            &&& t.outbox.last() matches ActionModel::Render { window: native, commands } && native
                == w.native_window->0.id && any_clears(commands, color, px, py) == (x <= px < x
                + width && y <= py < y + height && !any_hides(s.resources, w.children, px, py))
        }),
{
    let m = s.resources;
    let w = s.window(window)->0;
    let c = RenderModel::ClearArea { x, y, width, height, bg_color: color };
    let rects = mapped_rects(m, w.children);
    let r = X11Rect { x, y, width, height };
    let pieces = subtract_all(r, rects);
    let commands = clip_models(seq![c], rects);
    reveal_with_fuel(clip_models, 2);
    assert(seq![c].drop_last() =~= Seq::empty());
    assert(commands =~= clear_models(pieces, color));
    let t = drawn(s, window, seq![c]);
    assert(t.outbox.last() == (ActionModel::Render {
        window: w.native_window->0.id,
        commands,
    }));
    law_clip_covers(r, rects, px, py);
    lemma_mapped_rects(m, w.children, px, py);
    lemma_counted_cover(pieces, px, py);
    assert(r.covers(px, py) <==> x <= px < x + width && y <= py < y + height);
    assert(any_covers(pieces, px, py) == any_clears(commands, color, px, py)) by {
        if any_covers(pieces, px, py) {
            let k = choose|k: int| 0 <= k < pieces.len() && (#[trigger] pieces[k]).covers(px, py);
            assert(clears(commands[k], color, px, py));
        }
        if any_clears(commands, color, px, py) {
            let i = choose|i: int|
                0 <= i < commands.len() && clears(#[trigger] commands[i], color, px, py);
            assert(pieces[i].covers(px, py));
        }
    }
}

} // verus!
