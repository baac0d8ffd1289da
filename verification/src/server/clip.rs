//! Clipping of cleared areas by child windows, and moving of drawing
//! operations between coordinate systems.

use vstd::prelude::*;

use super::wire::{truncate16, wrap16};
use crate::display::{lemma_render_push, render_models, RenderCommand, RenderModel};
use crate::util::coord::X11Rect;

verus! {

/// A rectangle, if it is there.
pub open spec fn piece(present: bool, r: X11Rect) -> Seq<X11Rect> {
    if present {
        seq![r]
    } else {
        Seq::empty()
    }
}

/// Whether two rectangles meet.
pub open spec fn overlap(r: X11Rect, c: X11Rect) -> bool {
    c.x < r.x + r.width && r.x < c.x + c.width && c.y < r.y + r.height && r.y < c.y + c.height
}

/// The part of `r` above `c`.
pub open spec fn above(r: X11Rect, c: X11Rect) -> X11Rect {
    X11Rect { height: (c.y - r.y) as u16, ..r }
}

/// The part of `r` below `c`.
pub open spec fn below(r: X11Rect, c: X11Rect) -> X11Rect {
    X11Rect {
        y: wrap16(c.y + c.height),
        height: (r.y + r.height - (c.y + c.height)) as u16,
        ..r
    }
}

/// The first row that both have.
pub open spec fn middle_top(r: X11Rect, c: X11Rect) -> i16 {
    if c.y > r.y {
        c.y
    } else {
        r.y
    }
}

/// How many rows both have.
pub open spec fn middle_height(r: X11Rect, c: X11Rect) -> int {
    (if c.y + c.height < r.y + r.height {
        c.y + c.height
    } else {
        r.y + r.height
    }) - middle_top(r, c)
}

/// The part of `r` to the left of `c`, in the rows that both have.
pub open spec fn left_of(r: X11Rect, c: X11Rect) -> X11Rect {
    X11Rect {
        x: r.x,
        y: middle_top(r, c),
        width: (c.x - r.x) as u16,
        height: middle_height(r, c) as u16,
    }
}

/// The part of `r` to the right of `c`, in the rows that both have.
pub open spec fn right_of(r: X11Rect, c: X11Rect) -> X11Rect {
    X11Rect {
        x: wrap16(c.x + c.width),
        y: middle_top(r, c),
        width: (r.x + r.width - (c.x + c.width)) as u16,
        height: middle_height(r, c) as u16,
    }
}

/// The parts of a rectangle above, below, left and right of another one that
/// overlaps it; the rectangle itself where they do not overlap.
pub open spec fn subtract(r: X11Rect, c: X11Rect) -> Seq<X11Rect> {
    if !overlap(r, c) {
        seq![r]
    } else {
        piece(c.y > r.y, above(r, c)) + piece(c.y + c.height < r.y + r.height, below(r, c)) + piece(
            middle_height(r, c) > 0 && c.x > r.x,
            left_of(r, c),
        ) + piece(
            middle_height(r, c) > 0 && c.x + c.width < r.x + r.width,
            right_of(r, c),
        )
    }
}

/// What is left of a list of rectangles when one is cut out of each.
pub open spec fn subtract_each(rects: Seq<X11Rect>, c: X11Rect) -> Seq<X11Rect>
    decreases rects.len(),
{
    if rects.len() == 0 {
        Seq::empty()
    } else {
        subtract_each(rects.drop_last(), c) + subtract(rects.last(), c)
    }
}

/// What is left of a rectangle when others are cut out of it.
pub open spec fn subtract_all(r: X11Rect, cut: Seq<X11Rect>) -> Seq<X11Rect>
    decreases cut.len(),
{
    if cut.len() == 0 {
        seq![r]
    } else {
        subtract_each(subtract_all(r, cut.drop_last()), cut.last())
    }
}

/// Appends what is left of a rectangle when another is cut out of it.
fn push_difference(out: &mut Vec<X11Rect>, r: X11Rect, c: X11Rect)
    ensures
        final(out)@ == old(out)@ + subtract(r, c),
{
    let rx: i32 = r.x as i32;
    let ry: i32 = r.y as i32;
    let cx: i32 = c.x as i32;
    let cy: i32 = c.y as i32;
    let rx2: i32 = rx + r.width as i32;
    let ry2: i32 = ry + r.height as i32;
    let cx2: i32 = cx + c.width as i32;
    let cy2: i32 = cy + c.height as i32;
    if cx >= rx2 || cx2 <= rx || cy >= ry2 || cy2 <= ry {
        out.push(r);
        assert(out@ =~= old(out)@ + subtract(r, c));
        return;
    }
    if cy > ry {
        out.push(X11Rect { x: r.x, y: r.y, width: r.width, height: (cy - ry) as u16 });
    }
    if cy2 < ry2 {
        out.push(
            X11Rect { x: r.x, y: truncate16(cy2), width: r.width, height: (ry2 - cy2) as u16 },
        );
    }
    let y: i16 = if cy > ry {
        c.y
    } else {
        r.y
    };
    let bottom: i32 = if cy2 < ry2 {
        cy2
    } else {
        ry2
    };
    let height: i32 = bottom - y as i32;
    if height > 0 {
        if cx > rx {
            out.push(X11Rect { x: r.x, y, width: (cx - rx) as u16, height: height as u16 });
        }
        if cx2 < rx2 {
            out.push(
                X11Rect { x: truncate16(cx2), y, width: (rx2 - cx2) as u16, height: height as u16 },
            );
        }
    }
    assert(out@ =~= old(out)@ + subtract(r, c));
}

/// Clearing operations, one for each rectangle.
pub open spec fn clear_models(rects: Seq<X11Rect>, bg_color: u32) -> Seq<RenderModel> {
    Seq::new(
        rects.len(),
        |i: int|
            RenderModel::ClearArea {
                x: rects[i].x,
                y: rects[i].y,
                width: rects[i].width,
                height: rects[i].height,
                bg_color,
            },
    )
}

/// Clears a rectangle but for the parts that child windows cover.
pub fn clip_clear_by_children(
    x: i16,
    y: i16,
    width: u16,
    height: u16,
    bg_color: u32,
    children: &[X11Rect],
) -> (r: Vec<RenderCommand>)
    ensures
        render_models(r@) == clear_models(
            subtract_all(X11Rect { x, y, width, height }, children@),
            bg_color,
        ),
{
    let ghost area = X11Rect { x, y, width, height };
    let mut rects: Vec<X11Rect> = Vec::new();
    rects.push(X11Rect { x, y, width, height });
    assert(rects@ =~= subtract_all(area, children@.take(0)));
    for i in 0..children.len()
        invariant
            rects@ == subtract_all(area, children@.take(i as int)),
    {
        let c = children[i];
        let mut next: Vec<X11Rect> = Vec::new();
        assert(next@ =~= subtract_each(rects@.take(0), c));
        for j in 0..rects.len()
            invariant
                next@ == subtract_each(rects@.take(j as int), c),
        {
            push_difference(&mut next, rects[j], c);
            assert(rects@.take(j + 1).drop_last() =~= rects@.take(j as int));
        }
        assert(rects@.take(rects@.len() as int) =~= rects@);
        assert(children@.take(i + 1).drop_last() =~= children@.take(i as int));
        rects = next;
    }
    assert(children@.take(children@.len() as int) =~= children@);
    let mut r: Vec<RenderCommand> = Vec::new();
    for i in 0..rects.len()
        invariant
            render_models(r@) =~= clear_models(rects@.take(i as int), bg_color),
    {
        let t = rects[i];
        let cmd = RenderCommand::ClearArea {
            x: t.x,
            y: t.y,
            width: t.width,
            height: t.height,
            bg_color,
        };
        proof {
            lemma_render_push(r@, cmd);
            assert(rects@.take(i + 1) =~= rects@.take(i as int).push(t));
        }
        r.push(cmd);
    }
    assert(rects@.take(rects@.len() as int) =~= rects@);
    r
}

/// How many rectangles of a list cover a pixel.
pub open spec fn cover_count(rects: Seq<X11Rect>, px: int, py: int) -> nat
    decreases rects.len(),
{
    if rects.len() == 0 {
        0
    } else {
        cover_count(rects.drop_last(), px, py) + (if rects.last().covers(px, py) {
            1nat
        } else {
            0nat
        })
    }
}

/// Whether a rectangle ends where signed 16-bit coordinates do, or before.
pub open spec fn within(r: X11Rect) -> bool {
    r.x + r.width <= 0x8000 && r.y + r.height <= 0x8000
}

proof fn lemma_cover_add(a: Seq<X11Rect>, b: Seq<X11Rect>, px: int, py: int)
    ensures
        cover_count(a + b, px, py) == cover_count(a, px, py) + cover_count(b, px, py),
    decreases b.len(),
{
    if b.len() == 0 {
        assert(a + b =~= a);
    } else {
        assert((a + b).drop_last() =~= a + b.drop_last());
        lemma_cover_add(a, b.drop_last(), px, py);
    }
}

proof fn lemma_cover_one(r: X11Rect, px: int, py: int)
    ensures
        cover_count(seq![r], px, py) == (if r.covers(px, py) {
            1nat
        } else {
            0nat
        }),
        cover_count(Seq::empty(), px, py) == 0,
{
    assert(seq![r].drop_last() =~= Seq::empty());
    assert(cover_count(Seq::empty(), px, py) == 0);
}

proof fn lemma_subtract_within(r: X11Rect, c: X11Rect)
    requires
        within(r),
    ensures
        forall|i: int| 0 <= i < subtract(r, c).len() ==> within(#[trigger] subtract(r, c)[i]),
{
}

proof fn lemma_cover_piece(present: bool, r: X11Rect, px: int, py: int)
    ensures
        cover_count(piece(present, r), px, py) == (if present && r.covers(px, py) {
            1nat
        } else {
            0nat
        }),
{
    lemma_cover_one(r, px, py);
}

proof fn lemma_pieces_cover(r: X11Rect, c: X11Rect, px: int, py: int)
    requires
        within(r),
        overlap(r, c),
    ensures
        (c.y > r.y && above(r, c).covers(px, py)) == (r.covers(px, py) && py < c.y),
        (c.y + c.height < r.y + r.height && below(r, c).covers(px, py)) == (r.covers(px, py) && py
            >= c.y + c.height),
        (middle_height(r, c) > 0 && c.x > r.x && left_of(r, c).covers(px, py)) == (r.covers(px, py)
            && c.y <= py < c.y + c.height && px < c.x),
        (middle_height(r, c) > 0 && c.x + c.width < r.x + r.width && right_of(r, c).covers(px, py))
            == (r.covers(px, py) && c.y <= py < c.y + c.height && px >= c.x + c.width),
{
}

/// Cutting one rectangle out of another covers exactly the pixels of the one
/// that are not of the other, each of them once.
pub proof fn law_subtract_covers(r: X11Rect, c: X11Rect, px: int, py: int)
    requires
        within(r),
    ensures
        cover_count(subtract(r, c), px, py) == (if r.covers(px, py) && !c.covers(px, py) {
            1nat
        } else {
            0nat
        }),
{
    if !overlap(r, c) {
        lemma_cover_one(r, px, py);
    } else {
        let (has_t, has_b) = (c.y > r.y, c.y + c.height < r.y + r.height);
        let has_l = middle_height(r, c) > 0 && c.x > r.x;
        let has_g = middle_height(r, c) > 0 && c.x + c.width < r.x + r.width;
        let top = piece(has_t, above(r, c));
        let bottom = piece(has_b, below(r, c));
        let left = piece(has_l, left_of(r, c));
        let right = piece(has_g, right_of(r, c));
        lemma_cover_add(top + bottom + left, right, px, py);
        lemma_cover_add(top + bottom, left, px, py);
        lemma_cover_add(top, bottom, px, py);
        lemma_cover_piece(has_t, above(r, c), px, py);
        lemma_cover_piece(has_b, below(r, c), px, py);
        lemma_cover_piece(has_l, left_of(r, c), px, py);
        lemma_cover_piece(has_g, right_of(r, c), px, py);
        lemma_pieces_cover(r, c, px, py);
    }
}

proof fn lemma_subtract_each_covers(rects: Seq<X11Rect>, c: X11Rect, px: int, py: int)
    requires
        forall|i: int| 0 <= i < rects.len() ==> within(#[trigger] rects[i]),
    ensures
        cover_count(subtract_each(rects, c), px, py) == (if c.covers(px, py) {
            0
        } else {
            cover_count(rects, px, py)
        }),
        forall|i: int|
            0 <= i < subtract_each(rects, c).len() ==> within(
                #[trigger] subtract_each(rects, c)[i],
            ),
    decreases rects.len(),
{
    if rects.len() > 0 {
        let init = rects.drop_last();
        assert forall|i: int| 0 <= i < init.len() implies within(#[trigger] init[i]) by {
            assert(init[i] == rects[i]);
        }
        lemma_subtract_each_covers(init, c, px, py);
        law_subtract_covers(rects.last(), c, px, py);
        lemma_subtract_within(rects.last(), c);
        lemma_cover_add(subtract_each(init, c), subtract(rects.last(), c), px, py);
        let a = subtract_each(init, c);
        let b = subtract(rects.last(), c);
        assert forall|i: int| 0 <= i < subtract_each(rects, c).len() implies within(
            #[trigger] subtract_each(rects, c)[i],
        ) by {
            if i < a.len() {
                assert((a + b)[i] == a[i]);
            } else {
                assert((a + b)[i] == b[i - a.len()]);
            }
        }
    }
}

/// Whether any rectangle of a list covers a pixel.
pub open spec fn any_covers(rects: Seq<X11Rect>, px: int, py: int) -> bool {
    exists|i: int| 0 <= i < rects.len() && (#[trigger] rects[i]).covers(px, py)
}

/// Clearing a rectangle clipped by child windows clears every pixel of it that
/// no child covers exactly once, and no other pixel.
pub proof fn law_clip_covers(r: X11Rect, children: Seq<X11Rect>, px: int, py: int)
    requires
        within(r),
    ensures
        cover_count(subtract_all(r, children), px, py) == (if r.covers(px, py) && !any_covers(
            children,
            px,
            py,
        ) {
            1nat
        } else {
            0nat
        }),
        forall|i: int|
            0 <= i < subtract_all(r, children).len() ==> within(
                #[trigger] subtract_all(r, children)[i],
            ),
    decreases children.len(),
{
    if children.len() == 0 {
        lemma_cover_one(r, px, py);
    } else {
        let init = children.drop_last();
        law_clip_covers(r, init, px, py);
        lemma_subtract_each_covers(subtract_all(r, init), children.last(), px, py);
        if any_covers(init, px, py) {
            let i = choose|i: int| 0 <= i < init.len() && (#[trigger] init[i]).covers(px, py);
            assert(children[i].covers(px, py));
        }
        if any_covers(children, px, py) && !children.last().covers(px, py) {
            let i = choose|i: int|
                0 <= i < children.len() && (#[trigger] children[i]).covers(px, py);
            assert(init[i].covers(px, py));
        }
        if children.last().covers(px, py) {
            assert(children[children.len() - 1].covers(px, py));
        }
    }
}

/// Points moved by an offset.
pub open spec fn offset_points(points: Seq<(i16, i16)>, dx: i16, dy: i16) -> Seq<(i16, i16)> {
    Seq::new(
        points.len(),
        |i: int| (points[i].0.wrapping_add(dx), points[i].1.wrapping_add(dy)),
    )
}

/// A drawing operation moved by an offset.
pub open spec fn offset_model(c: RenderModel, dx: i16, dy: i16) -> RenderModel {
    match c {
        RenderModel::FillRectangle { x, y, width, height, color, gc_function } =>
            RenderModel::FillRectangle {
            x: x.wrapping_add(dx),
            y: y.wrapping_add(dy),
            width,
            height,
            color,
            gc_function,
        },
        RenderModel::ClearArea { x, y, width, height, bg_color } => RenderModel::ClearArea {
            x: x.wrapping_add(dx),
            y: y.wrapping_add(dy),
            width,
            height,
            bg_color,
        },
        RenderModel::DrawLine { x1, y1, x2, y2, color, line_width, gc_function } =>
            RenderModel::DrawLine {
            x1: x1.wrapping_add(dx),
            y1: y1.wrapping_add(dy),
            x2: x2.wrapping_add(dx),
            y2: y2.wrapping_add(dy),
            color,
            line_width,
            gc_function,
        },
        RenderModel::FillArc { x, y, width, height, angle1, angle2, color, gc_function } =>
            RenderModel::FillArc {
            x: x.wrapping_add(dx),
            y: y.wrapping_add(dy),
            width,
            height,
            angle1,
            angle2,
            color,
            gc_function,
        },
        RenderModel::DrawArc { x, y, width, height, angle1, angle2, color, line_width, gc_function } =>
            RenderModel::DrawArc {
            x: x.wrapping_add(dx),
            y: y.wrapping_add(dy),
            width,
            height,
            angle1,
            angle2,
            color,
            line_width,
            gc_function,
        },
        RenderModel::DrawRectangle { x, y, width, height, color, line_width, gc_function } =>
            RenderModel::DrawRectangle {
            x: x.wrapping_add(dx),
            y: y.wrapping_add(dy),
            width,
            height,
            color,
            line_width,
            gc_function,
        },
        RenderModel::PutImage { x, y, width, height, depth, format, data, gc_function } =>
            RenderModel::PutImage {
            x: x.wrapping_add(dx),
            y: y.wrapping_add(dy),
            width,
            height,
            depth,
            format,
            data,
            gc_function,
        },
        RenderModel::DrawText { x, y, text, font_id, color, bg_color, gc_function } =>
            RenderModel::DrawText {
            x: x.wrapping_add(dx),
            y: y.wrapping_add(dy),
            text,
            font_id,
            color,
            bg_color,
            gc_function,
        },
        RenderModel::CopyArea { src_x, src_y, dst_x, dst_y, width, height, gc_function } =>
            RenderModel::CopyArea {
            src_x: src_x.wrapping_add(dx),
            src_y: src_y.wrapping_add(dy),
            dst_x: dst_x.wrapping_add(dx),
            dst_y: dst_y.wrapping_add(dy),
            width,
            height,
            gc_function,
        },
        RenderModel::FillPolygon { points, color, gc_function } => RenderModel::FillPolygon {
            points: offset_points(points, dx, dy),
            color,
            gc_function,
        },
    }
}

/// Drawing operations moved by an offset.
pub open spec fn offset_models(s: Seq<RenderModel>, dx: i16, dy: i16) -> Seq<RenderModel> {
    Seq::new(s.len(), |i: int| offset_model(s[i], dx, dy))
}

/// Moves a drawing operation by an offset.
fn offset_command(cmd: RenderCommand, dx: i16, dy: i16) -> (r: RenderCommand)
    ensures
        r@ == offset_model(cmd@, dx, dy),
{
    match cmd {
        RenderCommand::FillRectangle { x, y, width, height, color, gc_function } =>
            RenderCommand::FillRectangle {
            x: x.wrapping_add(dx),
            y: y.wrapping_add(dy),
            width,
            height,
            color,
            gc_function,
        },
        RenderCommand::ClearArea { x, y, width, height, bg_color } => RenderCommand::ClearArea {
            x: x.wrapping_add(dx),
            y: y.wrapping_add(dy),
            width,
            height,
            bg_color,
        },
        RenderCommand::DrawLine { x1, y1, x2, y2, color, line_width, gc_function } =>
            RenderCommand::DrawLine {
            x1: x1.wrapping_add(dx),
            y1: y1.wrapping_add(dy),
            x2: x2.wrapping_add(dx),
            y2: y2.wrapping_add(dy),
            color,
            line_width,
            gc_function,
        },
        RenderCommand::FillArc { x, y, width, height, angle1, angle2, color, gc_function } =>
            RenderCommand::FillArc {
            x: x.wrapping_add(dx),
            y: y.wrapping_add(dy),
            width,
            height,
            angle1,
            angle2,
            color,
            gc_function,
        },
        RenderCommand::DrawArc {
            x,
            y,
            width,
            height,
            angle1,
            angle2,
            color,
            line_width,
            gc_function,
        } => RenderCommand::DrawArc {
            x: x.wrapping_add(dx),
            y: y.wrapping_add(dy),
            width,
            height,
            angle1,
            angle2,
            color,
            line_width,
            gc_function,
        },
        RenderCommand::DrawRectangle { x, y, width, height, color, line_width, gc_function } =>
            RenderCommand::DrawRectangle {
            x: x.wrapping_add(dx),
            y: y.wrapping_add(dy),
            width,
            height,
            color,
            line_width,
            gc_function,
        },
        RenderCommand::PutImage { x, y, width, height, depth, format, data, gc_function } =>
            RenderCommand::PutImage {
            x: x.wrapping_add(dx),
            y: y.wrapping_add(dy),
            width,
            height,
            depth,
            format,
            data,
            gc_function,
        },
        RenderCommand::DrawText { x, y, text, font_id, color, bg_color, gc_function } =>
            RenderCommand::DrawText {
            x: x.wrapping_add(dx),
            y: y.wrapping_add(dy),
            text,
            font_id,
            color,
            bg_color,
            gc_function,
        },
        RenderCommand::CopyArea { src_x, src_y, dst_x, dst_y, width, height, gc_function } =>
            RenderCommand::CopyArea {
            src_x: src_x.wrapping_add(dx),
            src_y: src_y.wrapping_add(dy),
            dst_x: dst_x.wrapping_add(dx),
            dst_y: dst_y.wrapping_add(dy),
            width,
            height,
            gc_function,
        },
        RenderCommand::FillPolygon { points, color, gc_function } => {
            let mut moved: Vec<(i16, i16)> = Vec::with_capacity(points.len());
            for i in 0..points.len()
                invariant
                    moved@ =~= offset_points(points@.take(i as int), dx, dy),
            {
                let (x, y) = points[i];
                moved.push((x.wrapping_add(dx), y.wrapping_add(dy)));
            }
            assert(points@.take(points@.len() as int) =~= points@);
            RenderCommand::FillPolygon { points: moved, color, gc_function }
        },
    }
}

/// Moves drawing operations from a child's coordinates to its parent's.
pub fn offset_render_commands(commands: Vec<RenderCommand>, dx: i16, dy: i16) -> (r: Vec<
    RenderCommand,
>)
    ensures
        render_models(r@) == offset_models(render_models(commands@), dx, dy),
{
    let mut r: Vec<RenderCommand> = Vec::with_capacity(commands.len());
    for cmd in it: commands
        invariant
            it.seq() == commands@,
            render_models(r@) =~= offset_models(
                render_models(commands@.take(it.index() as int)),
                dx,
                dy,
            ),
    {
        let moved = offset_command(cmd, dx, dy);
        proof {
            let i = it.index() as int;
            lemma_render_push(r@, moved);
            lemma_render_push(commands@.take(i), cmd);
            assert(commands@.take(i + 1) =~= commands@.take(i).push(cmd));
        }
        r.push(moved);
    }
    assert(commands@.take(commands@.len() as int) =~= commands@);
    r
}

proof fn lemma_wrapping_add_assoc(a: i16, b: i16, c: i16)
    ensures
        a.wrapping_add(b).wrapping_add(c) == a.wrapping_add(b.wrapping_add(c)),
{
}

/// Moving twice is moving by the sum, and moving by nothing changes nothing.
pub proof fn law_offsets_add_up(c: RenderModel, dx1: i16, dy1: i16, dx2: i16, dy2: i16)
    ensures
        offset_model(offset_model(c, dx1, dy1), dx2, dy2) == offset_model(
            c,
            dx1.wrapping_add(dx2),
            dy1.wrapping_add(dy2),
        ),
        offset_model(c, 0, 0) == c,
{
    match c {
        RenderModel::DrawLine { x1, y1, x2, y2, .. } => {
            lemma_wrapping_add_assoc(x1, dx1, dx2);
            lemma_wrapping_add_assoc(y1, dy1, dy2);
            lemma_wrapping_add_assoc(x2, dx1, dx2);
            lemma_wrapping_add_assoc(y2, dy1, dy2);
        },
        RenderModel::CopyArea { src_x, src_y, dst_x, dst_y, .. } => {
            lemma_wrapping_add_assoc(src_x, dx1, dx2);
            lemma_wrapping_add_assoc(src_y, dy1, dy2);
            lemma_wrapping_add_assoc(dst_x, dx1, dx2);
            lemma_wrapping_add_assoc(dst_y, dy1, dy2);
        },
        RenderModel::FillPolygon { points, .. } => {
            let twice = offset_points(offset_points(points, dx1, dy1), dx2, dy2);
            let once = offset_points(points, dx1.wrapping_add(dx2), dy1.wrapping_add(dy2));
            assert forall|i: int| 0 <= i < points.len() implies twice[i] == once[i] by {
                lemma_wrapping_add_assoc(points[i].0, dx1, dx2);
                lemma_wrapping_add_assoc(points[i].1, dy1, dy2);
            }
            assert(twice =~= once);
            assert(offset_points(points, 0, 0) =~= points);
        },
        RenderModel::FillRectangle { x, y, .. }
        | RenderModel::ClearArea { x, y, .. }
        | RenderModel::FillArc { x, y, .. }
        | RenderModel::DrawArc { x, y, .. }
        | RenderModel::DrawRectangle { x, y, .. }
        | RenderModel::PutImage { x, y, .. }
        | RenderModel::DrawText { x, y, .. } => {
            lemma_wrapping_add_assoc(x, dx1, dx2);
            lemma_wrapping_add_assoc(y, dy1, dy2);
        },
    }
}

/// Moving drawing operations and moving them back gives them back.
pub proof fn law_offset_undone(c: RenderModel, dx: i16, dy: i16)
    requires
        dx != i16::MIN,
        dy != i16::MIN,
    ensures
        offset_model(offset_model(c, dx, dy), (-dx) as i16, (-dy) as i16) == c,
{
    law_offsets_add_up(c, dx, dy, (-dx) as i16, (-dy) as i16);
}

} // verus!
