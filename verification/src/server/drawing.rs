//! Drawing requests: from the wire to operations on a surface.

use vstd::prelude::*;

use super::clip::{
    clear_models, clip_clear_by_children, offset_models, offset_render_commands, subtract_all,
};
use super::connection::{read_i16, read_u16, read_u32, ClientConnection};
use super::events::{build_expose_event, expose_event, stamped};
use super::resources::{
    fresh_gc, gc_function_of, GContextState, GcFunction, Resource, ResourceModel,
};
use super::wire::{
    copy_range, i16_at, low16, low8, pattern16, to_low16, to_low8, to_pattern16, u16_at, u32_at,
    ByteOrder,
};
use super::{
    done, gc_in, refused, window_in, Action, ActionModel, Outcome, ServerError, ServerModel,
    XServer,
};
use crate::display::{
    lemma_render_push, render_models, NativeWindowHandle, RenderCommand, RenderModel, Xid,
};
use crate::util::coord::X11Rect;

verus! {

/// How many ancestors are searched for a native window.
pub const MAX_DEPTH: usize = 32;

/// The nearest native window from a window upwards, with a point moved into
/// its coordinates on the way.
pub open spec fn native_above(
    m: Map<u32, ResourceModel>,
    current: u32,
    x: i16,
    y: i16,
    fuel: nat,
) -> Option<(NativeWindowHandle, i16, i16)>
    decreases fuel,
{
    if fuel == 0 {
        None
    } else {
        match window_in(m, current) {
            None => None,
            Some(w) => match w.native_window {
                Some(h) => Some((h, x, y)),
                None => native_above(
                    m,
                    w.parent,
                    x.wrapping_add(w.x),
                    y.wrapping_add(w.y),
                    (fuel - 1) as nat,
                ),
            },
        }
    }
}

/// The native window that shows a drawable, with a point moved into its
/// coordinates.
pub open spec fn native_for(m: Map<u32, ResourceModel>, drawable: u32, x: i16, y: i16) -> Option<
    (NativeWindowHandle, i16, i16),
> {
    match window_in(m, drawable) {
        None => None,
        Some(w) => match w.native_window {
            Some(h) => Some((h, x, y)),
            None => native_above(
                m,
                w.parent,
                x.wrapping_add(w.x),
                y.wrapping_add(w.y),
                MAX_DEPTH as nat,
            ),
        },
    }
}

/// The rectangles of the mapped windows in a list.
pub open spec fn mapped_rects(m: Map<u32, ResourceModel>, children: Seq<u32>) -> Seq<X11Rect>
    decreases children.len(),
{
    if children.len() == 0 {
        Seq::empty()
    } else {
        let rest = mapped_rects(m, children.drop_last());
        match window_in(m, children.last()) {
            Some(w) => if w.mapped {
                rest.push(X11Rect { x: w.x, y: w.y, width: w.width, height: w.height })
            } else {
                rest
            },
            None => rest,
        }
    }
}

/// One drawing operation on a window, kept off the given rectangles where it
/// clears.
pub open spec fn clip_model(c: RenderModel, rects: Seq<X11Rect>) -> Seq<RenderModel> {
    match c {
        RenderModel::ClearArea { x, y, width, height, bg_color } => clear_models(
            subtract_all(X11Rect { x, y, width, height }, rects),
            bg_color,
        ),
        _ => seq![c],
    }
}

/// Drawing operations on a window, kept off the given rectangles where they
/// clear.
pub open spec fn clip_models(s: Seq<RenderModel>, rects: Seq<X11Rect>) -> Seq<RenderModel>
    decreases s.len(),
{
    if s.len() == 0 {
        Seq::empty()
    } else {
        clip_models(s.drop_last(), rects) + clip_model(s.last(), rects)
    }
}

/// The state after drawing operations were sent to a drawable: to its native
/// window, clears clipped by its mapped children; to the native window of an
/// ancestor, moved into its coordinates; or to a pixmap.
pub open spec fn drawn(s: ServerModel, drawable: u32, commands: Seq<RenderModel>) -> ServerModel {
    if !s.resources.dom().contains(drawable) {
        s
    } else {
        match s.resources[drawable] {
            ResourceModel::Window(w) => match w.native_window {
                Some(h) => s.doing(
                    ActionModel::Render {
                        window: h.id,
                        commands: clip_models(commands, mapped_rects(s.resources, w.children)),
                    },
                ),
                None => match native_above(s.resources, w.parent, w.x, w.y, MAX_DEPTH as nat) {
                    Some((h, dx, dy)) => s.doing(
                        ActionModel::Render {
                            window: h.id,
                            commands: offset_models(commands, dx, dy),
                        },
                    ),
                    None => s,
                },
            },
            ResourceModel::Pixmap(_) => s.doing(
                ActionModel::RenderPixmap { pixmap: drawable, commands },
            ),
            _ => s,
        }
    }
}

/// Walks up from a window to the nearest native window.
fn find_above(server: &XServer, start: Xid, x: i16, y: i16) -> (r: Option<
    (NativeWindowHandle, i16, i16),
>)
    ensures
        r == native_above(server@.resources, start, x, y, MAX_DEPTH as nat),
{
    let mut current: Xid = start;
    let mut ax: i16 = x;
    let mut ay: i16 = y;
    for n in 0..MAX_DEPTH
        invariant
            native_above(server@.resources, start, x, y, MAX_DEPTH as nat) == native_above(
                server@.resources,
                current,
                ax,
                ay,
                (MAX_DEPTH - n) as nat,
            ),
    {
        match server.window(current) {
            None => {
                return None;
            },
            Some(w) => {
                if let Some(h) = w.native_window {
                    return Some((h, ax, ay));
                }
                ax = ax.wrapping_add(w.x);
                ay = ay.wrapping_add(w.y);
                current = w.parent;
            },
        }
    }
    None
}

/// The native window that shows a window.
pub fn find_native_handle(server: &XServer, wid: Xid) -> (r: Option<NativeWindowHandle>)
    ensures
        r == (match native_for(server@.resources, wid, 0, 0) {
            Some((h, _, _)) => Some(h),
            None => None,
        }),
{
    match server.window(wid) {
        None => None,
        Some(w) => match w.native_window {
            Some(h) => Some(h),
            None => match find_above(
                server,
                w.parent,
                0i16.wrapping_add(w.x),
                0i16.wrapping_add(w.y),
            ) {
                Some((h, _, _)) => Some(h),
                None => None,
            },
        },
    }
}

/// The native window that shows a drawable and a point in its coordinates;
/// zeros where there is none.
pub fn find_native_position(server: &XServer, drawable: Xid, x: i16, y: i16) -> (r: (
    u64,
    i16,
    i16,
))
    ensures
        r == (match native_for(server@.resources, drawable, x, y) {
            Some((h, ax, ay)) => (h.id, ax, ay),
            None => (0u64, 0i16, 0i16),
        }),
{
    match server.window(drawable) {
        None => (0, 0, 0),
        Some(w) => match w.native_window {
            Some(h) => (h.id, x, y),
            None => match find_above(server, w.parent, x.wrapping_add(w.x), y.wrapping_add(w.y)) {
                Some((h, ax, ay)) => (h.id, ax, ay),
                None => (0, 0, 0),
            },
        },
    }
}

/// The state after the input method's candidate window was placed at a point
/// of a drawable.
pub open spec fn spotted(s: ServerModel, drawable: u32, x: i16, y: i16) -> ServerModel {
    let (ax, ay) = match native_for(s.resources, drawable, x, y) {
        Some((_, ax, ay)) => (ax, ay),
        None => (0i16, 0i16),
    };
    s.doing(ActionModel::ImeSpot { x: ax, y: ay })
}

/// Places the input method's candidate window at a point of a drawable.
pub fn update_ime_spot(server: &mut XServer, drawable: Xid, x: i16, y: i16)
    ensures
        final(server)@ == spotted(old(server)@, drawable, x, y),
{
    let (_, ax, ay) = find_native_position(server, drawable, x, y);
    server.act(Action::ImeSpot { x: ax, y: ay });
}

/// Collects the rectangles of the mapped windows in a list.
fn collect_mapped_rects(server: &XServer, children: &Vec<Xid>) -> (r: Vec<X11Rect>)
    ensures
        r@ == mapped_rects(server@.resources, children@),
{
    let mut r: Vec<X11Rect> = Vec::new();
    for i in 0..children.len()
        invariant
            r@ == mapped_rects(server@.resources, children@.take(i as int)),
    {
        assert(children@.take(i + 1).drop_last() =~= children@.take(i as int));
        if let Some(w) = server.window(children[i]) {
            if w.mapped {
                r.push(X11Rect { x: w.x, y: w.y, width: w.width, height: w.height });
            }
        }
    }
    assert(children@.take(children@.len() as int) =~= children@);
    r
}

/// Keeps clearing operations off the given rectangles.
fn clip_commands(commands: Vec<RenderCommand>, rects: &Vec<X11Rect>) -> (r: Vec<RenderCommand>)
    ensures
        render_models(r@) == clip_models(render_models(commands@), rects@),
{
    let mut r: Vec<RenderCommand> = Vec::with_capacity(commands.len());
    assert(render_models(r@) =~= clip_models(render_models(commands@.take(0)), rects@));
    for cmd in it: commands
        invariant
            it.seq() == commands@,
            render_models(r@) == clip_models(
                render_models(commands@.take(it.index() as int)),
                rects@,
            ),
    {
        let ghost before = r@;
        let ghost c = cmd@;
        proof {
            let i = it.index() as int;
            let s = render_models(commands@.take(i + 1));
            assert(commands@[i] == cmd);
            assert(s.drop_last() =~= render_models(commands@.take(i)));
            assert(s.last() == c);
        }
        match cmd {
            RenderCommand::ClearArea { x, y, width, height, bg_color } => {
                let mut pieces = clip_clear_by_children(
                    x,
                    y,
                    width,
                    height,
                    bg_color,
                    rects.as_slice(),
                );
                let ghost ps = pieces@;
                r.append(&mut pieces);
                assert(render_models(r@) =~= render_models(before) + render_models(ps));
            },
            other => {
                r.push(other);
                assert(render_models(r@) =~= render_models(before) + seq![c]);
            },
        }
    }
    assert(commands@.take(commands@.len() as int) =~= commands@);
    r
}

/// Sends drawing operations to a drawable.
pub fn dispatch_render_commands(server: &mut XServer, drawable: Xid, commands: Vec<RenderCommand>)
    ensures
        final(server)@ == drawn(old(server)@, drawable, render_models(commands@)),
{
    match super::tables::get_resource(&server.resources, drawable) {
        Some(Resource::Window(w)) => match w.native_window {
            Some(h) => {
                let rects = collect_mapped_rects(server, &w.children);
                let clipped = clip_commands(commands, &rects);
                server.act(Action::Render { window: h.id, commands: clipped });
            },
            None => {
                if let Some((h, dx, dy)) = find_above(server, w.parent, w.x, w.y) {
                    let moved = offset_render_commands(commands, dx, dy);
                    server.act(Action::Render { window: h.id, commands: moved });
                }
            },
        },
        Some(Resource::Pixmap(_)) => {
            server.act(Action::RenderPixmap { pixmap: drawable, commands });
        },
        _ => {},
    }
}

/// Sends one drawing operation to a drawable.
pub fn draw_one(server: &mut XServer, drawable: Xid, command: RenderCommand)
    ensures
        final(server)@ == drawn(old(server)@, drawable, seq![command@]),
{
    let mut commands: Vec<RenderCommand> = Vec::new();
    commands.push(command);
    assert(render_models(commands@) =~= seq![command@]);
    dispatch_render_commands(server, drawable, commands);
}

/// What a window's background clears to, if it has one.
pub open spec fn cleared(s: ServerModel, id: u32) -> ServerModel {
    match s.window(id) {
        Some(w) => match w.background_pixel {
            Some(bg_color) => drawn(
                s,
                id,
                seq![
                    RenderModel::ClearArea {
                        x: 0,
                        y: 0,
                        width: w.width,
                        height: w.height,
                        bg_color,
                    },
                ],
            ),
            None => s,
        },
        None => s,
    }
}

/// The state after the mapped windows of a list were cleared.
pub open spec fn cleared_mapped(s: ServerModel, children: Seq<u32>) -> ServerModel
    decreases children.len(),
{
    if children.len() == 0 {
        s
    } else {
        let before = cleared_mapped(s, children.drop_last());
        match before.window(children.last()) {
            Some(w) => if w.mapped {
                cleared(before, children.last())
            } else {
                before
            },
            None => before,
        }
    }
}

/// The state after a window and its mapped children were cleared.
pub open spec fn cleared_tree(s: ServerModel, id: u32) -> ServerModel {
    match s.window(id) {
        Some(w) => cleared_mapped(cleared(s, id), w.children),
        None => s,
    }
}

/// Clears a window to its background, if it has one.
fn clear_to_background(server: &mut XServer, wid: Xid)
    ensures
        final(server)@ == cleared(old(server)@, wid),
{
    if let Some(w) = server.window(wid) {
        if let Some(bg_color) = w.background_pixel {
            draw_one(
                server,
                wid,
                RenderCommand::ClearArea {
                    x: 0,
                    y: 0,
                    width: w.width,
                    height: w.height,
                    bg_color,
                },
            );
        }
    }
}

/// Clears a window and its mapped children, each to its own background. What a
/// window without a background shows is left alone.
pub fn clear_window_tree(server: &mut XServer, wid: Xid)
    ensures
        final(server)@ == cleared_tree(old(server)@, wid),
{
    let top: Option<super::resources::WindowState> = server.window(wid);
    if let Some(w) = top {
        clear_to_background(server, wid);
        let ghost start = server@;
        for i in 0..w.children.len()
            invariant
                server@ == cleared_mapped(start, w.children@.take(i as int)),
        {
            assert(w.children@.take(i + 1).drop_last() =~= w.children@.take(i as int));
            let id: Xid = w.children[i];
            if let Some(child) = server.window(id) {
                if child.mapped {
                    clear_to_background(server, id);
                }
            }
        }
        assert(w.children@.take(w.children@.len() as int) =~= w.children@);
    }
}

/// A graphics context with one attribute set.
pub open spec fn gc_with(g: GContextState, bit: int, v: u32) -> GContextState {
    if bit == 0 {
        GContextState { function: gc_function_of(low8(v)), ..g }
    } else if bit == 1 {
        GContextState { plane_mask: v, ..g }
    } else if bit == 2 {
        GContextState { foreground: v, ..g }
    } else if bit == 3 {
        GContextState { background: v, ..g }
    } else if bit == 4 {
        GContextState { line_width: low16(v), ..g }
    } else if bit == 5 {
        GContextState { line_style: low8(v), ..g }
    } else if bit == 14 {
        GContextState { font: v, ..g }
    } else if bit == 16 {
        GContextState { graphics_exposures: v != 0, ..g }
    } else {
        g
    }
}

/// A graphics context after a value list, from a bit on: the list holds four
/// bytes for each bit set in the mask, lowest bit first, and ends where the
/// request does.
pub open spec fn gc_after(
    g: GContextState,
    order: ByteOrder,
    data: Seq<u8>,
    at: int,
    mask: u32,
    bit: int,
) -> GContextState
    decreases 23 - bit,
{
    if bit >= 23 {
        g
    } else if mask & (1u32 << bit) == 0 {
        gc_after(g, order, data, at, mask, bit + 1)
    } else if at + 4 > data.len() {
        g
    } else {
        gc_after(gc_with(g, bit, u32_at(order, data, at)), order, data, at + 4, mask, bit + 1)
    }
}

/// Reads a value list into a graphics context.
pub fn parse_gc_values(
    conn: &ClientConnection,
    data: &[u8],
    start_offset: usize,
    value_mask: u32,
    gc: &mut GContextState,
)
    requires
        start_offset <= data@.len(),
    ensures
        *final(gc) == gc_after(
            *old(gc),
            conn.byte_order,
            data@,
            start_offset as int,
            value_mask,
            0,
        ),
{
    let mut offset: usize = start_offset;
    let mut bit: u32 = 0;
    let ghost goal = gc_after(*gc, conn.byte_order, data@, offset as int, value_mask, 0);
    while bit < 23
        invariant
            bit <= 23,
            offset <= data@.len(),
            goal == gc_after(*gc, conn.byte_order, data@, offset as int, value_mask, bit as int),
        ensures
            *gc == goal,
        decreases 23 - bit,
    {
        assert((1u32 << bit) == (1u32 << (bit as int)));
        if value_mask & (1u32 << bit) != 0 {
            if data.len() - offset < 4 {
                break;
            }
            let val: u32 = read_u32(conn, data, offset);
            offset = offset + 4;
            match bit {
                0 => {
                    gc.function = GcFunction::from(to_low8(val));
                },
                1 => {
                    gc.plane_mask = val;
                },
                2 => {
                    gc.foreground = val;
                },
                3 => {
                    gc.background = val;
                },
                4 => {
                    gc.line_width = to_low16(val);
                },
                5 => {
                    gc.line_style = to_low8(val);
                },
                14 => {
                    gc.font = val;
                },
                16 => {
                    gc.graphics_exposures = val != 0;
                },
                _ => {},
            }
        }
        bit = bit + 1;
    }
}

/// CreateGC.
pub open spec fn create_gc(s: ServerModel, conn: ClientConnection, data: Seq<u8>) -> Outcome {
    if data.len() < 16 {
        refused(s, ServerError::Protocol)
    } else {
        let o = conn.byte_order;
        let id = u32_at(o, data, 4);
        let g = gc_after(fresh_gc(id, u32_at(o, data, 8)), o, data, 16, u32_at(o, data, 12), 0);
        done(s.with_resource(id, ResourceModel::GContext(g)))
    }
}

pub fn handle_create_gc(server: &mut XServer, conn: &ClientConnection, data: &[u8]) -> (r: Result<
    (),
    ServerError,
>)
    ensures
        (final(server)@, r) == create_gc(old(server)@, *conn, data@),
{
    if data.len() < 16 {
        return Err(ServerError::Protocol);
    }
    let gcid: u32 = read_u32(conn, data, 4);
    let drawable: u32 = read_u32(conn, data, 8);
    let value_mask: u32 = read_u32(conn, data, 12);
    let mut gc = GContextState::new(gcid, drawable);
    parse_gc_values(conn, data, 16, value_mask, &mut gc);
    server.set_resource(gcid, Resource::GContext(gc));
    Ok(())
}

/// ChangeGC.
pub open spec fn change_gc(s: ServerModel, conn: ClientConnection, data: Seq<u8>) -> Outcome {
    if data.len() < 12 {
        refused(s, ServerError::Protocol)
    } else {
        let o = conn.byte_order;
        let id = u32_at(o, data, 4);
        match gc_in(s.resources, id) {
            Some(g) => done(
                s.with_resource(
                    id,
                    ResourceModel::GContext(gc_after(g, o, data, 12, u32_at(o, data, 8), 0)),
                ),
            ),
            None => done(s),
        }
    }
}

pub fn handle_change_gc(server: &mut XServer, conn: &ClientConnection, data: &[u8]) -> (r: Result<
    (),
    ServerError,
>)
    ensures
        (final(server)@, r) == change_gc(old(server)@, *conn, data@),
{
    if data.len() < 12 {
        return Err(ServerError::Protocol);
    }
    let gcid: u32 = read_u32(conn, data, 4);
    let value_mask: u32 = read_u32(conn, data, 8);
    if let Some(mut gc) = server.gc(gcid) {
        parse_gc_values(conn, data, 12, value_mask, &mut gc);
        server.set_resource(gcid, Resource::GContext(gc));
    }
    Ok(())
}

/// FreeGC, FreePixmap and CloseFont: the resource is gone.
pub open spec fn free_resource(s: ServerModel, conn: ClientConnection, data: Seq<u8>) -> Outcome {
    done(s.without_resource(u32_at(conn.byte_order, data, 4)))
}

pub fn handle_free_gc(server: &mut XServer, conn: &ClientConnection, data: &[u8]) -> (r: Result<
    (),
    ServerError,
>)
    requires
        data@.len() >= 8,
    ensures
        (final(server)@, r) == free_resource(old(server)@, *conn, data@),
{
    server.remove_resource(read_u32(conn, data, 4));
    Ok(())
}

/// What a graphics context draws with.
#[derive(Clone, Copy)]
pub struct Pen {
    pub color: u32,
    pub line_width: u16,
    pub function: u8,
}

/// What a graphics context draws with; plain copying in a given colour where
/// there is none.
pub open spec fn pen(m: Map<u32, ResourceModel>, gcid: u32, default_color: u32) -> Pen {
    match gc_in(m, gcid) {
        Some(g) => Pen {
            color: g.foreground,
            line_width: g.line_width,
            function: g.function.number(),
        },
        None => Pen { color: default_color, line_width: 0, function: 3 },
    }
}

pub fn pen_of(server: &XServer, gcid: Xid, default_color: u32) -> (r: Pen)
    ensures
        r == pen(server@.resources, gcid, default_color),
{
    match server.gc(gcid) {
        Some(g) => Pen {
            color: g.foreground,
            line_width: g.line_width,
            function: g.function.code(),
        },
        None => Pen { color: default_color, line_width: 0, function: 3 },
    }
}

/// How many items of a size fit between an offset and the end.
pub open spec fn item_count(len: int, start: int, size: int) -> int {
    if len < start {
        0
    } else {
        (len - start) / size
    }
}

/// The rectangles of PolyFillRectangle.
pub open spec fn fill_rectangles(o: ByteOrder, data: Seq<u8>, p: Pen) -> Seq<RenderModel> {
    Seq::new(
        item_count(data.len() as int, 12, 8) as nat,
        |i: int|
            RenderModel::FillRectangle {
                x: i16_at(o, data, 12 + 8 * i),
                y: i16_at(o, data, 12 + 8 * i + 2),
                width: u16_at(o, data, 12 + 8 * i + 4),
                height: u16_at(o, data, 12 + 8 * i + 6),
                color: p.color,
                gc_function: p.function,
            },
    )
}

/// PolyFillRectangle.
pub open spec fn poly_fill_rectangle(s: ServerModel, conn: ClientConnection, data: Seq<u8>) -> Outcome {
    if data.len() < 12 {
        refused(s, ServerError::Protocol)
    } else {
        let o = conn.byte_order;
        let p = pen(s.resources, u32_at(o, data, 8), 0);
        done(drawn(s, u32_at(o, data, 4), fill_rectangles(o, data, p)))
    }
}

pub fn handle_poly_fill_rectangle(server: &mut XServer, conn: &ClientConnection, data: &[u8]) -> (r: Result<
    (),
    ServerError,
>)
    ensures
        (final(server)@, r) == poly_fill_rectangle(old(server)@, *conn, data@),
{
    let len: usize = data.len();
    if len < 12 {
        return Err(ServerError::Protocol);
    }
    let drawable: u32 = read_u32(conn, data, 4);
    let p = pen_of(server, read_u32(conn, data, 8), 0);
    let n: usize = (len - 12) / 8;
    let mut commands: Vec<RenderCommand> = Vec::with_capacity(n);
    let ghost goal = fill_rectangles(conn.byte_order, data@, p);
    assert(render_models(commands@) =~= goal.take(0));
    for i in 0..n
        invariant
            len == data@.len(),
            len >= 12,
            n == (len - 12) / 8,
            goal == fill_rectangles(conn.byte_order, data@, p),
            render_models(commands@) == goal.take(i as int),
    {
        let at: usize = 12 + 8 * i;
        let c = RenderCommand::FillRectangle {
            x: read_i16(conn, data, at),
            y: read_i16(conn, data, at + 2),
            width: read_u16(conn, data, at + 4),
            height: read_u16(conn, data, at + 6),
            color: p.color,
            gc_function: p.function,
        };
        proof {
            lemma_render_push(commands@, c);
            assert(goal.take(i + 1) =~= goal.take(i as int).push(goal[i as int]));
        }
        commands.push(c);
    }
    assert(goal.take(n as int) =~= goal);
    dispatch_render_commands(server, drawable, commands);
    Ok(())
}

/// The outlines of PolyRectangle.
pub open spec fn outlines(o: ByteOrder, data: Seq<u8>, p: Pen) -> Seq<RenderModel> {
    Seq::new(
        item_count(data.len() as int, 12, 8) as nat,
        |i: int|
            RenderModel::DrawRectangle {
                x: i16_at(o, data, 12 + 8 * i),
                y: i16_at(o, data, 12 + 8 * i + 2),
                width: u16_at(o, data, 12 + 8 * i + 4),
                height: u16_at(o, data, 12 + 8 * i + 6),
                color: p.color,
                line_width: p.line_width,
                gc_function: p.function,
            },
    )
}

/// PolyRectangle.
pub open spec fn poly_rectangle(s: ServerModel, conn: ClientConnection, data: Seq<u8>) -> Outcome {
    if data.len() < 12 {
        refused(s, ServerError::Protocol)
    } else {
        let o = conn.byte_order;
        let p = pen(s.resources, u32_at(o, data, 8), 0xFFFFFF);
        done(drawn(s, u32_at(o, data, 4), outlines(o, data, p)))
    }
}

pub fn handle_poly_rectangle(server: &mut XServer, conn: &ClientConnection, data: &[u8]) -> (r: Result<
    (),
    ServerError,
>)
    ensures
        (final(server)@, r) == poly_rectangle(old(server)@, *conn, data@),
{
    let len: usize = data.len();
    if len < 12 {
        return Err(ServerError::Protocol);
    }
    let drawable: u32 = read_u32(conn, data, 4);
    let p = pen_of(server, read_u32(conn, data, 8), 0xFFFFFF);
    let n: usize = (len - 12) / 8;
    let mut commands: Vec<RenderCommand> = Vec::with_capacity(n);
    let ghost goal = outlines(conn.byte_order, data@, p);
    assert(render_models(commands@) =~= goal.take(0));
    for i in 0..n
        invariant
            len == data@.len(),
            len >= 12,
            n == (len - 12) / 8,
            goal == outlines(conn.byte_order, data@, p),
            render_models(commands@) == goal.take(i as int),
    {
        let at: usize = 12 + 8 * i;
        let c = RenderCommand::DrawRectangle {
            x: read_i16(conn, data, at),
            y: read_i16(conn, data, at + 2),
            width: read_u16(conn, data, at + 4),
            height: read_u16(conn, data, at + 6),
            color: p.color,
            line_width: p.line_width,
            gc_function: p.function,
        };
        proof {
            lemma_render_push(commands@, c);
            assert(goal.take(i + 1) =~= goal.take(i as int).push(goal[i as int]));
        }
        commands.push(c);
    }
    assert(goal.take(n as int) =~= goal);
    dispatch_render_commands(server, drawable, commands);
    Ok(())
}

/// The lines of PolySegment.
pub open spec fn segments(o: ByteOrder, data: Seq<u8>, p: Pen) -> Seq<RenderModel> {
    Seq::new(
        item_count(data.len() as int, 12, 8) as nat,
        |i: int|
            RenderModel::DrawLine {
                x1: i16_at(o, data, 12 + 8 * i),
                y1: i16_at(o, data, 12 + 8 * i + 2),
                x2: i16_at(o, data, 12 + 8 * i + 4),
                y2: i16_at(o, data, 12 + 8 * i + 6),
                color: p.color,
                line_width: p.line_width,
                gc_function: p.function,
            },
    )
}

/// PolySegment.
pub open spec fn poly_segment(s: ServerModel, conn: ClientConnection, data: Seq<u8>) -> Outcome {
    if data.len() < 12 {
        refused(s, ServerError::Protocol)
    } else {
        let o = conn.byte_order;
        let p = pen(s.resources, u32_at(o, data, 8), 0xFFFFFF);
        done(drawn(s, u32_at(o, data, 4), segments(o, data, p)))
    }
}

pub fn handle_poly_segment(server: &mut XServer, conn: &ClientConnection, data: &[u8]) -> (r: Result<
    (),
    ServerError,
>)
    ensures
        (final(server)@, r) == poly_segment(old(server)@, *conn, data@),
{
    let len: usize = data.len();
    if len < 12 {
        return Err(ServerError::Protocol);
    }
    let drawable: u32 = read_u32(conn, data, 4);
    let p = pen_of(server, read_u32(conn, data, 8), 0xFFFFFF);
    let n: usize = (len - 12) / 8;
    let mut commands: Vec<RenderCommand> = Vec::with_capacity(n);
    let ghost goal = segments(conn.byte_order, data@, p);
    assert(render_models(commands@) =~= goal.take(0));
    for i in 0..n
        invariant
            len == data@.len(),
            len >= 12,
            n == (len - 12) / 8,
            goal == segments(conn.byte_order, data@, p),
            render_models(commands@) == goal.take(i as int),
    {
        let at: usize = 12 + 8 * i;
        let c = RenderCommand::DrawLine {
            x1: read_i16(conn, data, at),
            y1: read_i16(conn, data, at + 2),
            x2: read_i16(conn, data, at + 4),
            y2: read_i16(conn, data, at + 6),
            color: p.color,
            line_width: p.line_width,
            gc_function: p.function,
        };
        proof {
            lemma_render_push(commands@, c);
            assert(goal.take(i + 1) =~= goal.take(i as int).push(goal[i as int]));
        }
        commands.push(c);
    }
    assert(goal.take(n as int) =~= goal);
    dispatch_render_commands(server, drawable, commands);
    Ok(())
}

/// The arcs of PolyArc.
pub open spec fn arcs(o: ByteOrder, data: Seq<u8>, p: Pen) -> Seq<RenderModel> {
    Seq::new(
        item_count(data.len() as int, 12, 12) as nat,
        |i: int|
            RenderModel::DrawArc {
                x: i16_at(o, data, 12 + 12 * i),
                y: i16_at(o, data, 12 + 12 * i + 2),
                width: u16_at(o, data, 12 + 12 * i + 4),
                height: u16_at(o, data, 12 + 12 * i + 6),
                angle1: i16_at(o, data, 12 + 12 * i + 8),
                angle2: i16_at(o, data, 12 + 12 * i + 10),
                color: p.color,
                line_width: p.line_width,
                gc_function: p.function,
            },
    )
}

/// PolyArc.
pub open spec fn poly_arc(s: ServerModel, conn: ClientConnection, data: Seq<u8>) -> Outcome {
    if data.len() < 12 {
        refused(s, ServerError::Protocol)
    } else {
        let o = conn.byte_order;
        let p = pen(s.resources, u32_at(o, data, 8), 0xFFFFFF);
        done(drawn(s, u32_at(o, data, 4), arcs(o, data, p)))
    }
}

pub fn handle_poly_arc(server: &mut XServer, conn: &ClientConnection, data: &[u8]) -> (r: Result<
    (),
    ServerError,
>)
    ensures
        (final(server)@, r) == poly_arc(old(server)@, *conn, data@),
{
    let len: usize = data.len();
    if len < 12 {
        return Err(ServerError::Protocol);
    }
    let drawable: u32 = read_u32(conn, data, 4);
    let p = pen_of(server, read_u32(conn, data, 8), 0xFFFFFF);
    let n: usize = (len - 12) / 12;
    let mut commands: Vec<RenderCommand> = Vec::with_capacity(n);
    let ghost goal = arcs(conn.byte_order, data@, p);
    assert(render_models(commands@) =~= goal.take(0));
    for i in 0..n
        invariant
            len == data@.len(),
            len >= 12,
            n == (len - 12) / 12,
            goal == arcs(conn.byte_order, data@, p),
            render_models(commands@) == goal.take(i as int),
    {
        let at: usize = 12 + 12 * i;
        let c = RenderCommand::DrawArc {
            x: read_i16(conn, data, at),
            y: read_i16(conn, data, at + 2),
            width: read_u16(conn, data, at + 4),
            height: read_u16(conn, data, at + 6),
            angle1: read_i16(conn, data, at + 8),
            angle2: read_i16(conn, data, at + 10),
            color: p.color,
            line_width: p.line_width,
            gc_function: p.function,
        };
        proof {
            lemma_render_push(commands@, c);
            assert(goal.take(i + 1) =~= goal.take(i as int).push(goal[i as int]));
        }
        commands.push(c);
    }
    assert(goal.take(n as int) =~= goal);
    dispatch_render_commands(server, drawable, commands);
    Ok(())
}

/// The arcs of PolyFillArc.
pub open spec fn filled_arcs(o: ByteOrder, data: Seq<u8>, p: Pen) -> Seq<RenderModel> {
    Seq::new(
        item_count(data.len() as int, 12, 12) as nat,
        |i: int|
            RenderModel::FillArc {
                x: i16_at(o, data, 12 + 12 * i),
                y: i16_at(o, data, 12 + 12 * i + 2),
                width: u16_at(o, data, 12 + 12 * i + 4),
                height: u16_at(o, data, 12 + 12 * i + 6),
                angle1: i16_at(o, data, 12 + 12 * i + 8),
                angle2: i16_at(o, data, 12 + 12 * i + 10),
                color: p.color,
                gc_function: p.function,
            },
    )
}

/// PolyFillArc.
pub open spec fn poly_fill_arc(s: ServerModel, conn: ClientConnection, data: Seq<u8>) -> Outcome {
    if data.len() < 12 {
        refused(s, ServerError::Protocol)
    } else {
        let o = conn.byte_order;
        let p = pen(s.resources, u32_at(o, data, 8), 0xFFFFFF);
        done(drawn(s, u32_at(o, data, 4), filled_arcs(o, data, p)))
    }
}

pub fn handle_poly_fill_arc(server: &mut XServer, conn: &ClientConnection, data: &[u8]) -> (r: Result<
    (),
    ServerError,
>)
    ensures
        (final(server)@, r) == poly_fill_arc(old(server)@, *conn, data@),
{
    let len: usize = data.len();
    if len < 12 {
        return Err(ServerError::Protocol);
    }
    let drawable: u32 = read_u32(conn, data, 4);
    let p = pen_of(server, read_u32(conn, data, 8), 0xFFFFFF);
    let n: usize = (len - 12) / 12;
    let mut commands: Vec<RenderCommand> = Vec::with_capacity(n);
    let ghost goal = filled_arcs(conn.byte_order, data@, p);
    assert(render_models(commands@) =~= goal.take(0));
    for i in 0..n
        invariant
            len == data@.len(),
            len >= 12,
            n == (len - 12) / 12,
            goal == filled_arcs(conn.byte_order, data@, p),
            render_models(commands@) == goal.take(i as int),
    {
        let at: usize = 12 + 12 * i;
        let c = RenderCommand::FillArc {
            x: read_i16(conn, data, at),
            y: read_i16(conn, data, at + 2),
            width: read_u16(conn, data, at + 4),
            height: read_u16(conn, data, at + 6),
            angle1: read_i16(conn, data, at + 8),
            angle2: read_i16(conn, data, at + 10),
            color: p.color,
            gc_function: p.function,
        };
        proof {
            lemma_render_push(commands@, c);
            assert(goal.take(i + 1) =~= goal.take(i as int).push(goal[i as int]));
        }
        commands.push(c);
    }
    assert(goal.take(n as int) =~= goal);
    dispatch_render_commands(server, drawable, commands);
    Ok(())
}

/// The points of a list, as they stand on the wire.
pub open spec fn raw_points(o: ByteOrder, data: Seq<u8>, start: int) -> Seq<(i16, i16)> {
    Seq::new(
        item_count(data.len() as int, start, 4) as nat,
        |i: int| (i16_at(o, data, start + 4 * i), i16_at(o, data, start + 4 * i + 2)),
    )
}

/// Where a point lies when each is given relative to the one before.
pub open spec fn absolute_point(raw: Seq<(i16, i16)>, i: int) -> (i16, i16)
    decreases i,
{
    if i <= 0 {
        raw[0]
    } else {
        let before = absolute_point(raw, i - 1);
        (raw[i].0.wrapping_add(before.0), raw[i].1.wrapping_add(before.1))
    }
}

/// Where the points of a list lie.
pub open spec fn points_at(raw: Seq<(i16, i16)>, relative: bool) -> Seq<(i16, i16)> {
    if relative {
        Seq::new(raw.len(), |i: int| absolute_point(raw, i))
    } else {
        raw
    }
}

/// Reads the points of a list.
fn read_points(conn: &ClientConnection, data: &[u8], start: usize, relative: bool) -> (r: Vec<
    (i16, i16),
>)
    requires
        start <= data@.len(),
    ensures
        r@ == points_at(raw_points(conn.byte_order, data@, start as int), relative),
{
    let len: usize = data.len();
    let n: usize = (len - start) / 4;
    let mut r: Vec<(i16, i16)> = Vec::with_capacity(n);
    let mut px: i16 = 0;
    let mut py: i16 = 0;
    let ghost raw = raw_points(conn.byte_order, data@, start as int);
    let ghost goal = points_at(raw, relative);
    for i in 0..n
        invariant
            len == data@.len(),
            start <= len,
            n == (len - start) / 4,
            raw == raw_points(conn.byte_order, data@, start as int),
            goal == points_at(raw, relative),
            r@ =~= goal.take(i as int),
            relative && i == 0 ==> px == 0 && py == 0,
            relative && i > 0 ==> (px, py) == absolute_point(raw, i - 1),
    {
        let at: usize = start + 4 * i;
        let x: i16 = read_i16(conn, data, at);
        let y: i16 = read_i16(conn, data, at + 2);
        assert(raw[i as int] == (x, y));
        if relative {
            px = x.wrapping_add(px);
            py = y.wrapping_add(py);
            assert((px, py) == absolute_point(raw, i as int));
            r.push((px, py));
        } else {
            r.push((x, y));
        }
    }
    assert(goal.take(n as int) =~= goal);
    r
}

/// One pixel for each point.
pub open spec fn dots(points: Seq<(i16, i16)>, p: Pen) -> Seq<RenderModel> {
    Seq::new(
        points.len(),
        |i: int|
            RenderModel::FillRectangle {
                x: points[i].0,
                y: points[i].1,
                width: 1,
                height: 1,
                color: p.color,
                gc_function: p.function,
            },
    )
}

/// PolyPoint.
pub open spec fn poly_point(s: ServerModel, conn: ClientConnection, data: Seq<u8>) -> Outcome {
    if data.len() < 12 {
        refused(s, ServerError::Protocol)
    } else {
        let o = conn.byte_order;
        let p = pen(s.resources, u32_at(o, data, 8), 0);
        let points = points_at(raw_points(o, data, 12), data[1] == 1);
        done(drawn(s, u32_at(o, data, 4), dots(points, p)))
    }
}

pub fn handle_poly_point(server: &mut XServer, conn: &ClientConnection, data: &[u8]) -> (r: Result<
    (),
    ServerError,
>)
    ensures
        (final(server)@, r) == poly_point(old(server)@, *conn, data@),
{
    if data.len() < 12 {
        return Err(ServerError::Protocol);
    }
    let drawable: u32 = read_u32(conn, data, 4);
    let p = pen_of(server, read_u32(conn, data, 8), 0);
    let points = read_points(conn, data, 12, data[1] == 1);
    let mut commands: Vec<RenderCommand> = Vec::with_capacity(points.len());
    let ghost goal = dots(points@, p);
    assert(render_models(commands@) =~= goal.take(0));
    for i in 0..points.len()
        invariant
            goal == dots(points@, p),
            render_models(commands@) == goal.take(i as int),
    {
        let (x, y) = points[i];
        let c = RenderCommand::FillRectangle {
            x,
            y,
            width: 1,
            height: 1,
            color: p.color,
            gc_function: p.function,
        };
        proof {
            lemma_render_push(commands@, c);
            assert(goal.take(i + 1) =~= goal.take(i as int).push(goal[i as int]));
        }
        commands.push(c);
    }
    assert(goal.take(points@.len() as int) =~= goal);
    dispatch_render_commands(server, drawable, commands);
    Ok(())
}

/// A line between each two points that follow each other.
pub open spec fn polyline(points: Seq<(i16, i16)>, p: Pen) -> Seq<RenderModel> {
    Seq::new(
        if points.len() == 0 {
            0
        } else {
            (points.len() - 1) as nat
        },
        |i: int|
            RenderModel::DrawLine {
                x1: points[i].0,
                y1: points[i].1,
                x2: points[i + 1].0,
                y2: points[i + 1].1,
                color: p.color,
                line_width: p.line_width,
                gc_function: p.function,
            },
    )
}

/// PolyLine.
pub open spec fn poly_line(s: ServerModel, conn: ClientConnection, data: Seq<u8>) -> Outcome {
    if data.len() < 12 {
        refused(s, ServerError::Protocol)
    } else {
        let o = conn.byte_order;
        let p = pen(s.resources, u32_at(o, data, 8), 0xFFFFFF);
        let points = points_at(raw_points(o, data, 12), data[1] == 1);
        done(drawn(s, u32_at(o, data, 4), polyline(points, p)))
    }
}

pub fn handle_poly_line(server: &mut XServer, conn: &ClientConnection, data: &[u8]) -> (r: Result<
    (),
    ServerError,
>)
    ensures
        (final(server)@, r) == poly_line(old(server)@, *conn, data@),
{
    if data.len() < 12 {
        return Err(ServerError::Protocol);
    }
    let drawable: u32 = read_u32(conn, data, 4);
    let p = pen_of(server, read_u32(conn, data, 8), 0xFFFFFF);
    let points = read_points(conn, data, 12, data[1] == 1);
    let n: usize = points.len().saturating_sub(1);
    let mut commands: Vec<RenderCommand> = Vec::with_capacity(n);
    let ghost goal = polyline(points@, p);
    assert(render_models(commands@) =~= goal.take(0));
    for i in 0..n
        invariant
            n == (if points@.len() == 0 {
                0
            } else {
                points@.len() - 1
            }),
            goal == polyline(points@, p),
            render_models(commands@) == goal.take(i as int),
    {
        let (x1, y1) = points[i];
        let (x2, y2) = points[i + 1];
        let c = RenderCommand::DrawLine {
            x1,
            y1,
            x2,
            y2,
            color: p.color,
            line_width: p.line_width,
            gc_function: p.function,
        };
        proof {
            lemma_render_push(commands@, c);
            assert(goal.take(i + 1) =~= goal.take(i as int).push(goal[i as int]));
        }
        commands.push(c);
    }
    assert(goal.take(n as int) =~= goal);
    dispatch_render_commands(server, drawable, commands);
    Ok(())
}

/// FillPoly.
pub open spec fn fill_poly(s: ServerModel, conn: ClientConnection, data: Seq<u8>) -> Outcome {
    if data.len() < 16 {
        refused(s, ServerError::Protocol)
    } else {
        let o = conn.byte_order;
        let p = pen(s.resources, u32_at(o, data, 8), 0xFFFFFF);
        let points = points_at(raw_points(o, data, 16), data[13] == 1);
        done(
            drawn(
                s,
                u32_at(o, data, 4),
                seq![RenderModel::FillPolygon { points, color: p.color, gc_function: p.function }],
            ),
        )
    }
}

pub fn handle_fill_poly(server: &mut XServer, conn: &ClientConnection, data: &[u8]) -> (r: Result<
    (),
    ServerError,
>)
    ensures
        (final(server)@, r) == fill_poly(old(server)@, *conn, data@),
{
    if data.len() < 16 {
        return Err(ServerError::Protocol);
    }
    let drawable: u32 = read_u32(conn, data, 4);
    let p = pen_of(server, read_u32(conn, data, 8), 0xFFFFFF);
    let points = read_points(conn, data, 16, data[13] == 1);
    draw_one(
        server,
        drawable,
        RenderCommand::FillPolygon { points, color: p.color, gc_function: p.function },
    );
    Ok(())
}

/// Whether an image has the size of a glyph; such images mark where text is
/// being entered.
pub open spec fn glyph_sized(width: u16, height: u16) -> bool {
    8 <= height <= 40 && 4 <= width <= 30
}

/// PutImage.
pub open spec fn put_image(s: ServerModel, conn: ClientConnection, data: Seq<u8>) -> Outcome {
    if data.len() < 24 {
        refused(s, ServerError::Protocol)
    } else {
        let o = conn.byte_order;
        let drawable = u32_at(o, data, 4);
        let width = u16_at(o, data, 12);
        let height = u16_at(o, data, 14);
        let x = i16_at(o, data, 16);
        let y = i16_at(o, data, 18);
        let after = if glyph_sized(width, height) {
            spotted(s, drawable, x.wrapping_add(width as i16), y)
        } else {
            s
        };
        done(
            drawn(
                after,
                drawable,
                seq![
                    RenderModel::PutImage {
                        x,
                        y,
                        width,
                        height,
                        depth: data[21],
                        format: data[1],
                        data: data.subrange(24, data.len() as int),
                        gc_function: pen(s.resources, u32_at(o, data, 8), 0).function,
                    },
                ],
            ),
        )
    }
}

pub fn handle_put_image(server: &mut XServer, conn: &ClientConnection, data: &[u8]) -> (r: Result<
    (),
    ServerError,
>)
    ensures
        (final(server)@, r) == put_image(old(server)@, *conn, data@),
{
    if data.len() < 24 {
        return Err(ServerError::Protocol);
    }
    let format: u8 = data[1];
    let drawable: u32 = read_u32(conn, data, 4);
    let p = pen_of(server, read_u32(conn, data, 8), 0);
    let width: u16 = read_u16(conn, data, 12);
    let height: u16 = read_u16(conn, data, 14);
    let x: i16 = read_i16(conn, data, 16);
    let y: i16 = read_i16(conn, data, 18);
    let depth: u8 = data[21];
    let image = copy_range(data, 24, data.len());
    if height >= 8 && height <= 40 && width >= 4 && width <= 30 {
        update_ime_spot(server, drawable, x.wrapping_add(width as i16), y);
    }
    draw_one(
        server,
        drawable,
        RenderCommand::PutImage {
            x,
            y,
            width,
            height,
            depth,
            format,
            data: image,
            gc_function: p.function,
        },
    );
    Ok(())
}

/// ClearArea: the area is cleared to the background, and exposed if asked for.
/// A width or height of zero reaches to the edge.
pub open spec fn clear_area(s: ServerModel, conn: ClientConnection, data: Seq<u8>) -> Outcome {
    if data.len() < 16 {
        refused(s, ServerError::Protocol)
    } else {
        let o = conn.byte_order;
        let id = u32_at(o, data, 4);
        let x = i16_at(o, data, 8);
        let y = i16_at(o, data, 10);
        let w0 = u16_at(o, data, 12);
        let h0 = u16_at(o, data, 14);
        if !s.resources.dom().contains(id) {
            done(s)
        } else {
            match s.resources[id] {
                ResourceModel::Window(w) => {
                    let width = if w0 == 0 {
                        w.width.saturating_sub(pattern16(x))
                    } else {
                        w0
                    };
                    let height = if h0 == 0 {
                        w.height.saturating_sub(pattern16(y))
                    } else {
                        h0
                    };
                    let after = match w.background_pixel {
                        Some(bg_color) => drawn(
                            s,
                            id,
                            seq![RenderModel::ClearArea { x, y, width, height, bg_color }],
                        ),
                        None => s,
                    };
                    if data[1] != 0 && width > 0 && height > 0 {
                        done(
                            after.replying(
                                conn,
                                stamped(
                                    conn,
                                    expose_event(
                                        conn,
                                        id,
                                        pattern16(x),
                                        pattern16(y),
                                        width,
                                        height,
                                        0,
                                    ),
                                    conn.request_sequence(),
                                ),
                            ),
                        )
                    } else {
                        done(after)
                    }
                },
                ResourceModel::Pixmap(p) => {
                    let width = if w0 == 0 {
                        p.width.saturating_sub(pattern16(x))
                    } else {
                        w0
                    };
                    let height = if h0 == 0 {
                        p.height.saturating_sub(pattern16(y))
                    } else {
                        h0
                    };
                    done(
                        drawn(
                            s,
                            id,
                            seq![RenderModel::ClearArea { x, y, width, height, bg_color: 0 }],
                        ),
                    )
                },
                _ => done(s),
            }
        }
    }
}

pub fn handle_clear_area(server: &mut XServer, conn: &ClientConnection, data: &[u8]) -> (r: Result<
    (),
    ServerError,
>)
    ensures
        (final(server)@, r) == clear_area(old(server)@, *conn, data@),
{
    if data.len() < 16 {
        return Err(ServerError::Protocol);
    }
    let exposures: bool = data[1] != 0;
    let wid: u32 = read_u32(conn, data, 4);
    let x: i16 = read_i16(conn, data, 8);
    let y: i16 = read_i16(conn, data, 10);
    let mut width: u16 = read_u16(conn, data, 12);
    let mut height: u16 = read_u16(conn, data, 14);
    let (bg, is_window): (Option<u32>, bool) = match super::tables::get_resource(
        &server.resources,
        wid,
    ) {
        Some(Resource::Window(w)) => {
            if width == 0 {
                width = w.width.saturating_sub(to_pattern16(x));
            }
            if height == 0 {
                height = w.height.saturating_sub(to_pattern16(y));
            }
            (w.background_pixel, true)
        },
        Some(Resource::Pixmap(p)) => {
            if width == 0 {
                width = p.width.saturating_sub(to_pattern16(x));
            }
            if height == 0 {
                height = p.height.saturating_sub(to_pattern16(y));
            }
            (Some(0), false)
        },
        _ => {
            return Ok(());
        },
    };
    if let Some(bg_color) = bg {
        draw_one(server, wid, RenderCommand::ClearArea { x, y, width, height, bg_color });
    }
    if exposures && is_window && width > 0 && height > 0 {
        let mut expose: [u8; 32] = build_expose_event(
            conn,
            wid,
            to_pattern16(x),
            to_pattern16(y),
            width,
            height,
            0,
        );
        super::wire::put_at16(conn.byte_order, &mut expose, 2, conn.current_request_sequence());
        let reply = copy_range(expose.as_slice(), 0, 32);
        assert(reply@ =~= expose@);
        server.reply(conn, reply);
    }
    Ok(())
}

} // verus!
