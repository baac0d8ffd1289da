//! Requests on cursors.

use vstd::prelude::*;

use super::connection::{read_u16, read_u32, ClientConnection};
use super::resources::{CursorState, Resource, ResourceModel};
use super::wire::{u16_at, u32_at};
use super::{done, pixmap_in, Outcome, ServerError, ServerModel, XServer};
use crate::display::Xid;

verus! {

/// How far apart two numbers are.
pub open spec fn apart(a: int, b: int) -> int {
    if a < b {
        b - a
    } else {
        a - b
    }
}

/// The native cursor that a picture of a size with a hot spot looks like: a
/// narrow one with the spot in the middle is a text cursor; one with the spot in
/// the middle resizes sideways if wide and upright if tall, moves if square and
/// large, and else points; one with the spot near its top left corner is an
/// arrow or, with the spot some way in, a hand.
pub open spec fn shape_of(width: u16, height: u16, hot_x: u16, hot_y: u16) -> u8 {
    let (w, h, hx, hy) = (width as int, height as int, hot_x as int, hot_y as int);
    let (cx, cy) = (w / 2, h / 2);
    let near = (if w > h {
        w
    } else {
        h
    }) / 4;
    if w > 0 && h > 0 && w * 3 < h && apart(hx, cx) <= 2 {
        1
    } else if apart(hx, cx) <= near && apart(hy, cy) <= near && w > 2 && h > 2 {
        if w > h + h / 3 {
            6
        } else if h > w + w / 3 {
            7
        } else if apart(w, h) <= 4 && w >= 16 {
            4
        } else {
            2
        }
    } else if hx < cx && hy < cy && hx > 2 && hy <= 4 && w >= 16 {
        3
    } else {
        0
    }
}

fn distance(a: i32, b: i32) -> (r: i32)
    requires
        0 <= a <= 65535,
        0 <= b <= 65535,
    ensures
        r == apart(a as int, b as int),
{
    if a < b {
        b - a
    } else {
        a - b
    }
}

/// The native cursor for a pixmap used as a cursor; the arrow where there is no
/// such pixmap.
pub open spec fn pixmap_cursor(s: ServerModel, pixmap: u32, hot_x: u16, hot_y: u16) -> u8 {
    match pixmap_in(s.resources, pixmap) {
        Some(p) => shape_of(p.width, p.height, hot_x, hot_y),
        None => 0,
    }
}

/// Infers a native cursor from a pixmap's size and the hot spot.
pub fn infer_pixmap_cursor_type(
    server: &XServer,
    source_pixmap: Xid,
    hotspot_x: u16,
    hotspot_y: u16,
) -> (r: u8)
    ensures
        r == pixmap_cursor(server@, source_pixmap, hotspot_x, hotspot_y),
{
    let (w, h): (i32, i32) = match server.pixmap(source_pixmap) {
        Some(p) => (p.width as i32, p.height as i32),
        None => {
            return 0;
        },
    };
    let hx: i32 = hotspot_x as i32;
    let hy: i32 = hotspot_y as i32;
    let cx: i32 = w / 2;
    let cy: i32 = h / 2;
    if w > 0 && h > 0 && w * 3 < h && distance(hx, cx) <= 2 {
        return 1;
    }
    let near: i32 = if w > h {
        w / 4
    } else {
        h / 4
    };
    if distance(hx, cx) <= near && distance(hy, cy) <= near && w > 2 && h > 2 {
        if w > h + h / 3 {
            return 6;
        }
        if h > w + w / 3 {
            return 7;
        }
        if distance(w, h) <= 4 && w >= 16 {
            return 4;
        }
        return 2;
    }
    if hx < cx && hy < cy && hx > 2 && hy <= 4 && w >= 16 {
        return 3;
    }
    0
}

/// The cursor that CreateCursor makes.
pub open spec fn cursor_from_pixmap(s: ServerModel, conn: ClientConnection, data: Seq<u8>) -> CursorState {
    let o = conn.byte_order;
    CursorState {
        id: u32_at(o, data, 4),
        source_font: 0,
        source_char: 0,
        mask_font: 0,
        mask_char: 0,
        fore_red: u16_at(o, data, 16),
        fore_green: u16_at(o, data, 18),
        fore_blue: u16_at(o, data, 20),
        back_red: u16_at(o, data, 22),
        back_green: u16_at(o, data, 24),
        back_blue: u16_at(o, data, 26),
        macos_type: pixmap_cursor(
            s,
            u32_at(o, data, 8),
            u16_at(o, data, 28),
            u16_at(o, data, 30),
        ),
    }
}

/// CreateCursor. A request that is too short is passed over.
pub open spec fn create_cursor(s: ServerModel, conn: ClientConnection, data: Seq<u8>) -> Outcome {
    if data.len() < 32 {
        done(s)
    } else {
        let c = cursor_from_pixmap(s, conn, data);
        done(s.with_resource(c.id, ResourceModel::Cursor(c)))
    }
}

pub fn handle_create_cursor(server: &mut XServer, conn: &ClientConnection, data: &[u8]) -> (r:
    Result<(), ServerError>)
    ensures
        (final(server)@, r) == create_cursor(old(server)@, *conn, data@),
{
    if data.len() < 32 {
        return Ok(());
    }
    let cid: u32 = read_u32(conn, data, 4);
    let macos_type: u8 = infer_pixmap_cursor_type(
        server,
        read_u32(conn, data, 8),
        read_u16(conn, data, 28),
        read_u16(conn, data, 30),
    );
    let cursor = CursorState {
        id: cid,
        source_font: 0,
        source_char: 0,
        mask_font: 0,
        mask_char: 0,
        fore_red: read_u16(conn, data, 16),
        fore_green: read_u16(conn, data, 18),
        fore_blue: read_u16(conn, data, 20),
        back_red: read_u16(conn, data, 22),
        back_green: read_u16(conn, data, 24),
        back_blue: read_u16(conn, data, 26),
        macos_type,
    };
    server.set_resource(cid, Resource::Cursor(cursor));
    Ok(())
}

/// The native cursor of a glyph of the cursor font.
pub open spec fn glyph_cursor(s: ServerModel, glyph: u16) -> u8 {
    if glyph < s.glyph_cursors.len() {
        s.glyph_cursors[glyph as int]
    } else {
        0
    }
}

/// The cursor that CreateGlyphCursor makes.
pub open spec fn cursor_from_glyph(s: ServerModel, conn: ClientConnection, data: Seq<u8>) -> CursorState {
    let o = conn.byte_order;
    CursorState {
        id: u32_at(o, data, 4),
        source_font: u32_at(o, data, 8),
        source_char: u16_at(o, data, 16),
        mask_font: u32_at(o, data, 12),
        mask_char: u16_at(o, data, 18),
        fore_red: u16_at(o, data, 20),
        fore_green: u16_at(o, data, 22),
        fore_blue: u16_at(o, data, 24),
        back_red: u16_at(o, data, 26),
        back_green: u16_at(o, data, 28),
        back_blue: u16_at(o, data, 30),
        macos_type: glyph_cursor(s, u16_at(o, data, 16)),
    }
}

/// CreateGlyphCursor. A request that is too short is passed over.
pub open spec fn create_glyph_cursor(s: ServerModel, conn: ClientConnection, data: Seq<u8>) -> Outcome {
    if data.len() < 32 {
        done(s)
    } else {
        let c = cursor_from_glyph(s, conn, data);
        done(s.with_resource(c.id, ResourceModel::Cursor(c)))
    }
}

pub fn handle_create_glyph_cursor(server: &mut XServer, conn: &ClientConnection, data: &[u8]) -> (r:
    Result<(), ServerError>)
    ensures
        (final(server)@, r) == create_glyph_cursor(old(server)@, *conn, data@),
{
    if data.len() < 32 {
        return Ok(());
    }
    let cid: u32 = read_u32(conn, data, 4);
    let source_char: u16 = read_u16(conn, data, 16);
    let macos_type: u8 = if (source_char as usize) < server.glyph_cursors.len() {
        server.glyph_cursors[source_char as usize]
    } else {
        0
    };
    let cursor = CursorState {
        id: cid,
        source_font: read_u32(conn, data, 8),
        source_char,
        mask_font: read_u32(conn, data, 12),
        mask_char: read_u16(conn, data, 18),
        fore_red: read_u16(conn, data, 20),
        fore_green: read_u16(conn, data, 22),
        fore_blue: read_u16(conn, data, 24),
        back_red: read_u16(conn, data, 26),
        back_green: read_u16(conn, data, 28),
        back_blue: read_u16(conn, data, 30),
        macos_type,
    };
    server.set_resource(cid, Resource::Cursor(cursor));
    Ok(())
}

/// FreeCursor. A request that is too short is passed over.
pub open spec fn free_cursor(s: ServerModel, conn: ClientConnection, data: Seq<u8>) -> Outcome {
    if data.len() < 8 {
        done(s)
    } else {
        done(s.without_resource(u32_at(conn.byte_order, data, 4)))
    }
}

pub fn handle_free_cursor(server: &mut XServer, conn: &ClientConnection, data: &[u8]) -> (r: Result<
    (),
    ServerError,
>)
    ensures
        (final(server)@, r) == free_cursor(old(server)@, *conn, data@),
{
    if data.len() < 8 {
        return Ok(());
    }
    server.remove_resource(read_u32(conn, data, 4));
    Ok(())
}

} // verus!
