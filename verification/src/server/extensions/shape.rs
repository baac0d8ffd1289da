//! The SHAPE extension, version 1.1. Native windows are rectangles, so shapes
//! are accepted and not kept, and every window has the shape of its rectangle.

use vstd::prelude::*;

use crate::server::connection::{
    build_empty_reply, empty_reply, read_u32, reply_head, start_reply, write_i16_to, write_u16_to,
    write_u32_to, ClientConnection,
};
use crate::server::wire::{bytes16, bytes32, pattern16, put_zeros, u32_at, zeros};
use crate::server::{done, refused, Outcome, ServerError, ServerModel, XServer};
use crate::display::Xid;

verus! {

pub const SHAPE_MAJOR_OPCODE: u8 = 134;

pub const SHAPE_QUERY_VERSION: u8 = 0;

pub const SHAPE_QUERY_EXTENTS: u8 = 5;

pub const SHAPE_INPUT_SELECTED: u8 = 7;

pub const SHAPE_GET_RECTANGLES: u8 = 8;

/// The rectangle of a window; a single pixel where there is no such window.
pub open spec fn shape_of_window(s: ServerModel, id: u32) -> (i16, i16, u16, u16) {
    match s.window(id) {
        Some(w) => (w.x, w.y, w.width, w.height),
        None => (0, 0, 1, 1),
    }
}

fn window_shape(server: &XServer, id: Xid) -> (r: (i16, i16, u16, u16))
    ensures
        r == shape_of_window(server@, id),
{
    match server.window(id) {
        Some(w) => (w.x, w.y, w.width, w.height),
        None => (0, 0, 1, 1),
    }
}

/// The reply to ShapeQueryVersion.
pub open spec fn version_reply(conn: ClientConnection) -> Seq<u8> {
    let o = conn.byte_order;
    reply_head(conn, 0, 0) + bytes16(o, 1) + bytes16(o, 1) + zeros(20)
}

/// The reply to ShapeQueryExtents: the same rectangle twice.
pub open spec fn extents_reply(conn: ClientConnection, r: (i16, i16, u16, u16)) -> Seq<u8> {
    let o = conn.byte_order;
    let (x, y, w, h) = r;
    reply_head(conn, 0, 0) + zeros(4) + bytes16(o, pattern16(x)) + bytes16(o, pattern16(y))
        + bytes16(o, w) + bytes16(o, h) + bytes16(o, pattern16(x)) + bytes16(o, pattern16(y))
        + bytes16(o, w) + bytes16(o, h) + zeros(4)
}

/// The reply to ShapeGetRectangles: one rectangle, from the window's corner.
pub open spec fn rectangles_reply(conn: ClientConnection, w: u16, h: u16) -> Seq<u8> {
    let o = conn.byte_order;
    reply_head(conn, 0, 2) + bytes32(o, 1) + zeros(20) + bytes16(o, pattern16(0)) + bytes16(
        o,
        pattern16(0),
    ) + bytes16(o, w) + bytes16(o, h)
}

/// A request of the extension.
pub open spec fn shape_request(s: ServerModel, conn: ClientConnection, data: Seq<u8>) -> Outcome {
    let window = u32_at(conn.byte_order, data, 4);
    if data.len() < 4 {
        refused(s, ServerError::Protocol)
    } else if data[1] == SHAPE_QUERY_VERSION {
        done(s.replying(conn, version_reply(conn)))
    } else if data[1] == SHAPE_QUERY_EXTENTS {
        if data.len() < 8 {
            refused(s, ServerError::Protocol)
        } else {
            done(s.replying(conn, extents_reply(conn, shape_of_window(s, window))))
        }
    } else if data[1] == SHAPE_INPUT_SELECTED {
        done(s.replying(conn, empty_reply(conn, 0)))
    } else if data[1] == SHAPE_GET_RECTANGLES {
        if data.len() < 8 {
            refused(s, ServerError::Protocol)
        } else {
            let r = shape_of_window(s, window);
            done(s.replying(conn, rectangles_reply(conn, r.2, r.3)))
        }
    } else {
        done(s)
    }
}

/// Handles a request of the extension.
pub fn handle_shape_request(server: &mut XServer, conn: &ClientConnection, data: &[u8]) -> (r:
    Result<(), ServerError>)
    ensures
        (final(server)@, r) == shape_request(old(server)@, *conn, data@),
{
    if data.len() < 4 {
        return Err(ServerError::Protocol);
    }
    match data[1] {
        SHAPE_QUERY_VERSION => {
            let mut reply = start_reply(conn, 0, 0);
            write_u16_to(conn, &mut reply, 1);
            write_u16_to(conn, &mut reply, 1);
            put_zeros(&mut reply, 20);
            server.reply(conn, reply);
        },
        SHAPE_QUERY_EXTENTS => {
            if data.len() < 8 {
                return Err(ServerError::Protocol);
            }
            let (x, y, w, h) = window_shape(server, read_u32(conn, data, 4));
            let mut reply = start_reply(conn, 0, 0);
            put_zeros(&mut reply, 4);
            write_i16_to(conn, &mut reply, x);
            write_i16_to(conn, &mut reply, y);
            write_u16_to(conn, &mut reply, w);
            write_u16_to(conn, &mut reply, h);
            write_i16_to(conn, &mut reply, x);
            write_i16_to(conn, &mut reply, y);
            write_u16_to(conn, &mut reply, w);
            write_u16_to(conn, &mut reply, h);
            put_zeros(&mut reply, 4);
            server.reply(conn, reply);
        },
        SHAPE_INPUT_SELECTED => {
            let reply = build_empty_reply(conn, 0);
            server.reply(conn, reply);
        },
        SHAPE_GET_RECTANGLES => {
            if data.len() < 8 {
                return Err(ServerError::Protocol);
            }
            let (_, _, w, h) = window_shape(server, read_u32(conn, data, 4));
            let mut reply = start_reply(conn, 0, 2);
            write_u32_to(conn, &mut reply, 1);
            put_zeros(&mut reply, 20);
            write_i16_to(conn, &mut reply, 0);
            write_i16_to(conn, &mut reply, 0);
            write_u16_to(conn, &mut reply, w);
            write_u16_to(conn, &mut reply, h);
            server.reply(conn, reply);
        },
        _ => {},
    }
    Ok(())
}

} // verus!
