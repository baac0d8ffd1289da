//! The XTEST extension, version 2.2: input made by clients.

use vstd::prelude::*;

use crate::server::connection::{
    build_empty_reply, empty_reply, read_i16, reply_head, start_reply, write_u16_to,
    ClientConnection,
};
use crate::server::delivery::{
    button_told, key_may_lead_to, motion_told, send_button_event, send_key_event, send_motion_event,
};
use crate::server::protocol::event_type;
use crate::server::wire::{bytes16, i16_at, put_zeros, truncate16, wrap16, zeros};
use crate::server::{ServerError, ServerModel, XServer};
use crate::display::Xid;

verus! {

pub const XTEST_MAJOR_OPCODE: u8 = 132;

pub const XTEST_GET_VERSION: u8 = 0;

pub const XTEST_COMPARE_CURSOR: u8 = 1;

pub const XTEST_FAKE_INPUT: u8 = 2;

/// The window that made-up input is for: the focus, or the root.
pub open spec fn fake_target(s: ServerModel) -> u32 {
    if s.focus_window > 1 {
        s.focus_window
    } else {
        s.root()
    }
}

/// Whether a state follows when a client makes up an event. Buttons are pressed
/// where the pointer is; motion moves it.
pub open spec fn fake_may_lead_to(s: ServerModel, conn: ClientConnection, data: Seq<u8>, after: ServerModel) -> bool {
    let kind = data[4];
    let detail = data[5];
    let target = fake_target(s);
    let px = wrap16(s.pointer_x as int);
    let py = wrap16(s.pointer_y as int);
    if kind == event_type::KEY_PRESS || kind == event_type::KEY_RELEASE {
        key_may_lead_to(s, kind, target, detail, 0, s.now, after)
    } else if kind == event_type::BUTTON_PRESS || kind == event_type::BUTTON_RELEASE {
        after == button_told(s, kind, target, detail, px, py, px, py, 0, s.now)
    } else if kind == event_type::MOTION_NOTIFY {
        let x = i16_at(conn.byte_order, data, 24);
        let y = i16_at(conn.byte_order, data, 26);
        after == motion_told(
            ServerModel { pointer_x: x as i32, pointer_y: y as i32, ..s },
            target,
            x,
            y,
            x,
            y,
            0,
            s.now,
        )
    } else {
        after == s
    }
}

fn fake_input(server: &mut XServer, conn: &ClientConnection, data: &[u8])
    requires
        data@.len() >= 36,
    ensures
        fake_may_lead_to(old(server)@, *conn, data@, final(server)@),
{
    let kind: u8 = data[4];
    let detail: u8 = data[5];
    let time: u32 = server.now;
    let target: Xid = if server.focus_window > 1 {
        server.focus_window
    } else {
        server.root()
    };
    if kind == event_type::KEY_PRESS || kind == event_type::KEY_RELEASE {
        send_key_event(server, kind, target, detail, 0, time);
    } else if kind == event_type::BUTTON_PRESS || kind == event_type::BUTTON_RELEASE {
        let px: i16 = truncate16(server.pointer_x);
        let py: i16 = truncate16(server.pointer_y);
        send_button_event(server, kind, target, detail, px, py, px, py, 0, time);
    } else if kind == event_type::MOTION_NOTIFY {
        let x: i16 = read_i16(conn, data, 24);
        let y: i16 = read_i16(conn, data, 26);
        server.pointer_x = x as i32;
        server.pointer_y = y as i32;
        send_motion_event(server, target, x, y, x, y, 0, time);
    }
}

/// Whether this follows from a request of the extension.
pub open spec fn xtest_may_lead_to(
    s: ServerModel,
    conn: ClientConnection,
    data: Seq<u8>,
    after: ServerModel,
    r: Result<(), ServerError>,
) -> bool {
    if data.len() < 4 || (data[1] == XTEST_FAKE_INPUT && data.len() < 36) {
        after == s && r == Err::<(), ServerError>(ServerError::Protocol)
    } else {
        &&& r == Ok::<(), ServerError>(())
        &&& if data[1] == XTEST_GET_VERSION {
            after == s.replying(
                conn,
                reply_head(conn, 2, 0) + bytes16(conn.byte_order, 2) + zeros(22),
            )
        } else if data[1] == XTEST_COMPARE_CURSOR {
            after == s.replying(conn, empty_reply(conn, 1))
        } else if data[1] == XTEST_FAKE_INPUT {
            fake_may_lead_to(s, conn, data, after)
        } else {
            after == s
        }
    }
}

/// Handles a request of the extension.
pub fn handle_xtest_request(server: &mut XServer, conn: &ClientConnection, data: &[u8]) -> (r:
    Result<(), ServerError>)
    ensures
        xtest_may_lead_to(old(server)@, *conn, data@, final(server)@, r),
{
    if data.len() < 4 {
        return Err(ServerError::Protocol);
    }
    match data[1] {
        XTEST_GET_VERSION => {
            let mut reply = start_reply(conn, 2, 0);
            write_u16_to(conn, &mut reply, 2);
            put_zeros(&mut reply, 22);
            server.reply(conn, reply);
        },
        XTEST_COMPARE_CURSOR => {
            let reply = build_empty_reply(conn, 1);
            server.reply(conn, reply);
        },
        XTEST_FAKE_INPUT => {
            if data.len() < 36 {
                return Err(ServerError::Protocol);
            }
            fake_input(server, conn, data);
        },
        _ => {},
    }
    Ok(())
}

} // verus!
