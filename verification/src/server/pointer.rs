//! Where the pointer and windows are.

use vstd::prelude::*;

use super::connection::{
    build_empty_reply, read_i16, read_u16, read_u32, reply_head, start_reply, write_i16_to, write_u16_to,
    write_u32_to, ClientConnection, EventData,
};
use super::events::{build_key_event, key_event};
use super::keyboard::succeeded;
use super::properties::{filled, put_filled};
use super::protocol::{event_mask, event_type};
use super::resources::{ResourceModel, WindowState};
use super::search::MAX_ASCENT;
use super::tables;
use super::wire::{
    bytes16, bytes32, i16_at, pattern16, put_zeros, truncate16, u16_at, u32_at, wrap16,
    zeros,
};
use super::{done, refused, window_in, Outcome, ServerError, ServerModel, XServer};
use crate::display::Xid;

verus! {

/// The sum of the positions of a window and its ancestors, up to but without a
/// stop window or the root, at most `fuel` levels.
pub open spec fn offset_below(
    m: Map<u32, ResourceModel>,
    stop: u32,
    root: u32,
    window: u32,
    fuel: nat,
) -> (int, int)
    decreases fuel,
{
    if fuel == 0 || window == stop || window == root || window == 0 {
        (0, 0)
    } else {
        match window_in(m, window) {
            None => (0, 0),
            Some(w) => {
                let (x, y) = offset_below(m, stop, root, w.parent, (fuel - 1) as nat);
                (w.x + x, w.y + y)
            },
        }
    }
}

/// The position of a window on the screen.
pub open spec fn screen_position(s: ServerModel, window: u32) -> (int, int) {
    offset_below(s.resources, s.root(), s.root(), window, MAX_ASCENT as nat)
}

fn add_offsets(server: &XServer, stop: Xid, root: Xid, window: Xid) -> (r: (i32, i32))
    ensures
        (r.0 as int, r.1 as int) == offset_below(
            server@.resources,
            stop,
            root,
            window,
            MAX_ASCENT as nat,
        ),
        -0x200000 <= r.0 <= 0x200000,
        -0x200000 <= r.1 <= 0x200000,
{
    let mut x: i32 = 0;
    let mut y: i32 = 0;
    let mut current: Xid = window;
    let mut left: usize = MAX_ASCENT;
    let ghost m = server@.resources;
    let ghost goal = offset_below(m, stop, root, window, MAX_ASCENT as nat);
    while left > 0 && current != stop && current != root && current != 0
        invariant
            m == server@.resources,
            left <= MAX_ASCENT,
            goal == offset_below(m, stop, root, window, MAX_ASCENT as nat),
            ({
                let rest = offset_below(m, stop, root, current, left as nat);
                goal == (x + rest.0, y + rest.1)
            }),
            -0x8000 * (MAX_ASCENT - left) <= x <= 0x8000 * (MAX_ASCENT - left),
            -0x8000 * (MAX_ASCENT - left) <= y <= 0x8000 * (MAX_ASCENT - left),
        decreases left,
    {
        match server.window(current) {
            None => {
                return (x, y);
            },
            Some(w) => {
                x = x + w.x as i32;
                y = y + w.y as i32;
                current = w.parent;
            },
        }
        left = left - 1;
    }
    (x, y)
}

/// The position of a window on the screen.
pub fn window_to_root_coords(server: &XServer, wid: Xid) -> (r: (i32, i32))
    ensures
        (r.0 as int, r.1 as int) == screen_position(server@, wid),
        -0x200000 <= r.0 <= 0x200000,
        -0x200000 <= r.1 <= 0x200000,
{
    let root: Xid = server.root();
    add_offsets(server, root, root, wid)
}

/// The ancestor directly below the root, or as far up as the search gets.
pub open spec fn highest_below_root(m: Map<u32, ResourceModel>, root: u32, window: u32, fuel: nat) -> u32
    decreases fuel,
{
    if fuel == 0 {
        window
    } else {
        match window_in(m, window) {
            None => window,
            Some(w) => if w.parent == root {
                window
            } else {
                highest_below_root(m, root, w.parent, (fuel - 1) as nat)
            },
        }
    }
}

fn find_highest(server: &XServer, root: Xid, window: Xid) -> (r: Xid)
    ensures
        r == highest_below_root(server@.resources, root, window, MAX_ASCENT as nat),
{
    let mut current: Xid = window;
    let mut left: usize = MAX_ASCENT;
    let ghost m = server@.resources;
    while left > 0
        invariant
            m == server@.resources,
            highest_below_root(m, root, window, MAX_ASCENT as nat) == highest_below_root(
                m,
                root,
                current,
                left as nat,
            ),
        decreases left,
    {
        match server.window(current) {
            None => {
                return current;
            },
            Some(w) => {
                if w.parent == root {
                    return current;
                }
                current = w.parent;
            },
        }
        left = left - 1;
    }
    current
}

/// The pointer in a window's coordinates: from where it was last seen in the
/// top-level window if it was, else from where it is on the screen.
pub open spec fn pointer_in(s: ServerModel, window: u32) -> (i16, i16) {
    let root_x = wrap16(s.pointer_x as int);
    let root_y = wrap16(s.pointer_y as int);
    if window == s.root() {
        (root_x, root_y)
    } else {
        let top = highest_below_root(s.resources, s.root(), window, MAX_ASCENT as nat);
        if s.window_pointer.dom().contains(top) {
            let (x, y) = s.window_pointer[top];
            if window == top {
                (x, y)
            } else {
                let (dx, dy) = offset_below(
                    s.resources,
                    top,
                    s.root(),
                    window,
                    MAX_ASCENT as nat,
                );
                (x.wrapping_sub(wrap16(dx)), y.wrapping_sub(wrap16(dy)))
            }
        } else {
            let (ax, ay) = screen_position(s, window);
            (root_x.wrapping_sub(wrap16(ax)), root_y.wrapping_sub(wrap16(ay)))
        }
    }
}

fn find_pointer_in(server: &XServer, window: Xid) -> (r: (i16, i16))
    ensures
        r == pointer_in(server@, window),
{
    let root: Xid = server.root();
    let root_x: i16 = truncate16(server.pointer_x);
    let root_y: i16 = truncate16(server.pointer_y);
    if window == root {
        return (root_x, root_y);
    }
    let top: Xid = find_highest(server, root, window);
    match tables::get_position(&server.window_pointer, top) {
        Some((x, y)) => {
            if window == top {
                (x, y)
            } else {
                let (dx, dy) = add_offsets(server, top, root, window);
                (x.wrapping_sub(truncate16(dx)), y.wrapping_sub(truncate16(dy)))
            }
        },
        None => {
            let (ax, ay) = window_to_root_coords(server, window);
            (root_x.wrapping_sub(truncate16(ax)), root_y.wrapping_sub(truncate16(ay)))
        },
    }
}

/// QueryPointer.
pub open spec fn query_pointer(s: ServerModel, conn: ClientConnection, data: Seq<u8>) -> Outcome {
    let o = conn.byte_order;
    let window = if data.len() >= 8 {
        u32_at(o, data, 4)
    } else {
        s.root()
    };
    let (x, y) = pointer_in(s, window);
    done(
        s.replying(
            conn,
            reply_head(conn, 1, 0) + bytes32(o, s.root()) + bytes32(o, 0) + bytes16(
                o,
                pattern16(wrap16(s.pointer_x as int)),
            ) + bytes16(o, pattern16(wrap16(s.pointer_y as int))) + bytes16(o, pattern16(x))
                + bytes16(o, pattern16(y)) + bytes16(o, 0) + zeros(6),
        ),
    )
}

pub fn handle_query_pointer(server: &mut XServer, conn: &ClientConnection, data: &[u8]) -> (r:
    Result<(), ServerError>)
    ensures
        (final(server)@, r) == query_pointer(old(server)@, *conn, data@),
{
    let root: Xid = server.root();
    let window: Xid = if data.len() >= 8 {
        read_u32(conn, data, 4)
    } else {
        root
    };
    let (x, y) = find_pointer_in(server, window);
    let mut reply = start_reply(conn, 1, 0);
    write_u32_to(conn, &mut reply, root);
    write_u32_to(conn, &mut reply, 0);
    write_i16_to(conn, &mut reply, truncate16(server.pointer_x));
    write_i16_to(conn, &mut reply, truncate16(server.pointer_y));
    write_i16_to(conn, &mut reply, x);
    write_i16_to(conn, &mut reply, y);
    write_u16_to(conn, &mut reply, 0);
    put_zeros(&mut reply, 6);
    server.reply(conn, reply);
    Ok(())
}

/// A point of one window in the coordinates of another.
pub open spec fn translated(s: ServerModel, from: u32, to: u32, x: i16, y: i16) -> (i16, i16) {
    let (fx, fy) = screen_position(s, from);
    let (tx, ty) = screen_position(s, to);
    (wrap16(x + fx - tx), wrap16(y + fy - ty))
}

/// TranslateCoordinates.
pub open spec fn translate_coordinates(s: ServerModel, conn: ClientConnection, data: Seq<u8>) -> Outcome {
    let o = conn.byte_order;
    if data.len() < 16 {
        refused(s, ServerError::Protocol)
    } else {
        let (x, y) = translated(
            s,
            u32_at(o, data, 4),
            u32_at(o, data, 8),
            i16_at(o, data, 12),
            i16_at(o, data, 14),
        );
        done(
            s.replying(
                conn,
                reply_head(conn, 1, 0) + bytes32(o, 0) + bytes16(o, pattern16(x)) + bytes16(
                    o,
                    pattern16(y),
                ) + zeros(16),
            ),
        )
    }
}

pub fn handle_translate_coordinates(
    server: &mut XServer,
    conn: &ClientConnection,
    data: &[u8],
) -> (r: Result<(), ServerError>)
    ensures
        (final(server)@, r) == translate_coordinates(old(server)@, *conn, data@),
{
    if data.len() < 16 {
        return Err(ServerError::Protocol);
    }
    let (fx, fy) = window_to_root_coords(server, read_u32(conn, data, 4));
    let (tx, ty) = window_to_root_coords(server, read_u32(conn, data, 8));
    let x: i16 = truncate16(read_i16(conn, data, 12) as i32 + fx - tx);
    let y: i16 = truncate16(read_i16(conn, data, 14) as i32 + fy - ty);
    let mut reply = start_reply(conn, 1, 0);
    write_u32_to(conn, &mut reply, 0);
    write_i16_to(conn, &mut reply, x);
    write_i16_to(conn, &mut reply, y);
    put_zeros(&mut reply, 16);
    server.reply(conn, reply);
    Ok(())
}

proof fn lemma_wrap_round_trip(x: i16, there: int, back: int)
    requires
        back == -there,
    ensures
        wrap16(wrap16(x + there) + back) == x,
{
    let w = wrap16(x + there) as int;
    let v = x + there;
    assert(w == v - 0x10000 * (v / 0x10000) || w == v - 0x10000 * (v / 0x10000 + 1));
    assert((w + back) % 0x10000 == (x as int) % 0x10000);
}

/// Translating a point to another window and back gives the point.
pub proof fn law_translate_round_trip(s: ServerModel, a: u32, b: u32, x: i16, y: i16)
    ensures
        ({
            let (bx, by) = translated(s, a, b, x, y);
            translated(s, b, a, bx, by) == (x, y)
        }),
{
    let (fx, fy) = screen_position(s, a);
    let (tx, ty) = screen_position(s, b);
    lemma_wrap_round_trip(x, fx - tx, tx - fx);
    lemma_wrap_round_trip(y, fy - ty, ty - fy);
}

/// The pointer's motion as a client is told of it when the pointer was moved by
/// another.
pub open spec fn warp_event(
    c: ClientConnection,
    root: u32,
    window: u32,
    x: i16,
    y: i16,
    root_x: i16,
    root_y: i16,
    time: u32,
) -> Seq<u8> {
    key_event(
        c,
        event_type::MOTION_NOTIFY,
        0,
        time,
        root,
        window,
        0,
        root_x,
        root_y,
        x,
        y,
        0,
        true,
    )
}

/// The state after the clients of a list of selections that want motion were
/// told.
pub open spec fn warp_told(
    s: ServerModel,
    sels: Seq<(u32, u32)>,
    window: u32,
    x: i16,
    y: i16,
    root_x: i16,
    root_y: i16,
) -> ServerModel
    decreases sels.len(),
{
    if sels.len() == 0 {
        s
    } else {
        let before = warp_told(s, sels.drop_last(), window, x, y, root_x, root_y);
        let (id, selected) = sels.last();
        if selected & event_mask::POINTER_MOTION != 0 {
            match before.connection(id) {
                Some(c) => before.sending(
                    id,
                    warp_event(c, s.root(), window, x, y, root_x, root_y, s.now),
                ),
                None => before,
            }
        } else {
            before
        }
    }
}

fn tell_warp(
    server: &mut XServer,
    w: &WindowState,
    window: Xid,
    x: i16,
    y: i16,
    root_x: i16,
    root_y: i16,
)
    ensures
        final(server)@ == warp_told(
            old(server)@,
            w@.event_selections,
            window,
            x,
            y,
            root_x,
            root_y,
        ),
{
    let ghost start = server@;
    let root: Xid = server.root();
    let time: u32 = server.now;
    for i in 0..w.event_selections.len()
        invariant
            root == start.root(),
            time == start.now,
            server@ == warp_told(
                start,
                w.event_selections@.take(i as int),
                window,
                x,
                y,
                root_x,
                root_y,
            ),
    {
        assert(w.event_selections@.take(i + 1).drop_last() =~= w.event_selections@.take(i as int));
        let (id, selected) = w.event_selections[i];
        if selected & event_mask::POINTER_MOTION != 0 {
            if let Some(c) = server.connection(id) {
                let e = build_key_event(
                    &c,
                    event_type::MOTION_NOTIFY,
                    0,
                    time,
                    root,
                    window,
                    0,
                    root_x,
                    root_y,
                    x,
                    y,
                    0,
                    true,
                );
                server.send(id, EventData::Fixed(e));
            }
        }
    }
    assert(w.event_selections@.take(w.event_selections@.len() as int) =~= w.event_selections@);
}

/// How deep below a top-level window a moved pointer is announced.
pub const WARP_DEPTH: u32 = 9;

/// The state after a window and what lies below it, at most `fuel` levels deep,
/// were told where the pointer was moved to. Windows that are not mapped hide
/// what lies below them.
pub open spec fn warped(
    s: ServerModel,
    window: u32,
    x: i16,
    y: i16,
    root_x: i16,
    root_y: i16,
    fuel: nat,
) -> ServerModel
    decreases fuel, 0nat,
{
    if fuel == 0 {
        s
    } else {
        match s.window(window) {
            Some(w) => if w.mapped {
                warped_all(
                    warp_told(s, w.event_selections, window, x, y, root_x, root_y),
                    w.children,
                    x,
                    y,
                    root_x,
                    root_y,
                    (fuel - 1) as nat,
                )
            } else {
                s
            },
            None => s,
        }
    }
}

/// The state after the windows of a list were told, each with the point in its
/// own coordinates.
pub open spec fn warped_all(
    s: ServerModel,
    ids: Seq<u32>,
    x: i16,
    y: i16,
    root_x: i16,
    root_y: i16,
    fuel: nat,
) -> ServerModel
    decreases fuel, ids.len() + 1,
{
    if ids.len() == 0 {
        s
    } else {
        let before = warped_all(s, ids.drop_last(), x, y, root_x, root_y, fuel);
        match before.window(ids.last()) {
            Some(c) => warped(
                before,
                ids.last(),
                x.wrapping_sub(c.x),
                y.wrapping_sub(c.y),
                root_x,
                root_y,
                fuel,
            ),
            None => before,
        }
    }
}

fn warp_below(
    server: &mut XServer,
    window: Xid,
    x: i16,
    y: i16,
    root_x: i16,
    root_y: i16,
    fuel: u32,
)
    ensures
        final(server)@ == warped(old(server)@, window, x, y, root_x, root_y, fuel as nat),
    decreases fuel, 0nat,
{
    if fuel == 0 {
        return;
    }
    if let Some(w) = server.window(window) {
        if w.mapped {
            tell_warp(server, &w, window, x, y, root_x, root_y);
            warp_all(server, &w.children, x, y, root_x, root_y, fuel - 1);
        }
    }
}

fn warp_all(
    server: &mut XServer,
    ids: &Vec<Xid>,
    x: i16,
    y: i16,
    root_x: i16,
    root_y: i16,
    fuel: u32,
)
    ensures
        final(server)@ == warped_all(old(server)@, ids@, x, y, root_x, root_y, fuel as nat),
    decreases fuel, 1nat,
{
    let ghost start = server@;
    for i in 0..ids.len()
        invariant
            server@ == warped_all(start, ids@.take(i as int), x, y, root_x, root_y, fuel as nat),
    {
        assert(ids@.take(i + 1).drop_last() =~= ids@.take(i as int));
        let id: Xid = ids[i];
        if let Some(c) = server.window(id) {
            warp_below(
                server,
                id,
                x.wrapping_sub(c.x),
                y.wrapping_sub(c.y),
                root_x,
                root_y,
                fuel,
            );
        }
    }
    assert(ids@.take(ids@.len() as int) =~= ids@);
}

/// WarpPointer: the pointer counts as moved, and windows all over the tree are
/// told of it.
pub open spec fn warp_pointer(s: ServerModel, conn: ClientConnection, data: Seq<u8>) -> Outcome {
    let o = conn.byte_order;
    if data.len() < 24 {
        refused(s, ServerError::Protocol)
    } else {
        let window = u32_at(o, data, 8);
        let (wx, wy) = if window != 0 {
            screen_position(s, window)
        } else {
            (0, 0)
        };
        let x = wx + i16_at(o, data, 20);
        let y = wy + i16_at(o, data, 22);
        let moved = ServerModel { pointer_x: x as i32, pointer_y: y as i32, ..s };
        match moved.window(s.root()) {
            Some(w) => done(
                warped_all(
                    moved,
                    w.children,
                    wrap16(x),
                    wrap16(y),
                    wrap16(x),
                    wrap16(y),
                    WARP_DEPTH as nat,
                ),
            ),
            None => done(moved),
        }
    }
}

pub fn handle_warp_pointer(server: &mut XServer, conn: &ClientConnection, data: &[u8]) -> (r: Result<
    (),
    ServerError,
>)
    ensures
        (final(server)@, r) == warp_pointer(old(server)@, *conn, data@),
{
    if data.len() < 24 {
        return Err(ServerError::Protocol);
    }
    let window: Xid = read_u32(conn, data, 8);
    let (wx, wy): (i32, i32) = if window != 0 {
        window_to_root_coords(server, window)
    } else {
        (0, 0)
    };
    let x: i32 = wx + read_i16(conn, data, 20) as i32;
    let y: i32 = wy + read_i16(conn, data, 22) as i32;
    server.pointer_x = x;
    server.pointer_y = y;
    let root_x: i16 = truncate16(x);
    let root_y: i16 = truncate16(y);
    let root: Xid = server.root();
    if let Some(w) = server.window(root) {
        warp_all(server, &w.children, root_x, root_y, root_x, root_y, WARP_DEPTH);
    }
    Ok(())
}

/// GrabPointer: the client's window gets the pointer's events from now on, and the
/// client is told that it succeeded.
pub open spec fn grab_pointer(s: ServerModel, conn: ClientConnection, data: Seq<u8>) -> Outcome {
    let o = conn.byte_order;
    let held = if data.len() >= 10 {
        ServerModel {
            pointer_grab: Some(
                (u32_at(o, data, 4), data[1] != 0, u16_at(o, data, 8) as u32, conn.id),
            ),
            ..s
        }
    } else {
        s
    };
    succeeded(held, conn)
}

pub fn handle_grab_pointer(server: &mut XServer, conn: &ClientConnection, data: &[u8]) -> (r: Result<
    (),
    ServerError,
>)
    ensures
        (final(server)@, r) == grab_pointer(old(server)@, *conn, data@),
{
    if data.len() >= 10 {
        let window: Xid = read_u32(conn, data, 4);
        let mask: u32 = read_u16(conn, data, 8) as u32;
        server.pointer_grab = Some((window, data[1] != 0, mask, conn.id));
    }
    let reply = build_empty_reply(conn, 0);
    server.reply(conn, reply);
    Ok(())
}

/// UngrabPointer.
pub open spec fn ungrab_pointer(s: ServerModel) -> Outcome {
    done(ServerModel { pointer_grab: None, ..s })
}

pub fn handle_ungrab_pointer(server: &mut XServer) -> (r: Result<(), ServerError>)
    ensures
        (final(server)@, r) == ungrab_pointer(old(server)@),
{
    server.pointer_grab = None;
    Ok(())
}

/// A grab is in force from GrabPointer on, for the window and the client that
/// asked for it, until UngrabPointer.
pub proof fn law_grab_comes_and_goes(s: ServerModel, conn: ClientConnection, data: Seq<u8>)
    requires
        data.len() >= 10,
    ensures
        ({
            let held = grab_pointer(s, conn, data).0;
            let freed = ungrab_pointer(held).0;
            &&& held.pointer_grab matches Some(g) && g.0 == u32_at(conn.byte_order, data, 4) && g.3
                == conn.id
            &&& freed.pointer_grab is None
        }),
{
}

/// SetPointerMapping is accepted and changes nothing.
pub fn handle_set_pointer_mapping(server: &mut XServer, conn: &ClientConnection) -> (r: Result<
    (),
    ServerError,
>)
    ensures
        (final(server)@, r) == succeeded(old(server)@, *conn),
{
    let reply = build_empty_reply(conn, 0);
    server.reply(conn, reply);
    Ok(())
}

/// GetPointerMapping: three buttons, in order.
pub open spec fn get_pointer_mapping(s: ServerModel, conn: ClientConnection) -> Outcome {
    done(s.replying(conn, reply_head(conn, 3, 1) + zeros(24) + filled(seq![1u8, 2, 3])))
}

pub fn handle_get_pointer_mapping(server: &mut XServer, conn: &ClientConnection) -> (r: Result<
    (),
    ServerError,
>)
    ensures
        (final(server)@, r) == get_pointer_mapping(old(server)@, *conn),
{
    let mut reply = start_reply(conn, 3, 1);
    put_zeros(&mut reply, 24);
    let buttons: Vec<u8> = vec![1, 2, 3];
    assert(buttons@ =~= seq![1u8, 2, 3]);
    put_filled(&mut reply, buttons.as_slice());
    server.reply(conn, reply);
    Ok(())
}

} // verus!
