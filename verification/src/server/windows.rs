//! Requests on windows.

use vstd::prelude::*;

use super::connection::{
    event_bytes, read_i16, read_u16, read_u32, reply_head, start_reply, write_i16_to, write_u16_to,
    write_u32_to, ClientConnection, EventData,
};
use super::drawing::{find_native_handle, native_for};
use super::events::{
    build_configure_notify, build_expose_event, configure_notify, expose_event, stamped,
};
use super::notify::{focus_told, send_focus_event};
use super::protocol::{event_mask, event_type};
use super::resources::{
    fresh_window, lemma_filter_take, Resource, ResourceModel, WindowClass, WindowModel,
    WindowState,
};
use super::tables;
use super::values::{has_bit, values_fit};
use super::wire::{
    byte, bytes16, bytes32, i16_at, low8, pattern16, put_at16, put_u8, put_zeros, to_low8, u16_at,
    u32_at, zeros, ByteOrder,
};
use super::{
    cursor_in, done, refused, Action, ActionModel, Outcome, ServerError, ServerModel, XServer,
};
use crate::display::{DisplayCommand, DisplayModel, NativeWindowHandle, Xid};

verus! {

/// A window with one attribute set as it is created.
pub open spec fn created_with(w: WindowModel, conn: u32, bit: int, v: u32) -> WindowModel {
    if bit == 1 {
        WindowModel { background_pixel: Some(v), ..w }
    } else if bit == 3 {
        WindowModel { border_pixel: Some(v), ..w }
    } else if bit == 4 {
        WindowModel { bit_gravity: low8(v), ..w }
    } else if bit == 5 {
        WindowModel { win_gravity: low8(v), ..w }
    } else if bit == 6 {
        WindowModel { backing_store: low8(v), ..w }
    } else if bit == 9 {
        WindowModel { override_redirect: v != 0, ..w }
    } else if bit == 11 {
        WindowModel { event_mask: v, event_selections: w.event_selections.push((conn, v)), ..w }
    } else if bit == 12 {
        WindowModel { do_not_propagate_mask: v, ..w }
    } else if bit == 13 {
        WindowModel { colormap: v, ..w }
    } else if bit == 14 {
        WindowModel { cursor: v, ..w }
    } else {
        w
    }
}

/// A window after the value list it was created with, from a bit on.
pub open spec fn created_after(
    w: WindowModel,
    conn: ClientConnection,
    data: Seq<u8>,
    at: int,
    mask: u32,
    bit: int,
) -> WindowModel
    decreases 15 - bit,
{
    if bit >= 15 {
        w
    } else if !has_bit(mask, bit) {
        created_after(w, conn, data, at, mask, bit + 1)
    } else {
        created_after(
            created_with(w, conn.id, bit, u32_at(conn.byte_order, data, at)),
            conn,
            data,
            at + 4,
            mask,
            bit + 1,
        )
    }
}

/// Reads the value list of a new window.
fn read_new_attributes(
    conn: &ClientConnection,
    data: &[u8],
    start: usize,
    mask: u32,
    window: WindowState,
) -> (r: WindowState)
    requires
        start <= data@.len(),
        values_fit(mask, 0x7FFF, data@.len() as int, start as int, 0, 15),
    ensures
        r@ == created_after(window@, *conn, data@, start as int, mask, 0),
{
    let mut w = window;
    let mut at: usize = start;
    let mut bit: u32 = 0;
    let ghost goal = created_after(w@, *conn, data@, at as int, mask, 0);
    while bit < 15
        invariant
            bit <= 15,
            values_fit(mask, 0x7FFF, data@.len() as int, at as int, bit as int, 15),
            goal == created_after(w@, *conn, data@, at as int, mask, bit as int),
        decreases 15 - bit,
    {
        assert((1u32 << bit) == (1u32 << (bit as int)));
        if mask & (1u32 << bit) != 0 {
            assert(0x7FFFu32 & (1u32 << bit) != 0) by (bit_vector)
                requires
                    bit < 15,
            ;
            assert(has_bit(0x7FFF, bit as int));
            let len: usize = data.len();
            assert(at + 4 <= len);
            let v: u32 = read_u32(conn, data, at);
            match bit {
                1 => {
                    w.background_pixel = Some(v);
                },
                3 => {
                    w.border_pixel = Some(v);
                },
                4 => {
                    w.bit_gravity = to_low8(v);
                },
                5 => {
                    w.win_gravity = to_low8(v);
                },
                6 => {
                    w.backing_store = to_low8(v);
                },
                9 => {
                    w.override_redirect = v != 0;
                },
                11 => {
                    w.event_mask = v;
                    w.event_selections.push((conn.id, v));
                },
                12 => {
                    w.do_not_propagate_mask = v;
                },
                13 => {
                    w.colormap = v;
                },
                14 => {
                    w.cursor = v;
                },
                _ => {},
            }
            at = at + 4;
        }
        bit = bit + 1;
    }
    w
}

/// The window that CreateWindow makes.
pub open spec fn new_window(s: ServerModel, conn: ClientConnection, data: Seq<u8>) -> WindowModel {
    let o = conn.byte_order;
    let parent = u32_at(o, data, 8);
    let asked = u32_at(o, data, 24);
    let visual = if asked == 0 {
        match s.window(parent) {
            Some(p) => p.visual,
            None => 0x21u32,
        }
    } else {
        asked
    };
    created_after(
        fresh_window(
            u32_at(o, data, 4),
            parent,
            i16_at(o, data, 12),
            i16_at(o, data, 14),
            u16_at(o, data, 16),
            u16_at(o, data, 18),
            u16_at(o, data, 20),
            if data[1] == 0 {
                24
            } else {
                data[1]
            },
            window_class(u16_at(o, data, 22)),
            visual,
        ),
        conn,
        data,
        32,
        u32_at(o, data, 28),
        0,
    )
}

/// The class with the given number; unknown numbers mean `CopyFromParent`.
pub open spec fn window_class(v: u16) -> WindowClass {
    if v == 1 {
        WindowClass::InputOutput
    } else if v == 2 {
        WindowClass::InputOnly
    } else {
        WindowClass::CopyFromParent
    }
}

/// CreateWindow.
pub open spec fn create_window(s: ServerModel, conn: ClientConnection, data: Seq<u8>) -> Outcome {
    if data.len() < 32 {
        refused(s, ServerError::Protocol)
    } else {
        let o = conn.byte_order;
        let id = u32_at(o, data, 4);
        let parent = u32_at(o, data, 8);
        let w = new_window(s, conn, data);
        let after = match s.window(parent) {
            Some(p) => s.with_window(parent, WindowModel { children: p.children.push(id), ..p }),
            None => s,
        };
        done(after.with_window(id, w))
    }
}

pub fn handle_create_window(server: &mut XServer, conn: &ClientConnection, data: &[u8]) -> (r:
    Result<(), ServerError>)
    requires
        data@.len() >= 32 ==> values_fit(
            u32_at(conn.byte_order, data@, 28),
            0x7FFF,
            data@.len() as int,
            32,
            0,
            15,
        ),
    ensures
        (final(server)@, r) == create_window(old(server)@, *conn, data@),
{
    if data.len() < 32 {
        return Err(ServerError::Protocol);
    }
    let depth: u8 = if data[1] == 0 {
        24
    } else {
        data[1]
    };
    let wid: u32 = read_u32(conn, data, 4);
    let parent: u32 = read_u32(conn, data, 8);
    let asked: u32 = read_u32(conn, data, 24);
    let parent_window: Option<WindowState> = server.window(parent);
    let visual: u32 = if asked == 0 {
        match &parent_window {
            Some(p) => p.visual,
            None => 0x21,
        }
    } else {
        asked
    };
    let fresh = WindowState::new(
        wid,
        parent,
        read_i16(conn, data, 12),
        read_i16(conn, data, 14),
        read_u16(conn, data, 16),
        read_u16(conn, data, 18),
        read_u16(conn, data, 20),
        depth,
        WindowClass::from(read_u16(conn, data, 22)),
        visual,
    );
    let window = read_new_attributes(conn, data, 32, read_u32(conn, data, 28), fresh);
    if let Some(mut p) = parent_window {
        p.children.push(wid);
        server.set_window(parent, p);
    }
    server.set_window(wid, window);
    Ok(())
}

/// Selections of a client replaced in place, or added at the end.
pub open spec fn with_selection(sels: Seq<(u32, u32)>, conn: u32, mask: u32) -> Seq<(u32, u32)>
    decreases sels.len(),
{
    if sels.len() == 0 {
        seq![(conn, mask)]
    } else if sels[0].0 == conn {
        sels.update(0, (conn, mask))
    } else {
        seq![sels[0]] + with_selection(sels.drop_first(), conn, mask)
    }
}

/// Sets the events a client selects.
fn select_events(sels: &mut Vec<(u32, u32)>, conn: u32, mask: u32)
    ensures
        final(sels)@ == with_selection(old(sels)@, conn, mask),
{
    let ghost before = sels@;
    let n: usize = sels.len();
    assert(before.skip(0) =~= before);
    assert(before.take(0) + with_selection(before, conn, mask) =~= with_selection(
        before,
        conn,
        mask,
    ));
    for i in 0..n
        invariant
            n == sels@.len(),
            sels@ == before,
            before == old(sels)@,
            with_selection(before, conn, mask) == before.take(i as int) + with_selection(
                before.skip(i as int),
                conn,
                mask,
            ),
    {
        assert(before.skip(i as int)[0] == before[i as int]);
        if sels[i].0 == conn {
            sels.set(i, (conn, mask));
            assert(sels@ =~= before.take(i as int) + before.skip(i as int).update(0, (conn, mask)));
            return;
        }
        assert(before.skip(i as int).drop_first() =~= before.skip(i + 1));
        assert(before.take(i as int) + (seq![before[i as int]] + with_selection(
            before.skip(i + 1),
            conn,
            mask,
        )) =~= before.take(i + 1) + with_selection(before.skip(i + 1), conn, mask));
    }
    sels.push((conn, mask));
    assert(before.skip(n as int) =~= Seq::empty());
    assert(sels@ =~= before.take(n as int) + seq![(conn, mask)]);
}

/// A window with one attribute changed.
pub open spec fn changed_with(w: WindowModel, conn: u32, bit: int, v: u32) -> WindowModel {
    if bit == 11 {
        WindowModel { event_selections: with_selection(w.event_selections, conn, v), ..w }
    } else {
        created_with(w, conn, bit, v)
    }
}

/// The bits whose values ChangeWindowAttributes reads.
pub const CHANGED_BITS: u32 = 0x7A7A;

/// A window after the value list of a change, from a bit on.
pub open spec fn changed_after(
    w: WindowModel,
    conn: ClientConnection,
    data: Seq<u8>,
    at: int,
    mask: u32,
    bit: int,
) -> WindowModel
    decreases 15 - bit,
{
    if bit >= 15 {
        w
    } else if !has_bit(mask, bit) {
        changed_after(w, conn, data, at, mask, bit + 1)
    } else {
        changed_after(
            changed_with(w, conn.id, bit, u32_at(conn.byte_order, data, at)),
            conn,
            data,
            at + 4,
            mask,
            bit + 1,
        )
    }
}

/// Reads the value list of a change.
fn read_changes(
    conn: &ClientConnection,
    data: &[u8],
    start: usize,
    mask: u32,
    window: WindowState,
) -> (r: WindowState)
    requires
        start <= 1024,
        values_fit(mask, CHANGED_BITS, data@.len() as int, start as int, 0, 15),
    ensures
        r@ == changed_after(window@, *conn, data@, start as int, mask, 0),
{
    let mut w = window;
    let mut at: usize = start;
    let mut bit: u32 = 0;
    let ghost goal = changed_after(w@, *conn, data@, at as int, mask, 0);
    while bit < 15
        invariant
            bit <= 15,
            at <= 1024 + 4 * bit,
            values_fit(mask, CHANGED_BITS, data@.len() as int, at as int, bit as int, 15),
            goal == changed_after(w@, *conn, data@, at as int, mask, bit as int),
        decreases 15 - bit,
    {
        assert((1u32 << bit) == (1u32 << (bit as int)));
        if mask & (1u32 << bit) != 0 {
            let read: bool = CHANGED_BITS & (1u32 << bit) != 0;
            proof {
                assert(has_bit(CHANGED_BITS, bit as int) == read);
                assert(!(0x7A7Au32 & (1u32 << bit) != 0) ==> bit == 0 || bit == 2 || bit == 7 || bit
                    == 8 || bit == 10) by (bit_vector)
                    requires
                        bit < 15,
                ;
            }
            if read {
                let v: u32 = read_u32(conn, data, at);
                match bit {
                    1 => {
                        w.background_pixel = Some(v);
                    },
                    3 => {
                        w.border_pixel = Some(v);
                    },
                    4 => {
                        w.bit_gravity = to_low8(v);
                    },
                    5 => {
                        w.win_gravity = to_low8(v);
                    },
                    6 => {
                        w.backing_store = to_low8(v);
                    },
                    9 => {
                        w.override_redirect = v != 0;
                    },
                    11 => {
                        select_events(&mut w.event_selections, conn.id, v);
                    },
                    12 => {
                        w.do_not_propagate_mask = v;
                    },
                    13 => {
                        w.colormap = v;
                    },
                    14 => {
                        w.cursor = v;
                    },
                    _ => {},
                }
            }
            at = at + 4;
        }
        bit = bit + 1;
    }
    w
}

/// The native cursor of a cursor resource; the arrow where there is none.
pub open spec fn cursor_type(s: ServerModel, cursor: u32) -> u8 {
    if cursor == 0 {
        0
    } else {
        match cursor_in(s.resources, cursor) {
            Some(c) => c.macos_type,
            None => 0,
        }
    }
}

/// ChangeWindowAttributes. A new cursor is shown at once; failing that, a new
/// background is.
pub open spec fn change_window_attributes(
    s: ServerModel,
    conn: ClientConnection,
    data: Seq<u8>,
) -> Outcome {
    if data.len() < 12 {
        refused(s, ServerError::Protocol)
    } else {
        let o = conn.byte_order;
        let id = u32_at(o, data, 4);
        let mask = u32_at(o, data, 8);
        match s.window(id) {
            None => done(s),
            Some(w) => {
                let after_w = changed_after(w, conn, data, 12, mask, 0);
                let after = s.with_window(id, after_w);
                match native_for(after.resources, id, 0, 0) {
                    None => done(after),
                    Some((handle, _, _)) => if has_bit(mask, 14) {
                        done(
                            after.showing(
                                DisplayModel::SetWindowCursor {
                                    handle,
                                    cursor_type: cursor_type(after, after_w.cursor),
                                },
                            ),
                        )
                    } else if has_bit(mask, 1) {
                        done(
                            after.showing(
                                DisplayModel::SetWindowBackgroundPixel {
                                    handle,
                                    pixel: after_w.background_pixel->0,
                                },
                            ),
                        )
                    } else {
                        done(after)
                    },
                }
            },
        }
    }
}

proof fn lemma_background_set(
    w: WindowModel,
    conn: ClientConnection,
    data: Seq<u8>,
    at: int,
    mask: u32,
    bit: int,
)
    requires
        w.background_pixel is Some || (bit <= 1 && has_bit(mask, 1)),
    ensures
        changed_after(w, conn, data, at, mask, bit).background_pixel is Some,
    decreases 15 - bit,
{
    if bit < 15 {
        if !has_bit(mask, bit) {
            lemma_background_set(w, conn, data, at, mask, bit + 1);
        } else {
            let v = u32_at(conn.byte_order, data, at);
            lemma_background_set(changed_with(w, conn.id, bit, v), conn, data, at + 4, mask, bit + 1);
        }
    }
}

pub fn handle_change_window_attributes(
    server: &mut XServer,
    conn: &ClientConnection,
    data: &[u8],
) -> (r: Result<(), ServerError>)
    requires
        data@.len() >= 12 && old(server)@.window(u32_at(conn.byte_order, data@, 4)) is Some
            ==> values_fit(
            u32_at(conn.byte_order, data@, 8),
            CHANGED_BITS,
            data@.len() as int,
            12,
            0,
            15,
        ),
    ensures
        (final(server)@, r) == change_window_attributes(old(server)@, *conn, data@),
{
    if data.len() < 12 {
        return Err(ServerError::Protocol);
    }
    let wid: u32 = read_u32(conn, data, 4);
    let mask: u32 = read_u32(conn, data, 8);
    let found: Option<WindowState> = server.window(wid);
    if let Some(w) = found {
        let ghost before = w@;
        let w = read_changes(conn, data, 12, mask, w);
        let cursor: u32 = w.cursor;
        let background: Option<u32> = w.background_pixel;
        server.set_window(wid, w);
        assert((1u32 << 14) == 0x4000u32 && (1u32 << 1) == 2u32) by (bit_vector);
        assert(has_bit(mask, 14) == (mask & 0x4000 != 0));
        assert(has_bit(mask, 1) == (mask & 2 != 0));
        if let Some(handle) = find_native_handle(server, wid) {
            if mask & 0x4000 != 0 {
                let cursor_type: u8 = if cursor == 0 {
                    0
                } else {
                    match server.cursor(cursor) {
                        Some(c) => c.macos_type,
                        None => 0,
                    }
                };
                server.show(DisplayCommand::SetWindowCursor { handle, cursor_type });
            } else if mask & 2 != 0 {
                proof {
                    lemma_background_set(before, *conn, data@, 12, mask, 0);
                }
                if let Some(pixel) = background {
                    server.show(DisplayCommand::SetWindowBackgroundPixel { handle, pixel });
                }
            }
        }
    }
    Ok(())
}

/// The protocol's number of a window class.
pub open spec fn class_number(c: WindowClass) -> u16 {
    match c {
        WindowClass::CopyFromParent => 0,
        WindowClass::InputOutput => 1,
        WindowClass::InputOnly => 2,
    }
}

/// One for true, zero for false.
pub open spec fn flag(b: bool) -> u8 {
    if b {
        1
    } else {
        0
    }
}

/// Zero means the root window.
pub open spec fn or_root(s: ServerModel, id: u32) -> u32 {
    if id == 0 {
        s.root()
    } else {
        id
    }
}

/// The reply to GetWindowAttributes.
pub open spec fn attributes_reply(conn: ClientConnection, w: WindowModel) -> Seq<u8> {
    let o = conn.byte_order;
    reply_head(conn, w.backing_store, 3) + bytes32(o, w.visual) + bytes16(o, class_number(w.class))
        + byte(w.bit_gravity) + byte(w.win_gravity) + bytes32(o, 0) + bytes32(o, 0) + byte(0) + byte(
        flag(w.mapped),
    ) + byte(
        if w.mapped {
            2
        } else {
            0
        },
    ) + byte(flag(w.override_redirect)) + bytes32(o, w.colormap) + bytes32(o, w.event_mask)
        + bytes32(o, w.event_mask) + bytes16(o, 0) + bytes16(o, 0)
}

/// GetWindowAttributes.
pub open spec fn get_window_attributes(s: ServerModel, conn: ClientConnection, data: Seq<u8>) -> Outcome {
    let id = or_root(s, u32_at(conn.byte_order, data, 4));
    match s.window(id) {
        Some(w) => done(s.replying(conn, attributes_reply(conn, w))),
        None => refused(s, ServerError::ResourceNotFound(id)),
    }
}

pub fn handle_get_window_attributes(
    server: &mut XServer,
    conn: &ClientConnection,
    data: &[u8],
) -> (r: Result<(), ServerError>)
    requires
        data@.len() >= 8,
    ensures
        (final(server)@, r) == get_window_attributes(old(server)@, *conn, data@),
{
    let raw: u32 = read_u32(conn, data, 4);
    let wid: u32 = if raw == 0 {
        server.root()
    } else {
        raw
    };
    match server.window(wid) {
        Some(w) => {
            let class: u16 = match w.class {
                WindowClass::CopyFromParent => 0,
                WindowClass::InputOutput => 1,
                WindowClass::InputOnly => 2,
            };
            let mut reply = start_reply(conn, w.backing_store, 3);
            write_u32_to(conn, &mut reply, w.visual);
            write_u16_to(conn, &mut reply, class);
            put_u8(&mut reply, w.bit_gravity);
            put_u8(&mut reply, w.win_gravity);
            write_u32_to(conn, &mut reply, 0);
            write_u32_to(conn, &mut reply, 0);
            put_u8(&mut reply, 0);
            put_u8(
                &mut reply,
                if w.mapped {
                    1
                } else {
                    0
                },
            );
            put_u8(
                &mut reply,
                if w.mapped {
                    2
                } else {
                    0
                },
            );
            put_u8(
                &mut reply,
                if w.override_redirect {
                    1
                } else {
                    0
                },
            );
            write_u32_to(conn, &mut reply, w.colormap);
            write_u32_to(conn, &mut reply, w.event_mask);
            write_u32_to(conn, &mut reply, w.event_mask);
            write_u16_to(conn, &mut reply, 0);
            write_u16_to(conn, &mut reply, 0);
            server.reply(conn, reply);
            Ok(())
        },
        None => Err(ServerError::ResourceNotFound(wid)),
    }
}

/// Whether an identifier is another one.
pub open spec fn other_than(id: u32) -> spec_fn(u32) -> bool {
    |c: u32| c != id
}

/// A list of children without a window.
pub open spec fn without_child(children: Seq<u32>, id: u32) -> Seq<u32> {
    children.filter(other_than(id))
}

/// Removes every mention of a window from a list of children.
fn remove_child(children: &Vec<Xid>, id: Xid) -> (r: Vec<Xid>)
    ensures
        r@ == without_child(children@, id),
{
    let mut r: Vec<Xid> = Vec::new();
    proof {
        reveal(Seq::filter);
    }
    for i in 0..children.len()
        invariant
            r@ == children@.take(i as int).filter(other_than(id)),
    {
        proof {
            lemma_filter_take(children@, i as int, other_than(id));
        }
        if children[i] != id {
            r.push(children[i]);
        }
    }
    assert(children@.take(children@.len() as int) =~= children@);
    r
}

/// The state with a window no longer among the children of another.
pub open spec fn orphaned(s: ServerModel, parent: u32, id: u32) -> ServerModel {
    match s.window(parent) {
        Some(p) => s.with_window(
            parent,
            WindowModel { children: without_child(p.children, id), ..p },
        ),
        None => s,
    }
}

fn orphan(server: &mut XServer, parent: Xid, id: Xid)
    ensures
        final(server)@ == orphaned(old(server)@, parent, id),
{
    let found: Option<WindowState> = server.window(parent);
    if let Some(mut p) = found {
        p.children = remove_child(&p.children, id);
        server.set_window(parent, p);
    }
}

/// The state after a window and what lies below it were destroyed, at most
/// `fuel` levels deep: children first, then the window leaves its parent's
/// list, its native window is closed and it is gone from the table.
pub open spec fn destroyed(s: ServerModel, id: u32, fuel: nat) -> ServerModel
    decreases fuel, 0nat,
{
    match s.window(id) {
        None => s,
        Some(w) => if fuel == 0 {
            s
        } else {
            let below = destroyed_all(s, w.children, (fuel - 1) as nat);
            let left = if w.parent != 0 {
                orphaned(below, w.parent, id)
            } else {
                below
            };
            let closed = match w.native_window {
                Some(handle) => left.showing(DisplayModel::DestroyWindow { handle }),
                None => left,
            };
            closed.without_resource(id)
        },
    }
}

/// The state after the windows of a list were destroyed one after the other.
pub open spec fn destroyed_all(s: ServerModel, ids: Seq<u32>, fuel: nat) -> ServerModel
    decreases fuel, ids.len() + 1,
{
    if ids.len() == 0 {
        s
    } else {
        destroyed(destroyed_all(s, ids.drop_last(), fuel), ids.last(), fuel)
    }
}

fn destroy_below(server: &mut XServer, wid: Xid, fuel: usize)
    ensures
        final(server)@ == destroyed(old(server)@, wid, fuel as nat),
    decreases fuel,
{
    let found: Option<WindowState> = server.window(wid);
    if let Some(w) = found {
        if fuel > 0 {
            let ghost start = server@;
            for i in 0..w.children.len()
                invariant
                    fuel > 0,
                    server@ == destroyed_all(start, w.children@.take(i as int), (fuel - 1) as nat),
            {
                assert(w.children@.take(i + 1).drop_last() =~= w.children@.take(i as int));
                destroy_below(server, w.children[i], fuel - 1);
            }
            assert(w.children@.take(w.children@.len() as int) =~= w.children@);
            if w.parent != 0 {
                orphan(server, w.parent, wid);
            }
            if let Some(handle) = w.native_window {
                server.show(DisplayCommand::DestroyWindow { handle });
            }
            server.remove_resource(wid);
        }
    }
}

/// How many resources there are.
pub fn count_resources(server: &XServer) -> (r: usize)
    ensures
        server@.resources.dom().finite(),
        r == server@.resources.dom().len(),
{
    let ids = tables::resource_ids(&server.resources);
    proof {
        let dom = server@.resources.dom();
        assert(ids@.to_set() =~= dom);
        ids@.unique_seq_to_set();
    }
    ids.len()
}

/// Destroys a window and everything below it.
pub fn destroy_window_recursive(server: &mut XServer, wid: Xid)
    ensures
        final(server)@ == destroyed(old(server)@, wid, old(server)@.resources.dom().len()),
{
    let fuel: usize = count_resources(server);
    destroy_below(server, wid, fuel);
}

/// DestroyWindow.
pub open spec fn destroy_window(s: ServerModel, conn: ClientConnection, data: Seq<u8>) -> Outcome {
    done(destroyed(s, u32_at(conn.byte_order, data, 4), s.resources.dom().len()))
}

pub fn handle_destroy_window(server: &mut XServer, conn: &ClientConnection, data: &[u8]) -> (r:
    Result<(), ServerError>)
    requires
        data@.len() >= 8,
    ensures
        (final(server)@, r) == destroy_window(old(server)@, *conn, data@),
{
    destroy_window_recursive(server, read_u32(conn, data, 4));
    Ok(())
}

/// ReparentWindow.
pub open spec fn reparent_window(s: ServerModel, conn: ClientConnection, data: Seq<u8>) -> Outcome {
    if data.len() < 16 {
        refused(s, ServerError::Protocol)
    } else {
        let o = conn.byte_order;
        let id = u32_at(o, data, 4);
        let new_parent = u32_at(o, data, 8);
        match s.window(id) {
            None => done(s),
            Some(w) => {
                let moved = s.with_window(
                    id,
                    WindowModel {
                        parent: new_parent,
                        x: i16_at(o, data, 12),
                        y: i16_at(o, data, 14),
                        ..w
                    },
                );
                let left = orphaned(moved, w.parent, id);
                match left.window(new_parent) {
                    Some(p) => done(
                        left.with_window(
                            new_parent,
                            WindowModel { children: p.children.push(id), ..p },
                        ),
                    ),
                    None => done(left),
                }
            },
        }
    }
}

pub fn handle_reparent_window(server: &mut XServer, conn: &ClientConnection, data: &[u8]) -> (r:
    Result<(), ServerError>)
    ensures
        (final(server)@, r) == reparent_window(old(server)@, *conn, data@),
{
    if data.len() < 16 {
        return Err(ServerError::Protocol);
    }
    let wid: u32 = read_u32(conn, data, 4);
    let new_parent: u32 = read_u32(conn, data, 8);
    let found: Option<WindowState> = server.window(wid);
    if let Some(mut w) = found {
        let old_parent: u32 = w.parent;
        w.parent = new_parent;
        w.x = read_i16(conn, data, 12);
        w.y = read_i16(conn, data, 14);
        server.set_window(wid, w);
        orphan(server, old_parent, wid);
        let target: Option<WindowState> = server.window(new_parent);
        if let Some(mut p) = target {
            p.children.push(wid);
            server.set_window(new_parent, p);
        }
    }
    Ok(())
}

/// The state after a window was hidden. If it had the focus, the focus follows
/// the pointer from now on.
pub open spec fn unmapped(s: ServerModel, id: u32) -> ServerModel {
    let hidden = match s.window(id) {
        Some(w) => {
            let t = s.with_window(id, WindowModel { mapped: false, viewable: false, ..w });
            match w.native_window {
                Some(handle) => t.showing(DisplayModel::HideWindow { handle }),
                None => t,
            }
        },
        None => s,
    };
    if hidden.focus_window == id {
        focus_told(ServerModel { focus_window: 1, ..hidden }, event_type::FOCUS_OUT, id)
    } else {
        hidden
    }
}

pub fn handle_unmap_window(server: &mut XServer, conn: &ClientConnection, data: &[u8]) -> (r:
    Result<(), ServerError>)
    requires
        data@.len() >= 8,
    ensures
        (final(server)@, r) == done(unmapped(old(server)@, u32_at(conn.byte_order, data@, 4))),
{
    let wid: u32 = read_u32(conn, data, 4);
    let found: Option<WindowState> = server.window(wid);
    if let Some(mut w) = found {
        w.mapped = false;
        w.viewable = false;
        let native: Option<NativeWindowHandle> = w.native_window;
        server.set_window(wid, w);
        if let Some(handle) = native {
            server.show(DisplayCommand::HideWindow { handle });
        }
    }
    if server.focus_window == wid {
        server.focus_window = 1;
        send_focus_event(server, event_type::FOCUS_OUT, wid);
    }
    Ok(())
}

/// The state after the windows of a list were marked as mapped.
pub open spec fn mapped_all(s: ServerModel, ids: Seq<u32>) -> ServerModel
    decreases ids.len(),
{
    if ids.len() == 0 {
        s
    } else {
        let before = mapped_all(s, ids.drop_last());
        match before.window(ids.last()) {
            Some(w) => before.with_window(
                ids.last(),
                WindowModel { mapped: true, viewable: true, ..w },
            ),
            None => before,
        }
    }
}

/// MapSubwindows.
pub open spec fn map_subwindows(s: ServerModel, conn: ClientConnection, data: Seq<u8>) -> Outcome {
    match s.window(u32_at(conn.byte_order, data, 4)) {
        Some(w) => done(mapped_all(s, w.children)),
        None => done(s),
    }
}

pub fn handle_map_subwindows(server: &mut XServer, conn: &ClientConnection, data: &[u8]) -> (r:
    Result<(), ServerError>)
    requires
        data@.len() >= 8,
    ensures
        (final(server)@, r) == map_subwindows(old(server)@, *conn, data@),
{
    let found: Option<WindowState> = server.window(read_u32(conn, data, 4));
    if let Some(w) = found {
        let ghost start = server@;
        for i in 0..w.children.len()
            invariant
                server@ == mapped_all(start, w.children@.take(i as int)),
        {
            assert(w.children@.take(i + 1).drop_last() =~= w.children@.take(i as int));
            let id: Xid = w.children[i];
            let child: Option<WindowState> = server.window(id);
            if let Some(mut c) = child {
                c.mapped = true;
                c.viewable = true;
                server.set_window(id, c);
            }
        }
        assert(w.children@.take(w.children@.len() as int) =~= w.children@);
    }
    Ok(())
}

/// A window with its geometry changed as a value list says, from a bit on. A
/// value takes the first half of its four bytes.
pub open spec fn configured_after(
    w: WindowModel,
    o: ByteOrder,
    data: Seq<u8>,
    at: int,
    mask: u32,
    bit: int,
) -> WindowModel
    decreases 5 - bit,
{
    if bit >= 5 {
        w
    } else if !has_bit(mask, bit) {
        configured_after(w, o, data, at, mask, bit + 1)
    } else {
        let next = if bit == 0 {
            WindowModel { x: i16_at(o, data, at), ..w }
        } else if bit == 1 {
            WindowModel { y: i16_at(o, data, at), ..w }
        } else if bit == 2 {
            WindowModel { width: u16_at(o, data, at), ..w }
        } else if bit == 3 {
            WindowModel { height: u16_at(o, data, at), ..w }
        } else {
            WindowModel { border_width: u16_at(o, data, at), ..w }
        };
        configured_after(next, o, data, at + 4, mask, bit + 1)
    }
}

/// Reads the value list of ConfigureWindow.
fn read_geometry(
    conn: &ClientConnection,
    data: &[u8],
    start: usize,
    mask: u32,
    window: WindowState,
) -> (r: WindowState)
    requires
        start <= data@.len(),
        values_fit(mask, 0x1F, data@.len() as int, start as int, 0, 5),
    ensures
        r@ == configured_after(window@, conn.byte_order, data@, start as int, mask, 0),
{
    let mut w = window;
    let mut at: usize = start;
    let mut bit: u32 = 0;
    let ghost goal = configured_after(w@, conn.byte_order, data@, at as int, mask, 0);
    while bit < 5
        invariant
            bit <= 5,
            values_fit(mask, 0x1F, data@.len() as int, at as int, bit as int, 5),
            goal == configured_after(w@, conn.byte_order, data@, at as int, mask, bit as int),
        decreases 5 - bit,
    {
        assert((1u32 << bit) == (1u32 << (bit as int)));
        if mask & (1u32 << bit) != 0 {
            assert(0x1Fu32 & (1u32 << bit) != 0) by (bit_vector)
                requires
                    bit < 5,
            ;
            assert(has_bit(0x1F, bit as int));
            let len: usize = data.len();
            assert(at + 4 <= len);
            match bit {
                0 => {
                    w.x = read_i16(conn, data, at);
                },
                1 => {
                    w.y = read_i16(conn, data, at);
                },
                2 => {
                    w.width = read_u16(conn, data, at);
                },
                3 => {
                    w.height = read_u16(conn, data, at);
                },
                _ => {
                    w.border_width = read_u16(conn, data, at);
                },
            }
            at = at + 4;
        }
        bit = bit + 1;
    }
    w
}

/// Whether any client selected one of the events.
pub open spec fn anyone_selects(sels: Seq<(u32, u32)>, mask: u32) -> bool {
    exists|i: int| 0 <= i < sels.len() && (#[trigger] sels[i]).1 & mask != 0
}

fn someone_selects(sels: &Vec<(u32, u32)>, mask: u32) -> (r: bool)
    ensures
        r == anyone_selects(sels@, mask),
{
    for i in 0..sels.len()
        invariant
            forall|j: int| 0 <= j < i ==> (#[trigger] sels@[j]).1 & mask == 0,
    {
        if sels[i].1 & mask != 0 {
            assert(sels@[i as int].1 & mask != 0);
            return true;
        }
    }
    false
}

/// The state after the windows of a list took a new size and their client was
/// told.
pub open spec fn resized_all(
    s: ServerModel,
    conn: ClientConnection,
    ids: Seq<u32>,
    width: u16,
    height: u16,
) -> ServerModel
    decreases ids.len(),
{
    if ids.len() == 0 {
        s
    } else {
        let before = resized_all(s, conn, ids.drop_last(), width, height);
        let id = ids.last();
        let (sized, border) = match before.window(id) {
            Some(w) => (
                before.with_window(id, WindowModel { width, height, ..w }),
                w.border_width,
            ),
            None => (before, 0u16),
        };
        let seq = conn.request_sequence();
        sized.sending(
            conn.id,
            stamped(
                conn,
                configure_notify(conn, id, id, 0, 0, 0, width, height, border, false),
                seq,
            ),
        ).sending(conn.id, stamped(conn, expose_event(conn, id, 0, 0, width, height, 0), seq))
    }
}

/// Stamps an event with the request's number.
pub fn stamp(conn: &ClientConnection, event: [u8; 32]) -> (r: [u8; 32])
    ensures
        r@ == stamped(*conn, event@, conn.request_sequence()),
{
    let mut e = event;
    put_at16(conn.byte_order, &mut e, 2, conn.current_request_sequence());
    e
}

fn resize_children(
    server: &mut XServer,
    conn: &ClientConnection,
    ids: &Vec<Xid>,
    width: u16,
    height: u16,
)
    ensures
        final(server)@ == resized_all(old(server)@, *conn, ids@, width, height),
{
    let ghost start = server@;
    for i in 0..ids.len()
        invariant
            server@ == resized_all(start, *conn, ids@.take(i as int), width, height),
    {
        assert(ids@.take(i + 1).drop_last() =~= ids@.take(i as int));
        let id: Xid = ids[i];
        let mut border: u16 = 0;
        let child: Option<WindowState> = server.window(id);
        if let Some(mut c) = child {
            c.width = width;
            c.height = height;
            border = c.border_width;
            server.set_window(id, c);
        }
        let config = stamp(
            conn,
            build_configure_notify(conn, id, id, 0, 0, 0, width, height, border, false),
        );
        server.send(conn.id, EventData::Fixed(config));
        let expose = stamp(conn, build_expose_event(conn, id, 0, 0, width, height, 0));
        server.send(conn.id, EventData::Fixed(expose));
    }
    assert(ids@.take(ids@.len() as int) =~= ids@);
}

/// ConfigureWindow. The native window follows; the client is told, and gets an
/// exposure if the size changed; direct children take the new size.
pub open spec fn configure_window(s: ServerModel, conn: ClientConnection, data: Seq<u8>) -> Outcome {
    if data.len() < 12 {
        refused(s, ServerError::Protocol)
    } else {
        let o = conn.byte_order;
        let id = u32_at(o, data, 4);
        let mask = u16_at(o, data, 8) as u32;
        match s.window(id) {
            None => done(s),
            Some(old) => {
                let w = configured_after(old, o, data, 12, mask, 0);
                let resized = w.width != old.width || w.height != old.height;
                let placed = s.with_window(id, w);
                let shown = match w.native_window {
                    Some(handle) => {
                        let quiet = if resized {
                            placed.doing(ActionModel::SuppressResizeEvents)
                        } else {
                            placed
                        };
                        quiet.showing(
                            DisplayModel::MoveResizeWindow {
                                handle,
                                x: w.x,
                                y: w.y,
                                width: w.width,
                                height: w.height,
                            },
                        )
                    },
                    None => placed,
                };
                let seq = conn.request_sequence();
                let told = if anyone_selects(w.event_selections, event_mask::STRUCTURE_NOTIFY) {
                    shown.replying(
                        conn,
                        stamped(
                            conn,
                            configure_notify(
                                conn,
                                id,
                                id,
                                0,
                                w.x,
                                w.y,
                                w.width,
                                w.height,
                                w.border_width,
                                w.override_redirect,
                            ),
                            seq,
                        ),
                    )
                } else {
                    shown
                };
                if resized {
                    let exposed = told.replying(
                        conn,
                        stamped(conn, expose_event(conn, id, 0, 0, w.width, w.height, 0), seq),
                    );
                    done(resized_all(exposed, conn, w.children, w.width, w.height))
                } else {
                    done(told)
                }
            },
        }
    }
}

pub fn handle_configure_window(server: &mut XServer, conn: &ClientConnection, data: &[u8]) -> (r:
    Result<(), ServerError>)
    requires
        data@.len() >= 12 && old(server)@.window(u32_at(conn.byte_order, data@, 4)) is Some
            ==> values_fit(
            u16_at(conn.byte_order, data@, 8) as u32,
            0x1F,
            data@.len() as int,
            12,
            0,
            5,
        ),
    ensures
        (final(server)@, r) == configure_window(old(server)@, *conn, data@),
{
    if data.len() < 12 {
        return Err(ServerError::Protocol);
    }
    let wid: u32 = read_u32(conn, data, 4);
    let mask: u32 = read_u16(conn, data, 8) as u32;
    let found: Option<WindowState> = server.window(wid);
    if let Some(old_window) = found {
        let old_width: u16 = old_window.width;
        let old_height: u16 = old_window.height;
        let w = read_geometry(conn, data, 12, mask, old_window);
        let resized: bool = w.width != old_width || w.height != old_height;
        server.set_window(wid, w.clone());
        if let Some(handle) = w.native_window {
            if resized {
                server.act(Action::SuppressResizeEvents);
            }
            server.show(
                DisplayCommand::MoveResizeWindow {
                    handle,
                    x: w.x,
                    y: w.y,
                    width: w.width,
                    height: w.height,
                },
            );
        }
        if someone_selects(&w.event_selections, event_mask::STRUCTURE_NOTIFY) {
            let e = stamp(
                conn,
                build_configure_notify(
                    conn,
                    wid,
                    wid,
                    0,
                    w.x,
                    w.y,
                    w.width,
                    w.height,
                    w.border_width,
                    w.override_redirect,
                ),
            );
            server.reply(conn, event_bytes(&e));
        }
        if resized {
            let e = stamp(conn, build_expose_event(conn, wid, 0, 0, w.width, w.height, 0));
            server.reply(conn, event_bytes(&e));
            resize_children(server, conn, &w.children, w.width, w.height);
        }
    }
    Ok(())
}

/// Identifiers on the wire.
pub open spec fn id_list(o: ByteOrder, ids: Seq<u32>) -> Seq<u8>
    decreases ids.len(),
{
    if ids.len() == 0 {
        Seq::empty()
    } else {
        id_list(o, ids.drop_last()) + bytes32(o, ids.last())
    }
}

/// Appends identifiers.
pub fn write_ids(conn: &ClientConnection, buf: &mut Vec<u8>, ids: &Vec<Xid>)
    ensures
        final(buf)@ == old(buf)@ + id_list(conn.byte_order, ids@),
{
    let ghost start = buf@;
    assert(buf@ =~= start + id_list(conn.byte_order, ids@.take(0)));
    for i in 0..ids.len()
        invariant
            buf@ == start + id_list(conn.byte_order, ids@.take(i as int)),
    {
        let ghost before = id_list(conn.byte_order, ids@.take(i as int));
        write_u32_to(conn, buf, ids[i]);
        assert(ids@.take(i + 1).drop_last() =~= ids@.take(i as int));
        assert(buf@ =~= start + (before + bytes32(conn.byte_order, ids@[i as int])));
    }
    assert(ids@.take(ids@.len() as int) =~= ids@);
}

/// The reply to QueryTree.
pub open spec fn tree_reply(s: ServerModel, conn: ClientConnection, parent: u32, children: Seq<u32>) -> Seq<
    u8,
> {
    let o = conn.byte_order;
    reply_head(conn, 0, children.len() as u32) + bytes32(o, s.root()) + bytes32(o, parent)
        + bytes16(o, children.len() as u16) + zeros(14) + id_list(o, children)
}

/// QueryTree.
pub open spec fn query_tree(s: ServerModel, conn: ClientConnection, data: Seq<u8>) -> Outcome {
    match s.window(u32_at(conn.byte_order, data, 4)) {
        Some(w) => done(s.replying(conn, tree_reply(s, conn, w.parent, w.children))),
        None => done(s.replying(conn, tree_reply(s, conn, 0, Seq::empty()))),
    }
}

pub fn handle_query_tree(server: &mut XServer, conn: &ClientConnection, data: &[u8]) -> (r: Result<
    (),
    ServerError,
>)
    requires
        data@.len() >= 8,
    ensures
        (final(server)@, r) == query_tree(old(server)@, *conn, data@),
{
    let found: Option<WindowState> = server.window(read_u32(conn, data, 4));
    let mut parent: Xid = 0;
    let mut children: Vec<Xid> = Vec::new();
    assert(children@ =~= Seq::empty());
    if let Some(w) = found {
        parent = w.parent;
        children = w.children;
    }
    let mut reply = start_reply(conn, 0, children.len() as u32);
    write_u32_to(conn, &mut reply, server.root());
    write_u32_to(conn, &mut reply, parent);
    write_u16_to(conn, &mut reply, children.len() as u16);
    put_zeros(&mut reply, 14);
    write_ids(conn, &mut reply, &children);
    server.reply(conn, reply);
    Ok(())
}

/// The reply to GetGeometry.
pub open spec fn geometry_reply(
    s: ServerModel,
    conn: ClientConnection,
    depth: u8,
    x: i16,
    y: i16,
    width: u16,
    height: u16,
    border_width: u16,
) -> Seq<u8> {
    let o = conn.byte_order;
    reply_head(conn, depth, 0) + bytes32(o, s.root()) + bytes16(o, pattern16(x)) + bytes16(
        o,
        pattern16(y),
    ) + bytes16(o, width) + bytes16(o, height) + bytes16(o, border_width) + zeros(10)
}

fn build_geometry_reply(
    server: &XServer,
    conn: &ClientConnection,
    depth: u8,
    x: i16,
    y: i16,
    width: u16,
    height: u16,
    border_width: u16,
) -> (r: Vec<u8>)
    ensures
        r@ == geometry_reply(server@, *conn, depth, x, y, width, height, border_width),
{
    let mut reply = start_reply(conn, depth, 0);
    write_u32_to(conn, &mut reply, server.root());
    write_i16_to(conn, &mut reply, x);
    write_i16_to(conn, &mut reply, y);
    write_u16_to(conn, &mut reply, width);
    write_u16_to(conn, &mut reply, height);
    write_u16_to(conn, &mut reply, border_width);
    put_zeros(&mut reply, 10);
    reply
}

/// GetGeometry.
pub open spec fn get_geometry(s: ServerModel, conn: ClientConnection, data: Seq<u8>) -> Outcome {
    let id = or_root(s, u32_at(conn.byte_order, data, 4));
    if id == s.root() {
        let c = s.screen;
        done(
            s.replying(
                conn,
                geometry_reply(
                    s,
                    conn,
                    c.root_depth,
                    0,
                    0,
                    c.width_in_pixels,
                    c.height_in_pixels,
                    0,
                ),
            ),
        )
    } else if !s.resources.dom().contains(id) {
        refused(s, ServerError::ResourceNotFound(id))
    } else {
        match s.resources[id] {
            ResourceModel::Window(w) => done(
                s.replying(
                    conn,
                    geometry_reply(
                        s,
                        conn,
                        w.depth,
                        w.x,
                        w.y,
                        w.width,
                        w.height,
                        w.border_width,
                    ),
                ),
            ),
            ResourceModel::Pixmap(p) => done(
                s.replying(conn, geometry_reply(s, conn, p.depth, 0, 0, p.width, p.height, 0)),
            ),
            _ => refused(s, ServerError::ResourceNotFound(id)),
        }
    }
}

pub fn handle_get_geometry(server: &mut XServer, conn: &ClientConnection, data: &[u8]) -> (r:
    Result<(), ServerError>)
    requires
        data@.len() >= 8,
    ensures
        (final(server)@, r) == get_geometry(old(server)@, *conn, data@),
{
    let raw: u32 = read_u32(conn, data, 4);
    let drawable: u32 = if raw == 0 {
        server.root()
    } else {
        raw
    };
    if drawable == server.root() {
        let c = server.screens[0];
        let reply = build_geometry_reply(
            server,
            conn,
            c.root_depth,
            0,
            0,
            c.width_in_pixels,
            c.height_in_pixels,
            0,
        );
        server.reply(conn, reply);
        return Ok(());
    }
    match tables::get_resource(&server.resources, drawable) {
        Some(Resource::Window(w)) => {
            let reply = build_geometry_reply(
                server,
                conn,
                w.depth,
                w.x,
                w.y,
                w.width,
                w.height,
                w.border_width,
            );
            server.reply(conn, reply);
            Ok(())
        },
        Some(Resource::Pixmap(p)) => {
            let reply = build_geometry_reply(server, conn, p.depth, 0, 0, p.width, p.height, 0);
            server.reply(conn, reply);
            Ok(())
        },
        _ => Err(ServerError::ResourceNotFound(drawable)),
    }
}

/// GetInputFocus.
pub open spec fn get_input_focus(s: ServerModel, conn: ClientConnection) -> Outcome {
    done(
        s.replying(
            conn,
            reply_head(conn, low8(s.focus_revert_to), 0) + bytes32(
                conn.byte_order,
                s.focus_window,
            ) + zeros(20),
        ),
    )
}

pub fn handle_get_input_focus(server: &mut XServer, conn: &ClientConnection) -> (r: Result<
    (),
    ServerError,
>)
    ensures
        (final(server)@, r) == get_input_focus(old(server)@, *conn),
{
    let mut reply = start_reply(conn, to_low8(server.focus_revert_to), 0);
    write_u32_to(conn, &mut reply, server.focus_window);
    put_zeros(&mut reply, 20);
    server.reply(conn, reply);
    Ok(())
}

/// The state after the focus moved; the windows that lose and gain it are told.
pub open spec fn set_input_focus(s: ServerModel, focus: u32, revert_to: u8) -> ServerModel {
    let moved = ServerModel { focus_window: focus, focus_revert_to: revert_to as u32, ..s };
    let out = if s.focus_window > 1 && s.focus_window != focus {
        focus_told(moved, event_type::FOCUS_OUT, s.focus_window)
    } else {
        moved
    };
    if focus > 1 && focus != s.focus_window {
        focus_told(out, event_type::FOCUS_IN, focus)
    } else {
        out
    }
}

pub fn handle_set_input_focus(server: &mut XServer, conn: &ClientConnection, data: &[u8]) -> (r:
    Result<(), ServerError>)
    requires
        data@.len() >= 8,
    ensures
        (final(server)@, r) == done(
            set_input_focus(old(server)@, u32_at(conn.byte_order, data@, 4), data@[1]),
        ),
{
    let revert_to: u8 = data[1];
    let focus: u32 = read_u32(conn, data, 4);
    let old_focus: u32 = server.focus_window;
    server.focus_window = focus;
    server.focus_revert_to = revert_to as u32;
    if old_focus > 1 && old_focus != focus {
        send_focus_event(server, event_type::FOCUS_OUT, old_focus);
    }
    if focus > 1 && focus != old_focus {
        send_focus_event(server, event_type::FOCUS_IN, focus);
    }
    Ok(())
}

} // verus!
