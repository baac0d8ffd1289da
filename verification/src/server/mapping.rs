//! Mapping windows.
//!
//! A window directly below the root gets a native window when it is first
//! mapped. Creating one takes the native display, so mapping stops there and
//! goes on once the display has answered.

use vstd::prelude::*;

use super::connection::{event_bytes, read_u32, ClientConnection, EventData};
use super::drawing::{clear_window_tree, cleared_tree};
use super::events::{
    build_expose_event, build_map_notify, expose_event, map_notify, stamped,
};
use super::notify::{focus_told, send_focus_event};
use super::predefined;
use super::properties::{iconned, send_icon_from_property, titled};
use super::protocol::event_type;
use super::resources::{property_named, ResourceModel, WindowModel, WindowState};
use super::tables;
use super::text::{chars_of, from_utf8, string_of};
use super::windows::stamp;
use super::wire::u32_at;
use super::{window_in, ServerModel, XServer};
use crate::display::{DisplayCommand, DisplayModel, NativeWindowHandle, Xid};

verus! {

/// An upper-case hexadecimal digit.
pub open spec fn hex_digit(d: int) -> char {
    if d < 10 {
        (('0' as int) + d) as char
    } else {
        (('A' as int) + (d - 10)) as char
    }
}

/// Eight upper-case hexadecimal digits.
pub open spec fn hex8(v: u32) -> Seq<char> {
    let v = v as int;
    seq![
        hex_digit(v / 0x1000_0000),
        hex_digit((v / 0x100_0000) % 16),
        hex_digit((v / 0x10_0000) % 16),
        hex_digit((v / 0x1_0000) % 16),
        hex_digit((v / 0x1000) % 16),
        hex_digit((v / 0x100) % 16),
        hex_digit((v / 0x10) % 16),
        hex_digit(v % 16),
    ]
}

/// The title of a native window whose client set none.
pub open spec fn default_title(id: u32) -> Seq<char> {
    "X11 Window 0x"@ + hex8(id)
}

/// The upper-case hexadecimal digit of a value.
fn make_digit(d: u32) -> (r: char)
    requires
        d < 16,
    ensures
        r == hex_digit(d as int),
{
    match d {
        0 => '0',
        1 => '1',
        2 => '2',
        3 => '3',
        4 => '4',
        5 => '5',
        6 => '6',
        7 => '7',
        8 => '8',
        9 => '9',
        10 => 'A',
        11 => 'B',
        12 => 'C',
        13 => 'D',
        14 => 'E',
        _ => 'F',
    }
}

/// Makes the title of a native window whose client set none.
fn make_title(id: Xid) -> (r: String)
    ensures
        r@ == default_title(id),
{
    let mut chars = chars_of("X11 Window 0x");
    chars.push(make_digit(id / 0x1000_0000));
    chars.push(make_digit(id / 0x100_0000 % 16));
    chars.push(make_digit(id / 0x10_0000 % 16));
    chars.push(make_digit(id / 0x1_0000 % 16));
    chars.push(make_digit(id / 0x1000 % 16));
    chars.push(make_digit(id / 0x100 % 16));
    chars.push(make_digit(id / 0x10 % 16));
    chars.push(make_digit(id % 16));
    assert(chars@ =~= default_title(id));
    string_of(&chars)
}

/// The state after an exposure was queued for a window of some size.
pub open spec fn exposed(s: ServerModel, conn: ClientConnection, id: u32, width: u16, height: u16) -> ServerModel {
    if width > 0 && height > 0 {
        s.sending(
            conn.id,
            stamped(
                conn,
                expose_event(conn, id, 0, 0, width, height, 0),
                conn.request_sequence(),
            ),
        )
    } else {
        s
    }
}

fn expose(server: &mut XServer, conn: &ClientConnection, id: Xid, width: u16, height: u16)
    ensures
        final(server)@ == exposed(old(server)@, *conn, id, width, height),
{
    if width > 0 && height > 0 {
        let e = stamp(conn, build_expose_event(conn, id, 0, 0, width, height, 0));
        server.send(conn.id, EventData::Fixed(e));
    }
}

/// The state after exposures were queued for the mapped windows of a list.
pub open spec fn exposed_all(s: ServerModel, conn: ClientConnection, ids: Seq<u32>) -> ServerModel
    decreases ids.len(),
{
    if ids.len() == 0 {
        s
    } else {
        let before = exposed_all(s, conn, ids.drop_last());
        match before.window(ids.last()) {
            Some(w) => if w.mapped {
                exposed(before, conn, ids.last(), w.width, w.height)
            } else {
                before
            },
            None => before,
        }
    }
}

/// The state after a client was told that a window is mapped: a notification at
/// once, then exposures of the window and its mapped children, queued.
pub open spec fn map_announced(s: ServerModel, conn: ClientConnection, id: u32) -> ServerModel {
    let told = s.replying(
        conn,
        stamped(conn, map_notify(conn, id, id, false), conn.request_sequence()),
    );
    match told.window(id) {
        Some(w) => exposed_all(exposed(told, conn, id, w.width, w.height), conn, w.children),
        None => told,
    }
}

fn announce_map(server: &mut XServer, conn: &ClientConnection, wid: Xid)
    ensures
        final(server)@ == map_announced(old(server)@, *conn, wid),
{
    let e = stamp(conn, build_map_notify(conn, wid, wid, false));
    server.reply(conn, event_bytes(&e));
    if let Some(w) = server.window(wid) {
        expose(server, conn, wid, w.width, w.height);
        let ghost start = server@;
        for i in 0..w.children.len()
            invariant
                server@ == exposed_all(start, *conn, w.children@.take(i as int)),
        {
            assert(w.children@.take(i + 1).drop_last() =~= w.children@.take(i as int));
            let id: Xid = w.children[i];
            if let Some(c) = server.window(id) {
                if c.mapped {
                    expose(server, conn, id, c.width, c.height);
                }
            }
        }
        assert(w.children@.take(w.children@.len() as int) =~= w.children@);
    }
}

/// A window marked as mapped.
pub open spec fn marked_mapped(s: ServerModel, id: u32) -> ServerModel {
    match s.window(id) {
        Some(w) => s.with_window(id, WindowModel { mapped: true, viewable: true, ..w }),
        None => s,
    }
}

/// Whether mapping a window takes a native window that it does not have yet.
pub open spec fn needs_native(s: ServerModel, id: u32) -> bool {
    match s.window(id) {
        Some(w) => w.parent == s.root() && w.native_window is None,
        None => false,
    }
}

/// MapWindow, up to the native display: the state, and whether the window waits
/// for a native one (then also whether it bypasses the window manager).
pub open spec fn map_window(s: ServerModel, conn: ClientConnection, id: u32) -> (
    ServerModel,
    Option<bool>,
) {
    let marked = marked_mapped(s, id);
    if needs_native(s, id) {
        let w = s.window(id)->0;
        (
            marked.showing(
                DisplayModel::CreateWindow {
                    x11_id: id,
                    x: w.x,
                    y: w.y,
                    width: w.width,
                    height: w.height,
                    title: default_title(id),
                    override_redirect: w.override_redirect,
                },
            ),
            Some(w.override_redirect),
        )
    } else {
        (map_announced(marked, conn, id), None)
    }
}

/// MapWindow. Where a native window is needed, asks for it and says so;
/// `finish_map_window` then goes on.
pub fn handle_map_window(server: &mut XServer, conn: &ClientConnection, data: &[u8]) -> (r: Option<
    bool,
>)
    requires
        data@.len() >= 8,
    ensures
        (final(server)@, r) == map_window(
            old(server)@,
            *conn,
            u32_at(conn.byte_order, data@, 4),
        ),
{
    let wid: u32 = read_u32(conn, data, 4);
    let root: u32 = server.root();
    let found: Option<WindowState> = server.window(wid);
    if let Some(mut w) = found {
        w.mapped = true;
        w.viewable = true;
        let create: bool = w.parent == root && w.native_window.is_none();
        let x: i16 = w.x;
        let y: i16 = w.y;
        let width: u16 = w.width;
        let height: u16 = w.height;
        let override_redirect: bool = w.override_redirect;
        server.set_window(wid, w);
        if create {
            server.show(
                DisplayCommand::CreateWindow {
                    x11_id: wid,
                    x,
                    y,
                    width,
                    height,
                    title: make_title(wid),
                    override_redirect,
                },
            );
            return Some(override_redirect);
        }
    }
    announce_map(server, conn, wid);
    None
}

/// The identifiers of a client have these bits in common.
pub const BLOCK_MASK: u32 = 0xFFE00000;

/// Whether another window of the same client has a native window.
pub open spec fn sibling_shown(m: Map<u32, ResourceModel>, id: u32) -> bool {
    exists|other: u32| #[trigger]
        m.dom().contains(other) && other != id && other & BLOCK_MASK == id & BLOCK_MASK && (
        window_in(m, other) matches Some(w) && w.native_window is Some)
}

fn has_shown_sibling(server: &XServer, id: Xid) -> (r: bool)
    ensures
        r == sibling_shown(server@.resources, id),
{
    let ids = tables::resource_ids(&server.resources);
    let ghost m = server@.resources;
    for i in 0..ids.len()
        invariant
            m == server@.resources,
            forall|other: u32| m.dom().contains(other) <==> ids@.contains(other),
            forall|j: int|
                0 <= j < i ==> {
                    let other = #[trigger] ids@[j];
                    !(other != id && other & BLOCK_MASK == id & BLOCK_MASK && (window_in(m, other)
                        matches Some(w) && w.native_window is Some))
                },
    {
        let other: u32 = ids[i];
        assert(ids@.contains(other));
        if other & BLOCK_MASK == id & BLOCK_MASK && other != id {
            if let Some(w) = server.window(other) {
                if w.native_window.is_some() {
                    assert(m.dom().contains(other));
                    return true;
                }
            }
        }
    }
    assert forall|other: u32| #[trigger] m.dom().contains(other) implies !(other != id && other
        & BLOCK_MASK == id & BLOCK_MASK && (window_in(m, other) matches Some(w)
        && w.native_window is Some)) by {
        assert(ids@.contains(other));
        let j = choose|j: int| 0 <= j < ids@.len() && ids@[j] == other;
        assert(ids@[j] == other);
    }
    false
}

/// Whether a window is shown on screen once it has a native window: the first
/// of its client, dialogs, and windows that bypass the window manager are.
pub open spec fn becomes_visible(s: ServerModel, id: u32, override_redirect: bool) -> bool {
    ||| override_redirect
    ||| (s.window(id) matches Some(w) && property_named(
        w.properties,
        predefined::WM_TRANSIENT_FOR,
    ) is Some)
    ||| !sibling_shown(s.resources, id)
}

/// The state after a window took its native window, with what its client had
/// set before: icon, title and background.
pub open spec fn native_taken(
    s: ServerModel,
    conn: ClientConnection,
    id: u32,
    handle: NativeWindowHandle,
) -> ServerModel {
    match s.window(id) {
        None => s,
        Some(old) => {
            let w = WindowModel { native_window: Some(handle), ..old };
            let taken = s.with_window(id, w);
            let with_icon = match s.atoms.id_of("_NET_WM_ICON"@) {
                Some(atom) => iconned(taken, conn, w, atom, handle),
                None => taken,
            };
            let with_title = match property_named(w.properties, predefined::WM_NAME) {
                Some(p) => titled(with_icon, w, p.data),
                None => with_icon,
            };
            match w.background_pixel {
                Some(pixel) => with_title.showing(
                    DisplayModel::SetWindowBackgroundPixel { handle, pixel },
                ),
                None => with_title,
            }
        },
    }
}

fn take_native(server: &mut XServer, conn: &ClientConnection, wid: Xid, handle: NativeWindowHandle)
    ensures
        final(server)@ == native_taken(old(server)@, *conn, wid, handle),
{
    let found: Option<WindowState> = server.window(wid);
    if let Some(mut w) = found {
        w.native_window = Some(handle);
        server.set_window(wid, w.clone());
        if let Some(atom) = server.atoms.get_id("_NET_WM_ICON") {
            send_icon_from_property(server, conn, &w, atom, handle);
        }
        if let Some(p) = w.get_property(predefined::WM_NAME) {
            if let Some(title) = from_utf8(p.data.as_slice()) {
                server.show(DisplayCommand::SetWindowTitle { handle, title });
            }
        }
        if let Some(pixel) = w.background_pixel {
            server.show(DisplayCommand::SetWindowBackgroundPixel { handle, pixel });
        }
    }
}

/// The state after a window that became visible took the focus.
pub open spec fn autofocused(s: ServerModel, id: u32) -> ServerModel {
    if s.focus_window == id {
        s
    } else {
        let moved = ServerModel { focus_window: id, ..s };
        let out = if s.focus_window > 1 {
            focus_told(moved, event_type::FOCUS_OUT, s.focus_window)
        } else {
            moved
        };
        focus_told(out, event_type::FOCUS_IN, id)
    }
}

fn autofocus(server: &mut XServer, wid: Xid)
    ensures
        final(server)@ == autofocused(old(server)@, wid),
{
    let old_focus: u32 = server.focus_window;
    if old_focus != wid {
        server.focus_window = wid;
        if old_focus > 1 {
            send_focus_event(server, event_type::FOCUS_OUT, old_focus);
        }
        send_focus_event(server, event_type::FOCUS_IN, wid);
    }
}

/// MapWindow, once the native display has answered. The new surface starts out
/// with the backgrounds of the window and its mapped children.
pub open spec fn map_finished(
    s: ServerModel,
    conn: ClientConnection,
    id: u32,
    override_redirect: bool,
    handle: Option<NativeWindowHandle>,
) -> ServerModel {
    match handle {
        None => map_announced(s, conn, id),
        Some(handle) => {
            let taken = cleared_tree(native_taken(s, conn, id, handle), id);
            let visible = becomes_visible(taken, id, override_redirect);
            let shown = taken.showing(DisplayModel::ShowWindow { handle, visible });
            let focused = if visible {
                autofocused(shown, id)
            } else {
                shown
            };
            map_announced(focused, conn, id)
        },
    }
}

/// Goes on mapping a window with the native window the display made, if it did.
pub fn finish_map_window(
    server: &mut XServer,
    conn: &ClientConnection,
    wid: Xid,
    override_redirect: bool,
    handle: Option<NativeWindowHandle>,
)
    ensures
        final(server)@ == map_finished(old(server)@, *conn, wid, override_redirect, handle),
{
    if let Some(handle) = handle {
        take_native(server, conn, wid, handle);
        clear_window_tree(server, wid);
        let transient: bool = match server.window(wid) {
            Some(w) => w.get_property(predefined::WM_TRANSIENT_FOR).is_some(),
            None => false,
        };
        let visible: bool = override_redirect || transient || !has_shown_sibling(server, wid);
        server.show(DisplayCommand::ShowWindow { handle, visible });
        if visible {
            autofocus(server, wid);
        }
    }
    announce_map(server, conn, wid);
}

/// The first window of a client to get a native window is shown.
pub proof fn law_first_window_visible(s: ServerModel, id: u32)
    requires
        forall|other: u32| #[trigger]
            s.resources.dom().contains(other) && other != id && other & BLOCK_MASK == id
                & BLOCK_MASK ==> (window_in(s.resources, other) matches Some(w)
                ==> w.native_window is None),
    ensures
        becomes_visible(s, id, false),
{
}

/// A window that has its native window is never given another: mapping it again
/// asks for none.
pub proof fn law_native_window_kept(
    s: ServerModel,
    conn: ClientConnection,
    id: u32,
    handle: NativeWindowHandle,
)
    requires
        s.window(id) is Some,
    ensures
        native_taken(s, conn, id, handle).window(id) is Some,
        native_taken(s, conn, id, handle).window(id)->0.native_window == Some(handle),
        !needs_native(native_taken(s, conn, id, handle), id),
{
}

} // verus!
