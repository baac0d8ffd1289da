//! What later requests find of earlier ones.

use vstd::prelude::*;

use super::connection::{reply_head, ClientConnection};
use super::drawing::free_resource;
use super::input::{law_motion_moves_the_pointer, moved, Pointing, Step};
use super::notify::{law_telling_queues_events_only, Notice};
use super::pointer::{highest_below_root, pointer_in};
use super::properties::{
    change_property, delete_property, element_size, get_property, new_property, property_reply,
};
use super::protocol::{event_mask, event_type};
use super::replies::create_pixmap;
use super::resources::{law_delete_then_get, law_set_then_get, WindowModel};
use super::selections::selection_owner;
use super::sessions::announced_xim;
use super::windows::{
    create_window, geometry_reply, get_geometry, get_input_focus, other_than, query_tree,
    reparent_window, set_input_focus, tree_reply, unmapped, without_child,
};
use super::wire::{bytes32, i16_at, u16_at, u32_at, zeros};
use super::{done, refused, ServerError, ServerModel};

verus! {

/// GetProperty gives back what ChangeProperty wrote: its type, its format and
/// all its data.
pub proof fn law_property_reads_back(
    s: ServerModel,
    conn: ClientConnection,
    change: Seq<u8>,
    get: Seq<u8>,
)
    requires
        change.len() >= 24,
        element_size(change[16]) != 0,
        change.len() >= 24 + u32_at(conn.byte_order, change, 20) * element_size(change[16]),
        s.window(u32_at(conn.byte_order, change, 4)) is Some,
        get.len() >= 24,
        u32_at(conn.byte_order, get, 4) == u32_at(conn.byte_order, change, 4),
        u32_at(conn.byte_order, get, 8) == u32_at(conn.byte_order, change, 8),
        u32_at(conn.byte_order, get, 12) == 0 || u32_at(conn.byte_order, get, 12) == u32_at(
            conn.byte_order,
            change,
            12,
        ),
        u32_at(conn.byte_order, get, 16) == 0,
        u32_at(conn.byte_order, get, 20) * 4 >= new_property(conn.byte_order, change).data.len(),
    ensures
        ({
            let p = new_property(conn.byte_order, change);
            let after = change_property(s, conn, change).0;
            get_property(after, conn, get) == done(
                after.replying(
                    conn,
                    property_reply(
                        conn,
                        p.format,
                        p.type_atom,
                        0,
                        (p.data.len() as int / element_size(p.format)) as u32,
                        p.data,
                    ),
                ),
            )
        }),
{
    let o = conn.byte_order;
    let p = new_property(o, change);
    let id = u32_at(o, change, 4);
    let w = s.window(id)->0;
    law_set_then_get(w.properties, p, p.name);
    let after = change_property(s, conn, change).0;
    assert(after.window(id)->0.properties == super::resources::with_property(w.properties, p));
    assert(p.data.subrange(0, p.data.len() as int) =~= p.data);
}

/// GetProperty finds nothing of a property that DeleteProperty took away.
pub proof fn law_deleted_property_is_gone(
    s: ServerModel,
    conn: ClientConnection,
    delete: Seq<u8>,
    get: Seq<u8>,
)
    requires
        get.len() >= 24,
        u32_at(conn.byte_order, get, 4) == u32_at(conn.byte_order, delete, 4),
        u32_at(conn.byte_order, get, 8) == u32_at(conn.byte_order, delete, 8),
    ensures
        ({
            let after = delete_property(s, conn, delete).0;
            get_property(after, conn, get) == done(
                after.replying(conn, property_reply(conn, 0, 0, 0, 0, Seq::empty())),
            )
        }),
{
    let o = conn.byte_order;
    match s.window(u32_at(o, delete, 4)) {
        Some(w) => {
            let name = u32_at(o, delete, 8);
            law_delete_then_get(w.properties, name, name);
        },
        None => {},
    }
}

/// Telling of a change of focus moves no focus.
proof fn lemma_telling_keeps_focus(s: ServerModel, kind: u8, window: u32)
    ensures
        super::notify::focus_told(s, kind, window).focus_window == s.focus_window,
        super::notify::focus_told(s, kind, window).focus_revert_to == s.focus_revert_to,
{
    law_telling_queues_events_only(
        s,
        window,
        event_mask::FOCUS_CHANGE,
        Notice::Focus { kind, window },
    );
}

/// GetInputFocus gives back what SetInputFocus set.
pub proof fn law_focus_reads_back(
    s: ServerModel,
    conn: ClientConnection,
    focus: u32,
    revert_to: u8,
)
    ensures
        ({
            let after = set_input_focus(s, focus, revert_to);
            get_input_focus(after, conn) == done(
                after.replying(
                    conn,
                    reply_head(conn, revert_to, 0) + bytes32(conn.byte_order, focus) + zeros(20),
                ),
            )
        }),
{
    let moved = ServerModel { focus_window: focus, focus_revert_to: revert_to as u32, ..s };
    lemma_telling_keeps_focus(moved, event_type::FOCUS_OUT, s.focus_window);
    let out = if s.focus_window > 1 && s.focus_window != focus {
        super::notify::focus_told(moved, event_type::FOCUS_OUT, s.focus_window)
    } else {
        moved
    };
    lemma_telling_keeps_focus(out, event_type::FOCUS_IN, focus);
}

/// A window that is hidden does not keep the focus.
pub proof fn law_hidden_window_loses_focus(s: ServerModel, id: u32)
    requires
        id != 1,
    ensures
        unmapped(s, id).focus_window != id,
{
    let hidden = match s.window(id) {
        Some(w) => s.with_window(id, WindowModel { mapped: false, viewable: false, ..w }),
        None => s,
    };
    if s.focus_window == id {
        let t = match s.window(id) {
            Some(w) => match w.native_window {
                Some(handle) => hidden.showing(
                    crate::display::DisplayModel::HideWindow { handle },
                ),
                None => hidden,
            },
            None => hidden,
        };
        lemma_telling_keeps_focus(
            ServerModel { focus_window: 1, ..t },
            event_type::FOCUS_OUT,
            id,
        );
    }
}

/// A window that was created is the last child of its parent, and QueryTree on
/// the parent lists it.
pub proof fn law_created_window_is_listed(
    s: ServerModel,
    conn: ClientConnection,
    create: Seq<u8>,
    query: Seq<u8>,
)
    requires
        create.len() >= 32,
        s.window(u32_at(conn.byte_order, create, 8)) is Some,
        u32_at(conn.byte_order, create, 4) != u32_at(conn.byte_order, create, 8),
        u32_at(conn.byte_order, query, 4) == u32_at(conn.byte_order, create, 8),
    ensures
        ({
            let p = s.window(u32_at(conn.byte_order, create, 8))->0;
            let after = create_window(s, conn, create).0;
            let id = u32_at(conn.byte_order, create, 4);
            &&& after.window(id) is Some
            &&& query_tree(after, conn, query) == done(
                after.replying(conn, tree_reply(after, conn, p.parent, p.children.push(id))),
            )
        }),
{
}

/// A window that got another parent is that one's last child, and no child of
/// the parent it had.
pub proof fn law_reparented_window(s: ServerModel, conn: ClientConnection, data: Seq<u8>)
    requires
        data.len() >= 16,
        s.window(u32_at(conn.byte_order, data, 4)) is Some,
        s.window(u32_at(conn.byte_order, data, 8)) is Some,
        u32_at(conn.byte_order, data, 4) != u32_at(conn.byte_order, data, 8),
        s.window(u32_at(conn.byte_order, data, 4))->0.parent != u32_at(conn.byte_order, data, 4),
    ensures
        ({
            let id = u32_at(conn.byte_order, data, 4);
            let new_parent = u32_at(conn.byte_order, data, 8);
            let old_parent = s.window(id)->0.parent;
            let after = reparent_window(s, conn, data).0;
            &&& after.window(id)->0.parent == new_parent
            &&& after.window(id)->0.x == i16_at(conn.byte_order, data, 12)
            &&& after.window(id)->0.y == i16_at(conn.byte_order, data, 14)
            &&& after.window(new_parent) is Some
            &&& after.window(new_parent)->0.children.last() == id
            &&& old_parent != new_parent && s.window(old_parent) is Some
                ==> !after.window(old_parent)->0.children.contains(id)
        }),
{
    let o = conn.byte_order;
    let id = u32_at(o, data, 4);
    let w = s.window(id)->0;
    match s.window(w.parent) {
        Some(p) => {
            let kept = without_child(p.children, id);
            if kept.contains(id) {
                let i = choose|i: int| 0 <= i < kept.len() && kept[i] == id;
                p.children.lemma_filter_pred(other_than(id), i);
            }
        },
        None => {},
    }
}

/// GetGeometry gives back the size and depth a pixmap was created with.
pub proof fn law_pixmap_has_its_size(
    s: ServerModel,
    conn: ClientConnection,
    create: Seq<u8>,
    get: Seq<u8>,
)
    requires
        create.len() >= 16,
        u32_at(conn.byte_order, get, 4) == u32_at(conn.byte_order, create, 4),
        u32_at(conn.byte_order, create, 4) != 0,
        u32_at(conn.byte_order, create, 4) != s.root(),
    ensures
        ({
            let o = conn.byte_order;
            let after = create_pixmap(s, conn, create).0;
            get_geometry(after, conn, get) == done(
                after.replying(
                    conn,
                    geometry_reply(
                        after,
                        conn,
                        create[1],
                        0,
                        0,
                        u16_at(o, create, 12),
                        u16_at(o, create, 14),
                        0,
                    ),
                ),
            )
        }),
{
}

/// A resource that was freed does not exist any more.
pub proof fn law_freed_resource_is_gone(
    s: ServerModel,
    conn: ClientConnection,
    free: Seq<u8>,
    get: Seq<u8>,
)
    requires
        u32_at(conn.byte_order, get, 4) == u32_at(conn.byte_order, free, 4),
        u32_at(conn.byte_order, free, 4) != 0,
        u32_at(conn.byte_order, free, 4) != s.root(),
    ensures
        ({
            let after = free_resource(s, conn, free).0;
            get_geometry(after, conn, get) == refused(
                after,
                ServerError::ResourceNotFound(u32_at(conn.byte_order, free, 4)),
            )
        }),
{
}

/// Clients that look for the input method find the root window as its owner.
pub proof fn law_announced_input_method_is_owned(s: ServerModel)
    ensures
        selection_owner(announced_xim(s), s.xim.atoms.server_atom) == s.root(),
{
}

/// Once the pointer has moved in a top-level window, asking for it there gives
/// where it moved to.
pub proof fn law_pointer_reads_back(st: Step, p: Pointing, due: bool)
    requires
        p.window != st.0.root(),
        st.0.window(p.window) matches Some(w) && w.parent == st.0.root(),
    ensures
        pointer_in(moved(st, p, due).0, p.window) == (p.x, p.y),
{
    law_motion_moves_the_pointer(st, p, due);
    reveal_with_fuel(highest_below_root, 2);
}

} // verus!
