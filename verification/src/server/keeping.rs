//! What the server keeps for its clients: properties, atoms and lists of windows.

use vstd::prelude::*;

use super::connection::{reply_head, ClientConnection};
use super::layout::{lemma_four_bytes, lemma_two_bytes};
use super::pasting::{answered, lemma_property_processed};
use super::placement::lemma_window_processed;
use super::properties::{
    asked_part, element_size, filled, new_property, property_names, property_reply, words_for,
};
use super::requests::{
    counted, counting, processing_may_lead_to, property_request, window_request, Pending,
};
use super::resources::{law_delete_then_get, law_set_then_get, property_named, PropertyModel};
use super::windows::{attributes_reply, id_list, tree_reply};
use super::wire::{byte, bytes16, bytes32, u16_at, u32_at, zeros, ByteOrder};
use super::{ActionModel, ServerModel};
use crate::display::DisplayModel;

verus! {

/// Whether some data is ChangeProperty with these fields.
pub open spec fn is_change_property(
    o: ByteOrder,
    data: Seq<u8>,
    window: u32,
    property: u32,
    type_atom: u32,
    format: u8,
    elements: u32,
    value: Seq<u8>,
) -> bool {
    &&& data.len() >= 24 + value.len()
    &&& data[0] == 18
    &&& u32_at(o, data, 4) == window
    &&& u32_at(o, data, 8) == property
    &&& u32_at(o, data, 12) == type_atom
    &&& data[16] == format
    &&& u32_at(o, data, 20) == elements
    &&& value.len() * 8 == elements * format
    &&& data.subrange(24, 24 + value.len() as int) == value
}

proof fn lemma_change_property(
    s: ServerModel,
    conn: ClientConnection,
    data: Seq<u8>,
    window: u32,
    p: PropertyModel,
    elements: u32,
)
    requires
        p.format == 8 || p.format == 16 || p.format == 32,
        is_change_property(
            conn.byte_order,
            data,
            window,
            p.name,
            p.type_atom,
            p.format,
            elements,
            p.data,
        ),
        s.window(window) is Some,
    ensures
        property_request(s, conn, data).1 is Ok,
        property_request(s, conn, data).0.window(window) is Some,
        ({
            let t = property_request(s, conn, data).0;
            let w = s.window(window)->0;
            &&& t.window(window)->0.properties == super::resources::with_property(
                w.properties,
                p,
            )
            &&& !s.pending_clipboard_copy && p.name == 39 && super::text::utf8_text(p.data) is Some
                && w.native_window is Some && super::properties::atom_name(s, 39) == "WM_NAME"@
                ==> t.outbox == s.outbox.push(
                ActionModel::Display(
                    DisplayModel::SetWindowTitle {
                        handle: w.native_window->0,
                        title: vstd::utf8::decode_utf8(p.data),
                    },
                ),
            )
        }),
{
    reveal(property_request);
    reveal_strlit("WM_NAME");
    reveal_strlit("_NET_WM_ICON");
    reveal_strlit("_PSLX_CLIP");
    assert("WM_NAME"@.len() != "_NET_WM_ICON"@.len());
    let o = conn.byte_order;
    assert(elements * element_size(p.format) == p.data.len()) by {
        assert(p.format == 8 ==> elements * 8 == p.data.len() * 8);
        assert(p.format == 16 ==> elements * 16 == p.data.len() * 8);
        assert(p.format == 32 ==> elements * 32 == p.data.len() * 8);
    }
    assert(new_property(o, data) == p);
}

/// After ChangeProperty the window has that property, with the type, format and
/// value that were sent, and its other properties as before.
pub proof fn law_properties_are_kept(
    s: ServerModel,
    id: u32,
    data: Seq<u8>,
    window: u32,
    property: u32,
    type_atom: u32,
    format: u8,
    elements: u32,
    value: Seq<u8>,
    other: u32,
    after: ServerModel,
    r: Option<Pending>,
)
    requires
        s.connections.dom().contains(id),
        s.window(window) is Some,
        format == 8 || format == 16 || format == 32,
        other != property,
        is_change_property(
            s.connections[id].byte_order,
            data,
            window,
            property,
            type_atom,
            format,
            elements,
            value,
        ),
        processing_may_lead_to(s, id, data, after, r),
    ensures
        after.window(window) is Some,
        property_named(after.window(window)->0.properties, property) == Some(
            (PropertyModel { name: property, type_atom, format, data: value }),
        ),
        property_named(after.window(window)->0.properties, other) == property_named(
            s.window(window)->0.properties,
            other,
        ),
{
    let p = PropertyModel { name: property, type_atom, format, data: value };
    let begun = counted(s, id);
    let conn = counting(s.connections[id]);
    lemma_change_property(begun, conn, data, window, p, elements);
    lemma_property_processed(s, id, data, after, r);
    law_set_then_get(s.window(window)->0.properties, p, property);
    law_set_then_get(s.window(window)->0.properties, p, other);
}

/// The native window is given the name that a client gives its window.
pub proof fn law_titles_are_shown(
    s: ServerModel,
    id: u32,
    data: Seq<u8>,
    window: u32,
    type_atom: u32,
    elements: u32,
    value: Seq<u8>,
    after: ServerModel,
    r: Option<Pending>,
)
    requires
        s.connections.dom().contains(id),
        s.window(window) is Some,
        s.window(window)->0.native_window is Some,
        !s.pending_clipboard_copy,
        s.atoms.name_of(39) == Some("WM_NAME"@),
        vstd::utf8::valid_utf8(value),
        is_change_property(
            s.connections[id].byte_order,
            data,
            window,
            39,
            type_atom,
            8,
            elements,
            value,
        ),
        processing_may_lead_to(s, id, data, after, r),
    ensures
        after.outbox == s.outbox.push(
            ActionModel::Display(
                DisplayModel::SetWindowTitle {
                    handle: s.window(window)->0.native_window->0,
                    title: vstd::utf8::decode_utf8(value),
                },
            ),
        ),
{
    let p = PropertyModel { name: 39, type_atom, format: 8, data: value };
    let begun = counted(s, id);
    let conn = counting(s.connections[id]);
    lemma_change_property(begun, conn, data, window, p, elements);
    lemma_property_processed(s, id, data, after, r);
}

/// The answer to GetProperty as a client reads it.
pub open spec fn reads_property(
    o: ByteOrder,
    e: Seq<u8>,
    format: u8,
    type_atom: u32,
    left: int,
    elements: int,
    value: Seq<u8>,
) -> bool {
    &&& e.len() >= 32 + value.len()
    &&& e[0] == 1
    &&& e[1] == format
    &&& u32_at(o, e, 8) == type_atom
    &&& u32_at(o, e, 12) == left
    &&& u32_at(o, e, 16) == elements
    &&& e.subrange(32, 32 + value.len() as int) == value
}

proof fn lemma_property_reply(
    conn: ClientConnection,
    format: u8,
    type_atom: u32,
    left: u32,
    elements: u32,
    value: Seq<u8>,
)
    ensures
        reads_property(
            conn.byte_order,
            property_reply(conn, format, type_atom, left, elements, value),
            format,
            type_atom,
            left as int,
            elements as int,
            value,
        ),
{
    let o = conn.byte_order;
    let e = property_reply(conn, format, type_atom, left, elements, value);
    lemma_four_bytes(o, e, 8, type_atom);
    lemma_four_bytes(o, e, 12, left);
    lemma_four_bytes(o, e, 16, elements);
    assert(e.subrange(32, 32 + value.len() as int) =~= value);
}

proof fn lemma_get_property(
    s: ServerModel,
    conn: ClientConnection,
    data: Seq<u8>,
    window: u32,
    p: PropertyModel,
    offset: u32,
    most: u32,
) -> (e: Seq<u8>)
    requires
        data.len() >= 24,
        data[0] == 20,
        u32_at(conn.byte_order, data, 4) == window,
        u32_at(conn.byte_order, data, 8) == p.name,
        u32_at(conn.byte_order, data, 12) == 0 || u32_at(conn.byte_order, data, 12) == p.type_atom,
        u32_at(conn.byte_order, data, 16) == offset,
        u32_at(conn.byte_order, data, 20) == most,
        s.window(window) is Some,
        property_named(s.window(window)->0.properties, p.name) == Some(p),
        p.format == 8 || p.format == 16 || p.format == 32,
        p.data.len() <= u32::MAX,
        offset * 4 <= p.data.len(),
    ensures
        property_request(s, conn, data).1 is Ok,
        property_request(s, conn, data).0 == s.replying(conn, e),
        ({
            let end = if p.data.len() - 4 * offset < 4 * most {
                p.data.len() as int
            } else {
                4 * offset + 4 * most
            };
            reads_property(
                conn.byte_order,
                e,
                p.format,
                p.type_atom,
                p.data.len() - end,
                (end - 4 * offset) * 8 / (p.format as int),
                p.data.subrange(4 * offset, end),
            )
        }),
{
    reveal(property_request);
    let o = conn.byte_order;
    let part = asked_part(o, data, p.data);
    let size = element_size(p.format);
    let n = part.len() as int;
    assert(p.format == 8 ==> n / 1 == n * 8 / 8);
    assert(p.format == 16 ==> n / 2 == n * 8 / 16);
    assert(p.format == 32 ==> n / 4 == n * 8 / 32);
    assert(0 <= n / size <= n);
    let e = property_reply(
        conn,
        p.format,
        p.type_atom,
        (p.data.len() - u32_at(o, data, 16) * 4 - part.len()) as u32,
        (part.len() as int / size) as u32,
        part,
    );
    lemma_property_reply(
        conn,
        p.format,
        p.type_atom,
        (p.data.len() - u32_at(o, data, 16) * 4 - part.len()) as u32,
        (part.len() as int / size) as u32,
        part,
    );
    e
}

/// GetProperty replies with the property's type and format, and with the part of
/// its value that was asked for: offset and length count words. What is left of
/// the value and how many elements were sent stand beside it.
pub proof fn law_properties_are_replied(
    s: ServerModel,
    id: u32,
    data: Seq<u8>,
    window: u32,
    p: PropertyModel,
    offset: u32,
    most: u32,
    after: ServerModel,
    r: Option<Pending>,
)
    requires
        s.connections.dom().contains(id),
        data.len() >= 24,
        data[0] == 20,
        u32_at(s.connections[id].byte_order, data, 4) == window,
        u32_at(s.connections[id].byte_order, data, 8) == p.name,
        u32_at(s.connections[id].byte_order, data, 12) == 0 || u32_at(
            s.connections[id].byte_order,
            data,
            12,
        ) == p.type_atom,
        u32_at(s.connections[id].byte_order, data, 16) == offset,
        u32_at(s.connections[id].byte_order, data, 20) == most,
        s.window(window) is Some,
        property_named(s.window(window)->0.properties, p.name) == Some(p),
        p.format == 8 || p.format == 16 || p.format == 32,
        p.data.len() <= u32::MAX,
        offset * 4 <= p.data.len(),
        processing_may_lead_to(s, id, data, after, r),
    ensures
        ({
            let end = if p.data.len() - 4 * offset < 4 * most {
                p.data.len() as int
            } else {
                4 * offset + 4 * most
            };
            exists|e: Seq<u8>| #[trigger]
                answered(s, after, s.connections[id].id, e) && reads_property(
                    s.connections[id].byte_order,
                    e,
                    p.format,
                    p.type_atom,
                    p.data.len() - end,
                    (end - 4 * offset) * 8 / (p.format as int),
                    p.data.subrange(4 * offset, end),
                )
        }),
{
    let begun = counted(s, id);
    let conn = counting(s.connections[id]);
    let e = lemma_get_property(begun, conn, data, window, p, offset, most);
    lemma_property_processed(s, id, data, after, r);
    assert(answered(s, after, s.connections[id].id, e));
}

proof fn lemma_delete_property(s: ServerModel, conn: ClientConnection, data: Seq<u8>, window: u32)
    requires
        data.len() >= 12,
        data[0] == 19,
        u32_at(conn.byte_order, data, 4) == window,
        s.window(window) is Some,
    ensures
        property_request(s, conn, data).1 is Ok,
        property_request(s, conn, data).0.window(window) is Some,
        property_request(s, conn, data).0.window(window)->0.properties
            == super::resources::without_property(
            s.window(window)->0.properties,
            u32_at(conn.byte_order, data, 8),
        ),
{
    reveal(property_request);
}

/// After DeleteProperty the window has no such property, and its others as before.
pub proof fn law_properties_are_deleted(
    s: ServerModel,
    id: u32,
    data: Seq<u8>,
    window: u32,
    property: u32,
    other: u32,
    after: ServerModel,
    r: Option<Pending>,
)
    requires
        s.connections.dom().contains(id),
        data.len() >= 12,
        data[0] == 19,
        u32_at(s.connections[id].byte_order, data, 4) == window,
        u32_at(s.connections[id].byte_order, data, 8) == property,
        s.window(window) is Some,
        other != property,
        processing_may_lead_to(s, id, data, after, r),
    ensures
        after.window(window) is Some,
        property_named(after.window(window)->0.properties, property) is None,
        property_named(after.window(window)->0.properties, other) == property_named(
            s.window(window)->0.properties,
            other,
        ),
{
    lemma_delete_property(counted(s, id), counting(s.connections[id]), data, window);
    lemma_property_processed(s, id, data, after, r);
    law_delete_then_get(s.window(window)->0.properties, property, other);
}

proof fn lemma_intern(s: ServerModel, conn: ClientConnection, data: Seq<u8>, name: Seq<char>) -> (e: Seq<
    u8,
>)
    requires
        data[0] == 16,
        data[1] == 0,
        data.len() >= 8,
        data.len() >= 8 + u16_at(conn.byte_order, data, 4),
        super::text::utf8_text(data.subrange(8, 8 + u16_at(conn.byte_order, data, 4))) == Some(name),
    ensures
        property_request(s, conn, data).1 is Ok,
        property_request(s, conn, data).0 == s.interning(name).replying(conn, e),
        e.len() == 32,
        e[0] == 1,
        u32_at(conn.byte_order, e, 8) == s.atoms.interned(name),
{
    reveal(property_request);
    let o = conn.byte_order;
    let atom = s.atoms.interned(name);
    let e = reply_head(conn, 0, 0) + bytes32(o, atom) + zeros(20);
    lemma_four_bytes(o, e, 8, atom);
    e
}

/// InternAtom replies with an atom whose name, from then on, is the one that was
/// sent.
pub proof fn law_atoms_are_replied(
    s: ServerModel,
    id: u32,
    data: Seq<u8>,
    name: Seq<char>,
    after: ServerModel,
    r: Option<Pending>,
)
    requires
        s.connections.dom().contains(id),
        s.atoms.wf(),
        data[0] == 16,
        data[1] == 0,
        data.len() >= 8,
        data.len() >= 8 + u16_at(s.connections[id].byte_order, data, 4),
        super::text::utf8_text(
            data.subrange(8, 8 + u16_at(s.connections[id].byte_order, data, 4)),
        ) == Some(name),
        processing_may_lead_to(s, id, data, after, r),
    ensures
        exists|e: Seq<u8>| #[trigger]
            answered(s, after, s.connections[id].id, e) && e.len() == 32 && e[0] == 1
                && after.atoms.name_of(u32_at(s.connections[id].byte_order, e, 8)) == Some(name),
{
    let begun = counted(s, id);
    let conn = counting(s.connections[id]);
    let e = lemma_intern(begun, conn, data, name);
    lemma_property_processed(s, id, data, after, r);
    super::atoms::law_name_of_interned(s.atoms, name);
    assert(answered(s, after, s.connections[id].id, e));
}

proof fn lemma_atom_name(s: ServerModel, conn: ClientConnection, data: Seq<u8>, name: Seq<char>) -> (e: Seq<
    u8,
>)
    requires
        data[0] == 17,
        data.len() >= 8,
        s.atoms.name_of(u32_at(conn.byte_order, data, 4)) == Some(name),
        vstd::utf8::encode_utf8(name).len() < 0x10000,
    ensures
        property_request(s, conn, data).1 is Ok,
        property_request(s, conn, data).0 == s.replying(conn, e),
        ({
            let b = vstd::utf8::encode_utf8(name);
            &&& e.len() >= 32 + b.len()
            &&& e[0] == 1
            &&& u16_at(conn.byte_order, e, 8) == b.len()
            &&& e.subrange(32, 32 + b.len() as int) == b
        }),
{
    reveal(property_request);
    let o = conn.byte_order;
    let b = vstd::utf8::encode_utf8(name);
    let n = b.len() as int;
    let e = reply_head(conn, 0, words_for(n) as u32) + bytes16(o, n as u16) + zeros(22) + filled(b);
    lemma_two_bytes(o, e, 8, n as u16);
    assert(e.subrange(32, 32 + b.len() as int) =~= b);
    e
}

/// GetAtomName replies with the atom's name and how many bytes it has.
pub proof fn law_atom_names_are_replied(
    s: ServerModel,
    id: u32,
    data: Seq<u8>,
    name: Seq<char>,
    after: ServerModel,
    r: Option<Pending>,
)
    requires
        s.connections.dom().contains(id),
        data[0] == 17,
        data.len() >= 8,
        s.atoms.name_of(u32_at(s.connections[id].byte_order, data, 4)) == Some(name),
        vstd::utf8::encode_utf8(name).len() < 0x10000,
        processing_may_lead_to(s, id, data, after, r),
    ensures
        ({
            let b = vstd::utf8::encode_utf8(name);
            exists|e: Seq<u8>| #[trigger]
                answered(s, after, s.connections[id].id, e) && e.len() >= 32 + b.len() && e[0] == 1
                    && u16_at(s.connections[id].byte_order, e, 8) == b.len() && e.subrange(
                    32,
                    32 + b.len() as int,
                ) == b
        }),
{
    let begun = counted(s, id);
    let conn = counting(s.connections[id]);
    let e = lemma_atom_name(begun, conn, data, name);
    lemma_property_processed(s, id, data, after, r);
    assert(answered(s, after, s.connections[id].id, e));
}

/// A list of identifiers is read back item by item.
pub proof fn lemma_listed(o: ByteOrder, before: Seq<u8>, ids: Seq<u32>, after: Seq<u8>)
    ensures
        id_list(o, ids).len() == 4 * ids.len(),
        forall|i: int| #![trigger ids[i]]
            0 <= i < ids.len() ==> u32_at(
                o,
                before + id_list(o, ids) + after,
                before.len() + 4 * i,
            ) == ids[i],
    decreases ids.len(),
{
    if ids.len() > 0 {
        let rest = ids.drop_last();
        let v = ids.last();
        lemma_listed(o, before, rest, bytes32(o, v) + after);
        let all = before + id_list(o, ids) + after;
        assert(all =~= before + id_list(o, rest) + (bytes32(o, v) + after));
        lemma_four_bytes(o, all, before.len() as int + 4 * rest.len(), v);
        assert forall|i: int| #![trigger ids[i]] 0 <= i < ids.len() implies u32_at(
            o,
            all,
            before.len() + 4 * i,
        ) == ids[i] by {
            if i < rest.len() {
                assert(rest[i] == ids[i]);
            }
        }
    }
}

/// The answer to QueryTree as a client reads it.
pub open spec fn reads_tree(
    o: ByteOrder,
    e: Seq<u8>,
    root: u32,
    parent: u32,
    children: Seq<u32>,
) -> bool {
    &&& e.len() == 32 + 4 * children.len()
    &&& e[0] == 1
    &&& u32_at(o, e, 4) == children.len()
    &&& u32_at(o, e, 8) == root
    &&& u32_at(o, e, 12) == parent
    &&& u16_at(o, e, 16) == children.len()
    &&& forall|i: int| #![trigger children[i]]
        0 <= i < children.len() ==> u32_at(o, e, 32 + 4 * i) == children[i]
}

proof fn lemma_tree_reply(s: ServerModel, conn: ClientConnection, parent: u32, children: Seq<u32>)
    requires
        children.len() < 0x10000,
    ensures
        reads_tree(
            conn.byte_order,
            tree_reply(s, conn, parent, children),
            s.root(),
            parent,
            children,
        ),
{
    let o = conn.byte_order;
    let e = tree_reply(s, conn, parent, children);
    let n = children.len();
    let head = reply_head(conn, 0, n as u32) + bytes32(o, s.root()) + bytes32(o, parent) + bytes16(
        o,
        n as u16,
    ) + zeros(14);
    lemma_listed(o, head, children, seq![]);
    assert(e =~= head + id_list(o, children) + seq![]);
    lemma_four_bytes(o, e, 4, n as u32);
    lemma_four_bytes(o, e, 8, s.root());
    lemma_four_bytes(o, e, 12, parent);
    lemma_two_bytes(o, e, 16, n as u16);
}

proof fn lemma_query_tree(s: ServerModel, conn: ClientConnection, data: Seq<u8>, window: u32)
    requires
        data.len() >= 8,
        data[0] == 15,
        u32_at(conn.byte_order, data, 4) == window,
        s.window(window) is Some,
    ensures
        window_request(s, conn, data).1 is Ok,
        window_request(s, conn, data).0 == s.replying(
            conn,
            tree_reply(s, conn, s.window(window)->0.parent, s.window(window)->0.children),
        ),
{
    reveal(window_request);
}

/// QueryTree replies with the root, the window's parent, and its children from the
/// lowest to the topmost.
pub proof fn law_trees_are_replied(
    s: ServerModel,
    id: u32,
    data: Seq<u8>,
    window: u32,
    after: ServerModel,
    r: Option<Pending>,
)
    requires
        s.connections.dom().contains(id),
        data.len() >= 8,
        data[0] == 15,
        u32_at(s.connections[id].byte_order, data, 4) == window,
        s.window(window) is Some,
        s.window(window)->0.children.len() < 0x10000,
        processing_may_lead_to(s, id, data, after, r),
    ensures
        exists|e: Seq<u8>| #[trigger]
            answered(s, after, s.connections[id].id, e) && reads_tree(
                s.connections[id].byte_order,
                e,
                s.root(),
                s.window(window)->0.parent,
                s.window(window)->0.children,
            ),
{
    let begun = counted(s, id);
    let conn = counting(s.connections[id]);
    let w = s.window(window)->0;
    lemma_query_tree(begun, conn, data, window);
    lemma_window_processed(s, id, data, after, r);
    lemma_tree_reply(begun, conn, w.parent, w.children);
    assert(answered(
        s,
        after,
        s.connections[id].id,
        tree_reply(begun, conn, w.parent, w.children),
    ));
}

/// The answer to GetWindowAttributes as a client reads it.
pub open spec fn reads_attributes(
    o: ByteOrder,
    e: Seq<u8>,
    w: super::resources::WindowModel,
) -> bool {
    &&& e.len() == 44
    &&& e[0] == 1
    &&& e[1] == w.backing_store
    &&& u32_at(o, e, 4) == 3
    &&& u32_at(o, e, 8) == w.visual
    &&& u16_at(o, e, 12) == super::windows::class_number(w.class)
    &&& e[14] == w.bit_gravity
    &&& e[15] == w.win_gravity
    &&& e[25] == (if w.mapped {
        1u8
    } else {
        0u8
    })
    &&& e[26] == (if w.mapped {
        2u8
    } else {
        0u8
    })
    &&& e[27] == (if w.override_redirect {
        1u8
    } else {
        0u8
    })
    &&& u32_at(o, e, 28) == w.colormap
    &&& u32_at(o, e, 32) == w.event_mask
    &&& u32_at(o, e, 36) == w.event_mask
}

/// The first sixteen bytes of the answer to GetWindowAttributes.
spec fn attributes_start(conn: ClientConnection, w: super::resources::WindowModel) -> Seq<u8> {
    let o = conn.byte_order;
    reply_head(conn, w.backing_store, 3) + bytes32(o, w.visual) + bytes16(
        o,
        super::windows::class_number(w.class),
    ) + byte(w.bit_gravity) + byte(w.win_gravity)
}

/// The first twenty-eight bytes of it.
spec fn attributes_middle(conn: ClientConnection, w: super::resources::WindowModel) -> Seq<u8> {
    let o = conn.byte_order;
    attributes_start(conn, w) + bytes32(o, 0) + bytes32(o, 0) + byte(0) + byte(
        super::windows::flag(w.mapped),
    ) + byte(
        if w.mapped {
            2
        } else {
            0
        },
    ) + byte(super::windows::flag(w.override_redirect))
}

proof fn lemma_attributes_start(conn: ClientConnection, w: super::resources::WindowModel)
    ensures
        ({
            let o = conn.byte_order;
            let e = attributes_start(conn, w);
            &&& e.len() == 16
            &&& e[0] == 1
            &&& e[1] == w.backing_store
            &&& u32_at(o, e, 4) == 3
            &&& u32_at(o, e, 8) == w.visual
            &&& u16_at(o, e, 12) == super::windows::class_number(w.class)
            &&& e[14] == w.bit_gravity
            &&& e[15] == w.win_gravity
        }),
{
    let o = conn.byte_order;
    let e = attributes_start(conn, w);
    lemma_four_bytes(o, e, 4, 3);
    lemma_four_bytes(o, e, 8, w.visual);
    lemma_two_bytes(o, e, 12, super::windows::class_number(w.class));
}

proof fn lemma_attributes_middle(conn: ClientConnection, w: super::resources::WindowModel)
    ensures
        ({
            let e = attributes_middle(conn, w);
            &&& e.len() == attributes_start(conn, w).len() + 12
            &&& e.take(attributes_start(conn, w).len() as int) == attributes_start(conn, w)
            &&& attributes_start(conn, w).len() == 16 ==> e[25] == super::windows::flag(w.mapped)
                && e[26] == (if w.mapped {
                2u8
            } else {
                0u8
            }) && e[27] == super::windows::flag(w.override_redirect)
        }),
{
    let e = attributes_middle(conn, w);
    let start = attributes_start(conn, w);
    assert(e.take(start.len() as int) =~= start);
}

proof fn lemma_attributes_end(o: ByteOrder, middle: Seq<u8>, colormap: u32, mask: u32)
    ensures
        ({
            let e = middle + bytes32(o, colormap) + bytes32(o, mask) + bytes32(o, mask) + bytes16(
                o,
                0,
            ) + bytes16(o, 0);
            let n = middle.len() as int;
            &&& e.len() == n + 16
            &&& e.take(n) == middle
            &&& u32_at(o, e, n) == colormap
            &&& u32_at(o, e, n + 4) == mask
            &&& u32_at(o, e, n + 8) == mask
        }),
{
    let e = middle + bytes32(o, colormap) + bytes32(o, mask) + bytes32(o, mask) + bytes16(o, 0)
        + bytes16(o, 0);
    let n = middle.len() as int;
    lemma_four_bytes(o, e, n, colormap);
    lemma_four_bytes(o, e, n + 4, mask);
    lemma_four_bytes(o, e, n + 8, mask);
    assert(e.take(n) =~= middle);
}

proof fn lemma_attributes_reply(conn: ClientConnection, w: super::resources::WindowModel)
    ensures
        reads_attributes(conn.byte_order, attributes_reply(conn, w), w),
{
    let o = conn.byte_order;
    let e = attributes_reply(conn, w);
    let start = attributes_start(conn, w);
    let middle = attributes_middle(conn, w);
    lemma_attributes_start(conn, w);
    lemma_attributes_middle(conn, w);
    lemma_attributes_end(o, middle, w.colormap, w.event_mask);
    assert(e == middle + bytes32(o, w.colormap) + bytes32(o, w.event_mask) + bytes32(
        o,
        w.event_mask,
    ) + bytes16(o, 0) + bytes16(o, 0));
    assert forall|i: int| 0 <= i < 28 implies #[trigger] e[i] == middle[i] by {
        assert(e.take(28)[i] == middle[i]);
    }
    assert forall|i: int| 0 <= i < 16 implies #[trigger] middle[i] == start[i] by {
        assert(middle.take(16)[i] == start[i]);
    }
}

proof fn lemma_get_attributes(s: ServerModel, conn: ClientConnection, data: Seq<u8>, window: u32)
    requires
        data.len() >= 8,
        data[0] == 3,
        u32_at(conn.byte_order, data, 4) == window,
        window > 1,
        s.window(window) is Some,
    ensures
        window_request(s, conn, data).1 is Ok,
        window_request(s, conn, data).0 == s.replying(
            conn,
            attributes_reply(conn, s.window(window)->0),
        ),
{
    reveal(window_request);
}

/// GetWindowAttributes replies with the window's attributes, each in its place.
pub proof fn law_attributes_are_replied(
    s: ServerModel,
    id: u32,
    data: Seq<u8>,
    window: u32,
    after: ServerModel,
    r: Option<Pending>,
)
    requires
        s.connections.dom().contains(id),
        data.len() >= 8,
        data[0] == 3,
        u32_at(s.connections[id].byte_order, data, 4) == window,
        window > 1,
        s.window(window) is Some,
        processing_may_lead_to(s, id, data, after, r),
    ensures
        exists|e: Seq<u8>| #[trigger]
            answered(s, after, s.connections[id].id, e) && reads_attributes(
                s.connections[id].byte_order,
                e,
                s.window(window)->0,
            ),
{
    let begun = counted(s, id);
    let conn = counting(s.connections[id]);
    let w = s.window(window)->0;
    lemma_get_attributes(begun, conn, data, window);
    lemma_window_processed(s, id, data, after, r);
    lemma_attributes_reply(conn, w);
    assert(answered(s, after, s.connections[id].id, attributes_reply(conn, w)));
}

proof fn lemma_list_properties(s: ServerModel, conn: ClientConnection, data: Seq<u8>, window: u32) -> (e: Seq<
    u8,
>)
    requires
        data.len() >= 8,
        data[0] == 21,
        u32_at(conn.byte_order, data, 4) == window,
        s.window(window) is Some,
        s.window(window)->0.properties.len() < 0x10000,
    ensures
        property_request(s, conn, data).1 is Ok,
        property_request(s, conn, data).0 == s.replying(conn, e),
        lists_properties(conn.byte_order, e, s.window(window)->0.properties),
{
    reveal(property_request);
    let o = conn.byte_order;
    let props = s.window(window)->0.properties;
    let names = property_names(props);
    let n = names.len();
    let head = reply_head(conn, 0, n as u32) + bytes16(o, n as u16) + zeros(22);
    let e = head + id_list(o, names);
    lemma_listed(o, head, names, seq![]);
    assert(e =~= head + id_list(o, names) + seq![]);
    lemma_two_bytes(o, e, 8, n as u16);
    assert forall|i: int| #![trigger props[i]] 0 <= i < props.len() implies u32_at(o, e, 32 + 4 * i)
        == props[i].name by {
        assert(names[i] == props[i].name);
    }
    e
}

/// The answer to ListProperties as a client reads it.
pub open spec fn lists_properties(o: ByteOrder, e: Seq<u8>, props: Seq<PropertyModel>) -> bool {
    &&& e.len() == 32 + 4 * props.len()
    &&& e[0] == 1
    &&& u16_at(o, e, 8) == props.len()
    &&& forall|i: int| #![trigger props[i]]
        0 <= i < props.len() ==> u32_at(o, e, 32 + 4 * i) == props[i].name
}

/// ListProperties replies with the names of the window's properties.
pub proof fn law_property_names_are_replied(
    s: ServerModel,
    id: u32,
    data: Seq<u8>,
    window: u32,
    after: ServerModel,
    r: Option<Pending>,
)
    requires
        s.connections.dom().contains(id),
        data.len() >= 8,
        data[0] == 21,
        u32_at(s.connections[id].byte_order, data, 4) == window,
        s.window(window) is Some,
        s.window(window)->0.properties.len() < 0x10000,
        processing_may_lead_to(s, id, data, after, r),
    ensures
        exists|e: Seq<u8>| #[trigger]
            answered(s, after, s.connections[id].id, e) && lists_properties(
                s.connections[id].byte_order,
                e,
                s.window(window)->0.properties,
            ),
{
    let begun = counted(s, id);
    let conn = counting(s.connections[id]);
    let e = lemma_list_properties(begun, conn, data, window);
    lemma_property_processed(s, id, data, after, r);
    assert(answered(s, after, s.connections[id].id, e));
}

/// An icon property that holds one image is shown as that image: its width, its
/// height and its pixels.
pub proof fn law_icons_are_shown(ws: Seq<u32>, width: u32, height: u32)
    requires
        0 < width < 0x8000,
        0 < height < 0x8000,
        ws.len() == 2 + width * height,
        ws[0] == width,
        ws[1] == height,
        ws.len() < usize::MAX,
    ensures
        super::properties::icon_of(ws) == Some((width, height, ws.skip(2))),
{
    assert(width * height >= 1) by (nonlinear_arith)
        requires
            width >= 1,
            height >= 1,
    ;
    let image = super::properties::IconImage { width, height, at: 2 };
    let next = 2 + width * height;
    assert(super::properties::images_from(ws, next) =~= Seq::empty());
    assert(super::properties::images_from(ws, 0) =~= seq![image]);
    let images = seq![image];
    reveal_with_fuel(super::properties::nearest, 3);
    assert(images.drop_last() =~= Seq::empty());
    assert(images.last() == image);
    assert(ws.subrange(2, 2 + width * height) =~= ws.skip(2));
}

} // verus!
