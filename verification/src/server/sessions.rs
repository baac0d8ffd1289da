//! How a client comes and goes: the handshake, the first reply, the events it
//! gets, and what is left of it when it is gone.

use vstd::prelude::*;

use super::connection::{
    set_event_sequence, write_u16_to, write_u32_to, ClientConnection, EventData,
};
use super::dispatch::same_block;
use super::events::stamped;
use super::pruning::{
    fewer_children, law_destroying_trims, law_trimming_adds_up, only_windows_changed, trimmed,
};
use super::resources::{Property, PropertyModel, ResourceModel, WindowModel};
use super::tables;
use super::windows::{destroy_window_recursive, destroyed};
use super::wire::{bytes16, bytes32, put_bytes, put_u32, put_zeros, u16_at, zeros, ByteOrder};
use super::{Screen, ServerError, ServerModel, XServer};
use crate::display::Xid;

verus! {

/// The bits of a resource identifier that a client chooses.
pub const RESOURCE_ID_MASK: u32 = 0x001FFFFF;

/// The byte order a client asks for in its first message.
pub open spec fn setup_order(setup: Seq<u8>) -> Result<ByteOrder, ServerError> {
    if setup.len() < 12 {
        Err(ServerError::Protocol)
    } else if setup[0] == 0x42 {
        Ok(ByteOrder::BigEndian)
    } else if setup[0] == 0x6C {
        Ok(ByteOrder::LittleEndian)
    } else {
        Err(ServerError::Protocol)
    }
}

/// A client's connection as it starts.
pub open spec fn new_connection(s: ServerModel, id: u32, order: ByteOrder) -> ClientConnection {
    ClientConnection {
        id,
        resource_id_base: s.next_resource_id_base,
        resource_id_mask: RESOURCE_ID_MASK,
        byte_order: order,
        sequence_number: 1,
        mapping_gen: 0,
    }
}

/// The part of the first reply that describes the screen.
#[verifier::opaque]
pub open spec fn screen_setup(o: ByteOrder, screen: Screen) -> Seq<u8> {
    let v = screen.root_visual;
    bytes32(o, screen.root_window) + bytes32(o, screen.default_colormap) + bytes32(
        o,
        screen.white_pixel,
    ) + bytes32(o, screen.black_pixel) + zeros(4) + bytes16(o, screen.width_in_pixels) + bytes16(
        o,
        screen.height_in_pixels,
    ) + bytes16(o, screen.width_in_mm) + bytes16(o, screen.height_in_mm) + bytes16(o, 1) + bytes16(
        o,
        1,
    ) + bytes32(o, v.id) + seq![0u8, 0u8, screen.root_depth, 1u8, 24u8, 0u8] + bytes16(o, 1)
        + zeros(4) + bytes32(o, v.id) + seq![v.class, v.bits_per_rgb] + bytes16(
        o,
        v.colormap_entries,
    ) + bytes32(o, v.red_mask) + bytes32(o, v.green_mask) + bytes32(o, v.blue_mask) + zeros(4)
}

/// The first reply: what the server is, the vendor "pslXserver", the formats of
/// pixmaps and the screen.
#[verifier::opaque]
pub open spec fn setup_reply(screen: Screen, conn: ClientConnection) -> Seq<u8> {
    let o = conn.byte_order;
    seq![1u8, 0u8] + bytes16(o, 11) + bytes16(o, 0) + bytes16(o, 33) + zeros(4) + bytes32(
        o,
        conn.resource_id_base,
    ) + bytes32(o, conn.resource_id_mask) + zeros(4) + bytes16(o, 10) + bytes16(o, 65535) + seq![
        1u8, 2u8, 0u8, 0u8, 8u8, 32u8, 8u8, 255u8,
    ] + zeros(4) + seq![
        0x70u8, 0x73u8, 0x6Cu8, 0x58u8, 0x73u8, 0x65u8, 0x72u8, 0x76u8, 0x65u8, 0x72u8, 0u8, 0u8,
    ] + seq![1u8, 1u8, 32u8, 0u8, 0u8, 0u8, 0u8, 0u8] + seq![
        24u8, 32u8, 32u8, 0u8, 0u8, 0u8, 0u8, 0u8,
    ] + screen_setup(o, screen)
}

/// The first reply is as long as it says.
pub proof fn law_setup_length(screen: Screen, conn: ClientConnection)
    ensures
        setup_reply(screen, conn).len() == 8 + 4 * u16_at(
            conn.byte_order,
            setup_reply(screen, conn),
            6,
        ),
{
    reveal(screen_setup);
    reveal(setup_reply);
    assert(screen_setup(conn.byte_order, screen).len() == 72);
}

fn write_screen_setup(conn: &ClientConnection, buf: &mut Vec<u8>, screen: &Screen)
    ensures
        final(buf)@ == old(buf)@ + screen_setup(conn.byte_order, *screen),
{
    reveal(screen_setup);
    let mut r: Vec<u8> = Vec::new();
    write_u32_to(conn, &mut r, screen.root_window);
    assert(r@ =~= bytes32(conn.byte_order, screen.root_window));
    write_u32_to(conn, &mut r, screen.default_colormap);
    write_u32_to(conn, &mut r, screen.white_pixel);
    write_u32_to(conn, &mut r, screen.black_pixel);
    put_zeros(&mut r, 4);
    write_u16_to(conn, &mut r, screen.width_in_pixels);
    write_u16_to(conn, &mut r, screen.height_in_pixels);
    write_u16_to(conn, &mut r, screen.width_in_mm);
    write_u16_to(conn, &mut r, screen.height_in_mm);
    write_u16_to(conn, &mut r, 1);
    write_u16_to(conn, &mut r, 1);
    write_u32_to(conn, &mut r, screen.root_visual.id);
    put_bytes(&mut r, &[0, 0, screen.root_depth, 1, 24, 0]);
    write_u16_to(conn, &mut r, 1);
    put_zeros(&mut r, 4);
    write_u32_to(conn, &mut r, screen.root_visual.id);
    put_bytes(&mut r, &[screen.root_visual.class, screen.root_visual.bits_per_rgb]);
    write_u16_to(conn, &mut r, screen.root_visual.colormap_entries);
    write_u32_to(conn, &mut r, screen.root_visual.red_mask);
    write_u32_to(conn, &mut r, screen.root_visual.green_mask);
    write_u32_to(conn, &mut r, screen.root_visual.blue_mask);
    put_zeros(&mut r, 4);
    buf.append(&mut r);
}

/// Builds the first reply.
fn build_setup_reply(server: &XServer, conn: &ClientConnection) -> (r: Vec<u8>)
    ensures
        r@ == setup_reply(server@.screen, *conn),
{
    reveal(setup_reply);
    let mut reply: Vec<u8> = Vec::new();
    put_bytes(&mut reply, &[1, 0]);
    assert(reply@ =~= seq![1u8, 0u8]);
    write_u16_to(conn, &mut reply, 11);
    write_u16_to(conn, &mut reply, 0);
    write_u16_to(conn, &mut reply, 33);
    put_zeros(&mut reply, 4);
    write_u32_to(conn, &mut reply, conn.resource_id_base);
    write_u32_to(conn, &mut reply, conn.resource_id_mask);
    put_zeros(&mut reply, 4);
    write_u16_to(conn, &mut reply, 10);
    write_u16_to(conn, &mut reply, 65535);
    put_bytes(&mut reply, &[1, 2, 0, 0, 8, 32, 8, 255]);
    put_zeros(&mut reply, 4);
    put_bytes(
        &mut reply,
        &[0x70, 0x73, 0x6C, 0x58, 0x73, 0x65, 0x72, 0x76, 0x65, 0x72, 0, 0],
    );
    put_bytes(&mut reply, &[1, 1, 32, 0, 0, 0, 0, 0]);
    put_bytes(&mut reply, &[24, 32, 32, 0, 0, 0, 0, 0]);
    write_screen_setup(conn, &mut reply, &server.screens[0]);
    reply
}

/// The state after a client connected.
pub open spec fn connected(s: ServerModel, id: u32, order: ByteOrder) -> ServerModel {
    let conn = new_connection(s, id, order);
    let entered = ServerModel {
        next_resource_id_base: s.next_resource_id_base.wrapping_add(0x00200000),
        connections: s.connections.insert(id, conn),
        ..s
    };
    entered.replying(conn, setup_reply(s.screen, conn))
}

/// Takes a client's first message and answers it. Every client is let in that
/// names a byte order.
pub fn accept_connection(server: &mut XServer, id: u32, setup: &[u8]) -> (r: Result<
    ClientConnection,
    ServerError,
>)
    ensures
        match setup_order(setup@) {
            Ok(order) => r == Ok::<ClientConnection, ServerError>(
                new_connection(old(server)@, id, order),
            ) && final(server)@ == connected(old(server)@, id, order),
            Err(e) => r == Err::<ClientConnection, ServerError>(e) && final(server)@ == old(
                server,
            )@,
        },
{
    if setup.len() < 12 {
        return Err(ServerError::Protocol);
    }
    let byte_order = match setup[0] {
        0x42 => ByteOrder::BigEndian,
        0x6C => ByteOrder::LittleEndian,
        _ => {
            return Err(ServerError::Protocol);
        },
    };
    let resource_id_base: u32 = server.alloc_resource_id_base();
    let conn = ClientConnection {
        id,
        resource_id_base,
        resource_id_mask: RESOURCE_ID_MASK,
        byte_order,
        sequence_number: 1,
        mapping_gen: 0,
    };
    tables::put_connection(&mut server.connections, id, conn);
    let reply = build_setup_reply(server, &conn);
    server.reply(&conn, reply);
    Ok(conn)
}

/// Stamps an event with the number of the request its client is at, which is
/// the last the server has handled.
pub fn stamp_event(conn: &ClientConnection, event: &mut EventData)
    requires
        old(event)@.len() >= 4,
    ensures
        final(event)@ == stamped(*conn, old(event)@, conn.request_sequence()),
        (*final(event)) is Fixed <==> (*old(event)) is Fixed,
{
    let seq: u16 = conn.current_request_sequence();
    set_event_sequence(conn, event.as_mut_slice(), seq);
}

/// The selections of other clients.
pub open spec fn others_selections(m: Map<u32, (u32, u32)>, conn: ClientConnection) -> Map<
    u32,
    (u32, u32),
> {
    Map::new(|k: u32| m.dom().contains(k) && !same_block(conn, m[k].0), |k: u32| m[k])
}

fn drop_selections(server: &mut XServer, conn: &ClientConnection)
    ensures
        final(server)@ == (ServerModel {
            selections: others_selections(old(server)@.selections, *conn),
            ..old(server)@
        }),
{
    let ids = tables::pair_ids(&server.selections);
    let ghost m = server@.selections;
    let ghost start = server@;
    assert forall|j: int| 0 <= j < ids@.len() implies m.dom().contains(#[trigger] ids@[j]) by {
        assert(ids@.contains(ids@[j]));
    }
    for i in 0..ids.len()
        invariant
            start == old(server)@,
            m == start.selections,
            server@ == (ServerModel { selections: server@.selections, ..start }),
            forall|k: u32| m.dom().contains(k) <==> ids@.contains(k),
            ids@.no_duplicates(),
            forall|k: u32| #[trigger]
                server@.selections.dom().contains(k) ==> m.dom().contains(k)
                    && server@.selections[k] == m[k],
            forall|j: int|
                0 <= j < ids@.len() ==> (server@.selections.dom().contains(#[trigger] ids@[j]) <==> (j
                    >= i || !same_block(*conn, m[ids@[j]].0))),
    {
        let id: u32 = ids[i];
        let ghost before = server@.selections;
        assert(ids@.contains(id));
        if let Some((owner, _)) = tables::get_pair(&server.selections, id) {
            if owner & !conn.resource_id_mask == conn.resource_id_base & !conn.resource_id_mask {
                tables::drop_pair(&mut server.selections, id);
            }
        }
        assert forall|j: int| 0 <= j < ids@.len() implies (server@.selections.dom().contains(
            #[trigger] ids@[j],
        ) <==> (j >= i + 1 || !same_block(*conn, m[ids@[j]].0))) by {
            if j != i {
                assert(ids@[j] != id);
            }
        }
    }
    assert forall|k: u32|
        server@.selections.dom().contains(k) <==> others_selections(m, *conn).dom().contains(
            k,
        ) by {
        if m.dom().contains(k) {
            let j = choose|j: int| 0 <= j < ids@.len() && ids@[j] == k;
            assert(ids@[j] == k);
        }
    }
    assert(server@.selections =~= others_selections(m, *conn));
}

/// Whether a resource is a client's window right below the root.
pub open spec fn owned_top_level(s: ServerModel, conn: ClientConnection, id: u32) -> bool {
    &&& s.resources.dom().contains(id)
    &&& same_block(conn, id)
    &&& match s.window(id) {
        Some(w) => w.parent == s.root(),
        None => false,
    }
}

/// Whether a list holds a client's windows right below the root, each once.
pub open spec fn lists_top_levels(s: ServerModel, conn: ClientConnection, ids: Seq<u32>) -> bool {
    &&& ids.no_duplicates()
    &&& forall|id: u32| #[trigger] ids.contains(id) <==> owned_top_level(s, conn, id)
}

fn owned_top_levels(server: &XServer, conn: &ClientConnection) -> (r: Vec<Xid>)
    ensures
        lists_top_levels(server@, *conn, r@),
{
    let ids = tables::resource_ids(&server.resources);
    let root: Xid = server.root();
    let mut r: Vec<Xid> = Vec::new();
    for i in 0..ids.len()
        invariant
            root == server@.root(),
            ids@.no_duplicates(),
            forall|id: u32| server@.resources.dom().contains(id) <==> ids@.contains(id),
            r@.no_duplicates(),
            forall|id: u32| #[trigger]
                r@.contains(id) <==> owned_top_level(server@, *conn, id) && ids@.take(
                    i as int,
                ).contains(id),
    {
        let id: Xid = ids[i];
        let ghost before = r@;
        assert(ids@.contains(id));
        let mut owned: bool = false;
        if id & !conn.resource_id_mask == conn.resource_id_base & !conn.resource_id_mask {
            if let Some(w) = server.window(id) {
                owned = w.parent == root;
            }
        }
        assert(owned == owned_top_level(server@, *conn, id));
        let ghost earlier = ids@.take(i as int);
        let ghost now = ids@.take(i + 1);
        assert(now =~= earlier.push(id));
        assert(!earlier.contains(id)) by {
            if earlier.contains(id) {
                let j = choose|j: int| 0 <= j < earlier.len() && earlier[j] == id;
                assert(ids@[j] == ids@[i as int]);
            }
        }
        assert forall|x: u32| now.contains(x) <==> earlier.contains(x) || x == id by {
            if earlier.contains(x) {
                let j = choose|j: int| 0 <= j < earlier.len() && earlier[j] == x;
                assert(now[j] == x);
            }
            assert(now[i as int] == id);
        }
        assert(!before.contains(id));
        if owned {
            r.push(id);
            assert forall|x: u32| #[trigger] r@.contains(x) <==> before.contains(x) || x == id by {
                if before.contains(x) {
                    let j = choose|j: int| 0 <= j < before.len() && before[j] == x;
                    assert(r@[j] == x);
                }
                assert(r@[before.len() as int] == id);
            }
        }
    }
    assert(ids@.take(ids@.len() as int) =~= ids@);
    r
}

/// The state after windows were destroyed, one after the other.
pub open spec fn closed_all(s: ServerModel, ids: Seq<u32>) -> ServerModel
    decreases ids.len(),
{
    if ids.len() == 0 {
        s
    } else {
        let before = closed_all(s, ids.drop_last());
        destroyed(before, ids.last(), before.resources.dom().len())
    }
}

/// The resources of other clients.
pub open spec fn others_resources(m: Map<u32, ResourceModel>, conn: ClientConnection) -> Map<
    u32,
    ResourceModel,
> {
    Map::new(|k: u32| m.dom().contains(k) && !same_block(conn, k), |k: u32| m[k])
}

fn drop_resources(server: &mut XServer, conn: &ClientConnection)
    ensures
        final(server)@ == (ServerModel {
            resources: others_resources(old(server)@.resources, *conn),
            ..old(server)@
        }),
{
    let ids = tables::resource_ids(&server.resources);
    let ghost m = server@.resources;
    let ghost start = server@;
    assert forall|j: int| 0 <= j < ids@.len() implies m.dom().contains(#[trigger] ids@[j]) by {
        assert(ids@.contains(ids@[j]));
    }
    for i in 0..ids.len()
        invariant
            start == old(server)@,
            m == start.resources,
            server@ == (ServerModel { resources: server@.resources, ..start }),
            forall|k: u32| m.dom().contains(k) <==> ids@.contains(k),
            ids@.no_duplicates(),
            forall|k: u32| #[trigger]
                server@.resources.dom().contains(k) ==> m.dom().contains(k)
                    && server@.resources[k] == m[k],
            forall|j: int|
                0 <= j < ids@.len() ==> (server@.resources.dom().contains(#[trigger] ids@[j]) <==> (j
                    >= i || !same_block(*conn, ids@[j]))),
    {
        let id: u32 = ids[i];
        assert(ids@.contains(id));
        if id & !conn.resource_id_mask == conn.resource_id_base & !conn.resource_id_mask {
            tables::drop_resource(&mut server.resources, id);
        }
        assert forall|j: int| 0 <= j < ids@.len() implies (server@.resources.dom().contains(
            #[trigger] ids@[j],
        ) <==> (j >= i + 1 || !same_block(*conn, ids@[j]))) by {
            if j != i {
                assert(ids@[j] != id);
            }
        }
    }
    assert forall|k: u32|
        server@.resources.dom().contains(k) <==> others_resources(m, *conn).dom().contains(k) by {
        if m.dom().contains(k) {
            let j = choose|j: int| 0 <= j < ids@.len() && ids@[j] == k;
            assert(ids@[j] == k);
        }
    }
    assert(server@.resources =~= others_resources(m, *conn));
}

/// The state after a client is gone: its selections, its windows with all that
/// lies below them, its other resources and its connection. Its windows below
/// the root are destroyed in the order of the list.
pub open spec fn left_behind(s: ServerModel, conn: ClientConnection, ids: Seq<u32>) -> ServerModel {
    let s1 = ServerModel { selections: others_selections(s.selections, conn), ..s };
    let s2 = closed_all(s1, ids);
    let s3 = ServerModel { resources: others_resources(s2.resources, conn), ..s2 };
    ServerModel { connections: s3.connections.remove(conn.id), ..s3 }
}

/// Whether a state follows when a client is gone. The table of resources decides
/// in which order its windows are destroyed.
pub open spec fn leaving_may_lead_to(s: ServerModel, conn: ClientConnection, after: ServerModel) -> bool {
    exists|ids: Seq<u32>| #[trigger]
        lists_top_levels(s, conn, ids) && after == left_behind(s, conn, ids)
}

/// Removes what is left of a client.
pub fn disconnect(server: &mut XServer, conn: &ClientConnection)
    ensures
        leaving_may_lead_to(old(server)@, *conn, final(server)@),
{
    drop_selections(server, conn);
    let ghost start = server@;
    let ids = owned_top_levels(server, conn);
    for i in 0..ids.len()
        invariant
            server@ == closed_all(start, ids@.take(i as int)),
    {
        assert(ids@.take(i + 1).drop_last() =~= ids@.take(i as int));
        destroy_window_recursive(server, ids[i]);
    }
    assert(ids@.take(ids@.len() as int) =~= ids@);
    drop_resources(server, conn);
    tables::drop_connection(&mut server.connections, conn.id);
    assert forall|id: u32| #[trigger]
        ids@.contains(id) <==> owned_top_level(old(server)@, *conn, id) by {
        assert(owned_top_level(start, *conn, id) == owned_top_level(old(server)@, *conn, id));
    }
    assert(lists_top_levels(old(server)@, *conn, ids@));
    assert(server@ == left_behind(old(server)@, *conn, ids@));
}

proof fn lemma_closing_trims(s: ServerModel, ids: Seq<u32>)
    ensures
        trimmed(s.resources, closed_all(s, ids).resources),
        only_windows_changed(s, closed_all(s, ids)),
    decreases ids.len(),
{
    if ids.len() > 0 {
        let before = closed_all(s, ids.drop_last());
        lemma_closing_trims(s, ids.drop_last());
        law_destroying_trims(before, ids.last(), before.resources.dom().len());
        law_trimming_adds_up(s.resources, before.resources, closed_all(s, ids).resources);
    }
}

/// Nothing is left of a client that is gone: no resource, no selection and no
/// connection. Other clients keep their connections and their selections, and
/// all their resources that are not windows.
pub proof fn law_nothing_left_of_a_client(s: ServerModel, conn: ClientConnection, after: ServerModel)
    requires
        leaving_may_lead_to(s, conn, after),
    ensures
        forall|id: u32| #[trigger] after.resources.dom().contains(id) ==> !same_block(conn, id),
        after.selections == others_selections(s.selections, conn),
        after.connections == s.connections.remove(conn.id),
        forall|id: u32| #[trigger]
            s.resources.dom().contains(id) && !same_block(conn, id) && !(s.resources[id] is Window)
                ==> after.resources.dom().contains(id) && after.resources[id] == s.resources[id],
        forall|id: u32| #[trigger]
            after.resources.dom().contains(id) && s.resources[id] is Window
                ==> after.resources[id] is Window && fewer_children(
                s.resources[id]->Window_0,
                after.resources[id]->Window_0,
            ),
        after == (ServerModel {
            resources: after.resources,
            outbox: after.outbox,
            selections: after.selections,
            connections: after.connections,
            ..s
        }),
{
    let ids = choose|ids: Seq<u32>| #[trigger]
        lists_top_levels(s, conn, ids) && after == left_behind(s, conn, ids);
    let s1 = ServerModel { selections: others_selections(s.selections, conn), ..s };
    lemma_closing_trims(s1, ids);
    let s2 = closed_all(s1, ids);
    assert forall|id: u32| #[trigger]
        s.resources.dom().contains(id) && !same_block(conn, id) && !(s.resources[id] is Window)
            implies after.resources.dom().contains(id) && after.resources[id]
        == s.resources[id] by {
        assert(s1.resources.dom().contains(id));
        assert(s2.resources.dom().contains(id));
    }
    assert forall|id: u32| #[trigger]
        after.resources.dom().contains(id) && s.resources[id] is Window
            implies after.resources[id] is Window && fewer_children(
        s.resources[id]->Window_0,
        after.resources[id]->Window_0,
    ) by {
        assert(s2.resources.dom().contains(id));
    }
}

/// The state after the input method was announced: a property of the root window
/// names it, and the root owns its selection.
pub open spec fn announced_xim(s: ServerModel) -> ServerModel {
    let server_atom = s.xim.atoms.server_atom;
    let named = match s.window(s.root()) {
        Some(w) => s.with_window(
            s.root(),
            WindowModel {
                properties: w.properties.push(
                    PropertyModel {
                        name: s.xim.atoms.xim_servers,
                        type_atom: 4,
                        format: 32,
                        data: bytes32(ByteOrder::LittleEndian, server_atom),
                    },
                ),
                ..w
            },
        ),
        None => s,
    };
    ServerModel {
        selections: named.selections.insert(server_atom, (s.root(), s.startup_time)),
        ..named
    }
}

/// Announces the input method to clients that look for one.
pub fn announce_xim(server: &mut XServer)
    ensures
        final(server)@ == announced_xim(old(server)@),
{
    let root: Xid = server.root();
    let server_atom: u32 = server.xim.atoms.server_atom;
    let name: u32 = server.xim.atoms.xim_servers;
    if let Some(mut w) = server.window(root) {
        let ghost before = w@;
        let mut data: Vec<u8> = Vec::new();
        put_u32(ByteOrder::LittleEndian, &mut data, server_atom);
        assert(data@ =~= bytes32(ByteOrder::LittleEndian, server_atom));
        let p = Property { name, type_atom: 4, format: 32, data };
        let ghost m = p@;
        w.properties.push(p);
        assert(w@.properties =~= before.properties.push(m));
        server.set_window(root, w);
    }
    tables::put_pair(&mut server.selections, server_atom, (root, server.startup_time));
}

} // verus!
