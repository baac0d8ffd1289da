//! Selections, and events that clients send to each other.

use vstd::prelude::*;

use super::connection::{
    read_u32, reply_head, start_reply, write_u32_at, write_u32_to, ClientConnection, EventData,
};
use super::dispatch::{build_selection_request, same_block, selection_request};
use super::events::{set32, set8};
use super::protocol::event_type;
use super::resources::ResourceModel;
use super::tables;
use super::wire::{bytes32, copy_range, put_zeros, u32_at, zeros};
use super::xim::XimServer;
use super::xim_protocol::{transport_opened, xim_handled, xim_selection_answered};
use super::{done, refused, window_in, Outcome, ServerError, ServerModel, XServer};
use crate::display::Xid;

verus! {

/// SetSelectionOwner. A time of zero stands for the server's start.
pub open spec fn set_selection_owner(s: ServerModel, conn: ClientConnection, data: Seq<u8>) -> Outcome {
    let o = conn.byte_order;
    if data.len() < 16 {
        refused(s, ServerError::Protocol)
    } else {
        let owner = u32_at(o, data, 4);
        let selection = u32_at(o, data, 8);
        let time = u32_at(o, data, 12);
        if owner == 0 {
            done(ServerModel { selections: s.selections.remove(selection), ..s })
        } else {
            let since = if time == 0 {
                s.startup_time
            } else {
                time
            };
            done(ServerModel { selections: s.selections.insert(selection, (owner, since)), ..s })
        }
    }
}

pub fn handle_set_selection_owner(server: &mut XServer, conn: &ClientConnection, data: &[u8]) -> (r:
    Result<(), ServerError>)
    ensures
        (final(server)@, r) == set_selection_owner(old(server)@, *conn, data@),
{
    if data.len() < 16 {
        return Err(ServerError::Protocol);
    }
    let owner: u32 = read_u32(conn, data, 4);
    let selection: u32 = read_u32(conn, data, 8);
    let time: u32 = read_u32(conn, data, 12);
    let since: u32 = if time == 0 {
        server.startup_time
    } else {
        time
    };
    if owner == 0 {
        tables::drop_pair(&mut server.selections, selection);
    } else {
        tables::put_pair(&mut server.selections, selection, (owner, since));
    }
    Ok(())
}

/// The owner of a selection; zero where it has none.
pub open spec fn selection_owner(s: ServerModel, selection: u32) -> u32 {
    if s.selections.dom().contains(selection) {
        s.selections[selection].0
    } else {
        0
    }
}

/// GetSelectionOwner.
pub open spec fn get_selection_owner(s: ServerModel, conn: ClientConnection, data: Seq<u8>) -> Outcome {
    let o = conn.byte_order;
    let selection = if data.len() >= 8 {
        u32_at(o, data, 4)
    } else {
        0
    };
    done(
        s.replying(
            conn,
            reply_head(conn, 0, 0) + bytes32(o, selection_owner(s, selection)) + zeros(20),
        ),
    )
}

pub fn handle_get_selection_owner(server: &mut XServer, conn: &ClientConnection, data: &[u8]) -> (r:
    Result<(), ServerError>)
    ensures
        (final(server)@, r) == get_selection_owner(old(server)@, *conn, data@),
{
    let selection: u32 = if data.len() >= 8 {
        read_u32(conn, data, 4)
    } else {
        0
    };
    let owner: u32 = match tables::get_pair(&server.selections, selection) {
        Some((owner, _)) => owner,
        None => 0,
    };
    let mut reply = start_reply(conn, 0, 0);
    write_u32_to(conn, &mut reply, owner);
    put_zeros(&mut reply, 20);
    server.reply(conn, reply);
    Ok(())
}

/// Whoever set itself as owner is the owner.
pub proof fn law_selection_owner_is_set(s: ServerModel, conn: ClientConnection, data: Seq<u8>)
    requires
        data.len() >= 16,
    ensures
        selection_owner(
            set_selection_owner(s, conn, data).0,
            u32_at(conn.byte_order, data, 8),
        ) == u32_at(conn.byte_order, data, 4),
{
}

/// Whether a choice of client is right for a window: one whose block the window
/// lies in, or none where there is no such client.
pub open spec fn block_found(conns: Map<u32, ClientConnection>, window: u32, id: Option<u32>) -> bool {
    match id {
        Some(id) => conns.dom().contains(id) && same_block(conns[id], window),
        None => forall|id: u32| #[trigger]
            conns.dom().contains(id) ==> !same_block(conns[id], window),
    }
}

fn find_block(server: &XServer, window: Xid) -> (r: Option<u32>)
    ensures
        block_found(server@.connections, window, r),
{
    let ids = tables::connection_ids(&server.connections);
    let ghost conns = server@.connections;
    for i in 0..ids.len()
        invariant
            conns == server@.connections,
            forall|id: u32| conns.dom().contains(id) <==> ids@.contains(id),
            forall|j: int| 0 <= j < i ==> !same_block(conns[#[trigger] ids@[j]], window),
    {
        assert(ids@.contains(ids@[i as int]));
        if let Some(c) = server.connection(ids[i]) {
            if window & !c.resource_id_mask == c.resource_id_base & !c.resource_id_mask {
                return Some(ids[i]);
            }
        }
    }
    assert forall|id: u32| #[trigger] conns.dom().contains(id) implies !same_block(
        conns[id],
        window,
    ) by {
        assert(ids@.contains(id));
        let j = choose|j: int| 0 <= j < ids@.len() && ids@[j] == id;
        assert(ids@[j] == id);
    }
    None
}

/// The notification that a selection was not converted. It carries no sequence
/// number.
pub open spec fn refusal(c: ClientConnection, time: u32, requestor: u32, selection: u32, target: u32) -> Seq<u8> {
    let o = c.byte_order;
    let e = set8(zeros(32), 0, event_type::SELECTION_NOTIFY);
    let e = set32(o, e, 4, time);
    let e = set32(o, e, 8, requestor);
    let e = set32(o, e, 12, selection);
    let e = set32(o, e, 16, target);
    set32(o, e, 20, 0)
}

/// The state after the client of a requestor, if there is one, was told that a
/// selection was not converted.
pub open spec fn refused_to(
    s: ServerModel,
    id: Option<u32>,
    time: u32,
    requestor: u32,
    selection: u32,
    target: u32,
) -> ServerModel {
    match id {
        Some(id) => s.sending(id, refusal(s.connections[id], time, requestor, selection, target)),
        None => s,
    }
}

/// Tells a requestor that a selection was not converted.
pub fn send_selection_notify(
    server: &mut XServer,
    requestor: Xid,
    selection: u32,
    target: u32,
    time: u32,
)
    ensures
        exists|id: Option<u32>| #[trigger]
            block_found(old(server)@.connections, requestor, id) && final(server)@ == refused_to(
                old(server)@,
                id,
                time,
                requestor,
                selection,
                target,
            ),
{
    let found = find_block(server, requestor);
    assert(block_found(server@.connections, requestor, found));
    if let Some(id) = found {
        if let Some(c) = server.connection(id) {
            let mut e: [u8; 32] = [0u8; 32];
            assert(e@ =~= zeros(32));
            e[0] = event_type::SELECTION_NOTIFY;
            write_u32_at(&c, &mut e, 4, time);
            write_u32_at(&c, &mut e, 8, requestor);
            write_u32_at(&c, &mut e, 12, selection);
            write_u32_at(&c, &mut e, 16, target);
            write_u32_at(&c, &mut e, 20, 0);
            server.send(id, EventData::Fixed(e));
        }
    }
}

/// Whether a state follows when a client asks for a selection: its owner is
/// asked for it, in the byte order of the client that asks; where it has no
/// owner, or the owner has no client, the client is told so.
pub open spec fn convert_may_lead_to(s: ServerModel, conn: ClientConnection, data: Seq<u8>, after: ServerModel) -> bool {
    let o = conn.byte_order;
    let requestor = u32_at(o, data, 4);
    let selection = u32_at(o, data, 8);
    let target = u32_at(o, data, 12);
    let property = u32_at(o, data, 16);
    let time = u32_at(o, data, 20);
    let owner = selection_owner(s, selection);
    let owned = s.selections.dom().contains(selection);
    if owned && selection == s.xim.atoms.server_atom {
        after == xim_selection_answered(s, requestor, selection, target, property, conn)
    } else {
        ||| owned && exists|id: u32| #[trigger]
            block_found(s.connections, owner, Some(id)) && after == s.sending(
                id,
                selection_request(conn, time, owner, requestor, selection, target, property),
            )
        ||| (!owned || block_found(s.connections, owner, None)) && exists|id: Option<u32>| #[trigger]
            block_found(s.connections, requestor, id) && after == refused_to(
                s,
                id,
                time,
                requestor,
                selection,
                target,
            )
    }
}

/// ConvertSelection.
pub fn handle_convert_selection(server: &mut XServer, conn: &ClientConnection, data: &[u8]) -> (r:
    Result<(), ServerError>)
    ensures
        data@.len() < 24 ==> (final(server)@, r) == refused(old(server)@, ServerError::Protocol),
        data@.len() >= 24 ==> r == Ok::<(), ServerError>(()) && convert_may_lead_to(
            old(server)@,
            *conn,
            data@,
            final(server)@,
        ),
{
    if data.len() < 24 {
        return Err(ServerError::Protocol);
    }
    let requestor: u32 = read_u32(conn, data, 4);
    let selection: u32 = read_u32(conn, data, 8);
    let target: u32 = read_u32(conn, data, 12);
    let property: u32 = read_u32(conn, data, 16);
    let time: u32 = read_u32(conn, data, 20);
    if let Some((owner, _)) = tables::get_pair(&server.selections, selection) {
        if XimServer::handle_selection_request(
            server,
            requestor,
            selection,
            target,
            property,
            conn,
        ) {
            return Ok(());
        }
        let found = find_block(server, owner);
        if let Some(id) = found {
            assert(block_found(server@.connections, owner, Some(id)));
            let e = build_selection_request(
                conn,
                time,
                owner,
                requestor,
                selection,
                target,
                property,
            );
            server.send(id, EventData::Fixed(e));
            return Ok(());
        }
    }
    send_selection_notify(server, requestor, selection, target, time);
    Ok(())
}

/// Whether a window's identifier lies in the block that a client was given.
pub open spec fn in_block(c: ClientConnection, window: u32) -> bool {
    c.resource_id_base <= window && window < c.resource_id_base.wrapping_add(0x00200000)
}

/// Whether a choice of client is right for a window by its block.
pub open spec fn recipient_found(conns: Map<u32, ClientConnection>, window: u32, id: Option<u32>) -> bool {
    match id {
        Some(id) => conns.dom().contains(id) && in_block(conns[id], window),
        None => forall|id: u32| #[trigger]
            conns.dom().contains(id) ==> !in_block(conns[id], window),
    }
}

fn find_recipient(server: &XServer, window: Xid) -> (r: Option<u32>)
    ensures
        recipient_found(server@.connections, window, r),
{
    let ids = tables::connection_ids(&server.connections);
    let ghost conns = server@.connections;
    for i in 0..ids.len()
        invariant
            conns == server@.connections,
            forall|id: u32| conns.dom().contains(id) <==> ids@.contains(id),
            forall|j: int| 0 <= j < i ==> !in_block(conns[#[trigger] ids@[j]], window),
    {
        assert(ids@.contains(ids@[i as int]));
        if let Some(c) = server.connection(ids[i]) {
            if c.resource_id_base <= window && window < c.resource_id_base.wrapping_add(0x00200000) {
                return Some(ids[i]);
            }
        }
    }
    assert forall|id: u32| #[trigger] conns.dom().contains(id) implies !in_block(
        conns[id],
        window,
    ) by {
        assert(ids@.contains(id));
        let j = choose|j: int| 0 <= j < ids@.len() && ids@[j] == id;
        assert(ids@[j] == id);
    }
    None
}

/// Whether a window is one an event sent to a destination may be for. The
/// pointer's window and the focus are not looked up: any window stands for them,
/// or the first identifier where there is none.
pub open spec fn target_found(m: Map<u32, ResourceModel>, destination: u32, target: u32) -> bool {
    if destination > 1 {
        target == destination
    } else {
        ||| window_in(m, target) is Some
        ||| target == 1 && forall|id: u32| #[trigger] m.dom().contains(id) ==> window_in(m, id) is None
    }
}

fn find_target(server: &XServer, destination: Xid) -> (r: Xid)
    ensures
        target_found(server@.resources, destination, r),
{
    if destination > 1 {
        return destination;
    }
    let ids = tables::resource_ids(&server.resources);
    let ghost m = server@.resources;
    for i in 0..ids.len()
        invariant
            destination <= 1,
            m == server@.resources,
            forall|id: u32| m.dom().contains(id) <==> ids@.contains(id),
            forall|j: int| 0 <= j < i ==> window_in(m, #[trigger] ids@[j]) is None,
    {
        if server.window(ids[i]).is_some() {
            return ids[i];
        }
    }
    assert forall|id: u32| #[trigger] m.dom().contains(id) implies window_in(m, id) is None by {
        assert(ids@.contains(id));
        let j = choose|j: int| 0 <= j < ids@.len() && ids@[j] == id;
        assert(ids@[j] == id);
    }
    1
}

/// An event marked as sent by a client.
pub open spec fn synthetic(event: Seq<u8>) -> Seq<u8> {
    event.update(0, event[0] | 0x80)
}

/// Whether a state follows when a client sends an event. Messages for the input
/// method server are kept; other events go to the client of their target.
pub open spec fn send_may_lead_to(s: ServerModel, conn: ClientConnection, data: Seq<u8>, after: ServerModel) -> bool {
    let o = conn.byte_order;
    let message = data[12] & 0x7F == event_type::CLIENT_MESSAGE;
    let window = u32_at(o, data, 16);
    let kind = u32_at(o, data, 20);
    if message && kind == s.xim.atoms.xim_xconnect {
        after == transport_opened(
            s,
            if data[13] == 32 {
                u32_at(o, data, 24)
            } else {
                window
            },
            conn,
        )
    } else if message && (kind == s.xim.atoms.xim_protocol || kind == s.xim.atoms.xim_moredata) {
        after == if s.xim.comm_to_im.dom().contains(window) {
            xim_handled(s, conn.id, s.xim.comm_to_im[window], data.subrange(24, 44))
        } else {
            s
        }
    } else {
        exists|target: u32, id: Option<u32>| #[trigger]
            target_found(s.resources, u32_at(o, data, 4), target) && #[trigger]
            recipient_found(s.connections, target, id) && after == match id {
                Some(id) => s.sending(id, synthetic(data.subrange(12, 44))),
                None => s,
            }
    }
}

/// SendEvent.
pub fn handle_send_event(server: &mut XServer, conn: &ClientConnection, data: &[u8]) -> (r: Result<
    (),
    ServerError,
>)
    ensures
        data@.len() < 44 ==> (final(server)@, r) == refused(old(server)@, ServerError::Protocol),
        data@.len() >= 44 ==> r == Ok::<(), ServerError>(()) && send_may_lead_to(
            old(server)@,
            *conn,
            data@,
            final(server)@,
        ),
{
    if data.len() < 44 {
        return Err(ServerError::Protocol);
    }
    let destination: u32 = read_u32(conn, data, 4);
    if data[12] & 0x7F == event_type::CLIENT_MESSAGE {
        let window: u32 = read_u32(conn, data, 16);
        let kind: u32 = read_u32(conn, data, 20);
        if kind == server.xim.atoms.xim_xconnect {
            let comm: u32 = if data[13] == 32 {
                read_u32(conn, data, 24)
            } else {
                window
            };
            XimServer::handle_xconnect(server, comm, conn);
            return Ok(());
        }
        if kind == server.xim.atoms.xim_protocol || kind == server.xim.atoms.xim_moredata {
            let message = copy_range(data, 24, 44);
            XimServer::handle_protocol_message(server, window, message.as_slice(), conn);
            return Ok(());
        }
    }
    let target: Xid = find_target(server, destination);
    let mut e: [u8; 32] = [0u8; 32];
    for i in 0..32usize
        invariant
            data@.len() >= 44,
            forall|j: int| 0 <= j < i ==> e@[j] == data@[12 + j],
    {
        e[i] = data[12 + i];
    }
    e[0] = e[0] | 0x80;
    assert(e@ =~= synthetic(data@.subrange(12, 44)));
    let found = find_recipient(server, target);
    assert(target_found(server@.resources, destination, target));
    assert(recipient_found(server@.connections, target, found));
    if let Some(id) = found {
        server.send(id, EventData::Fixed(e));
    }
    Ok(())
}

} // verus!
