//! How clients hand selections and events to each other.

use vstd::prelude::*;

use super::connection::{reply_head, ClientConnection};
use super::dispatch::{same_block, selection_request};
use super::layout::{lemma_four_bytes, lemma_words_request, request, words};
use super::readings::{
    law_refusal_is_read, law_selection_request_is_read, reads_selection_notify,
    reads_selection_request,
};
use super::requests::{
    counted, counting, kind_of, processing_may_lead_to, property_fits, property_request, Kind,
    Pending,
};
use super::selections::{block_found, convert_may_lead_to, in_block, send_may_lead_to, synthetic};
use super::wire::{bytes32, u32_at, zeros, ByteOrder};
use super::{ActionModel, ServerModel};

verus! {

/// ConvertSelection as a client writes it.
pub open spec fn convert_request(
    o: ByteOrder,
    requestor: u32,
    selection: u32,
    target: u32,
    property: u32,
    time: u32,
) -> Seq<u8> {
    request(o, 24, 0, words(o, seq![requestor, selection, target, property, time]))
}

proof fn lemma_convert_request(
    o: ByteOrder,
    requestor: u32,
    selection: u32,
    target: u32,
    property: u32,
    time: u32,
)
    ensures
        ({
            let data = convert_request(o, requestor, selection, target, property, time);
            &&& data.len() == 24
            &&& data[0] == 24
            &&& u32_at(o, data, 4) == requestor
            &&& u32_at(o, data, 8) == selection
            &&& u32_at(o, data, 12) == target
            &&& u32_at(o, data, 16) == property
            &&& u32_at(o, data, 20) == time
        }),
{
    let ws = seq![requestor, selection, target, property, time];
    lemma_words_request(o, 24, 0, ws);
    assert(ws[0] == requestor && ws[1] == selection && ws[2] == target && ws[3] == property && ws[4]
        == time);
}

proof fn lemma_convert_processed(
    s: ServerModel,
    id: u32,
    data: Seq<u8>,
    after: ServerModel,
    r: Option<Pending>,
)
    requires
        s.connections.dom().contains(id),
        data.len() >= 24,
        data[0] == 24,
        processing_may_lead_to(s, id, data, after, r),
    ensures
        convert_may_lead_to(counted(s, id), counting(s.connections[id]), data, after),
{
}

/// Whether a window is one of a client's.
pub open spec fn has_client(s: ServerModel, window: u32, who: u32) -> bool {
    s.connections.dom().contains(who) && same_block(s.connections[who], window)
}

/// Whether an event for a client, and nothing else, was queued.
pub open spec fn queued(s: ServerModel, after: ServerModel, who: u32, e: Seq<u8>) -> bool {
    after.outbox == s.outbox.push(ActionModel::Event { conn: who, data: e })
}

/// Where a selection has an owner with a client, other than the input method,
/// ConvertSelection has that client asked for it, with every field as it was
/// sent.
pub proof fn law_owner_is_asked(
    s: ServerModel,
    id: u32,
    requestor: u32,
    selection: u32,
    target: u32,
    property: u32,
    time: u32,
    someone: u32,
    after: ServerModel,
    r: Option<Pending>,
)
    requires
        s.connections.dom().contains(id),
        s.selections.dom().contains(selection),
        selection != s.xim.atoms.server_atom,
        has_client(s, s.selections[selection].0, someone),
        processing_may_lead_to(
            s,
            id,
            convert_request(
                s.connections[id].byte_order,
                requestor,
                selection,
                target,
                property,
                time,
            ),
            after,
            r,
        ),
    ensures
        exists|who: u32, e: Seq<u8>| #[trigger]
            queued(s, after, who, e) && has_client(s, s.selections[selection].0, who)
                && reads_selection_request(
                s.connections[id].byte_order,
                e,
                time,
                s.selections[selection].0,
                requestor,
                selection,
                target,
                property,
            ),
{
    let o = s.connections[id].byte_order;
    let data = convert_request(o, requestor, selection, target, property, time);
    let conn = counting(s.connections[id]);
    let begun = counted(s, id);
    let owner = s.selections[selection].0;
    lemma_convert_request(o, requestor, selection, target, property, time);
    lemma_convert_processed(s, id, data, after, r);
    assert(begun.connections.dom().contains(someone));
    assert(same_block(begun.connections[someone], owner));
    let who = choose|who: u32| #[trigger]
        block_found(begun.connections, owner, Some(who)) && after == begun.sending(
            who,
            selection_request(conn, time, owner, requestor, selection, target, property),
        );
    let e = selection_request(conn, time, owner, requestor, selection, target, property);
    law_selection_request_is_read(conn, time, owner, requestor, selection, target, property);
    assert(block_found(begun.connections, owner, Some(who)));
    assert(has_client(s, owner, who));
    assert(queued(s, after, who, e));
}

/// Where a selection has no owner, the client that asked for it is told that
/// nothing came.
pub proof fn law_asking_for_nothing_is_refused(
    s: ServerModel,
    id: u32,
    requestor: u32,
    selection: u32,
    target: u32,
    property: u32,
    time: u32,
    someone: u32,
    after: ServerModel,
    r: Option<Pending>,
)
    requires
        s.connections.dom().contains(id),
        !s.selections.dom().contains(selection),
        has_client(s, requestor, someone),
        processing_may_lead_to(
            s,
            id,
            convert_request(
                s.connections[id].byte_order,
                requestor,
                selection,
                target,
                property,
                time,
            ),
            after,
            r,
        ),
    ensures
        exists|who: u32, e: Seq<u8>| #[trigger]
            queued(s, after, who, e) && has_client(s, requestor, who) && reads_selection_notify(
                s.connections[who].byte_order,
                e,
                time,
                requestor,
                selection,
                target,
                0,
            ),
{
    let o = s.connections[id].byte_order;
    let data = convert_request(o, requestor, selection, target, property, time);
    let begun = counted(s, id);
    lemma_convert_request(o, requestor, selection, target, property, time);
    lemma_convert_processed(s, id, data, after, r);
    assert(begun.connections.dom().contains(someone));
    assert(same_block(begun.connections[someone], requestor));
    let found = choose|found: Option<u32>| #[trigger]
        block_found(begun.connections, requestor, found) && after
            == super::selections::refused_to(begun, found, time, requestor, selection, target);
    let who = found->0;
    let e = super::selections::refusal(begun.connections[who], time, requestor, selection, target);
    law_refusal_is_read(begun.connections[who], time, requestor, selection, target);
    assert(block_found(begun.connections, requestor, found));
    assert(has_client(s, requestor, who));
    assert(queued(s, after, who, e));
}

/// A request about atoms, properties or owners of selections, once it was
/// processed.
pub proof fn lemma_property_processed(
    s: ServerModel,
    id: u32,
    data: Seq<u8>,
    after: ServerModel,
    r: Option<Pending>,
)
    requires
        s.connections.dom().contains(id),
        data.len() >= 4,
        kind_of(data[0]) == Kind::Property,
        property_fits(counted(s, id), counting(s.connections[id]), data),
        processing_may_lead_to(s, id, data, after, r),
    ensures
        property_request(counted(s, id), counting(s.connections[id]), data).1 is Ok ==> after
            == property_request(counted(s, id), counting(s.connections[id]), data).0,
{
}

/// Whether a reply to a client, and nothing else, was queued.
pub open spec fn answered(s: ServerModel, after: ServerModel, who: u32, e: Seq<u8>) -> bool {
    after.outbox == s.outbox.push(ActionModel::Reply { conn: who, data: e })
}

proof fn lemma_is_set_owner(
    s: ServerModel,
    conn: ClientConnection,
    owner: u32,
    selection: u32,
    time: u32,
)
    ensures
        ({
            let o = conn.byte_order;
            let data = request(o, 22, 0, words(o, seq![owner, selection, time]));
            &&& data.len() == 16
            &&& data[0] == 22
            &&& property_fits(s, conn, data)
            &&& property_request(s, conn, data).1 is Ok
            &&& property_request(s, conn, data).0 == ServerModel {
                selections: if owner == 0 {
                    s.selections.remove(selection)
                } else {
                    s.selections.insert(
                        selection,
                        (
                            owner,
                            if time == 0 {
                                s.startup_time
                            } else {
                                time
                            },
                        ),
                    )
                },
                ..s
            }
        }),
{
    let o = conn.byte_order;
    let ws = seq![owner, selection, time];
    lemma_words_request(o, 22, 0, ws);
    assert(ws[0] == owner && ws[1] == selection && ws[2] == time);
    reveal(property_request);
}

/// SetSelectionOwner gives a selection that owner, or none, and leaves the other
/// selections with theirs.
pub proof fn law_owner_is_set(
    s: ServerModel,
    id: u32,
    owner: u32,
    selection: u32,
    time: u32,
    after: ServerModel,
    r: Option<Pending>,
)
    requires
        s.connections.dom().contains(id),
        processing_may_lead_to(
            s,
            id,
            request(
                s.connections[id].byte_order,
                22,
                0,
                words(s.connections[id].byte_order, seq![owner, selection, time]),
            ),
            after,
            r,
        ),
    ensures
        owner == 0 ==> !after.selections.dom().contains(selection),
        owner != 0 ==> after.selections.dom().contains(selection) && after.selections[selection].0
            == owner,
        owner != 0 && time != 0 ==> after.selections[selection].1 == time,
        after.selections.remove(selection) == s.selections.remove(selection),
        after.outbox == s.outbox,
        after.resources == s.resources,
{
    let data = request(
        s.connections[id].byte_order,
        22,
        0,
        words(s.connections[id].byte_order, seq![owner, selection, time]),
    );
    lemma_is_set_owner(counted(s, id), counting(s.connections[id]), owner, selection, time);
    lemma_property_processed(s, id, data, after, r);
    assert(after.selections.remove(selection) =~= s.selections.remove(selection));
}

proof fn lemma_is_get_owner(s: ServerModel, conn: ClientConnection, selection: u32) -> (e: Seq<u8>)
    ensures
        ({
            let o = conn.byte_order;
            let data = request(o, 23, 0, words(o, seq![selection]));
            &&& data.len() == 8
            &&& data[0] == 23
            &&& property_fits(s, conn, data)
            &&& property_request(s, conn, data).1 is Ok
            &&& property_request(s, conn, data).0 == s.replying(conn, e)
            &&& e.len() == 32
            &&& e[0] == 1
            &&& u32_at(o, e, 8) == if s.selections.dom().contains(selection) {
                s.selections[selection].0
            } else {
                0
            }
        }),
{
    let o = conn.byte_order;
    let ws = seq![selection];
    lemma_words_request(o, 23, 0, ws);
    assert(ws[0] == selection);
    reveal(property_request);
    let owner = super::selections::selection_owner(s, selection);
    let e = reply_head(conn, 0, 0) + bytes32(o, owner) + zeros(20);
    lemma_four_bytes(o, e, 8, owner);
    e
}

/// GetSelectionOwner replies with the selection's owner, or with zero where it has
/// none.
pub proof fn law_owner_is_replied(
    s: ServerModel,
    id: u32,
    selection: u32,
    after: ServerModel,
    r: Option<Pending>,
)
    requires
        s.connections.dom().contains(id),
        processing_may_lead_to(
            s,
            id,
            request(
                s.connections[id].byte_order,
                23,
                0,
                words(s.connections[id].byte_order, seq![selection]),
            ),
            after,
            r,
        ),
    ensures
        exists|e: Seq<u8>| #[trigger]
            answered(s, after, s.connections[id].id, e) && e.len() == 32 && e[0] == 1 && u32_at(
                s.connections[id].byte_order,
                e,
                8,
            ) == if s.selections.dom().contains(selection) {
                s.selections[selection].0
            } else {
                0
            },
{
    let data = request(
        s.connections[id].byte_order,
        23,
        0,
        words(s.connections[id].byte_order, seq![selection]),
    );
    let e = lemma_is_get_owner(counted(s, id), counting(s.connections[id]), selection);
    lemma_property_processed(s, id, data, after, r);
    assert(answered(s, after, s.connections[id].id, e));
}

proof fn lemma_send_processed(
    s: ServerModel,
    id: u32,
    data: Seq<u8>,
    after: ServerModel,
    r: Option<Pending>,
)
    requires
        s.connections.dom().contains(id),
        data.len() >= 44,
        data[0] == 25,
        processing_may_lead_to(s, id, data, after, r),
    ensures
        send_may_lead_to(counted(s, id), counting(s.connections[id]), data, after),
{
}

/// SendEvent hands the event to the client whose window it is for: its kind is
/// marked as sent, and nothing else of it changes. It is not one for the input
/// method.
pub proof fn law_events_are_passed_on(
    s: ServerModel,
    id: u32,
    data: Seq<u8>,
    destination: u32,
    someone: u32,
    after: ServerModel,
    r: Option<Pending>,
)
    requires
        s.connections.dom().contains(id),
        data.len() >= 44,
        data[0] == 25,
        u32_at(s.connections[id].byte_order, data, 4) == destination,
        destination > 1,
        data[12] & 0x7F != 33,
        s.connections.dom().contains(someone),
        in_block(s.connections[someone], destination),
        processing_may_lead_to(s, id, data, after, r),
    ensures
        exists|who: u32, e: Seq<u8>| #[trigger]
            queued(s, after, who, e) && s.connections.dom().contains(who) && in_block(
                s.connections[who],
                destination,
            ) && e.len() == 32 && e[0] == data[12] | 0x80 && forall|i: int|
                1 <= i < 32 ==> #[trigger] e[i] == data[12 + i],
{
    let begun = counted(s, id);
    lemma_send_processed(s, id, data, after, r);
    assert(begun.connections.dom().contains(someone));
    assert(in_block(begun.connections[someone], destination));
    let (target, found) = choose|target: u32, found: Option<u32>| #[trigger]
        super::selections::target_found(begun.resources, destination, target) && #[trigger]
        super::selections::recipient_found(begun.connections, target, found) && after == match found {
            Some(who) => begun.sending(who, synthetic(data.subrange(12, 44))),
            None => begun,
        };
    assert(target == destination);
    let who = found->0;
    let e = synthetic(data.subrange(12, 44));
    assert(queued(s, after, who, e));
}

} // verus!
