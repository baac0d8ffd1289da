//! The server's tables.
//!
//! Each table is a `dashmap::DashMap`. Its contents are named by a map, and the
//! functions here say what each `DashMap` method does to that map. A table is
//! only ever changed through an exclusive reference, so nothing happens to it
//! between a lookup and the update that follows.

use vstd::prelude::*;

use super::connection::ClientConnection;
use super::resources::{Resource, ResourceModel};
use super::xim::{XimConnection, XimConnectionModel, XimInputContext};

verus! {

/// `dashmap::DashMap`, a concurrent hash map; nothing inside it is visible.
#[verifier::external_type_specification]
#[verifier::external_body]
#[verifier::reject_recursive_types(K)]
#[verifier::reject_recursive_types(V)]
#[verifier::reject_recursive_types(S)]
pub struct ExDashMap<K, V, S>(dashmap::DashMap<K, V, S>);

/// What the resource table holds.
pub uninterp spec fn resources_in(t: dashmap::DashMap<u32, Resource>) -> Map<u32, ResourceModel>;

/// `DashMap::new`: a table without entries.
#[verifier::external_body]
pub(crate) fn new_resources() -> (r: dashmap::DashMap<u32, Resource>)
    ensures
        (resources_in(r) == Map::<u32, ResourceModel>::empty()),
{
    dashmap::DashMap::new()
}

/// `DashMap::get`: a copy of the entry under a key, if there is one.
#[verifier::external_body]
pub(crate) fn get_resource(t: &dashmap::DashMap<u32, Resource>, id: u32) -> (r: Option<Resource>)
    ensures
        match r {
            Some(v) => resources_in(*t).dom().contains(id) && v@ == resources_in(*t)[id],
            None => !resources_in(*t).dom().contains(id),
        },
{
    t.get(&id).map(|e| e.value().clone())
}

/// `DashMap::insert`: the entry under the key becomes the given one.
#[verifier::external_body]
pub(crate) fn put_resource(t: &mut dashmap::DashMap<u32, Resource>, id: u32, v: Resource)
    ensures
        resources_in(*final(t)) == resources_in(*old(t)).insert(id, v@),
{
    t.insert(id, v);
}

/// `DashMap::remove`: the entry under the key is gone.
#[verifier::external_body]
pub(crate) fn drop_resource(t: &mut dashmap::DashMap<u32, Resource>, id: u32)
    ensures
        resources_in(*final(t)) == resources_in(*old(t)).remove(id),
{
    t.remove(&id);
}

/// `DashMap::iter`: every key once, in an order the table chooses.
#[verifier::external_body]
pub(crate) fn resource_ids(t: &dashmap::DashMap<u32, Resource>) -> (r: Vec<u32>)
    ensures
        r@.no_duplicates(),
        forall|id: u32| resources_in(*t).dom().contains(id) <==> r@.contains(id),
{
    t.iter().map(|e| *e.key()).collect()
}

/// What the connection table holds.
pub uninterp spec fn connections_in(t: dashmap::DashMap<u32, ClientConnection>) -> Map<
    u32,
    ClientConnection,
>;

/// `DashMap::new`: a table without entries.
#[verifier::external_body]
pub(crate) fn new_connections() -> (r: dashmap::DashMap<u32, ClientConnection>)
    ensures
        (connections_in(r) == Map::<u32, ClientConnection>::empty()),
{
    dashmap::DashMap::new()
}

/// `DashMap::get`: a copy of the entry under a key, if there is one.
#[verifier::external_body]
pub(crate) fn get_connection(t: &dashmap::DashMap<u32, ClientConnection>, id: u32) -> (r: Option<
    ClientConnection,
>)
    ensures
        r == (if connections_in(*t).dom().contains(id) {
            Some(connections_in(*t)[id])
        } else {
            None
        }),
{
    t.get(&id).map(|e| *e.value())
}

/// `DashMap::insert`: the entry under the key becomes the given one.
#[verifier::external_body]
pub(crate) fn put_connection(
    t: &mut dashmap::DashMap<u32, ClientConnection>,
    id: u32,
    v: ClientConnection,
)
    ensures
        connections_in(*final(t)) == connections_in(*old(t)).insert(id, v),
{
    t.insert(id, v);
}

/// `DashMap::remove`: the entry under the key is gone.
#[verifier::external_body]
pub(crate) fn drop_connection(t: &mut dashmap::DashMap<u32, ClientConnection>, id: u32)
    ensures
        connections_in(*final(t)) == connections_in(*old(t)).remove(id),
{
    t.remove(&id);
}

/// `DashMap::iter`: every key once, in an order the table chooses.
#[verifier::external_body]
pub(crate) fn connection_ids(t: &dashmap::DashMap<u32, ClientConnection>) -> (r: Vec<u32>)
    ensures
        r@.no_duplicates(),
        forall|id: u32| connections_in(*t).dom().contains(id) <==> r@.contains(id),
{
    t.iter().map(|e| *e.key()).collect()
}

/// What a table of pairs holds: selections with their owner and time, pictures
/// with their drawable and format.
pub uninterp spec fn pairs_in(t: dashmap::DashMap<u32, (u32, u32)>) -> Map<u32, (u32, u32)>;

/// `DashMap::new`: a table without entries.
#[verifier::external_body]
pub(crate) fn new_pairs() -> (r: dashmap::DashMap<u32, (u32, u32)>)
    ensures
        (pairs_in(r) == Map::<u32, (u32, u32)>::empty()),
{
    dashmap::DashMap::new()
}

/// `DashMap::get`: a copy of the entry under a key, if there is one.
#[verifier::external_body]
pub(crate) fn get_pair(t: &dashmap::DashMap<u32, (u32, u32)>, id: u32) -> (r: Option<(u32, u32)>)
    ensures
        r == (if pairs_in(*t).dom().contains(id) {
            Some(pairs_in(*t)[id])
        } else {
            None
        }),
{
    t.get(&id).map(|e| *e.value())
}

/// `DashMap::insert`: the entry under the key becomes the given one.
#[verifier::external_body]
pub(crate) fn put_pair(t: &mut dashmap::DashMap<u32, (u32, u32)>, id: u32, v: (u32, u32))
    ensures
        pairs_in(*final(t)) == pairs_in(*old(t)).insert(id, v),
{
    t.insert(id, v);
}

/// `DashMap::remove`: the entry under the key is gone.
#[verifier::external_body]
pub(crate) fn drop_pair(t: &mut dashmap::DashMap<u32, (u32, u32)>, id: u32)
    ensures
        pairs_in(*final(t)) == pairs_in(*old(t)).remove(id),
{
    t.remove(&id);
}

/// `DashMap::iter`: every key once, in an order the table chooses.
#[verifier::external_body]
pub(crate) fn pair_ids(t: &dashmap::DashMap<u32, (u32, u32)>) -> (r: Vec<u32>)
    ensures
        r@.no_duplicates(),
        forall|id: u32| pairs_in(*t).dom().contains(id) <==> r@.contains(id),
{
    t.iter().map(|e| *e.key()).collect()
}

/// What the table of pointer positions holds.
pub uninterp spec fn positions_in(t: dashmap::DashMap<u32, (i16, i16)>) -> Map<u32, (i16, i16)>;

/// `DashMap::new`: a table without entries.
#[verifier::external_body]
pub(crate) fn new_positions() -> (r: dashmap::DashMap<u32, (i16, i16)>)
    ensures
        (positions_in(r) == Map::<u32, (i16, i16)>::empty()),
{
    dashmap::DashMap::new()
}

/// `DashMap::get`: a copy of the entry under a key, if there is one.
#[verifier::external_body]
pub(crate) fn get_position(t: &dashmap::DashMap<u32, (i16, i16)>, id: u32) -> (r: Option<
    (i16, i16),
>)
    ensures
        r == (if positions_in(*t).dom().contains(id) {
            Some(positions_in(*t)[id])
        } else {
            None
        }),
{
    t.get(&id).map(|e| *e.value())
}

/// `DashMap::insert`: the entry under the key becomes the given one.
#[verifier::external_body]
pub(crate) fn put_position(t: &mut dashmap::DashMap<u32, (i16, i16)>, id: u32, v: (i16, i16))
    ensures
        positions_in(*final(t)) == positions_in(*old(t)).insert(id, v),
{
    t.insert(id, v);
}

/// What the table of atoms by name holds.
pub uninterp spec fn ids_in(t: dashmap::DashMap<String, u32>) -> Map<Seq<char>, u32>;

/// `DashMap::new`: a table without entries.
#[verifier::external_body]
pub(crate) fn new_ids() -> (r: dashmap::DashMap<String, u32>)
    ensures
        (ids_in(r) == Map::<Seq<char>, u32>::empty()),
{
    dashmap::DashMap::new()
}

/// `DashMap::get`: the atom of a name, if there is one.
#[verifier::external_body]
pub(crate) fn get_id(t: &dashmap::DashMap<String, u32>, name: &str) -> (r: Option<u32>)
    ensures
        r == (if ids_in(*t).dom().contains(name@) {
            Some(ids_in(*t)[name@])
        } else {
            None
        }),
{
    t.get(name).map(|e| *e.value())
}

/// `DashMap::insert`: the name stands for the given atom.
#[verifier::external_body]
pub(crate) fn put_id(t: &mut dashmap::DashMap<String, u32>, name: String, id: u32)
    ensures
        ids_in(*final(t)) == ids_in(*old(t)).insert(name@, id),
{
    t.insert(name, id);
}

/// What the table of names by atom holds.
pub uninterp spec fn names_in(t: dashmap::DashMap<u32, String>) -> Map<u32, Seq<char>>;

/// `DashMap::new`: a table without entries.
#[verifier::external_body]
pub(crate) fn new_names() -> (r: dashmap::DashMap<u32, String>)
    ensures
        (names_in(r) == Map::<u32, Seq<char>>::empty()),
{
    dashmap::DashMap::new()
}

/// `DashMap::get`: a copy of the name of an atom, if it has one.
#[verifier::external_body]
pub(crate) fn get_name(t: &dashmap::DashMap<u32, String>, id: u32) -> (r: Option<String>)
    ensures
        match r {
            Some(s) => names_in(*t).dom().contains(id) && s@ == names_in(*t)[id],
            None => !names_in(*t).dom().contains(id),
        },
{
    t.get(&id).map(|e| e.value().clone())
}

/// `DashMap::insert`: the atom has the given name.
#[verifier::external_body]
pub(crate) fn put_name(t: &mut dashmap::DashMap<u32, String>, id: u32, name: String)
    ensures
        names_in(*final(t)) == names_in(*old(t)).insert(id, name@),
{
    t.insert(id, name);
}

/// What the table of input contexts holds.
pub uninterp spec fn contexts_in(t: dashmap::DashMap<u16, XimInputContext>) -> Map<
    u16,
    XimInputContext,
>;

/// `DashMap::new`: a table without entries.
#[verifier::external_body]
pub(crate) fn new_contexts() -> (r: dashmap::DashMap<u16, XimInputContext>)
    ensures
        (contexts_in(r) == Map::<u16, XimInputContext>::empty()),
{
    dashmap::DashMap::new()
}

/// `DashMap::get`: a copy of the entry under a key, if there is one.
#[verifier::external_body]
pub(crate) fn get_context(t: &dashmap::DashMap<u16, XimInputContext>, id: u16) -> (r: Option<
    XimInputContext,
>)
    ensures
        r == (if contexts_in(*t).dom().contains(id) {
            Some(contexts_in(*t)[id])
        } else {
            None
        }),
{
    t.get(&id).map(|e| *e.value())
}

/// `DashMap::insert`: the entry under the key becomes the given one.
#[verifier::external_body]
pub(crate) fn put_context(
    t: &mut dashmap::DashMap<u16, XimInputContext>,
    id: u16,
    v: XimInputContext,
)
    ensures
        contexts_in(*final(t)) == contexts_in(*old(t)).insert(id, v),
{
    t.insert(id, v);
}

/// `DashMap::remove`: the entry under the key is gone.
#[verifier::external_body]
pub(crate) fn drop_context(t: &mut dashmap::DashMap<u16, XimInputContext>, id: u16)
    ensures
        contexts_in(*final(t)) == contexts_in(*old(t)).remove(id),
{
    t.remove(&id);
}

/// `DashMap::iter`: every key once, in an order the table chooses.
#[verifier::external_body]
pub(crate) fn context_ids(t: &dashmap::DashMap<u16, XimInputContext>) -> (r: Vec<u16>)
    ensures
        r@.no_duplicates(),
        forall|id: u16| contexts_in(*t).dom().contains(id) <==> r@.contains(id),
{
    t.iter().map(|e| *e.key()).collect()
}

/// What the table of input method connections holds.
pub uninterp spec fn xim_connections_in(t: dashmap::DashMap<u16, XimConnection>) -> Map<
    u16,
    XimConnectionModel,
>;

/// `DashMap::new`: a table without entries.
#[verifier::external_body]
pub(crate) fn new_xim_connections() -> (r: dashmap::DashMap<u16, XimConnection>)
    ensures
        (xim_connections_in(r) == Map::<u16, XimConnectionModel>::empty()),
{
    dashmap::DashMap::new()
}

/// `DashMap::get`: a copy of the entry under a key, if there is one.
#[verifier::external_body]
pub(crate) fn get_xim_connection(t: &dashmap::DashMap<u16, XimConnection>, id: u16) -> (r: Option<
    XimConnection,
>)
    ensures
        match r {
            Some(v) => xim_connections_in(*t).dom().contains(id) && v@ == xim_connections_in(*t)[id],
            None => !xim_connections_in(*t).dom().contains(id),
        },
{
    t.get(&id).map(|e| e.value().clone())
}

/// `DashMap::remove`: the entry under the key is gone.
#[verifier::external_body]
pub(crate) fn drop_xim_connection(t: &mut dashmap::DashMap<u16, XimConnection>, id: u16)
    ensures
        xim_connections_in(*final(t)) == xim_connections_in(*old(t)).remove(id),
{
    t.remove(&id);
}

/// `DashMap::insert`: the entry under the key becomes the given one.
#[verifier::external_body]
pub(crate) fn put_xim_connection(
    t: &mut dashmap::DashMap<u16, XimConnection>,
    id: u16,
    v: XimConnection,
)
    ensures
        xim_connections_in(*final(t)) == xim_connections_in(*old(t)).insert(id, v@),
{
    t.insert(id, v);
}

/// `DashMap::iter`: every key once, in an order the table chooses.
#[verifier::external_body]
pub(crate) fn xim_connection_ids(t: &dashmap::DashMap<u16, XimConnection>) -> (r: Vec<u16>)
    ensures
        r@.no_duplicates(),
        forall|id: u16| xim_connections_in(*t).dom().contains(id) <==> r@.contains(id),
{
    t.iter().map(|e| *e.key()).collect()
}

/// What the table from communication windows to input methods holds.
pub uninterp spec fn methods_in(t: dashmap::DashMap<u32, u16>) -> Map<u32, u16>;

/// `DashMap::new`: a table without entries.
#[verifier::external_body]
pub(crate) fn new_methods() -> (r: dashmap::DashMap<u32, u16>)
    ensures
        (methods_in(r) == Map::<u32, u16>::empty()),
{
    dashmap::DashMap::new()
}

/// `DashMap::get`: the entry under a key, if there is one.
#[verifier::external_body]
pub(crate) fn get_method(t: &dashmap::DashMap<u32, u16>, window: u32) -> (r: Option<u16>)
    ensures
        r == (if methods_in(*t).dom().contains(window) {
            Some(methods_in(*t)[window])
        } else {
            None
        }),
{
    t.get(&window).map(|e| *e.value())
}

/// `DashMap::insert`: the entry under the key becomes the given one.
#[verifier::external_body]
pub(crate) fn put_method(t: &mut dashmap::DashMap<u32, u16>, window: u32, im: u16)
    ensures
        methods_in(*final(t)) == methods_in(*old(t)).insert(window, im),
{
    t.insert(window, im);
}

/// `DashMap::remove`: the entry under the key is gone.
#[verifier::external_body]
pub(crate) fn drop_method(t: &mut dashmap::DashMap<u32, u16>, window: u32)
    ensures
        methods_in(*final(t)) == methods_in(*old(t)).remove(window),
{
    t.remove(&window);
}

} // verus!
