//! The X Input Method protocol, carried in client messages: inline preedit for
//! clients that do not read raw key events.

use vstd::prelude::*;

use super::atoms::{AtomModel, AtomTable};
use super::tables;
use super::wire::ByteOrder;
use crate::display::Xid;

verus! {

/// Atoms of the input method transport.
#[derive(Debug, Clone, Copy)]
pub struct XimAtoms {
    pub xim_servers: u32,
    pub xim_xconnect: u32,
    pub xim_protocol: u32,
    pub xim_moredata: u32,
    pub server_atom: u32,
    pub locales: u32,
    pub transport: u32,
}

/// An input context of a client.
#[derive(Debug, Clone, Copy)]
pub struct XimInputContext {
    pub ic_id: u16,
    pub im_id: u16,
    pub client_window: Xid,
    pub focus_window: Xid,
    pub input_style: u32,
}

/// A client's input method connection.
pub struct XimConnection {
    pub im_id: u16,
    pub client_comm_window: Xid,
    /// The server connection it came in on.
    pub conn_id: u32,
    pub byte_order: ByteOrder,
    pub contexts: dashmap::DashMap<u16, XimInputContext>,
}

/// What an input method connection holds.
pub struct XimConnectionModel {
    pub im_id: u16,
    pub client_comm_window: Xid,
    pub conn_id: u32,
    pub byte_order: ByteOrder,
    pub contexts: Map<u16, XimInputContext>,
}

impl View for XimConnection {
    type V = XimConnectionModel;

    open spec fn view(&self) -> XimConnectionModel {
        XimConnectionModel {
            im_id: self.im_id,
            client_comm_window: self.client_comm_window,
            conn_id: self.conn_id,
            byte_order: self.byte_order,
            contexts: tables::contexts_in(self.contexts),
        }
    }
}

impl Clone for XimConnection {
    fn clone(&self) -> (r: XimConnection)
        ensures
            r@ == self@,
    {
        let mut contexts = tables::new_contexts();
        let ids = tables::context_ids(&self.contexts);
        let ghost m = tables::contexts_in(self.contexts);
        for i in 0..ids.len()
            invariant
                m == tables::contexts_in(self.contexts),
                forall|id: u16| m.dom().contains(id) <==> ids@.contains(id),
                forall|id: u16| #[trigger]
                    tables::contexts_in(contexts).dom().contains(id) <==> ids@.take(
                        i as int,
                    ).contains(id),
                forall|id: u16| #[trigger]
                    tables::contexts_in(contexts).dom().contains(id) ==> m.dom().contains(id)
                        && tables::contexts_in(contexts)[id] == m[id],
        {
            let ghost before = ids@.take(i as int);
            let ghost id = ids@[i as int];
            assert(ids@.contains(id));
            assert(m.dom().contains(id));
            assert(ids@.take(i + 1) =~= before.push(id));
            assert forall|k: u16| before.push(id).contains(k) <==> before.contains(k) || k == id by {
                if before.contains(k) {
                    let j = choose|j: int| 0 <= j < before.len() && before[j] == k;
                    assert(before.push(id)[j] == k);
                }
                if k == id {
                    assert(before.push(id)[before.len() as int] == k);
                }
            }
            if let Some(c) = tables::get_context(&self.contexts, ids[i]) {
                tables::put_context(&mut contexts, ids[i], c);
            }
            assert forall|k: u16| #[trigger]
                tables::contexts_in(contexts).dom().contains(k) <==> ids@.take(i + 1).contains(
                    k,
                ) by {
                assert(before.push(id).contains(k) <==> before.contains(k) || k == id);
            }
        }
        assert(ids@.take(ids@.len() as int) =~= ids@);
        assert(tables::contexts_in(contexts) =~= m);
        XimConnection {
            im_id: self.im_id,
            client_comm_window: self.client_comm_window,
            conn_id: self.conn_id,
            byte_order: self.byte_order,
            contexts,
        }
    }
}

/// The input method server.
pub struct XimServer {
    pub atoms: XimAtoms,
    pub connections: dashmap::DashMap<u16, XimConnection>,
    /// From a client's communication window to its input method.
    pub comm_to_im: dashmap::DashMap<u32, u16>,
    pub server_comm_window: Xid,
    pub next_im_id: u16,
    pub next_ic_id: u16,
}

/// What the input method server holds.
pub struct XimModel {
    pub atoms: XimAtoms,
    pub connections: Map<u16, XimConnectionModel>,
    pub comm_to_im: Map<u32, u16>,
    pub server_comm_window: Xid,
    pub next_im_id: u16,
    pub next_ic_id: u16,
}

impl View for XimServer {
    type V = XimModel;

    open spec fn view(&self) -> XimModel {
        XimModel {
            atoms: self.atoms,
            connections: tables::xim_connections_in(self.connections),
            comm_to_im: tables::methods_in(self.comm_to_im),
            server_comm_window: self.server_comm_window,
            next_im_id: self.next_im_id,
            next_ic_id: self.next_ic_id,
        }
    }
}

/// The atom table after the transport's atoms were interned.
pub open spec fn with_xim_atoms(m: AtomModel) -> AtomModel {
    m.with("XIM_SERVERS"@).with("_XIM_XCONNECT"@).with("_XIM_PROTOCOL"@).with("_XIM_MOREDATA"@).with(
        "@server=pslx"@,
    ).with("LOCALES"@).with("TRANSPORT"@)
}

/// The numbers that the transport's atoms get.
pub open spec fn xim_atoms_of(m: AtomModel) -> XimAtoms {
    let m1 = m.with("XIM_SERVERS"@);
    let m2 = m1.with("_XIM_XCONNECT"@);
    let m3 = m2.with("_XIM_PROTOCOL"@);
    let m4 = m3.with("_XIM_MOREDATA"@);
    let m5 = m4.with("@server=pslx"@);
    let m6 = m5.with("LOCALES"@);
    XimAtoms {
        xim_servers: m.interned("XIM_SERVERS"@),
        xim_xconnect: m1.interned("_XIM_XCONNECT"@),
        xim_protocol: m2.interned("_XIM_PROTOCOL"@),
        xim_moredata: m3.interned("_XIM_MOREDATA"@),
        server_atom: m4.interned("@server=pslx"@),
        locales: m5.interned("LOCALES"@),
        transport: m6.interned("TRANSPORT"@),
    }
}

impl XimServer {
    /// A server without clients; the transport's atoms are interned.
    pub fn new(atoms: &mut AtomTable, root_window: Xid) -> (r: XimServer)
        ensures
            final(atoms)@ == with_xim_atoms(old(atoms)@),
            r@ == (XimModel {
                atoms: xim_atoms_of(old(atoms)@),
                connections: Map::empty(),
                comm_to_im: Map::empty(),
                server_comm_window: root_window,
                next_im_id: 1,
                next_ic_id: 1,
            }),
    {
        let xim_servers: u32 = atoms.intern_or_create("XIM_SERVERS");
        let xim_xconnect: u32 = atoms.intern_or_create("_XIM_XCONNECT");
        let xim_protocol: u32 = atoms.intern_or_create("_XIM_PROTOCOL");
        let xim_moredata: u32 = atoms.intern_or_create("_XIM_MOREDATA");
        let server_atom: u32 = atoms.intern_or_create("@server=pslx");
        let locales: u32 = atoms.intern_or_create("LOCALES");
        let transport: u32 = atoms.intern_or_create("TRANSPORT");
        XimServer {
            atoms: XimAtoms {
                xim_servers,
                xim_xconnect,
                xim_protocol,
                xim_moredata,
                server_atom,
                locales,
                transport,
            },
            connections: tables::new_xim_connections(),
            comm_to_im: tables::new_methods(),
            server_comm_window: root_window,
            next_im_id: 1,
            next_ic_id: 1,
        }
    }
}

} // verus!
