//! Rootless window management: each top-level X11 window is a native window of
//! its own, fully under the control of the native window manager.

use std::collections::HashMap;

use vstd::prelude::*;

use crate::display::Xid;

verus! {

/// The mapping between X11 windows and native windows.
pub struct RootlessManager {
    pub windows: HashMap<Xid, RootlessWindow>,
}

/// A native window behind an X11 window.
#[derive(Debug, Clone, Copy)]
pub struct RootlessWindow {
    pub x11_id: Xid,
    pub native_id: u64,
    pub visible: bool,
    /// The kind the window announced.
    pub window_type: WindowType,
}

/// The kinds of window a client may announce.
#[derive(Debug, Clone, Copy, PartialEq, Eq, Structural)]
pub enum WindowType {
    Normal,
    Dialog,
    Menu,
    Toolbar,
    Utility,
    Splash,
    Dock,
    Tooltip,
    DropdownMenu,
    PopupMenu,
    Notification,
}

impl Default for WindowType {
    fn default() -> (r: WindowType)
        ensures
            r == WindowType::Normal,
    {
        WindowType::Normal
    }
}

/// A window as it is right after registration.
pub open spec fn fresh_entry(x11_id: Xid, native_id: u64) -> RootlessWindow {
    RootlessWindow { x11_id, native_id, visible: false, window_type: WindowType::Normal }
}

impl View for RootlessManager {
    type V = Map<Xid, RootlessWindow>;

    open spec fn view(&self) -> Map<Xid, RootlessWindow> {
        self.windows@
    }
}

impl RootlessManager {
    /// A manager without windows.
    pub fn new() -> (r: RootlessManager)
        ensures
            r@ == Map::<Xid, RootlessWindow>::empty(),
    {
        RootlessManager { windows: HashMap::new() }
    }

    /// Registers a window; it replaces one registered before.
    pub fn register_window(&mut self, x11_id: Xid, native_id: u64)
        ensures
            final(self)@ == old(self)@.insert(x11_id, fresh_entry(x11_id, native_id)),
    {
        broadcast use vstd::std_specs::hash::group_hash_axioms;

        self.windows.insert(
            x11_id,
            RootlessWindow { x11_id, native_id, visible: false, window_type: WindowType::Normal },
        );
    }

    /// Forgets a window.
    pub fn unregister_window(&mut self, x11_id: Xid)
        ensures
            final(self)@ == old(self)@.remove(x11_id),
    {
        broadcast use vstd::std_specs::hash::group_hash_axioms;

        self.windows.remove(&x11_id);
    }

    /// Sets the kind of a registered window; others are left alone.
    pub fn set_window_type(&mut self, x11_id: Xid, wtype: WindowType)
        ensures
            final(self)@ == (if old(self)@.dom().contains(x11_id) {
                old(self)@.insert(
                    x11_id,
                    RootlessWindow { window_type: wtype, ..old(self)@[x11_id] },
                )
            } else {
                old(self)@
            }),
    {
        broadcast use vstd::std_specs::hash::group_hash_axioms;

        let found: Option<RootlessWindow> = match self.windows.get(&x11_id) {
            Some(w) => Some(*w),
            None => None,
        };
        if let Some(w) = found {
            self.windows.insert(x11_id, RootlessWindow { window_type: wtype, ..w });
        }
    }

    /// The native window of a registered window.
    pub fn get_native_id(&self, x11_id: Xid) -> (r: Option<u64>)
        ensures
            r == (if self@.dom().contains(x11_id) {
                Some(self@[x11_id].native_id)
            } else {
                None
            }),
    {
        broadcast use vstd::std_specs::hash::group_hash_axioms;

        match self.windows.get(&x11_id) {
            Some(w) => Some(w.native_id),
            None => None,
        }
    }
}

/// A registered window is found under its identifier until it is forgotten;
/// every other window is left alone.
pub proof fn law_register_then_find(
    m: Map<Xid, RootlessWindow>,
    x11_id: Xid,
    native_id: u64,
    other: Xid,
)
    ensures
        m.insert(x11_id, fresh_entry(x11_id, native_id))[x11_id].native_id == native_id,
        !m.insert(x11_id, fresh_entry(x11_id, native_id)).remove(x11_id).dom().contains(x11_id),
        other != x11_id && m.dom().contains(other) ==> m.insert(
            x11_id,
            fresh_entry(x11_id, native_id),
        )[other] == m[other],
{
}

} // verus!
