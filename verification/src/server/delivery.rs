//! Delivery of pointer and key events.
//!
//! An event goes to the window it happened in or, where no client selected it
//! there, to the nearest ancestor on which one did.

use vstd::prelude::*;

use super::connection::{ClientConnection, EventData};
use super::events::{build_key_event, key_event};
use super::protocol::{event_mask, event_type};
use super::resources::ResourceModel;
use super::search::{deepest_child, find_deepest_child, MAX_ASCENT, MAX_DESCENT};
use super::tables;
use super::{window_in, ServerModel, XServer};
use crate::display::Xid;

verus! {

/// What a selection has to cover for an event to be delivered.
#[derive(Debug, Clone, Copy)]
pub enum Wanted {
    /// One of these events.
    Mask(u32),
    /// Pointer motion with these buttons and modifiers down.
    Motion(u16),
}

/// Whether a selection covers pointer motion while some buttons are down.
pub open spec fn motion_covered(selected: u32, state: u16) -> bool {
    ||| selected & event_mask::POINTER_MOTION != 0
    ||| (selected & event_mask::BUTTON_MOTION != 0 && state & 0x1f00 != 0)
    ||| (selected & event_mask::BUTTON1_MOTION != 0 && state & 0x100 != 0)
    ||| (selected & event_mask::BUTTON2_MOTION != 0 && state & 0x200 != 0)
    ||| (selected & event_mask::BUTTON3_MOTION != 0 && state & 0x400 != 0)
    ||| (selected & event_mask::BUTTON4_MOTION != 0 && state & 0x800 != 0)
    ||| (selected & event_mask::BUTTON5_MOTION != 0 && state & 0x1000 != 0)
}

/// Whether a selection covers what is wanted.
pub open spec fn covers(selected: u32, wanted: Wanted) -> bool {
    match wanted {
        Wanted::Mask(mask) => selected & mask != 0,
        Wanted::Motion(state) => motion_covered(selected, state),
    }
}

fn selection_covers(selected: u32, wanted: Wanted) -> (r: bool)
    ensures
        r == covers(selected, wanted),
{
    match wanted {
        Wanted::Mask(mask) => selected & mask != 0,
        Wanted::Motion(state) => selected & event_mask::POINTER_MOTION != 0 || (selected
            & event_mask::BUTTON_MOTION != 0 && state & 0x1f00 != 0) || (selected
            & event_mask::BUTTON1_MOTION != 0 && state & 0x100 != 0) || (selected
            & event_mask::BUTTON2_MOTION != 0 && state & 0x200 != 0) || (selected
            & event_mask::BUTTON3_MOTION != 0 && state & 0x400 != 0) || (selected
            & event_mask::BUTTON4_MOTION != 0 && state & 0x800 != 0) || (selected
            & event_mask::BUTTON5_MOTION != 0 && state & 0x1000 != 0),
    }
}

/// The client of the first selection that covers what is wanted.
pub open spec fn first_selecting(sels: Seq<(u32, u32)>, wanted: Wanted) -> Option<u32>
    decreases sels.len(),
{
    if sels.len() == 0 {
        None
    } else if covers(sels[0].1, wanted) {
        Some(sels[0].0)
    } else {
        first_selecting(sels.drop_first(), wanted)
    }
}

fn find_selecting(sels: &Vec<(u32, u32)>, wanted: Wanted) -> (r: Option<u32>)
    ensures
        r == first_selecting(sels@, wanted),
{
    assert(sels@.skip(0) =~= sels@);
    for i in 0..sels.len()
        invariant
            first_selecting(sels@, wanted) == first_selecting(sels@.skip(i as int), wanted),
    {
        assert(sels@.skip(i as int)[0] == sels@[i as int]);
        assert(sels@.skip(i as int).drop_first() =~= sels@.skip(i + 1));
        if selection_covers(sels[i].1, wanted) {
            return Some(sels[i].0);
        }
    }
    assert(sels@.skip(sels@.len() as int) =~= Seq::empty());
    None
}

/// Where an event goes: to which client, about which window, which child of it
/// the event happened in, and where in the window's coordinates.
#[derive(Debug, Clone, Copy)]
pub struct Route {
    pub conn: u32,
    pub window: Xid,
    pub child: Xid,
    pub x: i16,
    pub y: i16,
}

/// The route of a pointer event from a window upwards, at most `fuel` levels.
/// The point moves into the coordinates of each window on the way.
pub open spec fn pointer_route(
    m: Map<u32, ResourceModel>,
    current: u32,
    child: u32,
    x: i16,
    y: i16,
    wanted: Wanted,
    fuel: nat,
) -> Option<Route>
    decreases fuel,
{
    if fuel == 0 || current == 0 {
        None
    } else {
        match window_in(m, current) {
            None => None,
            Some(w) => match first_selecting(w.event_selections, wanted) {
                Some(conn) => Some(Route { conn, window: current, child, x, y }),
                None => pointer_route(
                    m,
                    w.parent,
                    current,
                    x.wrapping_add(w.x),
                    y.wrapping_add(w.y),
                    wanted,
                    (fuel - 1) as nat,
                ),
            },
        }
    }
}

fn find_pointer_route(server: &XServer, window: Xid, x: i16, y: i16, wanted: Wanted) -> (r: Option<
    Route,
>)
    ensures
        r == pointer_route(server@.resources, window, 0, x, y, wanted, MAX_ASCENT as nat),
{
    let mut current: Xid = window;
    let mut child: Xid = 0;
    let mut event_x: i16 = x;
    let mut event_y: i16 = y;
    let mut left: usize = MAX_ASCENT;
    let ghost m = server@.resources;
    let ghost goal = pointer_route(m, window, 0, x, y, wanted, MAX_ASCENT as nat);
    while left > 0
        invariant
            m == server@.resources,
            goal == pointer_route(m, window, 0, x, y, wanted, MAX_ASCENT as nat),
            goal == pointer_route(m, current, child, event_x, event_y, wanted, left as nat),
        decreases left,
    {
        if current == 0 {
            return None;
        }
        match server.window(current) {
            None => {
                return None;
            },
            Some(w) => {
                if let Some(conn) = find_selecting(&w.event_selections, wanted) {
                    return Some(Route { conn, window: current, child, x: event_x, y: event_y });
                }
                child = current;
                event_x = event_x.wrapping_add(w.x);
                event_y = event_y.wrapping_add(w.y);
                current = w.parent;
            },
        }
        left = left - 1;
    }
    None
}

/// The state after a pointer event was sent along its route.
pub open spec fn pointer_told(
    s: ServerModel,
    kind: u8,
    detail: u8,
    window: u32,
    x: i16,
    y: i16,
    root_x: i16,
    root_y: i16,
    state: u16,
    time: u32,
    wanted: Wanted,
) -> ServerModel {
    match pointer_route(s.resources, window, 0, x, y, wanted, MAX_ASCENT as nat) {
        None => s,
        Some(r) => match s.connection(r.conn) {
            None => s,
            Some(c) => s.sending(
                r.conn,
                key_event(
                    c,
                    kind,
                    detail,
                    time,
                    s.root(),
                    r.window,
                    r.child,
                    root_x,
                    root_y,
                    r.x,
                    r.y,
                    state,
                    true,
                ),
            ),
        },
    }
}

fn tell_pointer(
    server: &mut XServer,
    kind: u8,
    detail: u8,
    window: Xid,
    x: i16,
    y: i16,
    root_x: i16,
    root_y: i16,
    state: u16,
    time: u32,
    wanted: Wanted,
)
    ensures
        final(server)@ == pointer_told(
            old(server)@,
            kind,
            detail,
            window,
            x,
            y,
            root_x,
            root_y,
            state,
            time,
            wanted,
        ),
{
    if let Some(r) = find_pointer_route(server, window, x, y, wanted) {
        if let Some(c) = server.connection(r.conn) {
            let e = build_key_event(
                &c,
                kind,
                detail,
                time,
                server.root(),
                r.window,
                r.child,
                root_x,
                root_y,
                r.x,
                r.y,
                state,
                true,
            );
            server.send(r.conn, EventData::Fixed(e));
        }
    }
}

/// What a button event asks of a selection.
pub open spec fn button_mask(kind: u8) -> u32 {
    if kind == event_type::BUTTON_PRESS {
        event_mask::BUTTON_PRESS
    } else {
        event_mask::BUTTON_RELEASE
    }
}

/// The state after a button event was sent.
pub open spec fn button_told(
    s: ServerModel,
    kind: u8,
    window: u32,
    button: u8,
    x: i16,
    y: i16,
    root_x: i16,
    root_y: i16,
    state: u16,
    time: u32,
) -> ServerModel {
    pointer_told(
        s,
        kind,
        button,
        window,
        x,
        y,
        root_x,
        root_y,
        state,
        time,
        Wanted::Mask(button_mask(kind)),
    )
}

/// Sends a button event.
pub fn send_button_event(
    server: &mut XServer,
    event_type: u8,
    window: Xid,
    button: u8,
    x: i16,
    y: i16,
    root_x: i16,
    root_y: i16,
    state: u16,
    time: u32,
)
    ensures
        final(server)@ == button_told(
            old(server)@,
            event_type,
            window,
            button,
            x,
            y,
            root_x,
            root_y,
            state,
            time,
        ),
{
    let mask: u32 = if event_type == event_type::BUTTON_PRESS {
        event_mask::BUTTON_PRESS
    } else {
        event_mask::BUTTON_RELEASE
    };
    tell_pointer(
        server,
        event_type,
        button,
        window,
        x,
        y,
        root_x,
        root_y,
        state,
        time,
        Wanted::Mask(mask),
    );
}

/// The state after a motion event was sent.
pub open spec fn motion_told(
    s: ServerModel,
    window: u32,
    x: i16,
    y: i16,
    root_x: i16,
    root_y: i16,
    state: u16,
    time: u32,
) -> ServerModel {
    pointer_told(
        s,
        event_type::MOTION_NOTIFY,
        0,
        window,
        x,
        y,
        root_x,
        root_y,
        state,
        time,
        Wanted::Motion(state),
    )
}

/// Sends a motion event.
pub fn send_motion_event(
    server: &mut XServer,
    window: Xid,
    x: i16,
    y: i16,
    root_x: i16,
    root_y: i16,
    state: u16,
    time: u32,
)
    ensures
        final(server)@ == motion_told(old(server)@, window, x, y, root_x, root_y, state, time),
{
    tell_pointer(
        server,
        event_type::MOTION_NOTIFY,
        0,
        window,
        x,
        y,
        root_x,
        root_y,
        state,
        time,
        Wanted::Motion(state),
    );
}

/// The route of a key event from a window upwards, at most `fuel` levels: the
/// client, the window, and the child on the way to where the key was typed.
pub open spec fn key_route(
    m: Map<u32, ResourceModel>,
    target: u32,
    current: u32,
    below: u32,
    mask: u32,
    fuel: nat,
) -> Option<(u32, u32, u32)>
    decreases fuel,
{
    if fuel == 0 || current == 0 {
        None
    } else {
        match window_in(m, current) {
            None => None,
            Some(w) => match first_selecting(w.event_selections, Wanted::Mask(mask)) {
                Some(conn) => Some(
                    (
                        conn,
                        current,
                        if current == target {
                            0
                        } else {
                            below
                        },
                    ),
                ),
                None => key_route(m, target, w.parent, current, mask, (fuel - 1) as nat),
            },
        }
    }
}

fn find_key_route(server: &XServer, target: Xid, mask: u32) -> (r: Option<(u32, Xid, Xid)>)
    ensures
        r == key_route(server@.resources, target, target, 0, mask, MAX_ASCENT as nat),
{
    let mut current: Xid = target;
    let mut below: Xid = 0;
    let mut left: usize = MAX_ASCENT;
    let ghost m = server@.resources;
    let ghost goal = key_route(m, target, target, 0, mask, MAX_ASCENT as nat);
    while left > 0
        invariant
            m == server@.resources,
            goal == key_route(m, target, target, 0, mask, MAX_ASCENT as nat),
            goal == key_route(m, target, current, below, mask, left as nat),
        decreases left,
    {
        if current == 0 {
            return None;
        }
        match server.window(current) {
            None => {
                return None;
            },
            Some(w) => {
                if let Some(conn) = find_selecting(&w.event_selections, Wanted::Mask(mask)) {
                    let child: Xid = if current == target {
                        0
                    } else {
                        below
                    };
                    return Some((conn, current, child));
                }
                below = current;
                current = w.parent;
            },
        }
        left = left - 1;
    }
    None
}

/// Whether a client's identifiers include a window's.
pub open spec fn owns(c: ClientConnection, window: u32) -> bool {
    window & !c.resource_id_mask == c.resource_id_base
}

/// Whether a choice of owner is right for a window: a client whose identifiers
/// include it, or nobody where there is none.
pub open spec fn owner_found(conns: Map<u32, ClientConnection>, window: u32, owner: Option<u32>) -> bool {
    match owner {
        Some(id) => conns.dom().contains(id) && owns(conns[id], window),
        None => forall|id: u32| #[trigger] conns.dom().contains(id) ==> !owns(conns[id], window),
    }
}

/// Finds a client whose identifiers include a window's.
pub fn find_conn_for_window(server: &XServer, window: Xid) -> (r: Option<u32>)
    ensures
        owner_found(server@.connections, window, r),
{
    let ids = tables::connection_ids(&server.connections);
    let ghost conns = server@.connections;
    for i in 0..ids.len()
        invariant
            conns == server@.connections,
            forall|id: u32| conns.dom().contains(id) <==> ids@.contains(id),
            forall|j: int| 0 <= j < i ==> !owns(conns[#[trigger] ids@[j]], window),
    {
        assert(ids@.contains(ids@[i as int]));
        if let Some(c) = server.connection(ids[i]) {
            if window & !c.resource_id_mask == c.resource_id_base {
                return Some(ids[i]);
            }
        }
    }
    assert forall|id: u32| #[trigger] conns.dom().contains(id) implies !owns(conns[id], window) by {
        assert(ids@.contains(id));
        let j = choose|j: int| 0 <= j < ids@.len() && ids@[j] == id;
        assert(ids@[j] == id);
    }
    None
}

/// A window has at most one owner while the clients' blocks of identifiers are
/// whole blocks of the same size and no two clients share one.
pub proof fn law_one_owner(
    conns: Map<u32, ClientConnection>,
    window: u32,
    a: Option<u32>,
    b: Option<u32>,
)
    requires
        forall|i: u32, j: u32|
            #![trigger conns[i], conns[j]]
            conns.dom().contains(i) && conns.dom().contains(j) && i != j ==> {
                &&& conns[i].resource_id_mask == conns[j].resource_id_mask
                &&& conns[i].resource_id_base != conns[j].resource_id_base
            },
        owner_found(conns, window, a),
        owner_found(conns, window, b),
    ensures
        a == b,
{
    match (a, b) {
        (Some(i), Some(j)) => {
            if i != j {
                assert(conns[i].resource_id_base != conns[j].resource_id_base);
            }
        },
        (Some(i), None) => {
            assert(conns.dom().contains(i));
        },
        (None, Some(j)) => {
            assert(conns.dom().contains(j));
        },
        (None, None) => {},
    }
}

/// Where keys typed into a target go: along their route or, where nobody
/// selected them, straight to the owner of the target.
pub open spec fn key_destination(
    m: Map<u32, ResourceModel>,
    target: u32,
    mask: u32,
    owner: Option<u32>,
) -> Option<(u32, u32, u32)> {
    match key_route(m, target, target, 0, mask, MAX_ASCENT as nat) {
        Some(r) => Some(r),
        None => match owner {
            Some(id) => Some((id, target, 0)),
            None => None,
        },
    }
}

/// Finds where keys typed into a target go.
pub fn find_key_destination(server: &XServer, target: Xid, mask: u32) -> (r: Option<
    (u32, Xid, Xid),
>)
    ensures
        exists|owner: Option<u32>| #[trigger]
            owner_found(server@.connections, target, owner) && r == key_destination(
                server@.resources,
                target,
                mask,
                owner,
            ),
{
    let owner = find_conn_for_window(server, target);
    assert(owner_found(server@.connections, target, owner));
    match find_key_route(server, target, mask) {
        Some(r) => Some(r),
        None => match owner {
            Some(id) => Some((id, target, 0)),
            None => None,
        },
    }
}

/// What a key event asks of a selection.
pub open spec fn key_mask(kind: u8) -> u32 {
    if kind == event_type::KEY_PRESS {
        event_mask::KEY_PRESS
    } else {
        event_mask::KEY_RELEASE
    }
}

/// The window that a key typed into a window is for, by where the focus is;
/// without a focus, none.
pub open spec fn key_target(s: ServerModel, window: u32) -> Option<u32> {
    let deepest = deepest_child(s.resources, window, MAX_DESCENT as nat);
    if s.focus_window > 1 {
        Some(
            if deepest != 0 {
                deepest
            } else {
                s.focus_window
            },
        )
    } else if s.focus_window == 1 {
        Some(deepest)
    } else {
        None
    }
}

/// The state after one key event was sent to a destination.
pub open spec fn key_sent(
    s: ServerModel,
    kind: u8,
    keycode: u8,
    state: u16,
    time: u32,
    to: (u32, u32, u32),
) -> ServerModel {
    match s.connection(to.0) {
        Some(c) => s.sending(
            to.0,
            key_event(c, kind, keycode, time, s.root(), to.1, to.2, 0, 0, 0, 0, state, true),
        ),
        None => s,
    }
}

/// Sends one key event to a destination.
pub fn send_key(
    server: &mut XServer,
    kind: u8,
    keycode: u8,
    state: u16,
    time: u32,
    to: (u32, Xid, Xid),
)
    ensures
        final(server)@ == key_sent(old(server)@, kind, keycode, state, time, to),
{
    if let Some(c) = server.connection(to.0) {
        let e = build_key_event(
            &c,
            kind,
            keycode,
            time,
            server.root(),
            to.1,
            to.2,
            0,
            0,
            0,
            0,
            state,
            true,
        );
        server.send(to.0, EventData::Fixed(e));
    }
}

/// The state after a key event was sent, with the owner used where nobody
/// selected it.
pub open spec fn key_told(
    s: ServerModel,
    kind: u8,
    window: u32,
    keycode: u8,
    state: u16,
    time: u32,
    owner: Option<u32>,
) -> ServerModel {
    match key_target(s, window) {
        None => s,
        Some(target) => match key_destination(s.resources, target, key_mask(kind), owner) {
            Some(to) => key_sent(s, kind, keycode, state, time, to),
            None => s,
        },
    }
}

/// Whether a state is one that sending a key event can lead to. Where several
/// clients could own the target, any of them may be the one chosen.
pub open spec fn key_may_lead_to(
    s: ServerModel,
    kind: u8,
    window: u32,
    keycode: u8,
    state: u16,
    time: u32,
    after: ServerModel,
) -> bool {
    match key_target(s, window) {
        None => after == s,
        Some(target) => exists|owner: Option<u32>| #[trigger]
            owner_found(s.connections, target, owner) && after == key_told(
                s,
                kind,
                window,
                keycode,
                state,
                time,
                owner,
            ),
    }
}

/// Sends a key event.
pub fn send_key_event(
    server: &mut XServer,
    event_type: u8,
    window: Xid,
    keycode: u8,
    state: u16,
    time: u32,
)
    ensures
        key_may_lead_to(old(server)@, event_type, window, keycode, state, time, final(server)@),
{
    let mask: u32 = if event_type == event_type::KEY_PRESS {
        event_mask::KEY_PRESS
    } else {
        event_mask::KEY_RELEASE
    };
    let focus: u32 = server.focus_window;
    if focus == 0 {
        return;
    }
    let deepest: Xid = find_deepest_child(server, window);
    let target: Xid = if focus > 1 && deepest == 0 {
        focus
    } else {
        deepest
    };
    let to = find_key_destination(server, target, mask);
    let ghost owner = choose|owner: Option<u32>| #[trigger]
        owner_found(server@.connections, target, owner) && to == key_destination(
            server@.resources,
            target,
            mask,
            owner,
        );
    if let Some(to) = to {
        send_key(server, event_type, keycode, state, time, to);
    }
    assert(owner_found(old(server)@.connections, target, owner));
}

/// A pointer event goes to a window on which its client selected it.
pub proof fn law_pointer_route_selected(
    m: Map<u32, ResourceModel>,
    current: u32,
    child: u32,
    x: i16,
    y: i16,
    wanted: Wanted,
    fuel: nat,
)
    ensures
        match pointer_route(m, current, child, x, y, wanted, fuel) {
            Some(r) => window_in(m, r.window) is Some && first_selecting(
                window_in(m, r.window)->0.event_selections,
                wanted,
            ) == Some(r.conn),
            None => true,
        },
    decreases fuel,
{
    if fuel > 0 && current != 0 {
        match window_in(m, current) {
            Some(w) => law_pointer_route_selected(
                m,
                w.parent,
                current,
                x.wrapping_add(w.x),
                y.wrapping_add(w.y),
                wanted,
                (fuel - 1) as nat,
            ),
            None => {},
        }
    }
}

/// Without a focus, keys are discarded.
pub proof fn law_no_focus_no_keys(
    s: ServerModel,
    kind: u8,
    window: u32,
    keycode: u8,
    state: u16,
    time: u32,
    after: ServerModel,
)
    requires
        s.focus_window == 0,
        key_may_lead_to(s, kind, window, keycode, state, time, after),
    ensures
        after == s,
{
}

} // verus!
