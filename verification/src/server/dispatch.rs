//! Events from the native display, one at a time.

use vstd::prelude::*;

use super::compose::{
    commit_may_lead_to, compose_target, composed_nothing, composing, draw_may_lead_to,
    on_ime_commit, on_ime_replace, on_preedit_done, on_preedit_draw, replaced, types_inline,
};
use super::connection::{write_u32_at, ClientConnection, EventData};
use super::delivery::{key_may_lead_to, send_key_event};
use super::events::{set32, set8};
use super::ime::{backspaces_may_lead_to, TextJob};
use super::input::{
    button_pressed, button_released, moved, on_button_press, on_button_release, on_motion,
    Dispatcher, DispatcherModel, Pointing,
};
use super::notify::{
    configure_told, expose_told, focus_told, law_telling_queues_events_only, send_configure_notify_event,
    send_expose_event, send_focus_event, Notice,
};
use super::predefined;
use super::protocol::{event_mask, event_type};
use super::resources::{ResourceModel, WindowModel, WindowState};
use super::search::{find_toplevel, toplevel};
use super::tables;
use super::windows::count_resources;
use super::wire::zeros;
use super::{window_in, ServerModel, XServer};
use crate::display::{DisplayEvent, Xid};

verus! {

/// The state after exposures were sent for the mapped windows below a window,
/// at most `fuel` levels down: each child, then what lies below it.
pub open spec fn exposed_below(s: ServerModel, window: u32, fuel: nat) -> ServerModel
    decreases fuel, 0nat,
{
    if fuel == 0 {
        s
    } else {
        match s.window(window) {
            Some(w) => exposed_list(s, w.children, (fuel - 1) as nat),
            None => s,
        }
    }
}

/// The state after exposures were sent for a list of windows and what lies
/// below them.
pub open spec fn exposed_list(s: ServerModel, ids: Seq<u32>, fuel: nat) -> ServerModel
    decreases fuel, ids.len() + 1,
{
    if ids.len() == 0 {
        s
    } else {
        let before = exposed_list(s, ids.drop_last(), fuel);
        let id = ids.last();
        let own = match before.window(id) {
            Some(w) => if w.mapped && w.width > 0 && w.height > 0 {
                expose_told(before, id, 0, 0, w.width, w.height, 0)
            } else {
                before
            },
            None => before,
        };
        exposed_below(own, id, fuel)
    }
}

fn expose_descendants(server: &mut XServer, parent: Xid, fuel: usize)
    ensures
        final(server)@ == exposed_below(old(server)@, parent, fuel as nat),
    decreases fuel,
{
    if fuel == 0 {
        return;
    }
    if let Some(w) = server.window(parent) {
        let ghost start = server@;
        for i in 0..w.children.len()
            invariant
                fuel > 0,
                server@ == exposed_list(start, w.children@.take(i as int), (fuel - 1) as nat),
        {
            assert(w.children@.take(i + 1).drop_last() =~= w.children@.take(i as int));
            let id: Xid = w.children[i];
            if let Some(c) = server.window(id) {
                if c.mapped && c.width > 0 && c.height > 0 {
                    send_expose_event(server, id, 0, 0, c.width, c.height, 0);
                }
            }
            expose_descendants(server, id, fuel - 1);
        }
        assert(w.children@.take(w.children@.len() as int) =~= w.children@);
    }
}

/// The state after part of a window was exposed: it and the mapped windows
/// below it are told.
pub open spec fn exposed_tree(
    s: ServerModel,
    window: u32,
    x: u16,
    y: u16,
    width: u16,
    height: u16,
    count: u16,
) -> ServerModel {
    let told = expose_told(s, window, x, y, width, height, count);
    exposed_below(told, window, told.resources.dom().len())
}

fn on_expose(
    server: &mut XServer,
    window: Xid,
    x: u16,
    y: u16,
    width: u16,
    height: u16,
    count: u16,
)
    ensures
        final(server)@ == exposed_tree(old(server)@, window, x, y, width, height, count),
{
    send_expose_event(server, window, x, y, width, height, count);
    let fuel: usize = count_resources(server);
    expose_descendants(server, window, fuel);
}

/// The state after the children of a window took its new size and their
/// clients were told.
pub open spec fn children_resized(s: ServerModel, ids: Seq<u32>, width: u16, height: u16) -> ServerModel
    decreases ids.len(),
{
    if ids.len() == 0 {
        s
    } else {
        let before = children_resized(s, ids.drop_last(), width, height);
        let id = ids.last();
        let sized = match before.window(id) {
            Some(w) => before.with_window(id, WindowModel { width, height, ..w }),
            None => before,
        };
        expose_told(configure_told(sized, id, 0, 0, width, height), id, 0, 0, width, height, 0)
    }
}

/// The state after a native window was moved or resized.
pub open spec fn reconfigured(s: ServerModel, window: u32, x: i16, y: i16, width: u16, height: u16) -> ServerModel {
    let (placed, children) = match s.window(window) {
        Some(w) => (s.with_window(window, WindowModel { x, y, width, height, ..w }), w.children),
        None => (s, Seq::empty()),
    };
    let told = expose_told(
        configure_told(placed, window, x, y, width, height),
        window,
        0,
        0,
        width,
        height,
        0,
    );
    children_resized(told, children, width, height)
}

fn on_configure(server: &mut XServer, window: Xid, x: i16, y: i16, width: u16, height: u16)
    ensures
        final(server)@ == reconfigured(old(server)@, window, x, y, width, height),
{
    let mut children: Vec<Xid> = Vec::new();
    assert(children@ =~= Seq::empty());
    let found: Option<WindowState> = server.window(window);
    if let Some(mut w) = found {
        w.x = x;
        w.y = y;
        w.width = width;
        w.height = height;
        let copy = w.clone();
        server.set_window(window, copy);
        children = w.children;
    }
    send_configure_notify_event(server, window, x, y, width, height);
    send_expose_event(server, window, 0, 0, width, height, 0);
    let ghost start = server@;
    for i in 0..children.len()
        invariant
            server@ == children_resized(start, children@.take(i as int), width, height),
    {
        assert(children@.take(i + 1).drop_last() =~= children@.take(i as int));
        let id: Xid = children[i];
        let found: Option<WindowState> = server.window(id);
        if let Some(mut c) = found {
            c.width = width;
            c.height = height;
            server.set_window(id, c);
        }
        send_configure_notify_event(server, id, 0, 0, width, height);
        send_expose_event(server, id, 0, 0, width, height, 0);
    }
    assert(children@.take(children@.len() as int) =~= children@);
}

/// Whether the bits of a window's identifier that name its client are those of
/// a client.
pub open spec fn same_block(c: ClientConnection, window: u32) -> bool {
    window & !c.resource_id_mask == c.resource_id_base & !c.resource_id_mask
}

/// A request for a selection, as its owner's client gets it. It carries no
/// sequence number.
pub open spec fn selection_request(
    c: ClientConnection,
    time: u32,
    owner: u32,
    requestor: u32,
    selection: u32,
    target: u32,
    property: u32,
) -> Seq<u8> {
    let o = c.byte_order;
    let e = set8(zeros(32), 0, event_type::SELECTION_REQUEST);
    let e = set32(o, e, 4, time);
    let e = set32(o, e, 8, owner);
    let e = set32(o, e, 12, requestor);
    let e = set32(o, e, 16, selection);
    let e = set32(o, e, 20, target);
    set32(o, e, 24, property)
}

/// Builds a request for a selection.
pub fn build_selection_request(
    c: &ClientConnection,
    time: u32,
    owner: Xid,
    requestor: Xid,
    selection: u32,
    target: u32,
    property: u32,
) -> (r: [u8; 32])
    ensures
        r@ == selection_request(*c, time, owner, requestor, selection, target, property),
{
    let mut e: [u8; 32] = [0u8; 32];
    assert(e@ =~= zeros(32));
    e[0] = event_type::SELECTION_REQUEST;
    write_u32_at(c, &mut e, 4, time);
    write_u32_at(c, &mut e, 8, owner);
    write_u32_at(c, &mut e, 12, requestor);
    write_u32_at(c, &mut e, 16, selection);
    write_u32_at(c, &mut e, 20, target);
    write_u32_at(c, &mut e, 24, property);
    e
}

/// The state after a client was asked for the primary selection's text.
pub open spec fn clipboard_asked(s: ServerModel, owner: u32, id: u32) -> ServerModel {
    let named = s.interning("UTF8_STRING"@).interning("_PSLX_CLIP"@);
    let utf8 = s.atoms.interned("UTF8_STRING"@);
    let property = s.interning("UTF8_STRING"@).atoms.interned("_PSLX_CLIP"@);
    let asked = named.sending(
        id,
        selection_request(
            s.connections[id],
            s.now,
            owner,
            s.root(),
            predefined::PRIMARY,
            utf8,
            property,
        ),
    );
    ServerModel { pending_clipboard_copy: true, ..asked }
}

/// Whether a state follows when the native display asks for the selection: a
/// client that can own the selection's window is asked, if there is one.
pub open spec fn clipboard_may_lead_to(s: ServerModel, after: ServerModel) -> bool {
    if !s.selections.dom().contains(predefined::PRIMARY) {
        after == s
    } else {
        let owner = s.selections[predefined::PRIMARY].0;
        ||| exists|id: u32| #[trigger]
            s.connections.dom().contains(id) && same_block(s.connections[id], owner) && after
                == clipboard_asked(s, owner, id)
        ||| after == s && forall|id: u32| #[trigger]
            s.connections.dom().contains(id) ==> !same_block(s.connections[id], owner)
    }
}

fn on_clipboard_request(server: &mut XServer)
    ensures
        clipboard_may_lead_to(old(server)@, final(server)@),
{
    let entry = tables::get_pair(&server.selections, predefined::PRIMARY);
    if let Some((owner, _)) = entry {
        let ids = tables::connection_ids(&server.connections);
        let ghost conns = server@.connections;
        let ghost start = server@;
        for i in 0..ids.len()
            invariant
                server@ == start,
                start == old(server)@,
                conns == start.connections,
                start.selections.dom().contains(predefined::PRIMARY),
                owner == start.selections[predefined::PRIMARY].0,
                forall|id: u32| conns.dom().contains(id) <==> ids@.contains(id),
                forall|j: int| 0 <= j < i ==> !same_block(conns[#[trigger] ids@[j]], owner),
        {
            assert(ids@.contains(ids@[i as int]));
            if let Some(c) = server.connection(ids[i]) {
                if owner & !c.resource_id_mask == c.resource_id_base & !c.resource_id_mask {
                    let utf8: u32 = server.atoms.intern_or_create("UTF8_STRING");
                    let property: u32 = server.atoms.intern_or_create("_PSLX_CLIP");
                    let e = build_selection_request(
                        &c,
                        server.now,
                        owner,
                        server.root(),
                        predefined::PRIMARY,
                        utf8,
                        property,
                    );
                    server.send(ids[i], EventData::Fixed(e));
                    server.pending_clipboard_copy = true;
                    assert(start.connections.dom().contains(ids@[i as int]));
                    assert(server@ == clipboard_asked(start, owner, ids@[i as int]));
                    return;
                }
            }
        }
        assert forall|id: u32| #[trigger] conns.dom().contains(id) implies !same_block(
            conns[id],
            owner,
        ) by {
            assert(ids@.contains(id));
            let j = choose|j: int| 0 <= j < ids@.len() && ids@[j] == id;
            assert(ids@[j] == id);
        }
    }
}

/// The state after a native window became the active one: its top-level window
/// takes the focus.
pub open spec fn activated(s: ServerModel, window: u32) -> ServerModel {
    let old = s.focus_window;
    let new = toplevel(s.resources, s.root(), window);
    if new > 1 && new != old {
        let out = if old > 1 {
            focus_told(s, event_type::FOCUS_OUT, old)
        } else {
            s
        };
        focus_told(ServerModel { focus_window: new, ..out }, event_type::FOCUS_IN, new)
    } else {
        s
    }
}

fn on_focus_in(server: &mut XServer, window: Xid)
    ensures
        final(server)@ == activated(old(server)@, window),
{
    let old_focus: u32 = server.focus_window;
    let new_focus: u32 = find_toplevel(server, window);
    if new_focus > 1 && new_focus != old_focus {
        if old_focus > 1 {
            send_focus_event(server, event_type::FOCUS_OUT, old_focus);
        }
        server.focus_window = new_focus;
        send_focus_event(server, event_type::FOCUS_IN, new_focus);
    }
}

/// What is left to do after an event: a text to type, and whether a drag
/// scrolled.
#[derive(Debug)]
pub struct Followup {
    pub text: Option<TextJob>,
    pub autoscrolled: bool,
}

/// Whether this follows when an event is dispatched. Only where several clients
/// could own a window, or all are told, is more than one outcome possible.
pub open spec fn may_follow(
    s: ServerModel,
    d: DispatcherModel,
    event: DisplayEvent,
    due: bool,
    after: ServerModel,
    after_d: DispatcherModel,
    left: Followup,
) -> bool {
    let quiet = left.text is None && !left.autoscrolled;
    match event {
        DisplayEvent::ButtonPress { window, button, x, y, root_x, root_y, state, time } => {
            &&& (after, after_d) == button_pressed(
                (s, d),
                button,
                Pointing { window, x, y, root_x, root_y, state, time },
            )
            &&& quiet
        },
        DisplayEvent::ButtonRelease { window, button, x, y, root_x, root_y, state, time } => {
            &&& (after, after_d) == button_released(
                (s, d),
                button,
                Pointing { window, x, y, root_x, root_y, state, time },
            )
            &&& quiet
        },
        DisplayEvent::MotionNotify { window, x, y, root_x, root_y, state, time } => {
            &&& (after, after_d, left.autoscrolled) == moved(
                (s, d),
                Pointing { window, x, y, root_x, root_y, state, time },
                due,
            )
            &&& left.text is None
        },
        DisplayEvent::KeyPress { window, keycode, state, time } => {
            &&& key_may_lead_to(
                ServerModel { modifier_state: state, ..s },
                event_type::KEY_PRESS,
                window,
                keycode,
                state,
                time,
                after,
            )
            &&& after_d == d
            &&& quiet
        },
        DisplayEvent::KeyRelease { window, keycode, state, time } => {
            &&& key_may_lead_to(
                ServerModel { modifier_state: state, ..s },
                event_type::KEY_RELEASE,
                window,
                keycode,
                state,
                time,
                after,
            )
            &&& after_d == d
            &&& quiet
        },
        DisplayEvent::ImeCommit { window, text } => {
            &&& commit_may_lead_to(s, d, window, text@, after, left.text)
            &&& after_d == composed_nothing(d)
            &&& !left.autoscrolled
        },
        DisplayEvent::ImePreeditDraw { window, text } => {
            &&& draw_may_lead_to(s, d, window, text@, after, left.text)
            &&& after_d == composing(d, text@, types_inline(s, window))
            &&& !left.autoscrolled
        },
        DisplayEvent::ImeReplace { window, erase_chars, text } => {
            &&& replaced(
                s,
                compose_target(s, window),
                erase_chars as nat,
                text@,
                after,
                left.text,
            )
            &&& after_d == composed_nothing(d)
            &&& !left.autoscrolled
        },
        DisplayEvent::ImePreeditDone { window } => {
            &&& backspaces_may_lead_to(
                s,
                compose_target(s, window),
                if d.preedit_injected {
                    d.preedit_char_count as nat
                } else {
                    0
                },
                after,
            )
            &&& after_d == composed_nothing(d)
            &&& quiet
        },
        DisplayEvent::Expose { window, x, y, width, height, count } => {
            &&& after == exposed_tree(s, window, x, y, width, height, count)
            &&& after_d == d
            &&& quiet
        },
        DisplayEvent::ConfigureNotify { window, x, y, width, height } => {
            &&& after == reconfigured(s, window, x, y, width, height)
            &&& after_d == d
            &&& quiet
        },
        DisplayEvent::GlobalPointerUpdate { root_x, root_y } => {
            &&& after == (ServerModel { pointer_x: root_x as i32, pointer_y: root_y as i32, ..s })
            &&& after_d == d
            &&& quiet
        },
        DisplayEvent::ClipboardCopyRequest { window } => {
            &&& clipboard_may_lead_to(s, after)
            &&& after_d == d
            &&& quiet
        },
        DisplayEvent::FocusIn { window } => {
            &&& after == activated(s, window)
            &&& after_d == d
            &&& quiet
        },
    }
}

/// Dispatches one event from the native display; `due` says whether enough time
/// has passed since a drag last scrolled.
pub fn dispatch_event(server: &mut XServer, d: &mut Dispatcher, event: DisplayEvent, due: bool) -> (r:
    Followup)
    ensures
        may_follow(old(server)@, old(d)@, event, due, final(server)@, final(d)@, r),
        r.text is Some ==> r.text->0.wf(),
{
    let mut text_job: Option<TextJob> = None;
    let mut autoscrolled: bool = false;
    match event {
        DisplayEvent::ButtonPress { window, button, x, y, root_x, root_y, state, time } => {
            on_button_press(
                server,
                d,
                button,
                Pointing { window, x, y, root_x, root_y, state, time },
            );
        },
        DisplayEvent::ButtonRelease { window, button, x, y, root_x, root_y, state, time } => {
            on_button_release(
                server,
                d,
                button,
                Pointing { window, x, y, root_x, root_y, state, time },
            );
        },
        DisplayEvent::MotionNotify { window, x, y, root_x, root_y, state, time } => {
            autoscrolled =
            on_motion(server, d, Pointing { window, x, y, root_x, root_y, state, time }, due);
        },
        DisplayEvent::KeyPress { window, keycode, state, time } => {
            server.modifier_state = state;
            send_key_event(server, event_type::KEY_PRESS, window, keycode, state, time);
        },
        DisplayEvent::KeyRelease { window, keycode, state, time } => {
            server.modifier_state = state;
            send_key_event(server, event_type::KEY_RELEASE, window, keycode, state, time);
        },
        DisplayEvent::ImeCommit { window, text } => {
            text_job = on_ime_commit(server, d, window, text.as_str());
        },
        DisplayEvent::ImePreeditDraw { window, text } => {
            text_job = on_preedit_draw(server, d, window, text.as_str());
        },
        DisplayEvent::ImeReplace { window, erase_chars, text } => {
            text_job = on_ime_replace(server, d, window, erase_chars, text.as_str());
        },
        DisplayEvent::ImePreeditDone { window } => {
            on_preedit_done(server, d, window);
        },
        DisplayEvent::Expose { window, x, y, width, height, count } => {
            on_expose(server, window, x, y, width, height, count);
        },
        DisplayEvent::ConfigureNotify { window, x, y, width, height } => {
            on_configure(server, window, x, y, width, height);
        },
        DisplayEvent::GlobalPointerUpdate { root_x, root_y } => {
            server.pointer_x = root_x as i32;
            server.pointer_y = root_y as i32;
        },
        DisplayEvent::ClipboardCopyRequest { window: _ } => {
            on_clipboard_request(server);
        },
        DisplayEvent::FocusIn { window } => {
            on_focus_in(server, window);
        },
    }
    Followup { text: text_job, autoscrolled }
}

/// Whether no path of children below a window is longer than `n`.
pub open spec fn depth_within(m: Map<u32, ResourceModel>, window: u32, n: nat) -> bool
    decreases n,
{
    match window_in(m, window) {
        None => true,
        Some(w) => if n == 0 {
            w.children.len() == 0
        } else {
            forall|i: int|
                0 <= i < w.children.len() ==> depth_within(
                    m,
                    #[trigger] w.children[i],
                    (n - 1) as nat,
                )
        },
    }
}

proof fn lemma_exposed_keeps_windows(s: ServerModel, window: u32, ids: Seq<u32>, fuel: nat)
    ensures
        exposed_below(s, window, fuel).resources == s.resources,
        exposed_list(s, ids, fuel).resources == s.resources,
    decreases fuel, ids.len() + 1,
{
    if ids.len() > 0 {
        lemma_exposed_keeps_windows(s, window, ids.drop_last(), fuel);
        let before = exposed_list(s, ids.drop_last(), fuel);
        let id = ids.last();
        let own = match before.window(id) {
            Some(w) => if w.mapped && w.width > 0 && w.height > 0 {
                expose_told(before, id, 0, 0, w.width, w.height, 0)
            } else {
                before
            },
            None => before,
        };
        match before.window(id) {
            Some(w) => {
                law_telling_queues_events_only(
                    before,
                    id,
                    event_mask::EXPOSURE,
                    Notice::Expose {
                        window: id,
                        x: 0,
                        y: 0,
                        width: w.width,
                        height: w.height,
                        count: 0,
                    },
                );
            },
            None => {},
        }
        if fuel > 0 {
            match own.window(id) {
                Some(w) => {
                    lemma_exposed_keeps_windows(own, id, w.children, (fuel - 1) as nat);
                },
                None => {},
            }
        }
        assert(exposed_below(own, id, fuel).resources == own.resources);
    }
    if fuel > 0 {
        match s.window(window) {
            Some(w) => {
                lemma_exposed_keeps_windows(s, window, w.children, (fuel - 1) as nat);
            },
            None => {},
        }
    }
}

proof fn lemma_exposed_list_enough(s: ServerModel, ids: Seq<u32>, n: nat, fuel: nat)
    requires
        n <= fuel,
        forall|i: int| 0 <= i < ids.len() ==> depth_within(s.resources, #[trigger] ids[i], n),
    ensures
        exposed_list(s, ids, fuel) == exposed_list(s, ids, n),
    decreases n, ids.len() + 1,
{
    if ids.len() > 0 {
        let rest = ids.drop_last();
        assert forall|i: int| 0 <= i < rest.len() implies depth_within(
            s.resources,
            #[trigger] rest[i],
            n,
        ) by {
            assert(rest[i] == ids[i]);
        }
        lemma_exposed_list_enough(s, rest, n, fuel);
        let before = exposed_list(s, rest, n);
        lemma_exposed_keeps_windows(s, 0, rest, n);
        let id = ids.last();
        assert(ids[ids.len() - 1] == id);
        let own = match before.window(id) {
            Some(w) => if w.mapped && w.width > 0 && w.height > 0 {
                expose_told(before, id, 0, 0, w.width, w.height, 0)
            } else {
                before
            },
            None => before,
        };
        match before.window(id) {
            Some(w) => {
                law_telling_queues_events_only(
                    before,
                    id,
                    event_mask::EXPOSURE,
                    Notice::Expose {
                        window: id,
                        x: 0,
                        y: 0,
                        width: w.width,
                        height: w.height,
                        count: 0,
                    },
                );
            },
            None => {},
        }
        assert(own.resources == s.resources);
        law_exposure_reaches_the_bottom(own, id, n, fuel);
    }
}

/// An exposure reaches every level of a tree: once the limit is at least the
/// depth of what lies below the window, raising it changes nothing.
pub proof fn law_exposure_reaches_the_bottom(s: ServerModel, window: u32, n: nat, fuel: nat)
    requires
        depth_within(s.resources, window, n),
        n <= fuel,
    ensures
        exposed_below(s, window, fuel) == exposed_below(s, window, n),
    decreases n, 0nat,
{
    match s.window(window) {
        None => {},
        Some(w) => {
            if n == 0 {
                assert(w.children =~= Seq::empty());
            } else {
                lemma_exposed_list_enough(s, w.children, (n - 1) as nat, (fuel - 1) as nat);
            }
        },
    }
}

/// Exposures only queue events.
pub proof fn law_exposure_keeps_windows(s: ServerModel, window: u32, fuel: nat)
    ensures
        exposed_below(s, window, fuel).resources == s.resources,
{
    lemma_exposed_keeps_windows(s, window, Seq::empty(), fuel);
}

} // verus!
