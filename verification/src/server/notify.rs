//! Events for the clients that selected them on a window.

use vstd::prelude::*;

use super::connection::{ClientConnection, EventData};
use super::events::{
    build_configure_notify, build_crossing_event, build_expose_event, build_focus_event,
    configure_notify, crossing_event, expose_event, focus_event,
};
use super::protocol::{event_mask, event_type};
use super::{ServerModel, XServer};
use crate::display::Xid;

verus! {

/// Something that happened to a window.
#[derive(Debug, Clone, Copy)]
#[allow(inconsistent_fields)]
pub enum Notice {
    Focus { kind: u8, window: Xid },
    Crossing {
        kind: u8,
        window: Xid,
        x: i16,
        y: i16,
        root_x: i16,
        root_y: i16,
        state: u16,
        time: u32,
    },
    Configure {
        window: Xid,
        x: i16,
        y: i16,
        width: u16,
        height: u16,
        border_width: u16,
        override_redirect: bool,
    },
    Expose { window: Xid, x: u16, y: u16, width: u16, height: u16, count: u16 },
}

/// The event that tells a client of something.
pub open spec fn notice_event(conn: ClientConnection, root: u32, n: Notice) -> Seq<u8> {
    match n {
        Notice::Focus { kind, window } => focus_event(conn, kind, window),
        Notice::Crossing { kind, window, x, y, root_x, root_y, state, time } => crossing_event(
            conn,
            kind,
            time,
            root,
            window,
            root_x,
            root_y,
            x,
            y,
            state,
        ),
        Notice::Configure { window, x, y, width, height, border_width, override_redirect } =>
            configure_notify(
            conn,
            window,
            window,
            0,
            x,
            y,
            width,
            height,
            border_width,
            override_redirect,
        ),
        Notice::Expose { window, x, y, width, height, count } => expose_event(
            conn,
            window,
            x,
            y,
            width,
            height,
            count,
        ),
    }
}

fn build_notice(conn: &ClientConnection, root: Xid, n: Notice) -> (r: [u8; 32])
    ensures
        r@ == notice_event(*conn, root, n),
{
    match n {
        Notice::Focus { kind, window } => build_focus_event(conn, kind, window),
        Notice::Crossing { kind, window, x, y, root_x, root_y, state, time } =>
            build_crossing_event(conn, kind, time, root, window, root_x, root_y, x, y, state),
        Notice::Configure { window, x, y, width, height, border_width, override_redirect } =>
            build_configure_notify(
            conn,
            window,
            window,
            0,
            x,
            y,
            width,
            height,
            border_width,
            override_redirect,
        ),
        Notice::Expose { window, x, y, width, height, count } => build_expose_event(
            conn,
            window,
            x,
            y,
            width,
            height,
            count,
        ),
    }
}

/// The state after each connected client of a list of selections that has one
/// of the bits was told.
pub open spec fn told_selected(s: ServerModel, sels: Seq<(u32, u32)>, mask: u32, n: Notice) -> ServerModel
    decreases sels.len(),
{
    if sels.len() == 0 {
        s
    } else {
        let before = told_selected(s, sels.drop_last(), mask, n);
        let (id, selected) = sels.last();
        if selected & mask != 0 {
            match s.connection(id) {
                Some(conn) => before.sending(id, notice_event(conn, s.root(), n)),
                None => before,
            }
        } else {
            before
        }
    }
}

/// The state after the clients that selected an event on a window were told.
pub open spec fn told(s: ServerModel, window: u32, mask: u32, n: Notice) -> ServerModel {
    match s.window(window) {
        Some(w) => told_selected(s, w.event_selections, mask, n),
        None => s,
    }
}

/// Telling clients only adds to the outbox.
pub proof fn lemma_told_selected_frame(s: ServerModel, sels: Seq<(u32, u32)>, mask: u32, n: Notice)
    ensures
        told_selected(s, sels, mask, n) == (ServerModel {
            outbox: told_selected(s, sels, mask, n).outbox,
            ..s
        }),
    decreases sels.len(),
{
    if sels.len() > 0 {
        lemma_told_selected_frame(s, sels.drop_last(), mask, n);
    }
}

/// Telling clients of something only queues events; nothing else changes.
pub proof fn law_telling_queues_events_only(s: ServerModel, window: u32, mask: u32, n: Notice)
    ensures
        told(s, window, mask, n) == (ServerModel {
            outbox: told(s, window, mask, n).outbox,
            ..s
        }),
{
    match s.window(window) {
        Some(w) => {
            lemma_told_selected_frame(s, w.event_selections, mask, n);
        },
        None => {},
    }
}

/// Tells the clients that selected an event on a window.
pub fn tell(server: &mut XServer, window: Xid, mask: u32, n: Notice)
    ensures
        final(server)@ == told(old(server)@, window, mask, n),
{
    let found: Option<super::resources::WindowState> = server.window(window);
    if let Some(w) = found {
        let root: Xid = server.root();
        let ghost start = server@;
        for i in 0..w.event_selections.len()
            invariant
                root == start.root(),
                server@ == told_selected(start, w.event_selections@.take(i as int), mask, n),
        {
            proof {
                let done = w.event_selections@.take(i as int);
                assert(w.event_selections@.take(i + 1).drop_last() =~= done);
                lemma_told_selected_frame(start, done, mask, n);
            }
            let (id, selected) = w.event_selections[i];
            if selected & mask != 0 {
                if let Some(conn) = server.connection(id) {
                    let e = build_notice(&conn, root, n);
                    server.send(id, EventData::Fixed(e));
                }
            }
        }
        assert(w.event_selections@.take(w.event_selections@.len() as int)
            =~= w.event_selections@);
    }
}

/// The state after a focus event was sent.
pub open spec fn focus_told(s: ServerModel, kind: u8, window: u32) -> ServerModel {
    told(s, window, event_mask::FOCUS_CHANGE, Notice::Focus { kind, window })
}

/// Sends a focus event.
pub fn send_focus_event(server: &mut XServer, event_type: u8, window: Xid)
    ensures
        final(server)@ == focus_told(old(server)@, event_type, window),
{
    tell(server, window, event_mask::FOCUS_CHANGE, Notice::Focus { kind: event_type, window });
}

/// The state after an enter or leave event was sent.
pub open spec fn crossing_told(
    s: ServerModel,
    kind: u8,
    window: u32,
    x: i16,
    y: i16,
    root_x: i16,
    root_y: i16,
    state: u16,
    time: u32,
) -> ServerModel {
    told(
        s,
        window,
        if kind == event_type::ENTER_NOTIFY {
            event_mask::ENTER_WINDOW
        } else {
            event_mask::LEAVE_WINDOW
        },
        Notice::Crossing { kind, window, x, y, root_x, root_y, state, time },
    )
}

/// Sends an enter or leave event.
pub fn send_enter_leave_event(
    server: &mut XServer,
    event_type: u8,
    window: Xid,
    x: i16,
    y: i16,
    root_x: i16,
    root_y: i16,
    state: u16,
    time: u32,
)
    ensures
        final(server)@ == crossing_told(
            old(server)@,
            event_type,
            window,
            x,
            y,
            root_x,
            root_y,
            state,
            time,
        ),
{
    let mask: u32 = if event_type == event_type::ENTER_NOTIFY {
        event_mask::ENTER_WINDOW
    } else {
        event_mask::LEAVE_WINDOW
    };
    tell(
        server,
        window,
        mask,
        Notice::Crossing { kind: event_type, window, x, y, root_x, root_y, state, time },
    );
}

/// The state after a configure event was sent.
pub open spec fn configure_told(
    s: ServerModel,
    window: u32,
    x: i16,
    y: i16,
    width: u16,
    height: u16,
) -> ServerModel {
    match s.window(window) {
        Some(w) => told(
            s,
            window,
            event_mask::STRUCTURE_NOTIFY,
            Notice::Configure {
                window,
                x,
                y,
                width,
                height,
                border_width: w.border_width,
                override_redirect: w.override_redirect,
            },
        ),
        None => s,
    }
}

/// Sends a configure event.
pub fn send_configure_notify_event(
    server: &mut XServer,
    window: Xid,
    x: i16,
    y: i16,
    width: u16,
    height: u16,
)
    ensures
        final(server)@ == configure_told(old(server)@, window, x, y, width, height),
{
    let found: Option<super::resources::WindowState> = server.window(window);
    if let Some(w) = found {
        tell(
            server,
            window,
            event_mask::STRUCTURE_NOTIFY,
            Notice::Configure {
                window,
                x,
                y,
                width,
                height,
                border_width: w.border_width,
                override_redirect: w.override_redirect,
            },
        );
    }
}

/// The state after an exposure was sent.
pub open spec fn expose_told(
    s: ServerModel,
    window: u32,
    x: u16,
    y: u16,
    width: u16,
    height: u16,
    count: u16,
) -> ServerModel {
    told(
        s,
        window,
        event_mask::EXPOSURE,
        Notice::Expose { window, x, y, width, height, count },
    )
}

/// Sends an exposure.
pub fn send_expose_event(
    server: &mut XServer,
    window: Xid,
    x: u16,
    y: u16,
    width: u16,
    height: u16,
    count: u16,
)
    ensures
        final(server)@ == expose_told(old(server)@, window, x, y, width, height, count),
{
    tell(
        server,
        window,
        event_mask::EXPOSURE,
        Notice::Expose { window, x, y, width, height, count },
    );
}

} // verus!
