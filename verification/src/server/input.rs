//! Pointer input from the native display: implicit grabs, crossings, focus by
//! click, and the cursor's shape.

use vstd::prelude::*;

use super::delivery::{button_told, motion_told, send_button_event, send_motion_event};
use super::notify::{
    crossing_told, focus_told, law_telling_queues_events_only, send_enter_leave_event,
    send_focus_event, Notice,
};
use super::protocol::{event_mask, event_type};
use super::search::{
    child_at, cursor_at, determine_cursor, find_child_at_point, find_native_handle_for_event,
    find_toplevel, native_handle, toplevel, MAX_ASCENT, MAX_DESCENT,
};
use super::tables;
use super::wire::{signed16, to_signed16};
use super::{ServerModel, XServer};
use crate::display::{DisplayCommand, DisplayModel, Xid};

verus! {

/// What the event dispatcher remembers from one event to the next.
#[derive(Debug)]
pub struct Dispatcher {
    pub focused_window: Xid,
    pub entered_window: Xid,
    /// Characters, columns and text of the input method's text that is still
    /// being composed.
    pub preedit_char_count: usize,
    pub preedit_col_count: usize,
    pub preedit_text: Vec<char>,
    /// Whether that text was typed into the client.
    pub preedit_injected: bool,
    /// The window that has the pointer while buttons are down; 0 is none.
    pub grab_window: Xid,
    /// Native coordinates less those of the grab window.
    pub grab_offset_x: i16,
    pub grab_offset_y: i16,
    /// How many buttons are down.
    pub buttons_pressed: u8,
    pub last_cursor_type: u8,
}

/// What a dispatcher remembers.
pub struct DispatcherModel {
    pub focused_window: Xid,
    pub entered_window: Xid,
    pub preedit_char_count: usize,
    pub preedit_col_count: usize,
    pub preedit_text: Seq<char>,
    pub preedit_injected: bool,
    pub grab_window: Xid,
    pub grab_offset_x: i16,
    pub grab_offset_y: i16,
    pub buttons_pressed: u8,
    pub last_cursor_type: u8,
}

impl View for Dispatcher {
    type V = DispatcherModel;

    open spec fn view(&self) -> DispatcherModel {
        DispatcherModel {
            focused_window: self.focused_window,
            entered_window: self.entered_window,
            preedit_char_count: self.preedit_char_count,
            preedit_col_count: self.preedit_col_count,
            preedit_text: self.preedit_text@,
            preedit_injected: self.preedit_injected,
            grab_window: self.grab_window,
            grab_offset_x: self.grab_offset_x,
            grab_offset_y: self.grab_offset_y,
            buttons_pressed: self.buttons_pressed,
            last_cursor_type: self.last_cursor_type,
        }
    }
}

/// A dispatcher that has seen nothing.
pub open spec fn fresh_dispatcher() -> DispatcherModel {
    DispatcherModel {
        focused_window: 0,
        entered_window: 0,
        preedit_char_count: 0,
        preedit_col_count: 0,
        preedit_text: Seq::empty(),
        preedit_injected: false,
        grab_window: 0,
        grab_offset_x: 0,
        grab_offset_y: 0,
        buttons_pressed: 0,
        last_cursor_type: 0,
    }
}

impl Dispatcher {
    pub fn new() -> (r: Dispatcher)
        ensures
            r@ == fresh_dispatcher(),
    {
        Dispatcher {
            focused_window: 0,
            entered_window: 0,
            preedit_char_count: 0,
            preedit_col_count: 0,
            preedit_text: Vec::new(),
            preedit_injected: false,
            grab_window: 0,
            grab_offset_x: 0,
            grab_offset_y: 0,
            buttons_pressed: 0,
            last_cursor_type: 0,
        }
    }
}

/// Where the pointer is and what is held down, as the native display reports
/// it for one of its windows.
#[derive(Debug, Clone, Copy)]
pub struct Pointing {
    pub window: Xid,
    pub x: i16,
    pub y: i16,
    pub root_x: i16,
    pub root_y: i16,
    pub state: u16,
    pub time: u32,
}

/// A window and a point in its coordinates.
#[derive(Debug, Clone, Copy)]
pub struct Spot {
    pub window: Xid,
    pub x: i16,
    pub y: i16,
}

/// The deepest window under the pointer.
pub open spec fn spot_under(s: ServerModel, p: Pointing) -> Spot {
    let (window, x, y) = child_at(s.resources, p.window, p.x, p.y, MAX_DESCENT as nat);
    Spot { window, x, y }
}

fn find_spot(server: &XServer, p: Pointing) -> (r: Spot)
    ensures
        r == spot_under(server@, p),
{
    let (window, x, y) = find_child_at_point(server, p.window, p.x, p.y);
    Spot { window, x, y }
}

/// Where a button press goes. A client that grabbed the pointer gets it, unless
/// it asked for its own windows to get theirs and one did.
pub open spec fn press_spot(s: ServerModel, p: Pointing) -> Spot {
    let spot = spot_under(s, p);
    match s.pointer_grab {
        Some((grabber, owner_events, _, _)) => if !owner_events || spot.window == p.window {
            match s.window(grabber) {
                Some(w) => if w.native_window is Some {
                    Spot {
                        window: grabber,
                        x: p.root_x.wrapping_sub(w.x),
                        y: p.root_y.wrapping_sub(w.y),
                    }
                } else {
                    Spot { window: grabber, x: p.root_x, y: p.root_y }
                },
                None => Spot { window: grabber, x: p.root_x, y: p.root_y },
            }
        } else {
            spot
        },
        None => spot,
    }
}

fn find_press_spot(server: &XServer, p: Pointing) -> (r: Spot)
    ensures
        r == press_spot(server@, p),
{
    let spot = find_spot(server, p);
    if let Some((grabber, owner_events, _, _)) = server.pointer_grab {
        if !owner_events || spot.window == p.window {
            if let Some(w) = server.window(grabber) {
                if w.native_window.is_some() {
                    return Spot {
                        window: grabber,
                        x: p.root_x.wrapping_sub(w.x),
                        y: p.root_y.wrapping_sub(w.y),
                    };
                }
            }
            return Spot { window: grabber, x: p.root_x, y: p.root_y };
        }
    }
    spot
}

/// The server and the dispatcher.
pub type Step = (ServerModel, DispatcherModel);

/// The state after the pointer entered a window: the one it was in is left.
pub open spec fn crossed(st: Step, spot: Spot, p: Pointing) -> Step {
    let (s, d) = st;
    if d.entered_window == spot.window {
        st
    } else {
        let left = if d.entered_window != 0 {
            crossing_told(
                s,
                event_type::LEAVE_NOTIFY,
                d.entered_window,
                0,
                0,
                p.root_x,
                p.root_y,
                p.state,
                p.time,
            )
        } else {
            s
        };
        (
            crossing_told(
                left,
                event_type::ENTER_NOTIFY,
                spot.window,
                spot.x,
                spot.y,
                p.root_x,
                p.root_y,
                p.state,
                p.time,
            ),
            DispatcherModel { entered_window: spot.window, ..d },
        )
    }
}

fn cross(server: &mut XServer, d: &mut Dispatcher, spot: Spot, p: Pointing)
    ensures
        (final(server)@, final(d)@) == crossed((old(server)@, old(d)@), spot, p),
{
    if d.entered_window != spot.window {
        if d.entered_window != 0 {
            send_enter_leave_event(
                server,
                event_type::LEAVE_NOTIFY,
                d.entered_window,
                0,
                0,
                p.root_x,
                p.root_y,
                p.state,
                p.time,
            );
        }
        send_enter_leave_event(
            server,
            event_type::ENTER_NOTIFY,
            spot.window,
            spot.x,
            spot.y,
            p.root_x,
            p.root_y,
            p.state,
            p.time,
        );
        d.entered_window = spot.window;
    }
}

/// The state after a click in a window: the focus goes to its top-level window,
/// unless it is somewhere in it already.
pub open spec fn refocused(st: Step, window: u32) -> Step {
    let (s, d) = st;
    let focused = if s.focus_window > 1 {
        s.focus_window
    } else {
        d.focused_window
    };
    let top = toplevel(s.resources, s.root(), window);
    let focused_top = if focused > 1 {
        toplevel(s.resources, s.root(), focused)
    } else {
        0
    };
    if focused_top != top {
        let out = if focused > 1 {
            focus_told(s, event_type::FOCUS_OUT, focused)
        } else {
            s
        };
        let told = focus_told(out, event_type::FOCUS_IN, top);
        (
            ServerModel { focus_window: top, ..told },
            DispatcherModel { focused_window: top, ..d },
        )
    } else {
        (s, DispatcherModel { focused_window: focused, ..d })
    }
}

fn refocus(server: &mut XServer, d: &mut Dispatcher, window: Xid)
    ensures
        (final(server)@, final(d)@) == refocused((old(server)@, old(d)@), window),
{
    if server.focus_window > 1 {
        d.focused_window = server.focus_window;
    }
    let focused: Xid = d.focused_window;
    let top: Xid = find_toplevel(server, window);
    let focused_top: Xid = if focused > 1 {
        find_toplevel(server, focused)
    } else {
        0
    };
    if focused_top != top {
        if focused > 1 {
            send_focus_event(server, event_type::FOCUS_OUT, focused);
        }
        send_focus_event(server, event_type::FOCUS_IN, top);
        d.focused_window = top;
        server.focus_window = top;
    }
}

/// The state after the cursor took the shape it has over a spot, if that is a
/// new one.
pub open spec fn recursored(st: Step, spot: Spot, window: u32) -> Step {
    let (s, d) = st;
    let shape = cursor_at(s.resources, s.root(), spot.window, spot.x, spot.y);
    if shape == d.last_cursor_type {
        st
    } else {
        (
            match native_handle(s.resources, window, MAX_ASCENT as nat) {
                Some(handle) => s.showing(
                    DisplayModel::SetWindowCursor { handle, cursor_type: shape },
                ),
                None => s,
            },
            DispatcherModel { last_cursor_type: shape, ..d },
        )
    }
}

fn recursor(server: &mut XServer, d: &mut Dispatcher, spot: Spot, window: Xid)
    ensures
        (final(server)@, final(d)@) == recursored((old(server)@, old(d)@), spot, window),
{
    let shape: u8 = determine_cursor(server, spot.window, spot.x, spot.y);
    if shape != d.last_cursor_type {
        d.last_cursor_type = shape;
        if let Some(handle) = find_native_handle_for_event(server, window) {
            server.show(DisplayCommand::SetWindowCursor { handle, cursor_type: shape });
        }
    }
}

/// Whether a button is the scroll wheel.
pub open spec fn is_wheel(button: u8) -> bool {
    button >= 4
}

/// A dispatcher after a button went down: the first one makes its window the
/// grab window.
pub open spec fn grabbed(d: DispatcherModel, spot: Spot, p: Pointing) -> DispatcherModel {
    let held = if d.buttons_pressed == 0 {
        DispatcherModel {
            grab_window: spot.window,
            grab_offset_x: p.x.wrapping_sub(spot.x),
            grab_offset_y: p.y.wrapping_sub(spot.y),
            ..d
        }
    } else {
        d
    };
    DispatcherModel { buttons_pressed: d.buttons_pressed.saturating_add(1), ..held }
}

/// The state after a button press.
pub open spec fn button_pressed(st: Step, button: u8, p: Pointing) -> Step {
    let (s, d) = st;
    let spot = press_spot(s, p);
    let (s1, d1) = if is_wheel(button) {
        st
    } else {
        let entered = crossed((s, grabbed(d, spot, p)), spot, p);
        recursored(refocused(entered, spot.window), spot, p.window)
    };
    (
        button_told(
            s1,
            event_type::BUTTON_PRESS,
            spot.window,
            button,
            spot.x,
            spot.y,
            p.root_x,
            p.root_y,
            p.state,
            p.time,
        ),
        d1,
    )
}

/// Handles a button press.
pub fn on_button_press(server: &mut XServer, d: &mut Dispatcher, button: u8, p: Pointing)
    ensures
        (final(server)@, final(d)@) == button_pressed((old(server)@, old(d)@), button, p),
{
    let spot = find_press_spot(server, p);
    if button < 4 {
        if d.buttons_pressed == 0 {
            d.grab_window = spot.window;
            d.grab_offset_x = p.x.wrapping_sub(spot.x);
            d.grab_offset_y = p.y.wrapping_sub(spot.y);
        }
        d.buttons_pressed = d.buttons_pressed.saturating_add(1);
        cross(server, d, spot, p);
        refocus(server, d, spot.window);
        recursor(server, d, spot, p.window);
    }
    send_button_event(
        server,
        event_type::BUTTON_PRESS,
        spot.window,
        button,
        spot.x,
        spot.y,
        p.root_x,
        p.root_y,
        p.state,
        p.time,
    );
}

/// The pointer in the coordinates of the grab window.
pub open spec fn grab_spot(d: DispatcherModel, p: Pointing) -> Spot {
    Spot {
        window: d.grab_window,
        x: p.x.wrapping_sub(d.grab_offset_x),
        y: p.y.wrapping_sub(d.grab_offset_y),
    }
}

/// A dispatcher after a button came up: with the last one the grab ends.
pub open spec fn let_go(d: DispatcherModel) -> DispatcherModel {
    let left = d.buttons_pressed.saturating_sub(1);
    DispatcherModel {
        buttons_pressed: left,
        grab_window: if left == 0 {
            0
        } else {
            d.grab_window
        },
        ..d
    }
}

/// The state after a button release. The grab window gets it; the scroll wheel
/// goes by where the pointer is.
pub open spec fn button_released(st: Step, button: u8, p: Pointing) -> Step {
    let (s, d) = st;
    let spot = if !is_wheel(button) && d.grab_window != 0 {
        grab_spot(d, p)
    } else {
        spot_under(s, p)
    };
    (
        button_told(
            s,
            event_type::BUTTON_RELEASE,
            spot.window,
            button,
            spot.x,
            spot.y,
            p.root_x,
            p.root_y,
            p.state,
            p.time,
        ),
        if is_wheel(button) {
            d
        } else {
            let_go(d)
        },
    )
}

fn find_grab_spot(d: &Dispatcher, p: Pointing) -> (r: Spot)
    ensures
        r == grab_spot(d@, p),
{
    Spot {
        window: d.grab_window,
        x: p.x.wrapping_sub(d.grab_offset_x),
        y: p.y.wrapping_sub(d.grab_offset_y),
    }
}

/// Handles a button release.
pub fn on_button_release(server: &mut XServer, d: &mut Dispatcher, button: u8, p: Pointing)
    ensures
        (final(server)@, final(d)@) == button_released((old(server)@, old(d)@), button, p),
{
    let spot = if button < 4 && d.grab_window != 0 {
        find_grab_spot(d, p)
    } else {
        find_spot(server, p)
    };
    send_button_event(
        server,
        event_type::BUTTON_RELEASE,
        spot.window,
        button,
        spot.x,
        spot.y,
        p.root_x,
        p.root_y,
        p.state,
        p.time,
    );
    if button < 4 {
        d.buttons_pressed = d.buttons_pressed.saturating_sub(1);
        if d.buttons_pressed == 0 {
            d.grab_window = 0;
        }
    }
}

/// The buttons among the bits of an event's state.
pub const ALL_BUTTONS: u16 = 0x1F00;

/// A dispatcher that gave up a grab whose buttons are all up.
pub open spec fn watched(d: DispatcherModel, state: u16) -> DispatcherModel {
    if d.grab_window != 0 && state & ALL_BUTTONS == 0 {
        DispatcherModel { grab_window: 0, buttons_pressed: 0, ..d }
    } else {
        d
    }
}

/// The state after the scroll wheel turned a number of clicks.
pub open spec fn wheel_turned(s: ServerModel, button: u8, spot: Spot, p: Pointing, clicks: nat) -> ServerModel
    decreases clicks,
{
    if clicks == 0 {
        s
    } else {
        let before = wheel_turned(s, button, spot, p, (clicks - 1) as nat);
        let state = p.state & !0x100u16;
        let down = button_told(
            before,
            event_type::BUTTON_PRESS,
            spot.window,
            button,
            spot.x,
            spot.y,
            p.root_x,
            p.root_y,
            state,
            p.time,
        );
        button_told(
            down,
            event_type::BUTTON_RELEASE,
            spot.window,
            button,
            spot.x,
            spot.y,
            p.root_x,
            p.root_y,
            state,
            p.time,
        )
    }
}

fn turn_wheel(server: &mut XServer, button: u8, spot: Spot, p: Pointing, clicks: u32)
    ensures
        final(server)@ == wheel_turned(old(server)@, button, spot, p, clicks as nat),
{
    let state: u16 = p.state & !0x100u16;
    let ghost start = server@;
    for i in 0..clicks
        invariant
            state == p.state & !0x100u16,
            server@ == wheel_turned(start, button, spot, p, i as nat),
    {
        send_button_event(
            server,
            event_type::BUTTON_PRESS,
            spot.window,
            button,
            spot.x,
            spot.y,
            p.root_x,
            p.root_y,
            state,
            p.time,
        );
        send_button_event(
            server,
            event_type::BUTTON_RELEASE,
            spot.window,
            button,
            spot.x,
            spot.y,
            p.root_x,
            p.root_y,
            state,
            p.time,
        );
    }
}

/// How many clicks the wheel turns for a pointer that far outside: one for
/// every ten pixels, from one to three. Distances count modulo 2^16.
pub open spec fn clicks_for(distance: i16) -> nat {
    if distance < 0 {
        if distance > -10 {
            1
        } else {
            3
        }
    } else if distance / 10 + 1 < 3 {
        (distance / 10 + 1) as nat
    } else {
        3
    }
}

fn count_clicks(distance: i16) -> (r: u32)
    ensures
        r == clicks_for(distance),
{
    if distance < 0 {
        if distance > -10 {
            1
        } else {
            3
        }
    } else if distance < 10 {
        1
    } else if distance < 20 {
        2
    } else {
        3
    }
}

/// The height of the grab window, or a large one where it is gone.
pub open spec fn grab_height(s: ServerModel, window: u32) -> i16 {
    match s.window(window) {
        Some(w) => signed16(w.height),
        None => 10000,
    }
}

/// The state after a drag beyond the top or bottom of the grab window, and
/// whether that scrolled it. Scrolling waits until it is due again.
pub open spec fn autoscrolled(s: ServerModel, spot: Spot, p: Pointing, due: bool) -> (ServerModel, bool) {
    let height = grab_height(s, spot.window);
    if spot.y < 0 && due {
        (
            wheel_turned(
                s,
                4,
                Spot { y: 0, ..spot },
                p,
                clicks_for(0i16.wrapping_sub(spot.y)),
            ),
            true,
        )
    } else if spot.y > height && due {
        (
            wheel_turned(
                s,
                5,
                Spot { y: height, ..spot },
                p,
                clicks_for(spot.y.wrapping_sub(height)),
            ),
            true,
        )
    } else {
        (s, false)
    }
}

fn autoscroll(server: &mut XServer, spot: Spot, p: Pointing, due: bool) -> (r: bool)
    ensures
        (final(server)@, r) == autoscrolled(old(server)@, spot, p, due),
{
    let height: i16 = match server.window(spot.window) {
        Some(w) => to_signed16(w.height),
        None => 10000,
    };
    if spot.y < 0 && due {
        let clicks: u32 = count_clicks(0i16.wrapping_sub(spot.y));
        turn_wheel(server, 4, Spot { window: spot.window, x: spot.x, y: 0 }, p, clicks);
        true
    } else if spot.y > height && due {
        let clicks: u32 = count_clicks(spot.y.wrapping_sub(height));
        turn_wheel(server, 5, Spot { window: spot.window, x: spot.x, y: height }, p, clicks);
        true
    } else {
        false
    }
}

/// The state after pointer motion, and whether it scrolled the grab window.
pub open spec fn moved(st: Step, p: Pointing, due: bool) -> (ServerModel, DispatcherModel, bool) {
    let (s0, d0) = st;
    let s = ServerModel { pointer_x: p.root_x as i32, pointer_y: p.root_y as i32, ..s0 };
    let d = watched(d0, p.state);
    let (spot, (s1, scrolled)) = if d.grab_window != 0 {
        (grab_spot(d, p), autoscrolled(s, grab_spot(d, p), p, due))
    } else {
        (spot_under(s, p), (s, false))
    };
    let s2 = ServerModel {
        window_pointer: s1.window_pointer.insert(p.window, (p.x, p.y)),
        ..s1
    };
    let (s3, d3) = recursored(crossed((s2, d), spot, p), spot, p.window);
    (
        motion_told(s3, spot.window, spot.x, spot.y, p.root_x, p.root_y, p.state, p.time),
        d3,
        scrolled,
    )
}

/// Handles pointer motion; `due` says whether enough time has passed since a
/// drag last scrolled. The result says whether this one did.
pub fn on_motion(server: &mut XServer, d: &mut Dispatcher, p: Pointing, due: bool) -> (r: bool)
    ensures
        (final(server)@, final(d)@, r) == moved((old(server)@, old(d)@), p, due),
{
    server.pointer_x = p.root_x as i32;
    server.pointer_y = p.root_y as i32;
    if d.grab_window != 0 && p.state & ALL_BUTTONS == 0 {
        d.grab_window = 0;
        d.buttons_pressed = 0;
    }
    let mut scrolled: bool = false;
    let spot = if d.grab_window != 0 {
        let spot = find_grab_spot(d, p);
        scrolled = autoscroll(server, spot, p, due);
        spot
    } else {
        find_spot(server, p)
    };
    tables::put_position(&mut server.window_pointer, p.window, (p.x, p.y));
    cross(server, d, spot, p);
    recursor(server, d, spot, p.window);
    send_motion_event(server, spot.window, spot.x, spot.y, p.root_x, p.root_y, p.state, p.time);
    scrolled
}

proof fn lemma_wheel_frame(s: ServerModel, button: u8, spot: Spot, p: Pointing, clicks: nat)
    ensures
        wheel_turned(s, button, spot, p, clicks) == (ServerModel {
            outbox: wheel_turned(s, button, spot, p, clicks).outbox,
            ..s
        }),
    decreases clicks,
{
    if clicks > 0 {
        lemma_wheel_frame(s, button, spot, p, (clicks - 1) as nat);
    }
}

proof fn lemma_crossing_frame(s: ServerModel, kind: u8, window: u32, x: i16, y: i16, p: Pointing)
    ensures
        ({
            let t = crossing_told(s, kind, window, x, y, p.root_x, p.root_y, p.state, p.time);
            t == ServerModel { outbox: t.outbox, ..s }
        }),
{
    law_telling_queues_events_only(
        s,
        window,
        if kind == event_type::ENTER_NOTIFY {
            event_mask::ENTER_WINDOW
        } else {
            event_mask::LEAVE_WINDOW
        },
        Notice::Crossing {
            kind,
            window,
            x,
            y,
            root_x: p.root_x,
            root_y: p.root_y,
            state: p.state,
            time: p.time,
        },
    );
}

/// Pointer motion changes where the pointer is, on the screen and in its window;
/// for the rest it only queues actions.
pub proof fn law_motion_moves_the_pointer(st: Step, p: Pointing, due: bool)
    ensures
        ({
            let t = moved(st, p, due).0;
            t == ServerModel {
                pointer_x: p.root_x as i32,
                pointer_y: p.root_y as i32,
                window_pointer: st.0.window_pointer.insert(p.window, (p.x, p.y)),
                outbox: t.outbox,
                ..st.0
            }
        }),
{
    let (s0, d0) = st;
    let s = ServerModel { pointer_x: p.root_x as i32, pointer_y: p.root_y as i32, ..s0 };
    let d = watched(d0, p.state);
    let spot = if d.grab_window != 0 {
        grab_spot(d, p)
    } else {
        spot_under(s, p)
    };
    let height = grab_height(s, spot.window);
    lemma_wheel_frame(s, 4, Spot { y: 0, ..spot }, p, clicks_for(0i16.wrapping_sub(spot.y)));
    lemma_wheel_frame(s, 5, Spot { y: height, ..spot }, p, clicks_for(spot.y.wrapping_sub(height)));
    let s1 = if d.grab_window != 0 {
        autoscrolled(s, spot, p, due).0
    } else {
        s
    };
    let s2 = ServerModel {
        window_pointer: s1.window_pointer.insert(p.window, (p.x, p.y)),
        ..s1
    };
    lemma_crossing_frame(s2, event_type::LEAVE_NOTIFY, d.entered_window, 0, 0, p);
    let left = if d.entered_window != 0 {
        crossing_told(
            s2,
            event_type::LEAVE_NOTIFY,
            d.entered_window,
            0,
            0,
            p.root_x,
            p.root_y,
            p.state,
            p.time,
        )
    } else {
        s2
    };
    lemma_crossing_frame(left, event_type::ENTER_NOTIFY, spot.window, spot.x, spot.y, p);
}

/// From the first button's press to the last one's release, every release goes
/// to the window that was pressed.
pub proof fn law_grab_lasts(d: DispatcherModel, spot: Spot, p: Pointing)
    requires
        d.buttons_pressed == 0,
    ensures
        grabbed(d, spot, p).grab_window == spot.window,
        grabbed(d, spot, p).buttons_pressed == 1,
        grab_spot(grabbed(d, spot, p), p) == spot,
        let_go(grabbed(d, spot, p)).grab_window == 0,
        let_go(grabbed(d, spot, p)).buttons_pressed == 0,
{
}

/// A second button neither moves the grab nor, when it comes up, ends it.
pub proof fn law_second_button_keeps_grab(d: DispatcherModel, spot: Spot, p: Pointing)
    requires
        0 < d.buttons_pressed < 255,
    ensures
        let_go(grabbed(d, spot, p)) == d,
{
}

/// Motion with no button down never leaves a grab standing.
pub proof fn law_no_stuck_grab(d: DispatcherModel, state: u16)
    requires
        state & ALL_BUTTONS == 0,
    ensures
        watched(d, state).grab_window == 0,
{
}

} // verus!
