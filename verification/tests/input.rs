use pslxserver::display::{DisplayCommand, DisplayEvent, NativeWindowHandle};
use pslxserver::server::delivery::find_conn_for_window;
use pslxserver::server::dispatch::dispatch_event;
use pslxserver::server::ime::{
    ascii_to_x11_keycode, begin_batch, finish_batch, mapping_wait_step, needs_shift, next_batch,
    preedit_display_cols, send_backspaces, start_text, WaitStep,
};
use pslxserver::server::input::Dispatcher;
use pslxserver::server::mapping::finish_map_window;
use pslxserver::server::requests::{process_request, Pending};
use pslxserver::server::search::{
    determine_cursor, find_child_at_point, find_deepest_child, find_native_handle_for_event,
    find_toplevel, window_is_xterm,
};
use pslxserver::server::sessions::accept_connection;
use pslxserver::server::{Action, XServer};

fn words(ws: &[u32]) -> Vec<u8> {
    let mut r = Vec::new();
    for w in ws {
        r.extend_from_slice(&w.to_le_bytes());
    }
    r
}

fn req(opcode: u8, detail: u8, body: &[u8]) -> Vec<u8> {
    let mut r = vec![opcode, detail];
    r.extend_from_slice(&((1 + body.len() / 4) as u16).to_le_bytes());
    r.extend_from_slice(body);
    r
}

fn word_at(b: &[u8], at: usize) -> u32 {
    u32::from_le_bytes([b[at], b[at + 1], b[at + 2], b[at + 3]])
}

fn half_at(b: &[u8], at: usize) -> u16 {
    u16::from_le_bytes([b[at], b[at + 1]])
}

fn create(s: &mut XServer, id: u32, parent: u32, x: i16, y: i16, w: u16, h: u16, mask: u32) {
    let mut body = words(&[id, parent]);
    for v in [x as u16, y as u16, w, h, 0, 1] {
        body.extend_from_slice(&v.to_le_bytes());
    }
    body.extend_from_slice(&words(&[0, 1 << 11, mask]));
    assert_eq!(process_request(s, 1, &req(1, 24, &body)), Some(Pending::Nothing));
}

const TOP: u32 = 0x200001;
const INNER: u32 = 0x200002;

/// A native window with one mapped child at (10, 20), 50 by 40.
fn server(mask: u32) -> XServer {
    let mut s = XServer::new(0, 1024, 768, 0);
    accept_connection(&mut s, 1, &[0x6C, 0, 11, 0, 0, 0, 0, 0, 0, 0, 0, 0]).unwrap();
    create(&mut s, TOP, 1, 100, 100, 300, 200, mask);
    create(&mut s, INNER, TOP, 10, 20, 50, 40, mask);
    process_request(&mut s, 1, &req(8, 0, &words(&[TOP])));
    let conn = s.connection(1).unwrap();
    finish_map_window(&mut s, &conn, TOP, false, Some(NativeWindowHandle { id: 5 }));
    process_request(&mut s, 1, &req(8, 0, &words(&[INNER])));
    s.take_actions();
    s
}

fn events(s: &mut XServer) -> Vec<Vec<u8>> {
    s.take_actions()
        .into_iter()
        .filter_map(|a| match a {
            Action::Event { conn, data } => {
                assert_eq!(conn, 1);
                Some(data.as_slice().to_vec())
            },
            _ => None,
        })
        .collect()
}

fn replies(s: &mut XServer) -> Vec<Vec<u8>> {
    s.take_actions()
        .into_iter()
        .filter_map(|a| match a {
            Action::Reply { data, .. } => Some(data),
            _ => None,
        })
        .collect()
}

fn press(s: &mut XServer, d: &mut Dispatcher, button: u8, x: i16, y: i16) {
    let e = DisplayEvent::ButtonPress {
        window: TOP,
        button,
        x,
        y,
        root_x: 100 + x,
        root_y: 100 + y,
        state: 0,
        time: 77,
    };
    dispatch_event(s, d, e, false);
}

fn release(s: &mut XServer, d: &mut Dispatcher, button: u8, x: i16, y: i16) {
    let e = DisplayEvent::ButtonRelease {
        window: TOP,
        button,
        x,
        y,
        root_x: 100 + x,
        root_y: 100 + y,
        state: 0x100,
        time: 78,
    };
    dispatch_event(s, d, e, false);
}

#[test]
fn children_are_found_by_position() {
    let s = server(0);
    assert_eq!(find_child_at_point(&s, TOP, 15, 25), (INNER, 5, 5));
    assert_eq!(find_child_at_point(&s, TOP, 5, 5), (TOP, 5, 5));
    assert_eq!(find_toplevel(&s, INNER), TOP);
    assert_eq!(find_deepest_child(&s, TOP), INNER);
    assert_eq!(find_native_handle_for_event(&s, INNER).map(|h| h.id), Some(5));
    assert_eq!(find_conn_for_window(&s, INNER), Some(1));
    assert!(!window_is_xterm(&s, TOP));
}

#[test]
fn buttons_reach_the_window_under_the_pointer() {
    let mut s = server((1 << 2) | (1 << 3));
    let mut d = Dispatcher::new();
    press(&mut s, &mut d, 1, 15, 25);
    let sent: Vec<Vec<u8>> = events(&mut s).into_iter().filter(|e| e[0] == 4).collect();
    assert_eq!(sent.len(), 1);
    let e = &sent[0];
    assert_eq!(e[1], 1);
    assert_eq!(word_at(e, 12), INNER);
    assert_eq!(half_at(e, 24), 5);
    assert_eq!(half_at(e, 26), 5);
    assert_eq!(d.grab_window, INNER);
    assert_eq!(d.buttons_pressed, 1);
    // the grab keeps the window while a button is down
    press(&mut s, &mut d, 3, 200, 150);
    assert_eq!(d.grab_window, INNER);
    release(&mut s, &mut d, 3, 200, 150);
    assert_eq!(d.grab_window, INNER);
    release(&mut s, &mut d, 1, 200, 150);
    assert_eq!(d.grab_window, 0);
    assert_eq!(d.buttons_pressed, 0);
    let released: Vec<Vec<u8>> = events(&mut s).into_iter().filter(|e| e[0] == 5).collect();
    assert_eq!(released.len(), 2);
    assert_eq!(word_at(&released[1], 12), INNER);
}

#[test]
fn motion_is_sent_to_those_who_asked() {
    let mut s = server(1 << 6);
    let mut d = Dispatcher::new();
    let motion = |x: i16, y: i16| DisplayEvent::MotionNotify {
        window: TOP,
        x,
        y,
        root_x: 100 + x,
        root_y: 100 + y,
        state: 0,
        time: 5,
    };
    dispatch_event(&mut s, &mut d, motion(12, 22), false);
    let sent: Vec<Vec<u8>> = events(&mut s).into_iter().filter(|e| e[0] == 6).collect();
    assert_eq!(sent.len(), 1);
    assert_eq!(word_at(&sent[0], 12), INNER);
    assert_eq!(s.pointer_x, 112);
    let mut quiet = server(0);
    dispatch_event(&mut quiet, &mut d, motion(12, 22), false);
    assert!(events(&mut quiet).iter().all(|e| e[0] != 6));
}

#[test]
fn keys_follow_the_focus() {
    let mut s = server(1 | 2);
    let mut d = Dispatcher::new();
    dispatch_event(&mut s, &mut d, DisplayEvent::FocusIn { window: TOP }, false);
    assert_eq!(s.focus_window, TOP);
    s.take_actions();
    let key = DisplayEvent::KeyPress { window: TOP, keycode: 8, state: 1, time: 9 };
    dispatch_event(&mut s, &mut d, key, false);
    let sent = events(&mut s);
    assert_eq!(sent.len(), 1);
    assert_eq!(&sent[0][0..2], &[2, 8]);
    assert_eq!(word_at(&sent[0], 4), 9);
    assert_eq!(half_at(&sent[0], 28), 1);
    s.focus_window = 0;
    let key = DisplayEvent::KeyRelease { window: TOP, keycode: 8, state: 1, time: 9 };
    dispatch_event(&mut s, &mut d, key, false);
    assert!(events(&mut s).is_empty());
}

#[test]
fn exposures_go_down_the_tree() {
    let mut s = server(1 << 15);
    let mut d = Dispatcher::new();
    let e = DisplayEvent::Expose { window: TOP, x: 1, y: 2, width: 30, height: 40, count: 0 };
    dispatch_event(&mut s, &mut d, e, false);
    let sent = events(&mut s);
    assert_eq!(sent.len(), 2);
    assert_eq!(sent[0][0], 12);
    assert_eq!(word_at(&sent[0], 4), TOP);
    assert_eq!(half_at(&sent[0], 12), 30);
    assert_eq!(word_at(&sent[1], 4), INNER);
    assert_eq!(half_at(&sent[1], 12), 50);
    assert_eq!(half_at(&sent[1], 14), 40);
}

#[test]
fn native_resizes_are_told() {
    let mut s = server((1 << 17) | (1 << 15));
    let mut d = Dispatcher::new();
    let e = DisplayEvent::ConfigureNotify { window: TOP, x: 7, y: 8, width: 640, height: 480 };
    dispatch_event(&mut s, &mut d, e, false);
    let w = s.window(TOP).unwrap();
    assert_eq!((w.x, w.y, w.width, w.height), (7, 8, 640, 480));
    let c = s.window(INNER).unwrap();
    assert_eq!((c.width, c.height), (640, 480));
    let sent = events(&mut s);
    assert_eq!(sent.iter().filter(|e| e[0] == 22).count(), 2);
    assert_eq!(sent.iter().filter(|e| e[0] == 12).count(), 2);
}

#[test]
fn pointer_positions_without_a_window() {
    let mut s = server(0);
    let mut d = Dispatcher::new();
    dispatch_event(
        &mut s,
        &mut d,
        DisplayEvent::GlobalPointerUpdate { root_x: 500, root_y: -4 },
        false,
    );
    assert_eq!((s.pointer_x, s.pointer_y), (500, -4));
}

#[test]
fn clipboard_owner_is_asked() {
    let mut s = server(0);
    let mut d = Dispatcher::new();
    dispatch_event(&mut s, &mut d, DisplayEvent::ClipboardCopyRequest { window: TOP }, false);
    assert!(events(&mut s).is_empty());
    process_request(&mut s, 1, &req(22, 0, &words(&[INNER, 1, 0])));
    dispatch_event(&mut s, &mut d, DisplayEvent::ClipboardCopyRequest { window: TOP }, false);
    let sent = events(&mut s);
    assert_eq!(sent.len(), 1);
    assert_eq!(sent[0][0], 30);
    assert_eq!(word_at(&sent[0], 8), INNER);
    assert!(s.pending_clipboard_copy);
    // the owner answers by a property of the root window
    let name = word_at(&sent[0], 24);
    let mut body = words(&[1, name, 31]);
    body.extend_from_slice(&[8, 0, 0, 0]);
    body.extend_from_slice(&words(&[4]));
    body.extend_from_slice("\u{e9}ab".as_bytes());
    process_request(&mut s, 1, &req(18, 0, &body));
    let copied = s.take_actions().into_iter().any(|a| match a {
        Action::Clipboard { text } => text == "\u{e9}ab",
        _ => false,
    });
    assert!(copied);
    assert!(!s.pending_clipboard_copy);
}

#[test]
fn columns_of_composed_text() {
    assert_eq!(preedit_display_cols(""), 0);
    assert_eq!(preedit_display_cols("abc"), 3);
    assert_eq!(preedit_display_cols("\u{3042}\u{6f22}"), 4);
    assert_eq!(preedit_display_cols("a\u{301}"), 1);
}

#[test]
fn keys_for_characters() {
    assert_eq!(ascii_to_x11_keycode('a' as u32), ascii_to_x11_keycode('A' as u32));
    assert_ne!(ascii_to_x11_keycode('a' as u32), ascii_to_x11_keycode('b' as u32));
    assert_eq!(ascii_to_x11_keycode(0x0D), 36);
    assert!(needs_shift('A'));
    assert!(needs_shift('?'));
    assert!(!needs_shift('a'));
    assert!(!needs_shift('/'));
}

#[test]
fn batches_of_keys() {
    let plain: Vec<char> = "aB".chars().collect();
    let b = next_batch(&plain, 0);
    assert_eq!(b.end, 2);
    assert!(b.keysyms.is_empty());
    assert_eq!(b.keys.len(), 2);
    assert_eq!(b.keys[1].1, 1);
    let kana: Vec<char> = "\u{3042}\u{3044}\u{3042}".chars().collect();
    let b = next_batch(&kana, 0);
    assert_eq!(b.end, 3);
    assert_eq!(b.keysyms.len(), 2);
    assert_eq!(b.keysyms[0], 0x01003042);
    assert_eq!(b.keys[0].0, b.keys[2].0);
}

#[test]
fn text_is_typed() {
    let mut s = server(1 | 2);
    s.focus_window = TOP;
    let text: Vec<char> = "\u{3042}x".chars().collect();
    let mut job = start_text(&s, TOP, &text).unwrap();
    let (keys, wait) = begin_batch(&mut s, &mut job);
    assert!(wait);
    assert_eq!(keys.len(), 2);
    let told = events(&mut s);
    assert!(told.iter().any(|e| e[0] == 34));
    assert!(s.virtual_keysyms.contains(&0x01003042));
    finish_batch(&mut s, &job, &keys);
    let sent = events(&mut s);
    assert_eq!(sent.iter().map(|e| e[0]).collect::<Vec<u8>>(), vec![2, 3, 2, 3]);
    assert_eq!(sent[0][1], 200);
    assert_eq!(job.at, 2);
    // the first lent keycode has the character's keysym
    process_request(&mut s, 1, &req(101, 0, &[200, 1, 0, 0]));
    let told: Vec<Vec<u8>> = replies(&mut s);
    assert_eq!(word_at(&told[0], 32), 0x01003042);
}

fn draw(text: &str) -> DisplayEvent {
    DisplayEvent::ImePreeditDraw { window: TOP, text: text.to_string() }
}

#[test]
fn composition_is_typed_into_xterm_alone() {
    let mut s = server(1 | 2);
    let mut d = Dispatcher::new();
    s.focus_window = TOP;
    let f = dispatch_event(&mut s, &mut d, draw("ka"), false);
    assert!(f.text.is_none());
    assert!(!d.preedit_injected);
    assert!(events(&mut s).is_empty());
    let mut class = words(&[TOP, 67, 31]);
    class.extend_from_slice(&[8, 0, 0, 0, 12, 0, 0, 0]);
    class.extend_from_slice(b"xterm\0XTerm\0");
    process_request(&mut s, 1, &req(18, 0, &class));
    assert!(window_is_xterm(&s, INNER));
    s.take_actions();
    let mut d = Dispatcher::new();
    let f = dispatch_event(&mut s, &mut d, draw("ka"), false);
    assert_eq!(f.text.unwrap().chars, vec!['k', 'a']);
    assert!(d.preedit_injected);
    assert_eq!(d.preedit_char_count, 2);
    s.take_actions();
    // what is not a longer text replaces what was typed
    let f = dispatch_event(&mut s, &mut d, draw("o"), false);
    let erased = events(&mut s);
    assert_eq!(erased.len(), 4);
    assert!(erased.iter().all(|e| e[1] == 59));
    assert_eq!(f.text.unwrap().chars, vec!['o']);
}

#[test]
fn backspaces_are_typed() {
    let mut s = server(1 | 2);
    s.focus_window = TOP;
    send_backspaces(&mut s, TOP, 3);
    let sent = events(&mut s);
    assert_eq!(sent.len(), 6);
    assert!(sent.iter().all(|e| e[1] == 59));
    s.focus_window = 0;
    send_backspaces(&mut s, TOP, 3);
    assert!(events(&mut s).is_empty());
}

#[test]
fn composed_text_is_committed() {
    let mut s = server(1 | 2);
    let mut d = Dispatcher::new();
    s.focus_window = TOP;
    let f = dispatch_event(
        &mut s,
        &mut d,
        DisplayEvent::ImeCommit { window: TOP, text: "ok".to_string() },
        false,
    );
    let mut job = f.text.unwrap();
    assert_eq!(job.chars, vec!['o', 'k']);
    let (keys, wait) = begin_batch(&mut s, &mut job);
    assert!(!wait);
    finish_batch(&mut s, &job, &keys);
    assert_eq!(events(&mut s).len(), 4);
}

#[test]
fn cursors_follow_the_pointer() {
    let mut s = server(0);
    let mut w = s.window(INNER).unwrap();
    w.cursor = 0x200030;
    s.resources.insert(INNER, pslxserver::server::resources::Resource::Window(w));
    let mut d = Dispatcher::new();
    let e = DisplayEvent::MotionNotify {
        window: TOP,
        x: 30,
        y: 40,
        root_x: 130,
        root_y: 140,
        state: 0,
        time: 5,
    };
    dispatch_event(&mut s, &mut d, e, false);
    for a in s.take_actions() {
        if let Action::Display(DisplayCommand::SetWindowCursor { handle, .. }) = a {
            assert_eq!(handle.id, 5);
        }
    }
}

#[test]
fn pointer_is_told_in_its_window() {
    let mut s = server(0);
    let mut d = Dispatcher::new();
    let e = DisplayEvent::MotionNotify {
        window: TOP,
        x: 30,
        y: 40,
        root_x: 130,
        root_y: 140,
        state: 0,
        time: 5,
    };
    dispatch_event(&mut s, &mut d, e, false);
    s.take_actions();
    process_request(&mut s, 1, &req(38, 0, &words(&[TOP])));
    let r = replies(&mut s);
    assert_eq!((half_at(&r[0], 16), half_at(&r[0], 18)), (130, 140));
    assert_eq!((half_at(&r[0], 20), half_at(&r[0], 22)), (30, 40));
}

#[test]
fn grabs_come_and_go() {
    let mut s = server(0);
    let mut body = words(&[INNER]);
    body.extend_from_slice(&[4, 0, 1, 1]);
    body.extend_from_slice(&words(&[0, 0, 0]));
    process_request(&mut s, 1, &req(26, 1, &body));
    assert_eq!(s.pointer_grab, Some((INNER, true, 4, 1)));
    assert_eq!(replies(&mut s)[0][1], 0);
    process_request(&mut s, 1, &req(27, 0, &words(&[0])));
    assert_eq!(s.pointer_grab, None);
    assert!(s.take_actions().is_empty());
}

#[test]
fn edges_resize_containers_alone() {
    let s = server(0);
    // the top-level window has edges; the leaf inside it has none
    assert_ne!(determine_cursor(&s, TOP, 0, 100), 0);
    assert_eq!(determine_cursor(&s, INNER, 0, 20), 0);
}

#[test]
fn waiting_for_the_mapping_ends() {
    assert_eq!(mapping_wait_step(Some(1), Some(1), false), WaitStep::Pause);
    assert_eq!(mapping_wait_step(Some(1), Some(1), true), WaitStep::LastPause);
    assert_eq!(mapping_wait_step(Some(1), Some(2), false), WaitStep::Done);
    assert_eq!(mapping_wait_step(Some(1), Some(2), true), WaitStep::Done);
    assert_eq!(mapping_wait_step(Some(1), None, false), WaitStep::Done);
    assert_eq!(mapping_wait_step(None, None, false), WaitStep::Pause);
}
