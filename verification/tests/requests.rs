use pslxserver::display::{DisplayCommand, NativeWindowHandle, RenderCommand};
use pslxserver::server::pixels::finish_get_image;
use pslxserver::server::requests::{check_request, process_request, Pending};
use pslxserver::server::resources::Resource;
use pslxserver::server::sessions::{accept_connection, announce_xim, disconnect, stamp_event};
use pslxserver::server::connection::EventData;
use pslxserver::server::mapping::finish_map_window;
use pslxserver::server::{Action, ServerError, XServer};

fn setup(order: u8) -> Vec<u8> {
    vec![order, 0, 11, 0, 0, 0, 0, 0, 0, 0, 0, 0]
}

fn server() -> XServer {
    let mut s = XServer::new(0, 1024, 768, 1000);
    accept_connection(&mut s, 1, &setup(0x6C)).unwrap();
    s.take_actions();
    s
}

fn req(opcode: u8, detail: u8, body: &[u8]) -> Vec<u8> {
    assert_eq!(body.len() % 4, 0);
    let mut r = vec![opcode, detail];
    r.extend_from_slice(&((1 + body.len() / 4) as u16).to_le_bytes());
    r.extend_from_slice(body);
    r
}

fn words(ws: &[u32]) -> Vec<u8> {
    let mut r = Vec::new();
    for w in ws {
        r.extend_from_slice(&w.to_le_bytes());
    }
    r
}

fn word_at(b: &[u8], at: usize) -> u32 {
    u32::from_le_bytes([b[at], b[at + 1], b[at + 2], b[at + 3]])
}

fn half_at(b: &[u8], at: usize) -> u16 {
    u16::from_le_bytes([b[at], b[at + 1]])
}

fn send(s: &mut XServer, r: &[u8]) -> Vec<Action> {
    assert_eq!(process_request(s, 1, r), Some(Pending::Nothing));
    s.take_actions()
}

fn ask(s: &mut XServer, r: &[u8]) -> Vec<u8> {
    let mut actions = send(s, r);
    assert_eq!(actions.len(), 1);
    match actions.pop().unwrap() {
        Action::Reply { conn, data } => {
            assert_eq!(conn, 1);
            if data[0] == 1 {
                assert_eq!(data.len(), 32 + 4 * word_at(&data, 4) as usize);
            }
            data
        },
        other => panic!("{:?}", other),
    }
}

fn create_window(s: &mut XServer, id: u32, parent: u32, x: i16, y: i16, w: u16, h: u16) {
    let mut body = words(&[id, parent]);
    for v in [x as u16, y as u16, w, h, 0, 1] {
        body.extend_from_slice(&v.to_le_bytes());
    }
    body.extend_from_slice(&words(&[0, 0]));
    assert!(send(s, &req(1, 24, &body)).is_empty());
}

fn children(s: &mut XServer, id: u32) -> Vec<u32> {
    let reply = ask(s, &req(15, 0, &words(&[id])));
    let n = half_at(&reply, 16) as usize;
    (0..n).map(|i| word_at(&reply, 32 + 4 * i)).collect()
}

fn intern(s: &mut XServer, name: &str) -> u32 {
    let mut body = Vec::new();
    body.extend_from_slice(&(name.len() as u16).to_le_bytes());
    body.extend_from_slice(&[0, 0]);
    body.extend_from_slice(name.as_bytes());
    while body.len() % 4 != 0 {
        body.push(0);
    }
    let reply = ask(s, &req(16, 0, &body));
    word_at(&reply, 8)
}

fn change_property(s: &mut XServer, window: u32, name: u32, kind: u32, value: &[u8]) -> Vec<Action> {
    let mut body = words(&[window, name, kind]);
    body.extend_from_slice(&[8, 0, 0, 0]);
    body.extend_from_slice(&words(&[value.len() as u32]));
    body.extend_from_slice(value);
    while body.len() % 4 != 0 {
        body.push(0);
    }
    send(s, &req(18, 0, &body))
}

#[test]
fn handshake_little_endian() {
    let mut s = XServer::new(0, 1024, 768, 0);
    let c = accept_connection(&mut s, 7, &setup(0x6C)).unwrap();
    assert_eq!(c.id, 7);
    assert_eq!(c.resource_id_base, 0x00200000);
    assert_eq!(c.resource_id_mask, 0x001FFFFF);
    let actions = s.take_actions();
    assert_eq!(actions.len(), 1);
    match &actions[0] {
        Action::Reply { conn, data } => {
            assert_eq!(*conn, 7);
            assert_eq!(data.len(), 140);
            assert_eq!(data[0], 1);
            assert_eq!(half_at(data, 2), 11);
            assert_eq!(half_at(data, 6), 33);
            assert_eq!(word_at(data, 12), 0x00200000);
            assert_eq!(word_at(data, 16), 0x001FFFFF);
            assert_eq!(half_at(data, 24), 10);
            assert_eq!(&data[40..50], b"pslXserver");
            assert_eq!(word_at(data, 68), 1);
            assert_eq!(half_at(data, 88), 1024);
            assert_eq!(half_at(data, 90), 768);
            assert_eq!(word_at(data, 124), 0x00FF0000);
        },
        other => panic!("{:?}", other),
    }
}

#[test]
fn handshake_big_endian() {
    let mut s = XServer::new(0, 1024, 768, 0);
    accept_connection(&mut s, 1, &setup(0x42)).unwrap();
    match &s.take_actions()[0] {
        Action::Reply { data, .. } => {
            assert_eq!(&data[2..4], &[0, 11]);
            assert_eq!(&data[6..8], &[0, 33]);
            assert_eq!(&data[12..16], &[0x00, 0x20, 0, 0]);
        },
        other => panic!("{:?}", other),
    }
}

#[test]
fn handshake_refused() {
    let mut s = XServer::new(0, 1024, 768, 0);
    assert_eq!(accept_connection(&mut s, 1, &[0x6C; 11]).err(), Some(ServerError::Protocol));
    assert_eq!(accept_connection(&mut s, 1, &setup(0x58)).err(), Some(ServerError::Protocol));
    assert!(s.take_actions().is_empty());
    assert!(s.connections.is_empty());
    assert_eq!(s.next_resource_id_base, 0x00200000);
}

#[test]
fn two_clients_get_blocks_of_their_own() {
    let mut s = XServer::new(0, 1024, 768, 0);
    let a = accept_connection(&mut s, 1, &setup(0x6C)).unwrap();
    let b = accept_connection(&mut s, 2, &setup(0x42)).unwrap();
    assert_eq!(b.resource_id_base - a.resource_id_base, 0x00200000);
}

#[test]
fn unknown_request_is_answered_with_an_error() {
    let mut s = server();
    let reply = ask(&mut s, &req(200, 0, &[]));
    assert_eq!(reply.len(), 32);
    assert_eq!(&reply[0..4], &[0, 17, 1, 0]);
    assert_eq!(reply[8], 200);
    assert_eq!(reply[10], 200);
}

#[test]
fn short_request_is_answered_with_an_error() {
    let mut s = server();
    // CreateWindow without its fields
    let reply = ask(&mut s, &req(1, 0, &[]));
    assert_eq!(&reply[0..2], &[0, 1]);
    assert_eq!(reply[10], 1);
}

#[test]
fn missing_drawable_is_answered_with_an_error() {
    let mut s = server();
    let reply = ask(&mut s, &req(14, 0, &words(&[0x00200077])));
    assert_eq!(&reply[0..2], &[0, 9]);
}

#[test]
fn unreadable_request_ends_the_connection() {
    let mut s = server();
    // GetGeometry without a drawable cannot be read
    assert_eq!(process_request(&mut s, 1, &req(14, 0, &[])), None);
    assert!(s.take_actions().is_empty());
    assert_eq!(process_request(&mut s, 9, &req(14, 0, &words(&[1]))), None);
    let c = s.connection(1).unwrap();
    assert!(!check_request(&s, &c, &[14, 0]));
    assert!(check_request(&s, &c, &req(14, 0, &words(&[1]))));
}

#[test]
fn ignored_requests_change_nothing() {
    let mut s = server();
    for op in [5u8, 6, 11, 13, 27, 28, 35, 36, 37, 51, 81, 96, 115] {
        assert!(send(&mut s, &req(op, 0, &[])).is_empty());
    }
}

#[test]
fn sequence_numbers_wrap() {
    let mut s = server();
    let mut c = s.connection(1).unwrap();
    assert_eq!(c.sequence_number, 1);
    c.sequence_number = 0xFFFF;
    s.connections.insert(1, c);
    let reply = ask(&mut s, &req(43, 0, &[]));
    assert_eq!(half_at(&reply, 2), 0xFFFF);
    assert_eq!(s.connection(1).unwrap().sequence_number, 0);
    let reply = ask(&mut s, &req(43, 0, &[]));
    assert_eq!(half_at(&reply, 2), 0);
}

#[test]
fn windows_come_and_go() {
    let mut s = server();
    create_window(&mut s, 0x200001, 1, 10, 20, 300, 200);
    create_window(&mut s, 0x200002, 0x200001, 5, 6, 30, 20);
    create_window(&mut s, 0x200003, 0x200002, 1, 1, 3, 2);
    create_window(&mut s, 0x200004, 1, 0, 0, 1, 1);
    assert_eq!(children(&mut s, 1), vec![0x200001, 0x200004]);
    assert_eq!(children(&mut s, 0x200001), vec![0x200002]);

    let geometry = ask(&mut s, &req(14, 0, &words(&[0x200001])));
    assert_eq!(geometry[1], 24);
    assert_eq!(word_at(&geometry, 8), 1);
    assert_eq!(half_at(&geometry, 12), 10);
    assert_eq!(half_at(&geometry, 14), 20);
    assert_eq!(half_at(&geometry, 16), 300);
    assert_eq!(half_at(&geometry, 18), 200);

    assert!(send(&mut s, &req(4, 0, &words(&[0x200001]))).is_empty());
    assert_eq!(children(&mut s, 1), vec![0x200004]);
    for id in [0x200001u32, 0x200002, 0x200003] {
        assert!(s.resources.get(&id).is_none());
    }
    assert!(s.resources.get(&0x200004).is_some());
}

#[test]
fn reparented_window_changes_lists() {
    let mut s = server();
    create_window(&mut s, 0x200001, 1, 0, 0, 10, 10);
    create_window(&mut s, 0x200002, 1, 0, 0, 10, 10);
    let mut body = words(&[0x200002, 0x200001]);
    body.extend_from_slice(&7i16.to_le_bytes());
    body.extend_from_slice(&(-3i16).to_le_bytes());
    send(&mut s, &req(7, 0, &body));
    assert_eq!(children(&mut s, 1), vec![0x200001]);
    assert_eq!(children(&mut s, 0x200001), vec![0x200002]);
    let geometry = ask(&mut s, &req(14, 0, &words(&[0x200002])));
    assert_eq!(half_at(&geometry, 12), 7);
    assert_eq!(half_at(&geometry, 14) as i16, -3);
}

#[test]
fn atoms_round_trip() {
    let mut s = server();
    let a = intern(&mut s, "MY_ATOM");
    assert_eq!(intern(&mut s, "MY_ATOM"), a);
    assert_ne!(intern(&mut s, "OTHER_ATOM"), a);
    let reply = ask(&mut s, &req(17, 0, &words(&[a])));
    assert_eq!(half_at(&reply, 8), 7);
    assert_eq!(&reply[32..40], b"MY_ATOM\0");
    let reply = ask(&mut s, &req(17, 0, &words(&[0x7FFFFFFF])));
    assert_eq!(&reply[0..2], &[0, 5]);
    assert_eq!(intern(&mut s, "PRIMARY"), 1);
    assert_eq!(intern(&mut s, "WM_NAME"), 39);
}

#[test]
fn only_existing_atoms_are_found() {
    let mut s = server();
    let reply = ask(&mut s, &req(16, 1, b"\x03\0\0\0ABC\0"));
    assert_eq!(word_at(&reply, 8), 0);
    let a = intern(&mut s, "ABC");
    let reply = ask(&mut s, &req(16, 1, b"\x03\0\0\0ABC\0"));
    assert_eq!(word_at(&reply, 8), a);
}

#[test]
fn properties_read_back() {
    let mut s = server();
    create_window(&mut s, 0x200001, 1, 0, 0, 10, 10);
    let name = intern(&mut s, "MY_PROPERTY");
    assert!(change_property(&mut s, 0x200001, name, 31, b"hello").is_empty());
    let reply = ask(&mut s, &req(20, 0, &words(&[0x200001, name, 0, 0, 100])));
    assert_eq!(reply[1], 8);
    assert_eq!(word_at(&reply, 8), 31);
    assert_eq!(word_at(&reply, 12), 0);
    assert_eq!(word_at(&reply, 16), 5);
    assert_eq!(&reply[32..40], b"hello\0\0\0");
    // a part: one word from the first word on
    let reply = ask(&mut s, &req(20, 0, &words(&[0x200001, name, 0, 1, 1])));
    assert_eq!(word_at(&reply, 12), 0);
    assert_eq!(word_at(&reply, 16), 1);
    assert_eq!(reply[32], b'o');
    // another type: described, not sent
    let reply = ask(&mut s, &req(20, 0, &words(&[0x200001, name, 4, 0, 100])));
    assert_eq!(word_at(&reply, 8), 31);
    assert_eq!(word_at(&reply, 16), 0);
    assert_eq!(reply.len(), 32);
    // past the end: nothing can be read
    assert_eq!(process_request(&mut s, 1, &req(20, 0, &words(&[0x200001, name, 0, 2, 1]))), None);

    let reply = ask(&mut s, &req(21, 0, &words(&[0x200001])));
    assert_eq!(half_at(&reply, 8), 1);
    assert_eq!(word_at(&reply, 32), name);

    assert!(send(&mut s, &req(19, 0, &words(&[0x200001, name]))).is_empty());
    let reply = ask(&mut s, &req(20, 0, &words(&[0x200001, name, 0, 0, 100])));
    assert_eq!(reply[1], 0);
    assert_eq!(word_at(&reply, 8), 0);
}

#[test]
fn selections_have_owners() {
    let mut s = server();
    create_window(&mut s, 0x200001, 1, 0, 0, 10, 10);
    let reply = ask(&mut s, &req(23, 0, &words(&[1])));
    assert_eq!(word_at(&reply, 8), 0);
    send(&mut s, &req(22, 0, &words(&[0x200001, 1, 0])));
    let reply = ask(&mut s, &req(23, 0, &words(&[1])));
    assert_eq!(word_at(&reply, 8), 0x200001);
}

#[test]
fn input_method_is_announced() {
    let mut s = server();
    announce_xim(&mut s);
    let selection = s.xim.atoms.server_atom;
    let property = s.xim.atoms.xim_servers;
    let reply = ask(&mut s, &req(23, 0, &words(&[selection])));
    assert_eq!(word_at(&reply, 8), 1);
    let reply = ask(&mut s, &req(20, 0, &words(&[1, property, 0, 0, 10])));
    assert_eq!(word_at(&reply, 8), 4);
    assert_eq!(word_at(&reply, 32), selection);
    let reply = ask(&mut s, &req(17, 0, &words(&[selection])));
    assert_eq!(&reply[32..44], b"@server=pslx");
}

#[test]
fn focus_reads_back() {
    let mut s = server();
    create_window(&mut s, 0x200001, 1, 0, 0, 10, 10);
    assert!(send(&mut s, &req(42, 2, &words(&[0x200001, 0]))).is_empty());
    let reply = ask(&mut s, &req(43, 0, &[]));
    assert_eq!(reply[1], 2);
    assert_eq!(word_at(&reply, 8), 0x200001);
    // hiding the window takes the focus away
    send(&mut s, &req(10, 0, &words(&[0x200001])));
    let reply = ask(&mut s, &req(43, 0, &[]));
    assert_eq!(word_at(&reply, 8), 1);
}

#[test]
fn pixmaps_have_their_size() {
    let mut s = server();
    let mut body = words(&[0x200010, 1]);
    body.extend_from_slice(&4u16.to_le_bytes());
    body.extend_from_slice(&3u16.to_le_bytes());
    assert!(send(&mut s, &req(53, 24, &body)).is_empty());
    match s.resources.get(&0x200010).unwrap().value() {
        Resource::Pixmap(p) => assert_eq!(p.data, vec![0u8; 48]),
        _ => panic!("not a pixmap"),
    }
    let geometry = ask(&mut s, &req(14, 0, &words(&[0x200010])));
    assert_eq!(geometry[1], 24);
    assert_eq!(half_at(&geometry, 16), 4);
    assert_eq!(half_at(&geometry, 18), 3);
    // GetImage of a pixmap: all of it, black
    let mut body = words(&[0x200010]);
    for v in [0u16, 0, 4, 3] {
        body.extend_from_slice(&v.to_le_bytes());
    }
    body.extend_from_slice(&words(&[0xFFFFFFFF]));
    let image = ask(&mut s, &req(73, 2, &body));
    assert_eq!(image[1], 24);
    assert_eq!(image.len(), 32 + 48);
    assert!(send(&mut s, &req(54, 0, &words(&[0x200010]))).is_empty());
    let gone = ask(&mut s, &req(14, 0, &words(&[0x200010])));
    assert_eq!(&gone[0..2], &[0, 9]);
    let gone = ask(&mut s, &req(73, 2, &body));
    assert_eq!(&gone[0..2], &[0, 9]);
}

#[test]
fn mapping_waits_for_a_native_window() {
    let mut s = server();
    create_window(&mut s, 0x200001, 1, 10, 20, 300, 200);
    let waiting = process_request(&mut s, 1, &req(8, 0, &words(&[0x200001])));
    assert_eq!(
        waiting,
        Some(Pending::NativeWindow { window: 0x200001, override_redirect: false }),
    );
    let asked = s.take_actions().into_iter().any(|a| match a {
        Action::Display(DisplayCommand::CreateWindow { x11_id, width, height, title, .. }) => {
            assert_eq!(title, "X11 Window 0x00200001");
            x11_id == 0x200001 && width == 300 && height == 200
        },
        _ => false,
    });
    assert!(asked);
    let conn = s.connection(1).unwrap();
    finish_map_window(&mut s, &conn, 0x200001, false, Some(NativeWindowHandle { id: 55 }));
    let shown = s.take_actions().into_iter().any(|a| match a {
        Action::Display(DisplayCommand::ShowWindow { handle, .. }) => handle.id == 55,
        _ => false,
    });
    assert!(shown);
    assert_eq!(s.window(0x200001).unwrap().native_window.map(|h| h.id), Some(55));

    // its pixels come from the native display
    let mut body = words(&[0x200001]);
    for v in [0u16, 0, 2, 1] {
        body.extend_from_slice(&v.to_le_bytes());
    }
    body.extend_from_slice(&words(&[0xFFFFFFFF]));
    let waiting = process_request(&mut s, 1, &req(73, 2, &body)).unwrap();
    let asked = s.take_actions();
    assert!(matches!(
        asked[0],
        Action::Display(DisplayCommand::ReadPixels { width: 2, height: 1, .. })
    ));
    let (source, width, height) = match waiting {
        Pending::Pixels { source, width, height } => (source, width, height),
        other => panic!("{:?}", other),
    };
    let conn = s.connection(1).unwrap();
    finish_get_image(&mut s, &conn, source, width, height, Some(vec![1, 2, 3, 4, 5, 6, 7, 8]));
    match &s.take_actions()[0] {
        Action::Reply { data, .. } => assert_eq!(&data[32..40], &[1, 2, 3, 4, 5, 6, 7, 8]),
        other => panic!("{:?}", other),
    }
    finish_get_image(&mut s, &conn, source, width, height, None);
    match &s.take_actions()[0] {
        Action::Reply { data, .. } => assert_eq!(data.len(), 40),
        other => panic!("{:?}", other),
    }
}

#[test]
fn names_become_titles() {
    let mut s = server();
    create_window(&mut s, 0x200001, 1, 10, 20, 300, 200);
    process_request(&mut s, 1, &req(8, 0, &words(&[0x200001])));
    let conn = s.connection(1).unwrap();
    finish_map_window(&mut s, &conn, 0x200001, false, Some(NativeWindowHandle { id: 5 }));
    s.take_actions();
    let actions = change_property(&mut s, 0x200001, 39, 31, "xterm \u{3042}".as_bytes());
    assert_eq!(actions.len(), 1);
    match &actions[0] {
        Action::Display(DisplayCommand::SetWindowTitle { handle, title }) => {
            assert_eq!(handle.id, 5);
            assert_eq!(title, "xterm \u{3042}");
        },
        other => panic!("{:?}", other),
    }
    // bytes that are no text make no title
    assert!(change_property(&mut s, 0x200001, 39, 31, &[0xFF, 0xFE]).is_empty());
}

#[test]
fn colors_are_allocated() {
    let mut s = server();
    let mut body = words(&[2]);
    for v in [0xFFFFu16, 0x8000, 0x00FF, 0] {
        body.extend_from_slice(&v.to_le_bytes());
    }
    let reply = ask(&mut s, &req(84, 0, &body));
    assert_eq!(word_at(&reply, 16), 0xFF8000);
    let reply = ask(&mut s, &req(91, 0, &words(&[2, 0x00FF8000])));
    assert_eq!(half_at(&reply, 8), 1);
    assert_eq!(half_at(&reply, 32), 0xFFFF);
    assert_eq!(half_at(&reply, 34), 0x8080);
    assert_eq!(half_at(&reply, 36), 0);
    let reply = ask(&mut s, &req(86, 0, &[]));
    assert_eq!(&reply[0..2], &[0, 11]);
}

#[test]
fn extensions_are_found() {
    let mut s = server();
    let reply = ask(&mut s, &req(98, 0, b"\x06\0\0\0RENDER\0\0"));
    assert_eq!(&reply[8..10], &[1, 139]);
    let reply = ask(&mut s, &req(98, 0, b"\x04\0\0\0NONE"));
    assert_eq!(reply[8], 0);
    let reply = ask(&mut s, &req(99, 0, &[]));
    assert!(reply[1] > 0);
    let reply = ask(&mut s, &req(133, 0, &[]));
    assert_eq!(word_at(&reply, 8), 4194304);
}

#[test]
fn stub_replies() {
    let mut s = server();
    assert_eq!(ask(&mut s, &req(44, 0, &[])).len(), 40);
    assert_eq!(ask(&mut s, &req(50, 0, &[])).len(), 60);
    assert_eq!(ask(&mut s, &req(39, 0, &[])).len(), 32);
    assert_eq!(ask(&mut s, &req(52, 0, &[])).len(), 32);
    let extents = ask(&mut s, &req(48, 0, &[]));
    assert_eq!(half_at(&extents, 8), 13);
    assert_eq!(half_at(&extents, 10), 2);
    let control = ask(&mut s, &req(106, 0, &[]));
    assert_eq!(half_at(&control, 8), 2);
    assert_eq!(half_at(&control, 10), 1);
    assert_eq!(half_at(&control, 12), 4);
}

#[test]
fn keyboard_mapping() {
    let mut s = server();
    // keycode 8 is the key of the letter a
    let reply = ask(&mut s, &req(101, 0, &[8, 2, 0, 0]));
    assert_eq!(reply[1], 4);
    assert_eq!(word_at(&reply, 32), 0x61);
    assert_eq!(word_at(&reply, 36), 0x41);
    assert_eq!(word_at(&reply, 48), 0x73);
    assert_eq!(s.connection(1).unwrap().mapping_gen, 1);
    let reply = ask(&mut s, &req(119, 0, &[]));
    assert_eq!(reply[1], 2);
    assert_eq!(reply[32], 64);
}

#[test]
fn nothing_is_left_of_a_client() {
    let mut s = server();
    accept_connection(&mut s, 2, &setup(0x6C)).unwrap();
    s.take_actions();
    create_window(&mut s, 0x200001, 1, 0, 0, 10, 10);
    create_window(&mut s, 0x200002, 0x200001, 0, 0, 10, 10);
    let mut body = words(&[0x200010, 1]);
    body.extend_from_slice(&[1, 0, 1, 0]);
    send(&mut s, &req(53, 24, &body));
    send(&mut s, &req(22, 0, &words(&[0x200001, 1, 0])));
    // the other client's pixmap and selection
    body = words(&[0x400010, 1]);
    body.extend_from_slice(&[1, 0, 1, 0]);
    assert_eq!(process_request(&mut s, 2, &req(53, 24, &body)), Some(Pending::Nothing));
    process_request(&mut s, 2, &req(22, 0, &words(&[0x400001, 2, 0])));
    s.take_actions();

    let gone = s.connection(1).unwrap();
    disconnect(&mut s, &gone);
    assert!(s.connections.get(&1).is_none());
    assert!(s.connections.get(&2).is_some());
    for id in [0x200001u32, 0x200002, 0x200010] {
        assert!(s.resources.get(&id).is_none());
    }
    assert!(s.resources.get(&0x400010).is_some());
    assert!(s.resources.get(&1).is_some());
    assert!(s.selections.get(&1).is_none());
    assert!(s.selections.get(&2).is_some());
    assert!(s.window(1).unwrap().children.is_empty());
}

#[test]
fn events_carry_the_current_number() {
    let mut s = server();
    ask(&mut s, &req(43, 0, &[]));
    ask(&mut s, &req(43, 0, &[]));
    let c = s.connection(1).unwrap();
    let mut e = EventData::Fixed([0xAA; 32]);
    stamp_event(&c, &mut e);
    assert_eq!(&e.as_slice()[0..5], &[0xAA, 0xAA, 2, 0, 0xAA]);
    let mut long = EventData::Extended(vec![0x55; 40]);
    stamp_event(&c, &mut long);
    assert_eq!(&long.as_slice()[1..5], &[0x55, 2, 0, 0x55]);
    assert!(matches!(e, EventData::Fixed(_)));
    assert!(matches!(long, EventData::Extended(_)));
}

#[test]
fn events_are_written_in_place() {
    let mut e = EventData::from([0u8; 32]);
    e.as_mut_slice()[5] = 9;
    let mut want = [0u8; 32];
    want[5] = 9;
    assert_eq!(e.as_slice(), &want);
    assert!(matches!(e, EventData::Fixed(_)));
    let mut e = EventData::from(vec![1u8, 2, 3]);
    e.as_mut_slice()[1] = 9;
    assert_eq!(e.as_slice(), &[1, 9, 3]);
    assert!(matches!(e, EventData::Extended(_)));
}

#[test]
fn untitled_windows_are_named_after_their_number() {
    let mut s = server();
    create_window(&mut s, 0x2ABCDEF, 1, 0, 0, 9, 9);
    process_request(&mut s, 1, &req(8, 0, &words(&[0x2ABCDEF])));
    let title = s.take_actions().into_iter().find_map(|a| match a {
        Action::Display(DisplayCommand::CreateWindow { title, .. }) => Some(title),
        _ => None,
    });
    assert_eq!(title, Some("X11 Window 0x02ABCDEF".to_string()));
}

#[test]
fn fonts_are_listed() {
    let mut s = server();
    let mut body = vec![10, 0, 5, 0];
    body.extend_from_slice(b"FIXED\0\0\0");
    let reply = ask(&mut s, &req(49, 0, &body));
    assert_eq!(half_at(&reply, 8), 1);
    assert_eq!(&reply[32..38], b"\x05fixed");
    let reply = ask(&mut s, &req(49, 0, &[10, 0, 1, 0, b'*', 0, 0, 0]));
    assert_eq!(half_at(&reply, 8), 6);
}

#[test]
fn new_surfaces_show_backgrounds() {
    let mut s = server();
    for (id, parent, color) in [(0x200005u32, 1u32, 0x112233u32), (0x200006, 0x200005, 0x445566)] {
        let mut body = words(&[id, parent]);
        for v in [10u16, 20, 30, 40, 0, 1] {
            body.extend_from_slice(&v.to_le_bytes());
        }
        body.extend_from_slice(&words(&[0, 2, color]));
        send(&mut s, &req(1, 24, &body));
    }
    process_request(&mut s, 1, &req(8, 0, &words(&[0x200006])));
    process_request(&mut s, 1, &req(8, 0, &words(&[0x200005])));
    s.take_actions();
    let conn = s.connection(1).unwrap();
    finish_map_window(&mut s, &conn, 0x200005, false, Some(NativeWindowHandle { id: 77 }));
    let mut colors = Vec::new();
    for a in s.take_actions() {
        if let Action::Render { window, commands } = a {
            assert_eq!(window, 77);
            for c in commands {
                match c {
                    RenderCommand::ClearArea { bg_color, .. } => colors.push(bg_color),
                    other => panic!("{:?}", other),
                }
            }
        }
    }
    assert_eq!(colors.first(), Some(&0x112233));
    assert_eq!(colors.last(), Some(&0x445566));
}
