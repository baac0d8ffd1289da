use pslxserver::server::extensions::xinput2::{build_xi2_key_event, XI_KEY_PRESS};
use pslxserver::server::requests::{process_request, Pending};
use pslxserver::server::resources::{PixmapState, Resource};
use pslxserver::server::sessions::accept_connection;
use pslxserver::server::{Action, XServer};
use pslxserver::display::RenderCommand;

fn server() -> XServer {
    let mut s = XServer::new(0, 1024, 768, 0);
    accept_connection(&mut s, 1, &[0x6C, 0, 11, 0, 0, 0, 0, 0, 0, 0, 0, 0]).unwrap();
    s.take_actions();
    s
}

fn req(opcode: u8, sub: u8, body: &[u8]) -> Vec<u8> {
    let mut r = vec![opcode, sub];
    r.extend_from_slice(&((1 + body.len() / 4) as u16).to_le_bytes());
    r.extend_from_slice(body);
    r
}

fn words(ws: &[u32]) -> Vec<u8> {
    let mut r = Vec::new();
    for w in ws {
        r.extend_from_slice(&w.to_le_bytes());
    }
    r
}

fn word_at(b: &[u8], at: usize) -> u32 {
    u32::from_le_bytes([b[at], b[at + 1], b[at + 2], b[at + 3]])
}

fn half_at(b: &[u8], at: usize) -> u16 {
    u16::from_le_bytes([b[at], b[at + 1]])
}

fn send(s: &mut XServer, r: &[u8]) -> Vec<Action> {
    assert_eq!(process_request(s, 1, r), Some(Pending::Nothing));
    s.take_actions()
}

fn ask(s: &mut XServer, r: &[u8]) -> Vec<u8> {
    let mut actions = send(s, r);
    assert_eq!(actions.len(), 1);
    match actions.pop().unwrap() {
        Action::Reply { data, .. } => {
            if data[0] == 1 {
                assert_eq!(data.len(), 32 + 4 * word_at(&data, 4) as usize);
            }
            data
        },
        other => panic!("{:?}", other),
    }
}

fn create_window(s: &mut XServer, id: u32) {
    let mut body = words(&[id, 1]);
    for v in [3u16, 4, 50, 60, 0, 1] {
        body.extend_from_slice(&v.to_le_bytes());
    }
    body.extend_from_slice(&words(&[0, 0]));
    assert!(send(s, &req(1, 24, &body)).is_empty());
}

#[test]
fn shape_requests() {
    let mut s = server();
    create_window(&mut s, 0x200001);
    let version = ask(&mut s, &req(134, 0, &[]));
    assert_eq!((half_at(&version, 8), half_at(&version, 10)), (1, 1));
    let extents = ask(&mut s, &req(134, 5, &words(&[0x200001])));
    assert_eq!(half_at(&extents, 12), 3);
    assert_eq!(half_at(&extents, 14), 4);
    assert_eq!(half_at(&extents, 16), 50);
    assert_eq!(half_at(&extents, 18), 60);
    assert_eq!(half_at(&extents, 26), 60);
    let rects = ask(&mut s, &req(134, 8, &words(&[0x200001, 0])));
    assert_eq!(word_at(&rects, 8), 1);
    assert_eq!(half_at(&rects, 36), 50);
    let none = ask(&mut s, &req(134, 8, &words(&[0x200099, 0])));
    assert_eq!(half_at(&none, 36), 1);
    assert!(send(&mut s, &req(134, 1, &words(&[0, 0, 0, 0]))).is_empty());
    let short = ask(&mut s, &req(134, 5, &[]));
    assert_eq!(&short[0..2], &[0, 1]);
}

#[test]
fn xtest_moves_the_pointer() {
    let mut s = server();
    let version = ask(&mut s, &req(132, 0, &words(&[0])));
    assert_eq!(version[1], 2);
    assert_eq!(half_at(&version, 8), 2);
    let compare = ask(&mut s, &req(132, 1, &words(&[0, 0])));
    assert_eq!(compare[1], 1);
    let mut body = vec![0u8; 32];
    body[0] = 6;
    body[20..22].copy_from_slice(&77i16.to_le_bytes());
    body[22..24].copy_from_slice(&(-5i16).to_le_bytes());
    send(&mut s, &req(132, 2, &body));
    assert_eq!((s.pointer_x, s.pointer_y), (77, -5));
    let short = ask(&mut s, &req(132, 2, &[0; 4]));
    assert_eq!(&short[0..2], &[0, 1]);
}

#[test]
fn render_formats() {
    let mut s = server();
    let version = ask(&mut s, &req(139, 0, &words(&[0, 11])));
    assert_eq!((word_at(&version, 8), word_at(&version, 12)), (0, 11));
    let formats = ask(&mut s, &req(139, 1, &[]));
    assert_eq!(formats.len(), 152);
    assert_eq!(word_at(&formats, 8), 3);
    assert_eq!(formats[37], 32);
    assert_eq!(word_at(&formats, 132), 0x21);
    assert_eq!(ask(&mut s, &req(139, 29, &words(&[1]))).len(), 32);
}

#[test]
fn pictures_come_and_go() {
    let mut s = server();
    send(&mut s, &req(139, 4, &words(&[0x200020, 0x200010, 2, 0])));
    assert_eq!(*s.pictures.get(&0x200020).unwrap().value(), (0x200010, 2));
    send(&mut s, &req(139, 7, &words(&[0x200020])));
    assert!(s.pictures.get(&0x200020).is_none());
}

fn pixmap(s: &mut XServer, id: u32, data: Vec<u8>) {
    s.resources.insert(
        id,
        Resource::Pixmap(PixmapState { id, drawable: 1, width: 2, height: 2, depth: 32, data }),
    );
}

#[test]
fn render_composites_pixmaps() {
    let mut s = server();
    // blue and alpha; a half-transparent grey; nothing; opaque
    pixmap(
        &mut s,
        0x200010,
        vec![255, 0, 0, 255, 64, 64, 64, 128, 9, 9, 9, 0, 1, 2, 3, 255],
    );
    pixmap(&mut s, 0x200011, vec![0; 16]);
    send(&mut s, &req(139, 4, &words(&[0x200020, 0x200010, 1, 0])));
    send(&mut s, &req(139, 4, &words(&[0x200021, 0x200011, 1, 0])));
    let mut body = vec![3, 0, 0, 0];
    body.extend_from_slice(&words(&[0x200020, 0, 0x200021]));
    for v in [0u16, 0, 0, 0, 5, 6, 9, 9] {
        body.extend_from_slice(&v.to_le_bytes());
    }
    let actions = send(&mut s, &req(139, 8, &body));
    match &actions[0] {
        Action::RenderPixmap { pixmap, commands } => {
            assert_eq!(*pixmap, 0x200011);
            match &commands[0] {
                RenderCommand::PutImage { x, y, width, height, depth, format, data, gc_function } => {
                    assert_eq!((*x, *y, *width, *height), (5, 6, 2, 2));
                    assert_eq!((*depth, *format, *gc_function), (32, 2, 3));
                    assert_eq!(
                        data,
                        &vec![255, 0, 0, 255, 127, 127, 127, 255, 0, 0, 0, 255, 1, 2, 3, 255],
                    );
                },
                other => panic!("{:?}", other),
            }
        },
        other => panic!("{:?}", other),
    }
    // an operator that needs what lies below
    body[0] = 12;
    assert!(send(&mut s, &req(139, 8, &body)).is_empty());
    // a pixmap that lost its pixels cannot be read
    body[0] = 3;
    pixmap(&mut s, 0x200010, vec![0; 15]);
    assert_eq!(process_request(&mut s, 1, &req(139, 8, &body)), None);
    // unless none of them is asked for
    let mut other = body.clone();
    other[0] = 12;
    assert!(send(&mut s, &req(139, 8, &other)).is_empty());
    let mut other = body.clone();
    other[12..16].copy_from_slice(&0x2000FFu32.to_le_bytes());
    assert!(send(&mut s, &req(139, 8, &other)).is_empty());
    let mut other = body.clone();
    other[28..30].copy_from_slice(&1u16.to_le_bytes());
    assert_eq!(send(&mut s, &req(139, 8, &other)).len(), 1);
}

/// What Composite makes of the pixels of a pixmap of two by two.
fn composited(s: &mut XServer, data: Vec<u8>) -> Vec<u8> {
    pixmap(s, 0x200010, data);
    pixmap(s, 0x200011, vec![0; 16]);
    send(s, &req(139, 4, &words(&[0x200020, 0x200010, 1, 0])));
    send(s, &req(139, 4, &words(&[0x200021, 0x200011, 1, 0])));
    let mut body = vec![3, 0, 0, 0];
    body.extend_from_slice(&words(&[0x200020, 0, 0x200021]));
    for v in [0u16, 0, 0, 0, 0, 0, 2, 2] {
        body.extend_from_slice(&v.to_le_bytes());
    }
    match send(s, &req(139, 8, &body)).remove(0) {
        Action::RenderPixmap { mut commands, .. } => match commands.remove(0) {
            RenderCommand::PutImage { data, .. } => data,
            other => panic!("{:?}", other),
        },
        other => panic!("{:?}", other),
    }
}

#[test]
fn opaque_pixels_are_left_alone() {
    let mut s = server();
    let data = vec![10, 20, 30, 40, 200, 100, 3, 100, 7, 8, 9, 0, 1, 2, 3, 255];
    let once = composited(&mut s, data);
    assert_eq!(
        once,
        vec![63, 127, 191, 255, 255, 255, 7, 255, 0, 0, 0, 255, 1, 2, 3, 255],
    );
    assert_eq!(composited(&mut s, once.clone()), once);
}

#[test]
fn render_fills_rectangles() {
    let mut s = server();
    pixmap(&mut s, 0x200011, vec![0; 16]);
    send(&mut s, &req(139, 4, &words(&[0x200021, 0x200011, 1, 0])));
    let mut body = vec![1, 0, 0, 0];
    body.extend_from_slice(&words(&[0x200021]));
    for v in [0x1234u16, 0xABCD, 0xFF00, 0xFFFF, 1, 2, 3, 4] {
        body.extend_from_slice(&v.to_le_bytes());
    }
    let actions = send(&mut s, &req(139, 26, &body));
    match &actions[0] {
        Action::RenderPixmap { commands, .. } => {
            assert_eq!(commands.len(), 1);
            assert!(matches!(
                commands[0],
                RenderCommand::FillRectangle {
                    x: 1,
                    y: 2,
                    width: 3,
                    height: 4,
                    color: 0x12ABFF,
                    gc_function: 7,
                }
            ));
        },
        other => panic!("{:?}", other),
    }
}

#[test]
fn xkb_replies() {
    let mut s = server();
    let used = ask(&mut s, &req(135, 0, &words(&[1])));
    assert_eq!(used[1], 1);
    assert_eq!(half_at(&used, 8), 1);
    s.modifier_state = 0x0107;
    let state = ask(&mut s, &req(135, 4, &words(&[0])));
    assert_eq!(&state[8..12], &[7, 7, 0, 2]);
    let controls = ask(&mut s, &req(135, 6, &words(&[0])));
    assert_eq!(controls.len(), 92);
    assert_eq!(controls[9], 1);
    assert_eq!(word_at(&controls, 19), 1);
    assert_eq!(half_at(&controls, 23), 660);
    assert_eq!(half_at(&controls, 25), 40);
    let flags = ask(&mut s, &req(135, 21, &words(&[0, 0xF0, 0x3C, 0, 0, 0])));
    assert_eq!(word_at(&flags, 8), 0x30);
    assert_eq!(word_at(&flags, 12), 0x30);
    for sub in [10u8, 12, 13] {
        let empty = ask(&mut s, &req(135, sub, &words(&[0])));
        assert_eq!(empty[1], 3);
        assert!(empty[8..].iter().all(|b| *b == 0));
    }
    assert!(send(&mut s, &req(135, 1, &words(&[0]))).is_empty());
}

#[test]
fn xkb_map() {
    let mut s = server();
    let map = ask(&mut s, &req(135, 8, &[0, 0, 7, 0]));
    assert_eq!(&map[10..12], &[8, 255]);
    assert_eq!(half_at(&map, 12), 7);
    assert_eq!(&map[14..18], &[0, 3, 3, 8]);
    assert_eq!(map[20], 248);
    assert_eq!(&map[31..34], &[63, 8, 8]);
    let total = half_at(&map, 18) as usize;
    assert_eq!(map.len(), 40 + 48 + 248 * 8 + total * 4 + 32);
    // keycode 8: the letter a, alphabetic, two keysyms
    assert_eq!(&map[88..94], &[2, 0, 0, 0, 1, 2]);
    assert_eq!(word_at(&map, 96), 0x61);
    assert_eq!(word_at(&map, 100), 0x41);
    // nothing but types
    let types = ask(&mut s, &req(135, 8, &[0, 0, 1, 0]));
    assert_eq!(types.len(), 88);
    assert_eq!(half_at(&types, 18), 0);
}

#[test]
fn xkb_names() {
    let mut s = server();
    let names = ask(&mut s, &req(135, 17, &[0, 0, 0, 0, 0x04, 0x13, 0, 0]));
    // symbols, three types, five levels, 248 keys
    assert_eq!(names.len(), 32 + 4 + 12 + 20 + 992);
    assert_eq!(word_at(&names, 8), 0x1304);
    assert_eq!(&names[32 + 36..32 + 40], b"K008");
    assert_eq!(&names[names.len() - 4..], b"K255");
    let symbols = word_at(&names, 32);
    let name = ask(&mut s, &req(17, 0, &words(&[symbols])));
    assert_eq!(&name[32..37], b"pc+us");
}

#[test]
fn xinput_devices() {
    let mut s = server();
    let version = ask(&mut s, &req(131, 47, &words(&[2])));
    assert_eq!(half_at(&version, 8), 2);
    let all = ask(&mut s, &req(131, 48, &words(&[0])));
    assert_eq!(half_at(&all, 8), 4);
    assert_eq!(half_at(&all, 32), 2);
    assert_eq!(&all[44..64], b"Virtual core pointer");
    let masters = ask(&mut s, &req(131, 48, &words(&[1])));
    assert_eq!(half_at(&masters, 8), 2);
    let keyboard = ask(&mut s, &req(131, 48, &words(&[5])));
    assert_eq!(half_at(&keyboard, 8), 1);
    assert_eq!(keyboard.len(), 32 + 12 + 16 + 1000);
    assert_eq!(half_at(&keyboard, 62), 250);
    assert_eq!(word_at(&keyboard, 68), 8);
    let listed = ask(&mut s, &req(131, 2, &[]));
    assert_eq!(listed[8], 4);
    assert_eq!(listed.len(), 32 + 120);
    assert_eq!(listed[36], 2);
    let pointer = ask(&mut s, &req(131, 45, &words(&[0])));
    assert_eq!(pointer[1], 1);
    assert_eq!(half_at(&pointer, 8), 2);
    assert!(send(&mut s, &req(131, 49, &words(&[0, 0, 0]))).is_empty());
}

#[test]
fn xinput_pointer_and_focus() {
    let mut s = server();
    s.pointer_x = -2;
    s.pointer_y = 3;
    s.modifier_state = 5;
    let p = ask(&mut s, &req(131, 40, &words(&[1, 2])));
    assert_eq!(p.len(), 60);
    assert_eq!(word_at(&p, 16), 0xFFFE0000);
    assert_eq!(word_at(&p, 20), 0x00030000);
    assert_eq!(word_at(&p, 36), 5);
    let f = ask(&mut s, &req(131, 50, &words(&[3])));
    assert_eq!(word_at(&f, 8), 1);
}

#[test]
fn xinput_selections_replace() {
    let mut s = server();
    create_window(&mut s, 0x200001);
    let select = |device: u32, mask: u32| {
        let mut body = words(&[0x200001, 1]);
        body.extend_from_slice(&words(&[0x00010000 | device, mask]));
        req(131, 46, &body)
    };
    assert!(send(&mut s, &select(3, 0x0C)).is_empty());
    send(&mut s, &select(2, 0x10));
    send(&mut s, &select(3, 0x04));
    assert_eq!(s.window(0x200001).unwrap().xi2_event_selections, vec![(1, 2, 0x10), (1, 3, 0x04)]);
    send(&mut s, &select(2, 0));
    assert_eq!(s.window(0x200001).unwrap().xi2_event_selections, vec![(1, 3, 0x04)]);
    // a mask that is cut off chooses nothing
    let body = words(&[0x200001, 1, 0x00050003]);
    send(&mut s, &req(131, 46, &body));
    assert!(s.window(0x200001).unwrap().xi2_event_selections.is_empty());
}

#[test]
fn xinput_key_event_is_80_bytes() {
    let s = server();
    let c = s.connection(1).unwrap();
    let e = build_xi2_key_event(&c, XI_KEY_PRESS, 38, 1234, 1, 0x200001, 0, 10, -20, 1, 2, 0x0102);
    assert_eq!(e.len(), 80);
    assert_eq!(&e[0..2], &[35, 131]);
    assert_eq!(word_at(&e, 4), 12);
    assert_eq!(half_at(&e, 8), 2);
    assert_eq!(half_at(&e, 10), 3);
    assert_eq!(word_at(&e, 12), 1234);
    assert_eq!(word_at(&e, 16), 38);
    assert_eq!(word_at(&e, 36), 0xFFEC0000);
    assert_eq!(word_at(&e, 60), 2);
    assert_eq!(word_at(&e, 68), 2);
}
