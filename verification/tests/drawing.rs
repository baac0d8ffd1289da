use pslxserver::display::{NativeWindowHandle, RenderCommand};
use pslxserver::server::colors::{load_colors, lookup_x11_color};
use pslxserver::server::drawing::find_native_position;
use pslxserver::server::keyboard::{keysyms_for, macos_keycode_to_keysym};
use pslxserver::server::mapping::finish_map_window;
use pslxserver::server::parse::{find_words, match_pattern, parse_number, split_chars};
use pslxserver::server::pointer::window_to_root_coords;
use pslxserver::server::requests::{process_request, Pending};
use pslxserver::server::sessions::accept_connection;
use pslxserver::server::{Action, XServer};

fn words(ws: &[u32]) -> Vec<u8> {
    let mut r = Vec::new();
    for w in ws {
        r.extend_from_slice(&w.to_le_bytes());
    }
    r
}

fn halves(hs: &[i32]) -> Vec<u8> {
    let mut r = Vec::new();
    for h in hs {
        r.extend_from_slice(&(*h as u16).to_le_bytes());
    }
    r
}

fn req(opcode: u8, detail: u8, body: &[u8]) -> Vec<u8> {
    assert_eq!(body.len() % 4, 0);
    let mut r = vec![opcode, detail];
    r.extend_from_slice(&((1 + body.len() / 4) as u16).to_le_bytes());
    r.extend_from_slice(body);
    r
}

fn half_at(b: &[u8], at: usize) -> u16 {
    u16::from_le_bytes([b[at], b[at + 1]])
}

const TOP: u32 = 0x200001;
const INNER: u32 = 0x200002;
const GC: u32 = 0x200005;

fn create(s: &mut XServer, id: u32, parent: u32, x: i16, y: i16, w: u16, h: u16) {
    let mut body = words(&[id, parent]);
    body.extend_from_slice(&halves(&[x as i32, y as i32, w as i32, h as i32, 0, 1]));
    body.extend_from_slice(&words(&[0, 1 << 1, 0x00112233]));
    assert_eq!(process_request(s, 1, &req(1, 24, &body)), Some(Pending::Nothing));
}

fn server() -> XServer {
    let mut s = XServer::new(0, 1024, 768, 0);
    accept_connection(&mut s, 1, &[0x6C, 0, 11, 0, 0, 0, 0, 0, 0, 0, 0, 0]).unwrap();
    create(&mut s, TOP, 1, 100, 110, 300, 200);
    create(&mut s, INNER, TOP, 10, 20, 50, 40);
    process_request(&mut s, 1, &req(8, 0, &words(&[TOP])));
    let conn = s.connection(1).unwrap();
    finish_map_window(&mut s, &conn, TOP, false, Some(NativeWindowHandle { id: 5 }));
    process_request(&mut s, 1, &req(8, 0, &words(&[INNER])));
    // a graphics context: function, foreground
    process_request(&mut s, 1, &req(55, 0, &words(&[GC, TOP, 5, 6, 0x00ABCDEF])));
    s.take_actions();
    s
}

fn send(s: &mut XServer, r: &[u8]) -> Vec<Action> {
    assert_eq!(process_request(s, 1, r), Some(Pending::Nothing));
    s.take_actions()
}

fn drawn(s: &mut XServer, r: &[u8]) -> Vec<RenderCommand> {
    let mut actions = send(s, r);
    actions.retain(|a| !matches!(a, Action::ImeSpot { .. }));
    assert_eq!(actions.len(), 1);
    match actions.pop().unwrap() {
        Action::Render { window, commands } => {
            assert_eq!(window, 5);
            commands
        },
        other => panic!("{:?}", other),
    }
}

#[test]
fn rectangles_are_filled() {
    let mut s = server();
    let mut body = words(&[TOP, GC]);
    body.extend_from_slice(&halves(&[1, 2, 3, 4, 150, 160, 7, 8]));
    let c = drawn(&mut s, &req(70, 0, &body));
    assert_eq!(c.len(), 2);
    assert!(matches!(
        c[0],
        RenderCommand::FillRectangle {
            x: 1,
            y: 2,
            width: 3,
            height: 4,
            color: 0x00ABCDEF,
            gc_function: 6,
        }
    ));
}

#[test]
fn drawing_in_a_child_is_moved() {
    let mut s = server();
    let mut body = words(&[INNER, GC]);
    body.extend_from_slice(&halves(&[1, 2, 3, 4]));
    let c = drawn(&mut s, &req(70, 0, &body));
    assert!(matches!(c[0], RenderCommand::FillRectangle { x: 11, y: 22, width: 3, height: 4, .. }));
    let at = find_native_position(&s, INNER, 1, 2);
    assert_eq!((at.1, at.2), (11, 22));
    assert_eq!(window_to_root_coords(&s, INNER), (110, 130));
}

#[test]
fn clearing_leaves_children_out() {
    let mut s = server();
    let mut body = words(&[TOP]);
    body.extend_from_slice(&halves(&[0, 0, 0, 0]));
    let c = drawn(&mut s, &req(61, 0, &body));
    let mut area: u32 = 0;
    for r in &c {
        match r {
            RenderCommand::ClearArea { width, height, bg_color, .. } => {
                assert_eq!(*bg_color, 0x00112233);
                area += *width as u32 * *height as u32;
            },
            other => panic!("{:?}", other),
        }
    }
    assert_eq!(area, 300 * 200 - 50 * 40);
}

#[test]
fn lines_and_points() {
    let mut s = server();
    let mut body = words(&[INNER, GC]);
    // relative to the point before
    body.extend_from_slice(&halves(&[1, 1, 2, 3, -1, 1]));
    let c = drawn(&mut s, &req(65, 1, &body));
    assert_eq!(c.len(), 2);
    assert!(matches!(c[0], RenderCommand::DrawLine { x1: 11, y1: 21, x2: 13, y2: 24, .. }));
    assert!(matches!(c[1], RenderCommand::DrawLine { x1: 13, y1: 24, x2: 12, y2: 25, .. }));
    let c = drawn(&mut s, &req(64, 1, &body));
    assert_eq!(c.len(), 3);
    let c = drawn(&mut s, &req(66, 0, &[body.clone(), halves(&[0, 0])].concat()));
    assert_eq!(c.len(), 2);
}

#[test]
fn text_is_drawn() {
    let mut s = server();
    let mut body = words(&[TOP, GC]);
    body.extend_from_slice(&halves(&[5, 30]));
    body.extend_from_slice(b"hey!");
    let c = drawn(&mut s, &req(76, 4, &body));
    assert!(c.iter().any(|r| match r {
        RenderCommand::DrawText { text, .. } => text == b"hey!",
        _ => false,
    }));
    // PolyText8: an item with its length and an offset
    let mut body = words(&[TOP, GC]);
    body.extend_from_slice(&halves(&[5, 30]));
    body.extend_from_slice(b"\x02\0ok");
    let c = drawn(&mut s, &req(74, 0, &body));
    assert!(c.iter().any(|r| match r {
        RenderCommand::DrawText { text, .. } => text == b"ok",
        _ => false,
    }));
}

#[test]
fn wide_text_is_drawn() {
    let mut s = server();
    // ImageText16: a letter, a kana and half of a pair
    let mut body = words(&[TOP, GC]);
    body.extend_from_slice(&halves(&[5, 30]));
    body.extend_from_slice(&[0, b'a', 0x30, 0x42, 0xD8, 0, 0, 0]);
    let c = drawn(&mut s, &req(77, 3, &body));
    assert!(c.iter().any(|r| match r {
        RenderCommand::DrawText { text, .. } => text == "a\u{3042}".as_bytes(),
        _ => false,
    }));
}

#[test]
fn images_are_put() {
    let mut s = server();
    let mut body = words(&[TOP, GC]);
    body.extend_from_slice(&halves(&[1, 1, 3, 4]));
    body.extend_from_slice(&[0, 24, 0, 0]);
    body.extend_from_slice(&[9, 8, 7, 6]);
    let c = drawn(&mut s, &req(72, 2, &body));
    match &c[0] {
        RenderCommand::PutImage { x, y, width, height, depth, format, data, .. } => {
            assert_eq!((*x, *y, *width, *height), (3, 4, 1, 1));
            assert_eq!((*depth, *format), (24, 2));
            assert_eq!(data, &vec![9, 8, 7, 6]);
        },
        other => panic!("{:?}", other),
    }
}

#[test]
fn coordinates_translate() {
    let mut s = server();
    let mut body = words(&[INNER, 1]);
    body.extend_from_slice(&halves(&[3, 4]));
    match &send(&mut s, &req(40, 0, &body))[0] {
        Action::Reply { data, .. } => {
            assert_eq!(data[1], 1);
            assert_eq!(half_at(data, 12), 113);
            assert_eq!(half_at(data, 14), 134);
        },
        other => panic!("{:?}", other),
    }
}

#[test]
fn colors_by_name() {
    let mut s = server();
    assert!(load_colors(&mut s, "! comment\n255 0 16\t\tMy Red\n  1 2 3 dim\n"));
    assert_eq!(lookup_x11_color(&s, &"my red".to_string()), (0xFFFF, 0, 0x1010));
    assert_eq!(lookup_x11_color(&s, &"dim".to_string()), (0x0101, 0x0202, 0x0303));
    assert_eq!(lookup_x11_color(&s, &"none such".to_string()), (0, 0, 0));
    // requests may write the name as they like
    let mut body = words(&[2]);
    body.extend_from_slice(&[3, 0, 0, 0]);
    body.extend_from_slice(b"DiM\0");
    match &send(&mut s, &req(92, 0, &body))[0] {
        Action::Reply { data, .. } => {
            assert_eq!(half_at(data, 8), 0x0101);
            assert_eq!(half_at(data, 12), 0x0303);
        },
        other => panic!("{:?}", other),
    }
    match &send(&mut s, &req(85, 0, &body))[0] {
        Action::Reply { data, .. } => assert_eq!(&data[8..12], &[3, 2, 1, 0]),
        other => panic!("{:?}", other),
    }
    assert!(!load_colors(&mut s, "# nothing here\n"));
}

#[test]
fn layouts_come_first() {
    let mut s = server();
    assert_eq!(macos_keycode_to_keysym(&s, 0), (0x61, 0x41));
    let mut map = [(0u32, 0u32); 128];
    map[0] = (0x71, 0x51);
    map[36] = (0x1, 0x2);
    s.keyboard_map = Some(map);
    assert_eq!(macos_keycode_to_keysym(&s, 0), (0x71, 0x51));
    assert_eq!(macos_keycode_to_keysym(&s, 1), (0x73, 0x53));
    // Return stays Return
    assert_eq!(macos_keycode_to_keysym(&s, 36).0, 0xFF0D);
    assert_eq!(keysyms_for(&s, 8), (0x71, 0x51));
}

fn chars(t: &str) -> Vec<char> {
    t.chars().collect()
}

#[test]
fn patterns() {
    assert!(match_pattern(&chars("*"), &chars("")));
    assert!(match_pattern(&chars("-*-fixed-*"), &chars("-misc-fixed-medium")));
    assert!(match_pattern(&chars("a?c"), &chars("abc")));
    assert!(!match_pattern(&chars("a?c"), &chars("ac")));
    assert!(match_pattern(&chars("*ab*ab"), &chars("abxabab")));
    assert!(!match_pattern(&chars("abc"), &chars("abcd")));
}

#[test]
fn numbers_and_words() {
    assert_eq!(parse_number(&chars("120"), 255), Some(120));
    assert_eq!(parse_number(&chars("256"), 255), None);
    assert_eq!(parse_number(&chars("1x"), 255), None);
    assert_eq!(parse_number(&chars(""), 255), None);
    assert_eq!(find_words(&chars("  a \t bc ")), vec![chars("a"), chars("bc")]);
    assert_eq!(split_chars(&chars("-a--b"), '-'), vec![chars(""), chars("a"), chars(""), chars("b")]);
}
