use pslxserver::server::requests::{process_request, Pending};
use pslxserver::server::sessions::{accept_connection, announce_xim};
use pslxserver::server::xim::XimServer;
use pslxserver::server::xim_notify::encode_compound_text;
use pslxserver::server::xim_protocol::frame_message;
use pslxserver::server::{Action, XServer};

fn words(ws: &[u32]) -> Vec<u8> {
    let mut r = Vec::new();
    for w in ws {
        r.extend_from_slice(&w.to_le_bytes());
    }
    r
}

fn req(opcode: u8, detail: u8, body: &[u8]) -> Vec<u8> {
    let mut r = vec![opcode, detail];
    r.extend_from_slice(&((1 + body.len() / 4) as u16).to_le_bytes());
    r.extend_from_slice(body);
    r
}

fn word_at(b: &[u8], at: usize) -> u32 {
    u32::from_le_bytes([b[at], b[at + 1], b[at + 2], b[at + 3]])
}

fn half_at(b: &[u8], at: usize) -> u16 {
    u16::from_le_bytes([b[at], b[at + 1]])
}

const TOP: u32 = 0x200001;
const COMM: u32 = 0x200002;

fn create(s: &mut XServer, id: u32) {
    let mut body = words(&[id, 1]);
    for v in [0u16, 0, 10, 10, 0, 1] {
        body.extend_from_slice(&v.to_le_bytes());
    }
    body.extend_from_slice(&words(&[0, 0]));
    assert_eq!(process_request(s, 1, &req(1, 24, &body)), Some(Pending::Nothing));
}

fn server() -> XServer {
    let mut s = XServer::new(0, 1024, 768, 0);
    announce_xim(&mut s);
    accept_connection(&mut s, 1, &[0x6C, 0, 11, 0, 0, 0, 0, 0, 0, 0, 0, 0]).unwrap();
    create(&mut s, TOP);
    create(&mut s, COMM);
    s.take_actions();
    s
}

fn client_message(s: &mut XServer, window: u32, kind: u32, format: u8, data: &[u8]) {
    let mut body = words(&[window, 0]);
    body.extend_from_slice(&[33, format, 0, 0]);
    body.extend_from_slice(&words(&[window, kind]));
    body.extend_from_slice(data);
    body.resize(40, 0);
    assert_eq!(process_request(s, 1, &req(25, 0, &body)), Some(Pending::Nothing));
}

fn events(s: &mut XServer) -> Vec<Vec<u8>> {
    s.take_actions()
        .into_iter()
        .filter_map(|a| match a {
            Action::Event { data, .. } => Some(data.as_slice().to_vec()),
            _ => None,
        })
        .collect()
}

/// The bytes of the messages that went out, one after the other.
fn messages(s: &mut XServer) -> Vec<u8> {
    let mut r = Vec::new();
    for e in events(s) {
        assert_eq!(e[0] & 0x7F, 33);
        r.extend_from_slice(&e[12..32]);
    }
    r
}

fn connect(s: &mut XServer) {
    let kind = s.xim.atoms.xim_xconnect;
    client_message(s, 1, kind, 32, &words(&[COMM, 0, 0]));
    let answer = events(s);
    assert_eq!(answer.len(), 1);
    assert_eq!(word_at(&answer[0], 4), COMM);
    assert_eq!(word_at(&answer[0], 8), kind);
    assert_eq!(word_at(&answer[0], 12), 1);
    assert!(XimServer::has_xim_connection(s, TOP));
    assert!(!XimServer::has_xim_connection(s, 0x7FFF0000));
    assert!(XimServer::has_xim_connection_by_conn_id(s, 1));
    assert!(!XimServer::has_xim_connection_by_conn_id(s, 2));
}

#[test]
fn transport_opens_and_closes() {
    let mut s = server();
    assert!(!XimServer::has_xim_connection(&s, TOP));
    connect(&mut s);
    let protocol = s.xim.atoms.xim_protocol;
    client_message(&mut s, COMM, protocol, 8, &frame_message(1, &vec![0x6C, 0, 1, 0, 0, 0, 0, 0]));
    let out = messages(&mut s);
    assert_eq!(out[0], 2);
    assert_eq!(half_at(&out, 2), 1);
    client_message(&mut s, COMM, protocol, 8, &frame_message(3, &vec![]));
    let out = messages(&mut s);
    assert_eq!(out[0], 4);
    assert!(!XimServer::has_xim_connection(&s, TOP));
}

#[test]
fn contexts_are_told_of_text() {
    let mut s = server();
    connect(&mut s);
    let protocol = s.xim.atoms.xim_protocol;
    // the input method's number, four bytes of attributes: the client's window
    let mut body = vec![1, 0, 8, 0, 1, 0, 4, 0];
    body.extend_from_slice(&words(&[TOP]));
    client_message(&mut s, COMM, protocol, 8, &frame_message(50, &body));
    let out = messages(&mut s);
    assert_eq!(out[0], 51);
    assert_eq!(half_at(&out, 4), 1);
    assert_eq!(half_at(&out, 6), 1);
    assert!(XimServer::has_xim_client(&s, TOP));
    assert!(XimServer::send_commit(&mut s, TOP, "hi"));
    let out = messages(&mut s);
    assert_eq!(out[0], 63);
    assert!(out.windows(2).any(|w| w == b"hi"));
    assert!(!XimServer::send_commit(&mut s, 0x7FFF0000, "hi"));
    XimServer::send_preedit_start(&mut s, TOP);
    assert_eq!(messages(&mut s)[0], 73);
    XimServer::send_preedit_draw(&mut s, TOP, "\u{3042}", 1);
    let out = messages(&mut s);
    assert_eq!(out[0], 75);
    XimServer::send_preedit_done(&mut s, TOP);
    assert_eq!(messages(&mut s)[0], 78);
}

#[test]
fn messages_from_unknown_windows_are_ignored() {
    let mut s = server();
    connect(&mut s);
    let protocol = s.xim.atoms.xim_protocol;
    client_message(&mut s, 1, protocol, 8, &frame_message(3, &vec![]));
    assert!(events(&mut s).is_empty());
    assert!(XimServer::has_xim_connection(&s, TOP));
}

#[test]
fn locales_and_transport_are_told() {
    let mut s = server();
    let selection = s.xim.atoms.server_atom;
    let target = s.xim.atoms.locales;
    let property = 300;
    process_request(&mut s, 1, &req(24, 0, &words(&[TOP, selection, target, property, 0])));
    let sent = events(&mut s);
    assert_eq!(sent.len(), 1);
    assert_eq!(sent[0][0], 31);
    let w = s.window(TOP).unwrap();
    let p = w.get_property(property).unwrap();
    assert!(p.data.starts_with(b"@locale="));
}

#[test]
fn text_in_other_scripts() {
    assert_eq!(encode_compound_text("abc"), b"\x1b%Gabc\x1b%@".to_vec());
    let kana = encode_compound_text("\u{3042}");
    assert_eq!(&kana[0..3], b"\x1b%G");
    assert_eq!(&kana[3..6], "\u{3042}".as_bytes());
    assert_eq!(&kana[6..], b"\x1b%@");
}
