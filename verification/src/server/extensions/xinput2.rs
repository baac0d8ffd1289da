//! The XInputExtension, version 2.0: a master pointer and keyboard, and one
//! device behind each.

use vstd::prelude::*;

use crate::display::Xid;
use crate::server::connection::{
    build_empty_reply, empty_reply, read_u16, read_u32, reply_head, start_reply, write_u16_to,
    write_u32_to, ClientConnection,
};
use crate::server::extensions::xkb::{locked_modifiers, modifiers};
use crate::server::fonts::{counted, put_counted};
use crate::server::properties::{filled, put_filled};
use crate::server::resources::{lemma_filter_take, WindowModel};
use crate::server::wire::{
    byte, bytes16, bytes32, get_u32, only_if, pattern16, put_bytes, put_u8, put_zeros, to_pattern16,
    truncate16, u16_at, u32_at, wrap16, zeros, ByteOrder,
};
use crate::server::{done, Outcome, ServerError, ServerModel, XServer};

verus! {

pub const MASTER_POINTER: u16 = 2;

pub const MASTER_KEYBOARD: u16 = 3;

pub const SLAVE_POINTER: u16 = 4;

pub const SLAVE_KEYBOARD: u16 = 5;

pub const XI_MASTER_POINTER: u16 = 1;

pub const XI_MASTER_KEYBOARD: u16 = 2;

pub const XI_SLAVE_POINTER: u16 = 3;

pub const XI_SLAVE_KEYBOARD: u16 = 4;

pub const XI_KEY_PRESS: u16 = 2;

pub const XI_KEY_RELEASE: u16 = 3;

pub const XI_BUTTON_PRESS: u16 = 4;

pub const XI_BUTTON_RELEASE: u16 = 5;

pub const XI_MOTION: u16 = 6;

pub const XI_ENTER: u16 = 7;

pub const XI_LEAVE: u16 = 8;

pub const XI_FOCUS_IN: u16 = 9;

pub const XI_FOCUS_OUT: u16 = 10;

pub const XI2_MAJOR_OPCODE: u8 = 131;

/// The type of events that extensions define.
pub const GENERIC_EVENT: u8 = 35;

/// A coordinate with sixteen bits of fraction, which are zero.
pub open spec fn fixed_point(v: i16) -> u32 {
    (pattern16(v) * 0x10000) as u32
}

fn to_fixed_point(v: i16) -> (r: u32)
    ensures
        r == fixed_point(v),
{
    to_pattern16(v) as u32 * 0x10000
}

/// A device and its classes, as XIQueryDevice describes it.
pub open spec fn device_info(
    o: ByteOrder,
    id: u16,
    kind: u16,
    attachment: u16,
    class_count: u16,
    name: Seq<char>,
    classes: Seq<u8>,
) -> Seq<u8> {
    let b = vstd::utf8::encode_utf8(name);
    bytes16(o, id) + bytes16(o, kind) + bytes16(o, attachment) + bytes16(o, class_count) + bytes16(
        o,
        b.len() as u16,
    ) + seq![1u8, 0u8] + filled(b) + classes
}

fn write_device_info(
    conn: &ClientConnection,
    body: &mut Vec<u8>,
    id: u16,
    kind: u16,
    attachment: u16,
    class_count: u16,
    name: &str,
    classes: &Vec<u8>,
)
    ensures
        final(body)@ == old(body)@ + device_info(
            conn.byte_order,
            id,
            kind,
            attachment,
            class_count,
            name@,
            classes@,
        ),
{
    let b: &[u8] = name.as_bytes();
    write_u16_to(conn, body, id);
    write_u16_to(conn, body, kind);
    write_u16_to(conn, body, attachment);
    write_u16_to(conn, body, class_count);
    write_u16_to(conn, body, b.len() as u16);
    put_bytes(body, &[1, 0]);
    put_filled(body, b);
    put_bytes(body, classes.as_slice());
    assert(body@ =~= old(body)@ + device_info(
        conn.byte_order,
        id,
        kind,
        attachment,
        class_count,
        name@,
        classes@,
    ));
}

/// The first `n` keycodes, as words.
pub open spec fn keycode_words(o: ByteOrder, n: nat) -> Seq<u8>
    decreases n,
{
    if n == 0 {
        Seq::empty()
    } else {
        keycode_words(o, (n - 1) as nat) + bytes32(o, (8 + n - 1) as u32)
    }
}

/// The class of keys: the keycodes from 8 to 255.
pub open spec fn key_class(o: ByteOrder, source: u16) -> Seq<u8> {
    bytes16(o, 0) + bytes16(o, 250) + bytes16(o, source) + bytes16(o, 248) + keycode_words(o, 248)
}

fn write_key_class(conn: &ClientConnection, source: u16) -> (r: Vec<u8>)
    ensures
        r@ == key_class(conn.byte_order, source),
{
    let mut r: Vec<u8> = Vec::new();
    write_u16_to(conn, &mut r, 0);
    assert(r@ =~= bytes16(conn.byte_order, 0));
    write_u16_to(conn, &mut r, 250);
    write_u16_to(conn, &mut r, source);
    write_u16_to(conn, &mut r, 248);
    let ghost head = r@;
    assert(r@ =~= head + keycode_words(conn.byte_order, 0));
    let mut n: u32 = 0;
    while n < 248
        invariant
            n <= 248,
            r@ == head + keycode_words(conn.byte_order, n as nat),
        decreases 248 - n,
    {
        write_u32_to(conn, &mut r, n + 8);
        n = n + 1;
        assert(r@ =~= head + keycode_words(conn.byte_order, n as nat));
    }
    r
}

/// The state after the labels of a pointer's buttons were interned.
pub open spec fn naming_buttons(s: ServerModel) -> ServerModel {
    s.interning("Button Left"@).interning("Button Middle"@).interning("Button Right"@)
}

/// The class of buttons: three of them, none pressed.
#[verifier::opaque]
pub open spec fn button_class(s: ServerModel, o: ByteOrder, source: u16) -> Seq<u8> {
    let s1 = s.interning("Button Left"@);
    let s2 = s1.interning("Button Middle"@);
    bytes16(o, 1) + bytes16(o, 6) + bytes16(o, source) + bytes16(o, 3) + bytes32(o, 0) + bytes32(
        o,
        s.atoms.interned("Button Left"@),
    ) + bytes32(o, s1.atoms.interned("Button Middle"@)) + bytes32(
        o,
        s2.atoms.interned("Button Right"@),
    )
}

fn write_button_class(server: &mut XServer, conn: &ClientConnection, source: u16) -> (r: Vec<u8>)
    ensures
        final(server)@ == naming_buttons(old(server)@),
        r@ == button_class(old(server)@, conn.byte_order, source),
{
    reveal(button_class);
    let mut r: Vec<u8> = Vec::new();
    write_u16_to(conn, &mut r, 1);
    assert(r@ =~= bytes16(conn.byte_order, 1));
    write_u16_to(conn, &mut r, 6);
    write_u16_to(conn, &mut r, source);
    write_u16_to(conn, &mut r, 3);
    write_u32_to(conn, &mut r, 0);
    let left: u32 = server.atoms.intern_or_create("Button Left");
    let middle: u32 = server.atoms.intern_or_create("Button Middle");
    let right: u32 = server.atoms.intern_or_create("Button Right");
    write_u32_to(conn, &mut r, left);
    write_u32_to(conn, &mut r, middle);
    write_u32_to(conn, &mut r, right);
    r
}

/// The class of a valuator: an axis from 0 to 32767.
pub open spec fn valuator_class(o: ByteOrder, source: u16, number: u16, label: u32) -> Seq<u8> {
    bytes16(o, 2) + bytes16(o, 11) + bytes16(o, source) + bytes16(o, number) + bytes32(o, label)
        + zeros(8) + bytes32(o, 0x7FFF) + zeros(12) + bytes32(o, 1) + zeros(4)
}

fn write_valuator_class(
    conn: &ClientConnection,
    buf: &mut Vec<u8>,
    source: u16,
    number: u16,
    label: u32,
)
    ensures
        final(buf)@ == old(buf)@ + valuator_class(conn.byte_order, source, number, label),
{
    write_u16_to(conn, buf, 2);
    write_u16_to(conn, buf, 11);
    write_u16_to(conn, buf, source);
    write_u16_to(conn, buf, number);
    write_u32_to(conn, buf, label);
    put_zeros(buf, 8);
    write_u32_to(conn, buf, 0x7FFF);
    put_zeros(buf, 12);
    write_u32_to(conn, buf, 1);
    put_zeros(buf, 4);
    assert(buf@ =~= old(buf)@ + valuator_class(conn.byte_order, source, number, label));
}

/// The state after the labels of a pointer were interned.
pub open spec fn naming_pointer(s: ServerModel) -> ServerModel {
    naming_buttons(s).interning("Rel X"@).interning("Rel Y"@)
}

/// The classes of a pointer: its buttons and its two axes.
#[verifier::opaque]
pub open spec fn pointer_classes(s: ServerModel, o: ByteOrder) -> Seq<u8> {
    let s1 = naming_buttons(s);
    let s2 = s1.interning("Rel X"@);
    button_class(s, o, SLAVE_POINTER) + valuator_class(
        o,
        SLAVE_POINTER,
        0,
        s1.atoms.interned("Rel X"@),
    ) + valuator_class(o, SLAVE_POINTER, 1, s2.atoms.interned("Rel Y"@))
}

fn write_pointer_classes(server: &mut XServer, conn: &ClientConnection) -> (r: Vec<u8>)
    ensures
        final(server)@ == naming_pointer(old(server)@),
        r@ == pointer_classes(old(server)@, conn.byte_order),
{
    reveal(pointer_classes);
    let mut r = write_button_class(server, conn, SLAVE_POINTER);
    let rel_x: u32 = server.atoms.intern_or_create("Rel X");
    let rel_y: u32 = server.atoms.intern_or_create("Rel Y");
    write_valuator_class(conn, &mut r, SLAVE_POINTER, 0, rel_x);
    write_valuator_class(conn, &mut r, SLAVE_POINTER, 1, rel_y);
    r
}

/// Whether a query is for a master device: for all, for all masters or for it.
pub open spec fn asks_master(asked: u16, id: u16) -> bool {
    asked == 0 || asked == 1 || asked == id
}

/// Whether a query is for a device behind a master: for all or for it.
pub open spec fn asks_slave(asked: u16, id: u16) -> bool {
    asked == 0 || asked == id
}

/// The state after the labels that a query needs were interned.
pub open spec fn naming_devices(s: ServerModel, asked: u16) -> ServerModel {
    let s1 = if asks_master(asked, MASTER_POINTER) {
        naming_pointer(s)
    } else {
        s
    };
    if asks_slave(asked, SLAVE_POINTER) {
        naming_pointer(s1)
    } else {
        s1
    }
}

/// The master devices that are asked for.
pub open spec fn masters(s: ServerModel, o: ByteOrder, asked: u16) -> Seq<u8> {
    only_if(
        asks_master(asked, MASTER_POINTER),
        device_info(
            o,
            MASTER_POINTER,
            XI_MASTER_POINTER,
            MASTER_KEYBOARD,
            3,
            "Virtual core pointer"@,
            pointer_classes(s, o),
        ),
    ) + only_if(
        asks_master(asked, MASTER_KEYBOARD),
        device_info(
            o,
            MASTER_KEYBOARD,
            XI_MASTER_KEYBOARD,
            MASTER_POINTER,
            1,
            "Virtual core keyboard"@,
            key_class(o, SLAVE_KEYBOARD),
        ),
    )
}

/// The devices behind the masters that are asked for.
pub open spec fn slaves(s: ServerModel, o: ByteOrder, asked: u16) -> Seq<u8> {
    only_if(
        asks_slave(asked, SLAVE_POINTER),
        device_info(
            o,
            SLAVE_POINTER,
            XI_SLAVE_POINTER,
            MASTER_POINTER,
            3,
            "Xerver pointer"@,
            pointer_classes(s, o),
        ),
    ) + only_if(
        asks_slave(asked, SLAVE_KEYBOARD),
        device_info(
            o,
            SLAVE_KEYBOARD,
            XI_SLAVE_KEYBOARD,
            MASTER_KEYBOARD,
            1,
            "Xerver keyboard"@,
            key_class(o, SLAVE_KEYBOARD),
        ),
    )
}

/// The devices that are asked for.
pub open spec fn devices(s: ServerModel, o: ByteOrder, asked: u16) -> Seq<u8> {
    let s1 = if asks_master(asked, MASTER_POINTER) {
        naming_pointer(s)
    } else {
        s
    };
    masters(s, o, asked) + slaves(s1, o, asked)
}

/// How many devices are asked for.
pub open spec fn device_count(asked: u16) -> int {
    (if asks_master(asked, MASTER_POINTER) { 1int } else { 0 }) + (if asks_master(
        asked,
        MASTER_KEYBOARD,
    ) { 1int } else { 0 }) + (if asks_slave(asked, SLAVE_POINTER) { 1int } else { 0 }) + (
    if asks_slave(asked, SLAVE_KEYBOARD) { 1int } else { 0 })
}

fn write_masters(server: &mut XServer, conn: &ClientConnection, asked: u16) -> (r: Vec<u8>)
    ensures
        final(server)@ == (if asks_master(asked, MASTER_POINTER) {
            naming_pointer(old(server)@)
        } else {
            old(server)@
        }),
        r@ == masters(old(server)@, conn.byte_order, asked),
{
    let all: bool = asked == 0 || asked == 1;
    let mut r: Vec<u8> = Vec::new();
    if all || asked == MASTER_POINTER {
        let classes = write_pointer_classes(server, conn);
        write_device_info(
            conn,
            &mut r,
            MASTER_POINTER,
            XI_MASTER_POINTER,
            MASTER_KEYBOARD,
            3,
            "Virtual core pointer",
            &classes,
        );
    }
    if all || asked == MASTER_KEYBOARD {
        let classes = write_key_class(conn, SLAVE_KEYBOARD);
        write_device_info(
            conn,
            &mut r,
            MASTER_KEYBOARD,
            XI_MASTER_KEYBOARD,
            MASTER_POINTER,
            1,
            "Virtual core keyboard",
            &classes,
        );
    }
    assert(r@ =~= masters(old(server)@, conn.byte_order, asked));
    r
}

fn write_slaves(server: &mut XServer, conn: &ClientConnection, asked: u16) -> (r: Vec<u8>)
    ensures
        final(server)@ == (if asks_slave(asked, SLAVE_POINTER) {
            naming_pointer(old(server)@)
        } else {
            old(server)@
        }),
        r@ == slaves(old(server)@, conn.byte_order, asked),
{
    let mut r: Vec<u8> = Vec::new();
    if asked == 0 || asked == SLAVE_POINTER {
        let classes = write_pointer_classes(server, conn);
        write_device_info(
            conn,
            &mut r,
            SLAVE_POINTER,
            XI_SLAVE_POINTER,
            MASTER_POINTER,
            3,
            "Xerver pointer",
            &classes,
        );
    }
    if asked == 0 || asked == SLAVE_KEYBOARD {
        let classes = write_key_class(conn, SLAVE_KEYBOARD);
        write_device_info(
            conn,
            &mut r,
            SLAVE_KEYBOARD,
            XI_SLAVE_KEYBOARD,
            MASTER_KEYBOARD,
            1,
            "Xerver keyboard",
            &classes,
        );
    }
    assert(r@ =~= slaves(old(server)@, conn.byte_order, asked));
    r
}

/// The device XIQueryDevice asks for.
pub open spec fn device_asked(conn: ClientConnection, data: Seq<u8>) -> u16 {
    if data.len() >= 6 {
        u16_at(conn.byte_order, data, 4)
    } else {
        0
    }
}

/// The reply to XIQueryDevice.
pub open spec fn devices_reply(conn: ClientConnection, count: u16, body: Seq<u8>) -> Seq<u8> {
    reply_head(conn, 0, (body.len() / 4) as u32) + bytes16(conn.byte_order, count) + zeros(22)
        + body
}

fn handle_xi_query_device(server: &mut XServer, conn: &ClientConnection, data: &[u8])
    ensures
        final(server)@ == ({
            let asked = device_asked(*conn, data@);
            naming_devices(old(server)@, asked).replying(
                *conn,
                devices_reply(
                    *conn,
                    device_count(asked) as u16,
                    devices(old(server)@, conn.byte_order, asked),
                ),
            )
        }),
{
    let asked: u16 = if data.len() >= 6 {
        read_u16(conn, data, 4)
    } else {
        0
    };
    let mut count: u16 = 0;
    if asked == 0 || asked == 1 || asked == MASTER_POINTER {
        count = count + 1;
    }
    if asked == 0 || asked == 1 || asked == MASTER_KEYBOARD {
        count = count + 1;
    }
    if asked == 0 || asked == SLAVE_POINTER {
        count = count + 1;
    }
    if asked == 0 || asked == SLAVE_KEYBOARD {
        count = count + 1;
    }
    let mut body = write_masters(server, conn, asked);
    let mut rest = write_slaves(server, conn, asked);
    body.append(&mut rest);
    let mut reply = start_reply(conn, 0, (body.len() / 4) as u32);
    write_u16_to(conn, &mut reply, count);
    put_zeros(&mut reply, 22);
    reply.append(&mut body);
    server.reply(conn, reply);
}

/// The selections of events other than a client's for a device.
pub open spec fn other_selection(id: u32, device: u16) -> spec_fn((u32, u16, u32)) -> bool {
    |e: (u32, u16, u32)| !(e.0 == id && e.1 == device)
}

/// The selections after a client chose the events of a device.
pub open spec fn reselected(
    list: Seq<(u32, u16, u32)>,
    id: u32,
    device: u16,
    mask: u32,
) -> Seq<(u32, u16, u32)> {
    let others = list.filter(other_selection(id, device));
    if mask != 0 {
        others.push((id, device, mask))
    } else {
        others
    }
}

/// A client's choice of the events of a device replaces the one before, and no
/// other choice changes.
pub proof fn law_one_selection_per_device(
    list: Seq<(u32, u16, u32)>,
    id: u32,
    device: u16,
    mask: u32,
)
    ensures
        forall|i: int|
            0 <= i < reselected(list, id, device, mask).len() && (#[trigger] reselected(
                list,
                id,
                device,
                mask,
            )[i]).0 == id && reselected(list, id, device, mask)[i].1 == device ==> mask != 0 && i
                == reselected(list, id, device, mask).len() - 1 && reselected(
                list,
                id,
                device,
                mask,
            )[i].2 == mask,
        mask != 0 ==> reselected(list, id, device, mask).last() == (id, device, mask),
        reselected(list, id, device, mask).filter(other_selection(id, device)) == list.filter(
            other_selection(id, device),
        ),
{
    let f = other_selection(id, device);
    let others = list.filter(f);
    let all = reselected(list, id, device, mask);
    assert forall|i: int| 0 <= i < others.len() implies f(#[trigger] others[i]) by {
        list.lemma_filter_pred(f, i);
    }
    lemma_filter_keeps_all(others, f);
    if mask != 0 {
        assert(all.drop_last() =~= others);
        reveal(Seq::filter);
    }
}

proof fn lemma_filter_keeps_all<T>(s: Seq<T>, f: spec_fn(T) -> bool)
    requires
        forall|i: int| 0 <= i < s.len() ==> f(#[trigger] s[i]),
    ensures
        s.filter(f) == s,
    decreases s.len(),
{
    reveal(Seq::filter);
    if s.len() > 0 {
        lemma_filter_keeps_all(s.drop_last(), f);
        assert(f(s[s.len() - 1]));
        assert(s.drop_last().push(s.last()) =~= s);
    }
}

/// The selections without a client's for a device.
fn remove_selection(list: &Vec<(u32, u16, u32)>, id: u32, device: u16) -> (r: Vec<(u32, u16, u32)>)
    ensures
        r@ == list@.filter(other_selection(id, device)),
{
    let mut r: Vec<(u32, u16, u32)> = Vec::new();
    proof {
        reveal(Seq::filter);
    }
    for i in 0..list.len()
        invariant
            r@ == list@.take(i as int).filter(other_selection(id, device)),
    {
        proof {
            lemma_filter_take(list@, i as int, other_selection(id, device));
        }
        let entry: (u32, u16, u32) = list[i];
        if !(entry.0 == id && entry.1 == device) {
            r.push(entry);
        }
    }
    assert(list@.take(list@.len() as int) =~= list@);
    r
}

/// The state after a client chose the events of a device in a window.
pub open spec fn selecting(s: ServerModel, window: u32, id: u32, device: u16, mask: u32) -> ServerModel {
    match s.window(window) {
        Some(w) => s.with_window(
            window,
            WindowModel {
                xi2_event_selections: reselected(w.xi2_event_selections, id, device, mask),
                ..w
            },
        ),
        None => s,
    }
}

fn select_for_device(server: &mut XServer, window: Xid, id: u32, device: u16, mask: u32)
    ensures
        final(server)@ == selecting(old(server)@, window, id, device, mask),
{
    if let Some(mut w) = server.window(window) {
        let mut list = remove_selection(&w.xi2_event_selections, id, device);
        if mask != 0 {
            list.push((id, device, mask));
        }
        w.xi2_event_selections = list;
        server.set_window(window, w);
    }
}

/// The state after the choices of XISelectEvents from an offset on. A mask is its
/// first word, low byte first; one that is cut off chooses nothing.
pub open spec fn selecting_all(
    s: ServerModel,
    conn: ClientConnection,
    data: Seq<u8>,
    window: u32,
    at: int,
    n: nat,
) -> ServerModel
    decreases n,
{
    if n == 0 || at + 4 > data.len() {
        s
    } else {
        let device = u16_at(conn.byte_order, data, at);
        let size = 4 * u16_at(conn.byte_order, data, at + 2);
        let mask = if size > 0 && at + 4 + size <= data.len() {
            u32_at(ByteOrder::LittleEndian, data, at + 4)
        } else {
            0
        };
        selecting_all(
            selecting(s, window, conn.id, device, mask),
            conn,
            data,
            window,
            at + 4 + size,
            (n - 1) as nat,
        )
    }
}

/// The state after XISelectEvents.
pub open spec fn select_events(s: ServerModel, conn: ClientConnection, data: Seq<u8>) -> ServerModel {
    if data.len() < 12 {
        s
    } else {
        selecting_all(
            s,
            conn,
            data,
            u32_at(conn.byte_order, data, 4),
            12,
            u16_at(conn.byte_order, data, 8) as nat,
        )
    }
}

fn handle_xi_select_events(server: &mut XServer, conn: &ClientConnection, data: &[u8])
    ensures
        final(server)@ == select_events(old(server)@, *conn, data@),
{
    if data.len() < 12 {
        return;
    }
    let window: Xid = read_u32(conn, data, 4);
    let count: u16 = read_u16(conn, data, 8);
    let mut at: usize = 12;
    let mut left: u16 = count;
    let ghost goal = select_events(server@, *conn, data@);
    while left > 0 && data.len() - at >= 4
        invariant_except_break
            at <= data@.len(),
            goal == selecting_all(server@, *conn, data@, window, at as int, left as nat),
        ensures
            goal == server@,
        decreases left,
    {
        let device: u16 = read_u16(conn, data, at);
        let size: usize = 4 * read_u16(conn, data, at + 2) as usize;
        let whole: bool = data.len() - at - 4 >= size;
        let mask: u32 = if size > 0 && whole {
            get_u32(ByteOrder::LittleEndian, data, at + 4)
        } else {
            0
        };
        select_for_device(server, window, conn.id, device, mask);
        left = left - 1;
        if !whole {
            assert(selecting_all(
                server@,
                *conn,
                data@,
                window,
                at + 4 + size,
                left as nat,
            ) == server@);
            break;
        }
        at = at + 4 + size;
    }
}

/// The reply to ListInputDevices without its head.
pub open spec fn device_list(s: ServerModel, o: ByteOrder) -> Seq<u8> {
    let s1 = s.interning("MOUSE"@);
    let mouse = bytes32(o, s.atoms.interned("MOUSE"@));
    let keyboard = bytes32(o, s1.atoms.interned("KEYBOARD"@));
    let keys = seq![0u8, 6u8, 8u8, 255u8] + bytes16(o, 248);
    mouse + seq![2u8, 0u8, 0u8, 0u8] + keyboard + seq![3u8, 1u8, 1u8, 0u8] + mouse + seq![
        4u8,
        0u8,
        4u8,
        0u8,
    ] + keyboard + seq![5u8, 1u8, 3u8, 0u8] + keys + keys + counted("Virtual core pointer"@)
        + counted("Virtual core keyboard"@) + counted("Xerver pointer"@) + counted(
        "Xerver keyboard"@,
    )
}

fn write_device_list(server: &mut XServer, conn: &ClientConnection) -> (r: Vec<u8>)
    ensures
        final(server)@ == old(server)@.interning("MOUSE"@).interning("KEYBOARD"@),
        r@ == device_list(old(server)@, conn.byte_order),
{
    let mouse: u32 = server.atoms.intern_or_create("MOUSE");
    let keyboard: u32 = server.atoms.intern_or_create("KEYBOARD");
    let mut r: Vec<u8> = Vec::new();
    write_u32_to(conn, &mut r, mouse);
    assert(r@ =~= bytes32(conn.byte_order, mouse));
    put_bytes(&mut r, &[2, 0, 0, 0]);
    write_u32_to(conn, &mut r, keyboard);
    put_bytes(&mut r, &[3, 1, 1, 0]);
    write_u32_to(conn, &mut r, mouse);
    put_bytes(&mut r, &[4, 0, 4, 0]);
    write_u32_to(conn, &mut r, keyboard);
    put_bytes(&mut r, &[5, 1, 3, 0]);
    let ghost entries = r@;
    put_bytes(&mut r, &[0, 6, 8, 255]);
    write_u16_to(conn, &mut r, 248);
    let ghost keys = seq![0u8, 6u8, 8u8, 255u8] + bytes16(conn.byte_order, 248);
    assert(r@ =~= entries + keys);
    put_bytes(&mut r, &[0, 6, 8, 255]);
    write_u16_to(conn, &mut r, 248);
    assert(r@ =~= entries + keys + keys);
    put_counted(&mut r, "Virtual core pointer");
    put_counted(&mut r, "Virtual core keyboard");
    put_counted(&mut r, "Xerver pointer");
    put_counted(&mut r, "Xerver keyboard");
    r
}

/// The reply to ListInputDevices.
pub open spec fn device_list_reply(conn: ClientConnection, list: Seq<u8>) -> Seq<u8> {
    reply_head(conn, 0, (filled(list).len() / 4) as u32) + byte(4) + zeros(23) + filled(list)
}

fn handle_list_input_devices(server: &mut XServer, conn: &ClientConnection)
    ensures
        final(server)@ == old(server)@.interning("MOUSE"@).interning("KEYBOARD"@).replying(
            *conn,
            device_list_reply(*conn, device_list(old(server)@, conn.byte_order)),
        ),
{
    let list = write_device_list(server, conn);
    let mut body: Vec<u8> = Vec::new();
    put_filled(&mut body, list.as_slice());
    assert(body@ =~= filled(list@));
    let mut reply = start_reply(conn, 0, (body.len() / 4) as u32);
    put_u8(&mut reply, 4);
    put_zeros(&mut reply, 23);
    reply.append(&mut body);
    server.reply(conn, reply);
}

/// The reply to XIQueryPointer.
pub open spec fn pointer_reply(s: ServerModel, conn: ClientConnection) -> Seq<u8> {
    let o = conn.byte_order;
    let x = bytes32(o, fixed_point(wrap16(s.pointer_x as int)));
    let y = bytes32(o, fixed_point(wrap16(s.pointer_y as int)));
    let mods = bytes32(o, modifiers(s.modifier_state) as u32);
    reply_head(conn, 0, 7) + bytes32(o, s.root()) + bytes32(o, 0) + x + y + x + y + seq![1u8, 0u8]
        + bytes16(o, 1) + mods + zeros(8) + mods + zeros(8)
}

fn handle_xi_query_pointer(server: &mut XServer, conn: &ClientConnection)
    ensures
        final(server)@ == old(server)@.replying(*conn, pointer_reply(old(server)@, *conn)),
{
    let x: u32 = to_fixed_point(truncate16(server.pointer_x));
    let y: u32 = to_fixed_point(truncate16(server.pointer_y));
    let mods: u32 = (server.modifier_state % 256) as u32;
    let mut reply = start_reply(conn, 0, 7);
    write_u32_to(conn, &mut reply, server.root());
    write_u32_to(conn, &mut reply, 0);
    write_u32_to(conn, &mut reply, x);
    write_u32_to(conn, &mut reply, y);
    write_u32_to(conn, &mut reply, x);
    write_u32_to(conn, &mut reply, y);
    put_bytes(&mut reply, &[1, 0]);
    write_u16_to(conn, &mut reply, 1);
    write_u32_to(conn, &mut reply, mods);
    put_zeros(&mut reply, 8);
    write_u32_to(conn, &mut reply, mods);
    put_zeros(&mut reply, 8);
    server.reply(conn, reply);
}

/// A reply that holds two 16-bit values and zeros.
pub open spec fn pair_reply(conn: ClientConnection, detail: u8, a: u16, b: u16) -> Seq<u8> {
    reply_head(conn, detail, 0) + bytes16(conn.byte_order, a) + bytes16(conn.byte_order, b)
        + zeros(20)
}

fn reply_pair(server: &mut XServer, conn: &ClientConnection, detail: u8, a: u16, b: u16)
    ensures
        final(server)@ == old(server)@.replying(*conn, pair_reply(*conn, detail, a, b)),
{
    let mut reply = start_reply(conn, detail, 0);
    write_u16_to(conn, &mut reply, a);
    write_u16_to(conn, &mut reply, b);
    put_zeros(&mut reply, 20);
    server.reply(conn, reply);
}

/// The reply to GetExtensionVersion: version 1.1, and the extension is there.
pub open spec fn legacy_version_reply(conn: ClientConnection) -> Seq<u8> {
    let o = conn.byte_order;
    reply_head(conn, 0, 0) + bytes16(o, 1) + bytes16(o, 1) + byte(1) + zeros(19)
}

fn handle_get_extension_version(server: &mut XServer, conn: &ClientConnection)
    ensures
        final(server)@ == old(server)@.replying(*conn, legacy_version_reply(*conn)),
{
    let mut reply = start_reply(conn, 0, 0);
    write_u16_to(conn, &mut reply, 1);
    write_u16_to(conn, &mut reply, 1);
    put_u8(&mut reply, 1);
    put_zeros(&mut reply, 19);
    server.reply(conn, reply);
}

/// The reply to XIGetFocus.
pub open spec fn focus_reply(conn: ClientConnection, focus: u32) -> Seq<u8> {
    reply_head(conn, 0, 0) + bytes32(conn.byte_order, focus) + zeros(20)
}

fn handle_xi_get_focus(server: &mut XServer, conn: &ClientConnection)
    ensures
        final(server)@ == old(server)@.replying(*conn, focus_reply(*conn, old(server)@.focus_window)),
{
    let mut reply = start_reply(conn, 0, 0);
    write_u32_to(conn, &mut reply, server.focus_window);
    put_zeros(&mut reply, 20);
    server.reply(conn, reply);
}

/// A request of the extension. Grabs succeed, devices have no properties, and
/// requests that ask for no answer are accepted.
pub open spec fn xinput2_request(s: ServerModel, conn: ClientConnection, data: Seq<u8>) -> Outcome {
    match data[1] {
        1 => done(s.replying(conn, legacy_version_reply(conn))),
        2 => done(
            s.interning("MOUSE"@).interning("KEYBOARD"@).replying(
                conn,
                device_list_reply(conn, device_list(s, conn.byte_order)),
            ),
        ),
        40 => done(s.replying(conn, pointer_reply(s, conn))),
        45 => done(s.replying(conn, pair_reply(conn, 1, MASTER_POINTER, 0))),
        46 => done(select_events(s, conn, data)),
        47 => done(s.replying(conn, pair_reply(conn, 0, 2, 0))),
        48 => {
            let asked = device_asked(conn, data);
            done(
                naming_devices(s, asked).replying(
                    conn,
                    devices_reply(
                        conn,
                        device_count(asked) as u16,
                        devices(s, conn.byte_order, asked),
                    ),
                ),
            )
        },
        50 => done(s.replying(conn, focus_reply(conn, s.focus_window))),
        7 | 51 | 54 | 56 | 59 | 60 => done(s.replying(conn, empty_reply(conn, 0))),
        _ => done(s),
    }
}

/// Handles a request of the extension.
pub fn handle_xinput2_request(server: &mut XServer, conn: &ClientConnection, data: &[u8]) -> (r:
    Result<(), ServerError>)
    requires
        data@.len() >= 2,
    ensures
        (final(server)@, r) == xinput2_request(old(server)@, *conn, data@),
{
    match data[1] {
        1 => handle_get_extension_version(server, conn),
        2 => handle_list_input_devices(server, conn),
        40 => handle_xi_query_pointer(server, conn),
        45 => reply_pair(server, conn, 1, MASTER_POINTER, 0),
        46 => handle_xi_select_events(server, conn, data),
        47 => reply_pair(server, conn, 0, 2, 0),
        48 => handle_xi_query_device(server, conn, data),
        50 => handle_xi_get_focus(server, conn),
        7 | 51 | 54 | 56 | 59 | 60 => {
            let reply = build_empty_reply(conn, 0);
            server.reply(conn, reply);
        },
        _ => {},
    }
    Ok(())
}

/// A key event of the extension.
pub open spec fn xi2_key_event(
    conn: ClientConnection,
    evtype: u16,
    keycode: u8,
    time: u32,
    root: u32,
    event_window: u32,
    child: u32,
    root_x: i16,
    root_y: i16,
    event_x: i16,
    event_y: i16,
    state: u16,
) -> Seq<u8> {
    let o = conn.byte_order;
    let mods = bytes32(o, modifiers(state) as u32);
    seq![GENERIC_EVENT, XI2_MAJOR_OPCODE] + bytes16(o, 0) + bytes32(o, 12) + bytes16(o, evtype)
        + bytes16(o, MASTER_KEYBOARD) + bytes32(o, time) + bytes32(o, keycode as u32) + bytes32(
        o,
        root,
    ) + bytes32(o, event_window) + bytes32(o, child) + bytes32(o, fixed_point(root_x)) + bytes32(
        o,
        fixed_point(root_y),
    ) + bytes32(o, fixed_point(event_x)) + bytes32(o, fixed_point(event_y)) + zeros(4) + bytes16(
        o,
        SLAVE_KEYBOARD,
    ) + zeros(6) + mods + zeros(4) + bytes32(o, locked_modifiers(state) as u32) + mods + zeros(4)
}

/// Builds a key event of the extension, 80 bytes long. Its sequence number is
/// zero until it is sent.
pub fn build_xi2_key_event(
    conn: &ClientConnection,
    evtype: u16,
    keycode: u8,
    time: u32,
    root: u32,
    event_window: u32,
    child: u32,
    root_x: i16,
    root_y: i16,
    event_x: i16,
    event_y: i16,
    state: u16,
) -> (r: Vec<u8>)
    ensures
        r@ == xi2_key_event(
            *conn,
            evtype,
            keycode,
            time,
            root,
            event_window,
            child,
            root_x,
            root_y,
            event_x,
            event_y,
            state,
        ),
        r@.len() == 80,
{
    let mods: u32 = (state % 256) as u32;
    let locked: u32 = if state & 2 != 0 {
        2
    } else {
        0
    };
    let mut evt: Vec<u8> = Vec::new();
    put_bytes(&mut evt, &[GENERIC_EVENT, XI2_MAJOR_OPCODE]);
    assert(evt@ =~= seq![GENERIC_EVENT, XI2_MAJOR_OPCODE]);
    write_u16_to(conn, &mut evt, 0);
    write_u32_to(conn, &mut evt, 12);
    write_u16_to(conn, &mut evt, evtype);
    write_u16_to(conn, &mut evt, MASTER_KEYBOARD);
    write_u32_to(conn, &mut evt, time);
    write_u32_to(conn, &mut evt, keycode as u32);
    write_u32_to(conn, &mut evt, root);
    write_u32_to(conn, &mut evt, event_window);
    write_u32_to(conn, &mut evt, child);
    write_u32_to(conn, &mut evt, to_fixed_point(root_x));
    write_u32_to(conn, &mut evt, to_fixed_point(root_y));
    write_u32_to(conn, &mut evt, to_fixed_point(event_x));
    write_u32_to(conn, &mut evt, to_fixed_point(event_y));
    put_zeros(&mut evt, 4);
    write_u16_to(conn, &mut evt, SLAVE_KEYBOARD);
    put_zeros(&mut evt, 6);
    write_u32_to(conn, &mut evt, mods);
    put_zeros(&mut evt, 4);
    write_u32_to(conn, &mut evt, locked);
    write_u32_to(conn, &mut evt, mods);
    put_zeros(&mut evt, 4);
    evt
}

} // verus!
