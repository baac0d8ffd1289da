//! The keyboard and its mapping.

use vstd::prelude::*;

use super::connection::{
    build_empty_reply, empty_reply, reply_head, start_reply, write_u16_to, write_u32_to,
    ClientConnection,
};
use super::tables;
use super::wire::{byte, bytes16, bytes32, put_u8, put_zeros, zeros, ByteOrder};
use super::{done, Outcome, ServerError, ServerModel, XServer};

verus! {

/// The keysyms of a native key without and with Shift, on a US keyboard; zero
/// where there are none.
#[verifier::opaque]
pub open spec fn us_keysyms(key: u32) -> (u32, u32) {
    match key {
        0 => (0x0061, 0x0041),
        1 => (0x0073, 0x0053),
        2 => (0x0064, 0x0044),
        3 => (0x0066, 0x0046),
        4 => (0x0068, 0x0048),
        5 => (0x0067, 0x0047),
        6 => (0x007A, 0x005A),
        7 => (0x0078, 0x0058),
        8 => (0x0063, 0x0043),
        9 => (0x0076, 0x0056),
        11 => (0x0062, 0x0042),
        12 => (0x0071, 0x0051),
        13 => (0x0077, 0x0057),
        14 => (0x0065, 0x0045),
        15 => (0x0072, 0x0052),
        16 => (0x0079, 0x0059),
        17 => (0x0074, 0x0054),
        18 => (0x0031, 0x0021),
        19 => (0x0032, 0x0040),
        20 => (0x0033, 0x0023),
        21 => (0x0034, 0x0024),
        22 => (0x0036, 0x005E),
        23 => (0x0035, 0x0025),
        24 => (0x003D, 0x002B),
        25 => (0x0039, 0x0028),
        26 => (0x0037, 0x0026),
        27 => (0x002D, 0x005F),
        28 => (0x0038, 0x002A),
        29 => (0x0030, 0x0029),
        30 => (0x005D, 0x007D),
        31 => (0x006F, 0x004F),
        32 => (0x0075, 0x0055),
        33 => (0x005B, 0x007B),
        34 => (0x0069, 0x0049),
        35 => (0x0070, 0x0050),
        37 => (0x006C, 0x004C),
        38 => (0x006A, 0x004A),
        39 => (0x0027, 0x0022),
        40 => (0x006B, 0x004B),
        41 => (0x003B, 0x003A),
        42 => (0x005C, 0x007C),
        43 => (0x002C, 0x003C),
        44 => (0x002F, 0x003F),
        45 => (0x006E, 0x004E),
        46 => (0x006D, 0x004D),
        47 => (0x002E, 0x003E),
        50 => (0x0060, 0x007E),
        36 => (0xFF0D, 0xFF0D),
        48 => (0xFF09, 0xFF09),
        49 => (0x0020, 0x0020),
        51 => (0xFF08, 0xFF08),
        53 => (0xFF1B, 0xFF1B),
        55 => (0xFFE7, 0xFFE7),
        56 => (0xFFE1, 0xFFE1),
        57 => (0xFFE5, 0xFFE5),
        58 => (0xFFE9, 0xFFE9),
        59 => (0xFFE3, 0xFFE3),
        60 => (0xFFE2, 0xFFE2),
        61 => (0xFFEA, 0xFFEA),
        62 => (0xFFE4, 0xFFE4),
        122 => (0xFFBE, 0xFFBE),
        120 => (0xFFBF, 0xFFBF),
        99 => (0xFFC0, 0xFFC0),
        118 => (0xFFC1, 0xFFC1),
        96 => (0xFFC2, 0xFFC2),
        97 => (0xFFC3, 0xFFC3),
        98 => (0xFFC4, 0xFFC4),
        100 => (0xFFC5, 0xFFC5),
        101 => (0xFFC6, 0xFFC6),
        109 => (0xFFC7, 0xFFC7),
        103 => (0xFFC8, 0xFFC8),
        111 => (0xFFC9, 0xFFC9),
        123 => (0xFF51, 0xFF51),
        124 => (0xFF53, 0xFF53),
        125 => (0xFF54, 0xFF54),
        126 => (0xFF52, 0xFF52),
        115 => (0xFF50, 0xFF50),
        119 => (0xFF57, 0xFF57),
        116 => (0xFF55, 0xFF55),
        121 => (0xFF56, 0xFF56),
        117 => (0xFFFF, 0xFFFF),
        102 => (0xFF30, 0xFF30),
        104 => (0xFF27, 0xFF27),
        65 => (0xFFAE, 0xFFAE),
        67 => (0xFFAA, 0xFFAA),
        69 => (0xFFAB, 0xFFAB),
        75 => (0xFFAF, 0xFFAF),
        76 => (0xFF8D, 0xFF8D),
        78 => (0xFFAD, 0xFFAD),
        82 => (0xFFB0, 0xFFB0),
        83 => (0xFFB1, 0xFFB1),
        84 => (0xFFB2, 0xFFB2),
        85 => (0xFFB3, 0xFFB3),
        86 => (0xFFB4, 0xFFB4),
        87 => (0xFFB5, 0xFFB5),
        88 => (0xFFB6, 0xFFB6),
        89 => (0xFFB7, 0xFFB7),
        91 => (0xFFB8, 0xFFB8),
        92 => (0xFFB9, 0xFFB9),
        _ => (0, 0),
    }
}

/// The keysyms of a native key on a US keyboard.
pub fn macos_keycode_to_keysym_static(mac_key: u32) -> (r: (u32, u32))
    ensures
        r == us_keysyms(mac_key),
{
    reveal(us_keysyms);
    match mac_key {
        0 => (0x0061, 0x0041),
        1 => (0x0073, 0x0053),
        2 => (0x0064, 0x0044),
        3 => (0x0066, 0x0046),
        4 => (0x0068, 0x0048),
        5 => (0x0067, 0x0047),
        6 => (0x007A, 0x005A),
        7 => (0x0078, 0x0058),
        8 => (0x0063, 0x0043),
        9 => (0x0076, 0x0056),
        11 => (0x0062, 0x0042),
        12 => (0x0071, 0x0051),
        13 => (0x0077, 0x0057),
        14 => (0x0065, 0x0045),
        15 => (0x0072, 0x0052),
        16 => (0x0079, 0x0059),
        17 => (0x0074, 0x0054),
        18 => (0x0031, 0x0021),
        19 => (0x0032, 0x0040),
        20 => (0x0033, 0x0023),
        21 => (0x0034, 0x0024),
        22 => (0x0036, 0x005E),
        23 => (0x0035, 0x0025),
        24 => (0x003D, 0x002B),
        25 => (0x0039, 0x0028),
        26 => (0x0037, 0x0026),
        27 => (0x002D, 0x005F),
        28 => (0x0038, 0x002A),
        29 => (0x0030, 0x0029),
        30 => (0x005D, 0x007D),
        31 => (0x006F, 0x004F),
        32 => (0x0075, 0x0055),
        33 => (0x005B, 0x007B),
        34 => (0x0069, 0x0049),
        35 => (0x0070, 0x0050),
        37 => (0x006C, 0x004C),
        38 => (0x006A, 0x004A),
        39 => (0x0027, 0x0022),
        40 => (0x006B, 0x004B),
        41 => (0x003B, 0x003A),
        42 => (0x005C, 0x007C),
        43 => (0x002C, 0x003C),
        44 => (0x002F, 0x003F),
        45 => (0x006E, 0x004E),
        46 => (0x006D, 0x004D),
        47 => (0x002E, 0x003E),
        50 => (0x0060, 0x007E),
        36 => (0xFF0D, 0xFF0D),
        48 => (0xFF09, 0xFF09),
        49 => (0x0020, 0x0020),
        51 => (0xFF08, 0xFF08),
        53 => (0xFF1B, 0xFF1B),
        55 => (0xFFE7, 0xFFE7),
        56 => (0xFFE1, 0xFFE1),
        57 => (0xFFE5, 0xFFE5),
        58 => (0xFFE9, 0xFFE9),
        59 => (0xFFE3, 0xFFE3),
        60 => (0xFFE2, 0xFFE2),
        61 => (0xFFEA, 0xFFEA),
        62 => (0xFFE4, 0xFFE4),
        122 => (0xFFBE, 0xFFBE),
        120 => (0xFFBF, 0xFFBF),
        99 => (0xFFC0, 0xFFC0),
        118 => (0xFFC1, 0xFFC1),
        96 => (0xFFC2, 0xFFC2),
        97 => (0xFFC3, 0xFFC3),
        98 => (0xFFC4, 0xFFC4),
        100 => (0xFFC5, 0xFFC5),
        101 => (0xFFC6, 0xFFC6),
        109 => (0xFFC7, 0xFFC7),
        103 => (0xFFC8, 0xFFC8),
        111 => (0xFFC9, 0xFFC9),
        123 => (0xFF51, 0xFF51),
        124 => (0xFF53, 0xFF53),
        125 => (0xFF54, 0xFF54),
        126 => (0xFF52, 0xFF52),
        115 => (0xFF50, 0xFF50),
        119 => (0xFF57, 0xFF57),
        116 => (0xFF55, 0xFF55),
        121 => (0xFF56, 0xFF56),
        117 => (0xFFFF, 0xFFFF),
        102 => (0xFF30, 0xFF30),
        104 => (0xFF27, 0xFF27),
        65 => (0xFFAE, 0xFFAE),
        67 => (0xFFAA, 0xFFAA),
        69 => (0xFFAB, 0xFFAB),
        75 => (0xFFAF, 0xFFAF),
        76 => (0xFF8D, 0xFF8D),
        78 => (0xFFAD, 0xFFAD),
        82 => (0xFFB0, 0xFFB0),
        83 => (0xFFB1, 0xFFB1),
        84 => (0xFFB2, 0xFFB2),
        85 => (0xFFB3, 0xFFB3),
        86 => (0xFFB4, 0xFFB4),
        87 => (0xFFB5, 0xFFB5),
        88 => (0xFFB6, 0xFFB6),
        89 => (0xFFB7, 0xFFB7),
        91 => (0xFFB8, 0xFFB8),
        92 => (0xFFB9, 0xFFB9),
        _ => (0, 0),
    }
}

/// The keysyms of a native key: function keys, modifiers and the like are the
/// same on every keyboard; for the others the layout that the display reported
/// comes first.
pub open spec fn keysyms_of(layout: Option<Seq<(u32, u32)>>, key: u32) -> (u32, u32) {
    let fixed = us_keysyms(key);
    if fixed.0 >= 0xFF00 {
        fixed
    } else {
        match layout {
            Some(m) => if key < 128 && m[key as int] != (0u32, 0u32) {
                m[key as int]
            } else {
                fixed
            },
            None => fixed,
        }
    }
}

/// The keysyms of a native key.
pub fn macos_keycode_to_keysym(server: &XServer, mac_key: u32) -> (r: (u32, u32))
    ensures
        r == keysyms_of(server@.keyboard_map, mac_key),
{
    let fixed = macos_keycode_to_keysym_static(mac_key);
    if fixed.0 >= 0xFF00 {
        return fixed;
    }
    if let Some(map) = &server.keyboard_map {
        if mac_key < 128 {
            let entry: (u32, u32) = map[mac_key as usize];
            if entry.0 != 0 || entry.1 != 0 {
                return entry;
            }
        }
    }
    fixed
}

/// The first keycode that can be lent a keysym.
pub const VIRTUAL_BASE: u8 = 200;

/// The keysyms of a keycode. Keycodes are native keys moved up by eight; from
/// the lent ones on, keysyms that were lent.
pub open spec fn keycode_keysyms(s: ServerModel, keycode: u32) -> (u32, u32) {
    if keycode >= VIRTUAL_BASE {
        let i = keycode - VIRTUAL_BASE;
        (
            if i < s.virtual_keysyms.len() {
                s.virtual_keysyms[i]
            } else {
                0
            },
            0,
        )
    } else {
        keysyms_of(s.keyboard_map, keycode.wrapping_sub(8))
    }
}

/// The keysyms of keycodes on the wire, four for each.
pub open spec fn keysym_table(s: ServerModel, o: ByteOrder, first: u32, n: nat) -> Seq<u8>
    decreases n,
{
    if n == 0 {
        Seq::empty()
    } else {
        let (plain, shifted) = keycode_keysyms(s, (first + n - 1) as u32);
        keysym_table(s, o, first, (n - 1) as nat) + (bytes32(o, plain) + bytes32(o, shifted)
            + bytes32(o, 0) + bytes32(o, 0))
    }
}

/// The state after a client fetched the keyboard's mapping.
pub open spec fn mapping_fetched(s: ServerModel, id: u32) -> ServerModel {
    match s.connection(id) {
        Some(c) => ServerModel {
            connections: s.connections.insert(
                id,
                ClientConnection { mapping_gen: c.mapping_gen.wrapping_add(1), ..c },
            ),
            ..s
        },
        None => s,
    }
}

/// GetKeyboardMapping.
pub open spec fn get_keyboard_mapping(s: ServerModel, conn: ClientConnection, data: Seq<u8>) -> Outcome {
    let count = data[5] as u32;
    done(
        mapping_fetched(
            s.replying(
                conn,
                reply_head(conn, 4, (count * 4) as u32) + zeros(24) + keysym_table(
                    s,
                    conn.byte_order,
                    data[4] as u32,
                    count as nat,
                ),
            ),
            conn.id,
        ),
    )
}

/// The keysyms of a keycode.
pub fn keysyms_for(server: &XServer, keycode: u32) -> (r: (u32, u32))
    ensures
        r == keycode_keysyms(server@, keycode),
{
    if keycode >= VIRTUAL_BASE as u32 {
        let i: usize = (keycode - VIRTUAL_BASE as u32) as usize;
        if i < server.virtual_keysyms.len() {
            (server.virtual_keysyms[i], 0)
        } else {
            (0, 0)
        }
    } else {
        macos_keycode_to_keysym(server, keycode.wrapping_sub(8))
    }
}

pub fn handle_get_keyboard_mapping(server: &mut XServer, conn: &ClientConnection, data: &[u8]) -> (r:
    Result<(), ServerError>)
    requires
        data@.len() >= 6,
    ensures
        (final(server)@, r) == get_keyboard_mapping(old(server)@, *conn, data@),
{
    let first: u32 = data[4] as u32;
    let count: u32 = data[5] as u32;
    let mut reply = start_reply(conn, 4, count * 4);
    put_zeros(&mut reply, 24);
    let ghost head = reply@;
    assert(reply@ =~= head + keysym_table(server@, conn.byte_order, first, 0));
    for i in 0..count
        invariant
            first <= 255,
            count <= 255,
            reply@ == head + keysym_table(server@, conn.byte_order, first, i as nat),
    {
        let ghost before = keysym_table(server@, conn.byte_order, first, i as nat);
        let (plain, shifted) = keysyms_for(server, first + i);
        write_u32_to(conn, &mut reply, plain);
        write_u32_to(conn, &mut reply, shifted);
        write_u32_to(conn, &mut reply, 0);
        write_u32_to(conn, &mut reply, 0);
        let o = conn.byte_order;
        assert(reply@ =~= head + (before + (bytes32(o, plain) + bytes32(o, shifted) + bytes32(o, 0)
            + bytes32(o, 0))));
    }
    server.reply(conn, reply);
    if let Some(c) = server.connection(conn.id) {
        let mut c = c;
        c.mapping_gen = c.mapping_gen.wrapping_add(1);
        tables::put_connection(&mut server.connections, conn.id, c);
    }
    Ok(())
}

/// A run of bytes with all bits set.
pub open spec fn all_set(n: nat) -> Seq<u8> {
    Seq::new(n, |i: int| 0xFFu8)
}

/// GetKeyboardControl: every key repeats.
pub open spec fn get_keyboard_control(s: ServerModel, conn: ClientConnection) -> Outcome {
    let o = conn.byte_order;
    done(
        s.replying(
            conn,
            reply_head(conn, 1, 5) + bytes32(o, 0) + byte(50) + byte(50) + bytes16(o, 400)
                + bytes16(o, 100) + bytes16(o, 0) + all_set(32),
        ),
    )
}

pub fn handle_get_keyboard_control(server: &mut XServer, conn: &ClientConnection) -> (r: Result<
    (),
    ServerError,
>)
    ensures
        (final(server)@, r) == get_keyboard_control(old(server)@, *conn),
{
    let mut reply = start_reply(conn, 1, 5);
    write_u32_to(conn, &mut reply, 0);
    put_u8(&mut reply, 50);
    put_u8(&mut reply, 50);
    write_u16_to(conn, &mut reply, 400);
    write_u16_to(conn, &mut reply, 100);
    write_u16_to(conn, &mut reply, 0);
    let ghost head = reply@;
    assert(reply@ =~= head + all_set(0));
    for i in 0..32usize
        invariant
            reply@ == head + all_set(i as nat),
    {
        put_u8(&mut reply, 0xFF);
        assert(reply@ =~= head + all_set((i + 1) as nat));
    }
    server.reply(conn, reply);
    Ok(())
}

/// The keycodes of the eight modifiers, two for each: Shift, Lock, Control, Alt
/// and, as the seventh, Command.
pub open spec fn modifier_keys() -> Seq<u8> {
    seq![64u8, 68, 65, 0, 67, 70, 66, 69, 0, 0, 0, 0, 63, 0, 0, 0]
}

/// GetModifierMapping.
pub open spec fn get_modifier_mapping(s: ServerModel, conn: ClientConnection) -> Outcome {
    done(s.replying(conn, reply_head(conn, 2, 4) + zeros(24) + modifier_keys()))
}

pub fn handle_get_modifier_mapping(server: &mut XServer, conn: &ClientConnection) -> (r: Result<
    (),
    ServerError,
>)
    ensures
        (final(server)@, r) == get_modifier_mapping(old(server)@, *conn),
{
    let mut reply = start_reply(conn, 2, 4);
    put_zeros(&mut reply, 24);
    let keys: Vec<u8> = vec![64, 68, 65, 0, 67, 70, 66, 69, 0, 0, 0, 0, 63, 0, 0, 0];
    assert(keys@ =~= modifier_keys());
    super::wire::put_bytes(&mut reply, keys.as_slice());
    server.reply(conn, reply);
    Ok(())
}

/// A reply that only says that a request succeeded.
pub open spec fn succeeded(s: ServerModel, conn: ClientConnection) -> Outcome {
    done(s.replying(conn, empty_reply(conn, 0)))
}

/// SetModifierMapping is accepted and changes nothing.
pub fn handle_set_modifier_mapping(server: &mut XServer, conn: &ClientConnection) -> (r: Result<
    (),
    ServerError,
>)
    ensures
        (final(server)@, r) == succeeded(old(server)@, *conn),
{
    let reply = build_empty_reply(conn, 0);
    server.reply(conn, reply);
    Ok(())
}

/// Every modifier's keycode is the one its key sends: the keysym behind it is a
/// modifier's.
pub proof fn law_modifier_keys(s: ServerModel, i: int)
    requires
        0 <= i < 16,
        modifier_keys()[i] != 0,
    ensures
        0xFFE1 <= keycode_keysyms(s, modifier_keys()[i] as u32).0 <= 0xFFEA,
{
    reveal(us_keysyms);
}

/// Function keys, arrows and modifiers do not depend on the layout.
pub proof fn law_special_keys_fixed(a: Option<Seq<(u32, u32)>>, b: Option<Seq<(u32, u32)>>, key: u32)
    requires
        us_keysyms(key).0 >= 0xFF00,
    ensures
        keysyms_of(a, key) == keysyms_of(b, key),
{
}

} // verus!
