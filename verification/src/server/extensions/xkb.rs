//! The XKEYBOARD extension, version 1.0: the parts from which a client builds a
//! keymap.

use vstd::prelude::*;

use crate::server::connection::{
    build_empty_reply, empty_reply, read_u16, read_u32, reply_head, start_reply, write_u16_to,
    write_u32_to, ClientConnection,
};
use crate::server::keyboard::{keysyms_of, macos_keycode_to_keysym, VIRTUAL_BASE};
use crate::server::wire::{
    byte, bytes16, bytes32, only_if, put_bytes, put_u8, put_zeros, u16_at, u32_at, zeros,
};
use crate::server::{done, Outcome, ServerError, ServerModel, XServer};

verus! {

pub const XKB_MAJOR_OPCODE: u8 = 135;

pub const MIN_KEYCODE: u8 = 8;

pub const MAX_KEYCODE: u8 = 255;

/// The device that the extension's replies speak of.
pub const CORE_KEYBOARD: u8 = 3;

/// The modifiers among the bits of a key or button state.
pub open spec fn modifiers(state: u16) -> u8 {
    (state % 256) as u8
}

/// The modifiers that are locked: only CapsLock can be.
pub open spec fn locked_modifiers(state: u16) -> u8 {
    if state & 2 != 0 {
        2
    } else {
        0
    }
}

/// The reply to GetState.
pub open spec fn state_reply(conn: ClientConnection, state: u16) -> Seq<u8> {
    let m = modifiers(state);
    reply_head(conn, CORE_KEYBOARD, 0) + seq![
        m,
        m,
        0u8,
        locked_modifiers(state),
        0u8,
        0u8,
        0u8,
        0u8,
        0u8,
        0u8,
        m,
        m,
        m,
        m,
        m,
        0u8,
        0u8,
        0u8,
    ] + zeros(6)
}

fn handle_get_state(server: &mut XServer, conn: &ClientConnection)
    ensures
        final(server)@ == old(server)@.replying(
            *conn,
            state_reply(*conn, old(server)@.modifier_state),
        ),
{
    let state: u16 = server.modifier_state;
    let m: u8 = (state % 256) as u8;
    let locked: u8 = if state & 2 != 0 {
        2
    } else {
        0
    };
    let mut reply = start_reply(conn, CORE_KEYBOARD, 0);
    put_bytes(&mut reply, &[m, m, 0, locked, 0, 0, 0, 0, 0, 0, m, m, m, m, m, 0, 0, 0]);
    put_zeros(&mut reply, 6);
    assert(reply@ =~= state_reply(*conn, state));
    server.reply(conn, reply);
}

/// The reply to GetControls: one group, and all keys repeat.
pub open spec fn controls_reply(conn: ClientConnection) -> Seq<u8> {
    let o = conn.byte_order;
    reply_head(conn, CORE_KEYBOARD, 15) + seq![0u8, 1u8] + zeros(9) + bytes32(o, 1) + bytes16(
        o,
        660,
    ) + bytes16(o, 40) + zeros(30) + Seq::new(32, |i: int| 0xFFu8) + zeros(3)
}

fn handle_get_controls(server: &mut XServer, conn: &ClientConnection)
    ensures
        final(server)@ == old(server)@.replying(*conn, controls_reply(*conn)),
{
    let mut reply = start_reply(conn, CORE_KEYBOARD, 15);
    put_bytes(&mut reply, &[0, 1]);
    put_zeros(&mut reply, 9);
    write_u32_to(conn, &mut reply, 1);
    write_u16_to(conn, &mut reply, 660);
    write_u16_to(conn, &mut reply, 40);
    put_zeros(&mut reply, 30);
    let ghost before = reply@;
    for i in 0..32usize
        invariant
            reply@ == before + Seq::new(i as nat, |j: int| 0xFFu8),
    {
        reply.push(0xFF);
        assert(reply@ =~= before + Seq::new((i + 1) as nat, |j: int| 0xFFu8));
    }
    put_zeros(&mut reply, 3);
    assert(reply@ =~= controls_reply(*conn));
    server.reply(conn, reply);
}

/// The key types: one level; two levels that Shift selects between; two levels
/// that Shift or Lock selects between.
pub open spec fn key_types() -> Seq<u8> {
    seq![
        0u8, 0u8, 0u8, 0u8, 1u8, 0u8, 0u8, 0u8,
        1u8, 1u8, 0u8, 0u8, 2u8, 1u8, 0u8, 0u8,
        1u8, 1u8, 1u8, 1u8, 0u8, 0u8, 0u8, 0u8,
        3u8, 3u8, 0u8, 0u8, 2u8, 2u8, 0u8, 0u8,
        1u8, 1u8, 1u8, 1u8, 0u8, 0u8, 0u8, 0u8,
        1u8, 2u8, 1u8, 2u8, 0u8, 0u8, 0u8, 0u8,
    ]
}

/// The modifier map: keycode and modifier mask of each modifier key.
pub open spec fn modifier_keys() -> Seq<u8> {
    seq![
        64u8, 1u8, 0u8, 0u8, 68u8, 1u8, 0u8, 0u8,
        65u8, 2u8, 0u8, 0u8, 67u8, 4u8, 0u8, 0u8,
        70u8, 4u8, 0u8, 0u8, 66u8, 8u8, 0u8, 0u8,
        69u8, 8u8, 0u8, 0u8, 63u8, 64u8, 0u8, 0u8,
    ]
}

/// The keysyms of a keycode, without and with Shift.
pub open spec fn key_symbols(s: ServerModel, keycode: int) -> (u32, u32) {
    if keycode >= VIRTUAL_BASE {
        let at = keycode - VIRTUAL_BASE;
        if at < s.virtual_keysyms.len() {
            (s.virtual_keysyms[at], s.virtual_keysyms[at])
        } else {
            (0, 0)
        }
    } else {
        keysyms_of(s.keyboard_map, (keycode - 8) as u32)
    }
}

/// The type of a key with given keysyms: letters are alphabetic.
pub open spec fn key_type(syms: (u32, u32)) -> u8 {
    if 0x61 <= syms.0 <= 0x7A {
        2
    } else if syms.0 != syms.1 && syms.1 != 0 {
        1
    } else {
        0
    }
}

/// How many keysyms a key has.
pub open spec fn key_width(syms: (u32, u32)) -> u8 {
    if key_type(syms) == 0 {
        1
    } else {
        2
    }
}

/// A key's entry in the list of keysyms.
pub open spec fn key_entry(conn: ClientConnection, syms: (u32, u32)) -> Seq<u8> {
    let o = conn.byte_order;
    seq![key_type(syms), 0u8, 0u8, 0u8, 1u8, key_width(syms)] + bytes16(o, key_width(syms) as u16)
        + bytes32(o, syms.0) + only_if(key_width(syms) == 2, bytes32(o, syms.1))
}

/// The entries of the first `n` keycodes.
pub open spec fn key_entries(s: ServerModel, conn: ClientConnection, n: nat) -> Seq<u8>
    decreases n,
{
    if n == 0 {
        Seq::empty()
    } else {
        key_entries(s, conn, (n - 1) as nat) + key_entry(
            conn,
            key_symbols(s, MIN_KEYCODE + n - 1),
        )
    }
}

/// How many keysyms the first `n` keycodes have.
pub open spec fn symbol_count(s: ServerModel, n: nat) -> int
    decreases n,
{
    if n == 0 {
        0
    } else {
        symbol_count(s, (n - 1) as nat) + key_width(key_symbols(s, MIN_KEYCODE + n - 1))
    }
}

/// Entries and their number go together: every entry is two words and its
/// keysyms, and no key has more than two.
pub proof fn law_key_entries(s: ServerModel, conn: ClientConnection, n: nat)
    ensures
        key_entries(s, conn, n).len() == 8 * n + 4 * symbol_count(s, n),
        n <= symbol_count(s, n) <= 2 * n,
    decreases n,
{
    if n > 0 {
        law_key_entries(s, conn, (n - 1) as nat);
    }
}

/// The keysyms of a keycode, without and with Shift.
fn symbols_at(server: &XServer, keycode: u32) -> (r: (u32, u32))
    requires
        8 <= keycode <= 255,
    ensures
        r == key_symbols(server@, keycode as int),
{
    if keycode >= VIRTUAL_BASE as u32 {
        let at: usize = (keycode - VIRTUAL_BASE as u32) as usize;
        if at < server.virtual_keysyms.len() {
            (server.virtual_keysyms[at], server.virtual_keysyms[at])
        } else {
            (0, 0)
        }
    } else {
        macos_keycode_to_keysym(server, keycode - 8)
    }
}

/// The entries of all keycodes, and the number of keysyms in them.
fn write_key_entries(server: &XServer, conn: &ClientConnection) -> (r: (Vec<u8>, u16))
    ensures
        r.0@ == key_entries(server@, *conn, 248),
        r.1 == symbol_count(server@, 248),
        r.1 <= 496,
        r.0@.len() == 8 * 248 + 4 * r.1,
{
    let mut buf: Vec<u8> = Vec::new();
    let mut total: u16 = 0;
    let mut n: u32 = 0;
    while n < 248
        invariant
            n <= 248,
            buf@ == key_entries(server@, *conn, n as nat),
            total == symbol_count(server@, n as nat),
        decreases 248 - n,
    {
        proof {
            law_key_entries(server@, *conn, n as nat);
        }
        let syms = symbols_at(server, n + 8);
        let kind: u8 = if syms.0 >= 0x61 && syms.0 <= 0x7A {
            2
        } else if syms.0 != syms.1 && syms.1 != 0 {
            1
        } else {
            0
        };
        let width: u8 = if kind == 0 {
            1
        } else {
            2
        };
        let ghost before = buf@;
        put_bytes(&mut buf, &[kind, 0, 0, 0, 1, width]);
        write_u16_to(conn, &mut buf, width as u16);
        write_u32_to(conn, &mut buf, syms.0);
        if width == 2 {
            write_u32_to(conn, &mut buf, syms.1);
        }
        assert(buf@ =~= before + key_entry(*conn, syms));
        total = total + width as u16;
        n = n + 1;
    }
    proof {
        law_key_entries(server@, *conn, 248);
    }
    (buf, total)
}

/// Which parts of the map GetMap asks for.
pub open spec fn parts_asked(conn: ClientConnection, data: Seq<u8>) -> u16 {
    if data.len() >= 8 {
        u16_at(conn.byte_order, data, 6)
    } else {
        3
    }
}

/// The parts of the map after the head of the reply.
pub open spec fn map_body(s: ServerModel, conn: ClientConnection, full: u16) -> Seq<u8> {
    only_if(full & 1 != 0, key_types()) + only_if(full & 2 != 0, key_entries(s, conn, 248)) + only_if(
        full & 4 != 0,
        modifier_keys(),
    )
}

/// The reply to GetMap.
pub open spec fn map_reply(s: ServerModel, conn: ClientConnection, full: u16) -> Seq<u8> {
    let o = conn.byte_order;
    let types = full & 1 != 0;
    let syms = full & 2 != 0;
    let mods = full & 4 != 0;
    let present = (if types { 1int } else { 0 }) + (if syms { 2int } else { 0 }) + (if mods {
        4int
    } else {
        0
    });
    let n_types = if types { 3u8 } else { 0 };
    let total = if syms { symbol_count(s, 248) } else { 0 };
    let n_mods = if mods { 8u8 } else { 0 };
    let body = map_body(s, conn, full);
    reply_head(conn, CORE_KEYBOARD, ((8 + body.len()) / 4) as u32) + seq![
        0u8,
        0u8,
        MIN_KEYCODE,
        MAX_KEYCODE,
    ] + bytes16(o, present as u16) + seq![0u8, n_types, n_types, MIN_KEYCODE] + bytes16(
        o,
        total as u16,
    ) + byte(248) + zeros(10) + seq![
        if mods { 63u8 } else { 0 },
        n_mods,
        n_mods,
    ] + zeros(6) + body
}

/// The reply to GetMap is as long as it says.
pub proof fn law_map_length(s: ServerModel, conn: ClientConnection, full: u16)
    ensures
        map_reply(s, conn, full).len() == 32 + 4 * ((8 + map_body(s, conn, full).len()) / 4),
        (8 + map_body(s, conn, full).len()) / 4 <= u32::MAX,
{
    law_key_entries(s, conn, 248);
}

fn handle_get_map(server: &mut XServer, conn: &ClientConnection, data: &[u8])
    ensures
        final(server)@ == old(server)@.replying(
            *conn,
            map_reply(old(server)@, *conn, parts_asked(*conn, data@)),
        ),
{
    let full: u16 = if data.len() >= 8 {
        read_u16(conn, data, 6)
    } else {
        3
    };
    let mut present: u16 = 0;
    let mut n_types: u8 = 0;
    let mut total: u16 = 0;
    let mut n_mods: u8 = 0;
    let mut first_mod: u8 = 0;
    let mut body: Vec<u8> = Vec::new();
    if full & 1 != 0 {
        present = 1;
        n_types = 3;
        put_bytes(
            &mut body,
            &[
                0, 0, 0, 0, 1, 0, 0, 0,
                1, 1, 0, 0, 2, 1, 0, 0,
                1, 1, 1, 1, 0, 0, 0, 0,
                3, 3, 0, 0, 2, 2, 0, 0,
                1, 1, 1, 1, 0, 0, 0, 0,
                1, 2, 1, 2, 0, 0, 0, 0,
            ],
        );
    }
    assert(body@ =~= only_if(full & 1 != 0, key_types()));
    if full & 2 != 0 {
        present = present + 2;
        let (mut entries, n) = write_key_entries(server, conn);
        total = n;
        body.append(&mut entries);
    }
    if full & 4 != 0 {
        present = present + 4;
        n_mods = 8;
        first_mod = 63;
        put_bytes(
            &mut body,
            &[
                64, 1, 0, 0, 68, 1, 0, 0,
                65, 2, 0, 0, 67, 4, 0, 0,
                70, 4, 0, 0, 66, 8, 0, 0,
                69, 8, 0, 0, 63, 64, 0, 0,
            ],
        );
    }
    assert(body@ =~= map_body(server@, *conn, full));
    let words: u32 = ((8 + body.len()) / 4) as u32;
    let mut reply = start_reply(conn, CORE_KEYBOARD, words);
    put_bytes(&mut reply, &[0, 0, MIN_KEYCODE, MAX_KEYCODE]);
    write_u16_to(conn, &mut reply, present);
    put_bytes(&mut reply, &[0, n_types, n_types, MIN_KEYCODE]);
    write_u16_to(conn, &mut reply, total);
    put_u8(&mut reply, 248);
    put_zeros(&mut reply, 10);
    put_bytes(&mut reply, &[first_mod, n_mods, n_mods]);
    put_zeros(&mut reply, 6);
    reply.append(&mut body);
    assert(reply@ =~= map_reply(server@, *conn, full));
    server.reply(conn, reply);
}

/// The name of a key: the letter K and three digits.
pub open spec fn key_name(keycode: int) -> Seq<u8> {
    seq![
        75u8,
        (48 + keycode / 100) as u8,
        (48 + keycode / 10 % 10) as u8,
        (48 + keycode % 10) as u8,
    ]
}

/// The names of the first `n` keys.
pub open spec fn key_names(n: nat) -> Seq<u8>
    decreases n,
{
    if n == 0 {
        Seq::empty()
    } else {
        key_names((n - 1) as nat) + key_name(MIN_KEYCODE + n - 1)
    }
}

fn write_key_names(buf: &mut Vec<u8>)
    ensures
        final(buf)@ == old(buf)@ + key_names(248),
        final(buf)@.len() == old(buf)@.len() + 992,
{
    let ghost start = buf@;
    let mut n: u32 = 0;
    assert(buf@ =~= start + key_names(0));
    while n < 248
        invariant
            n <= 248,
            buf@ == start + key_names(n as nat),
            buf@.len() == start.len() + 4 * n,
        decreases 248 - n,
    {
        let k: u32 = n + 8;
        let ghost before = buf@;
        put_bytes(
            buf,
            &[75, (48 + k / 100) as u8, (48 + k / 10 % 10) as u8, (48 + k % 10) as u8],
        );
        assert(buf@ =~= before + key_name(k as int));
        assert(buf@ =~= start + key_names((n + 1) as nat));
        n = n + 1;
    }
}

/// The state after the names of the key types were interned.
pub open spec fn naming_types(s: ServerModel) -> ServerModel {
    s.interning("ONE_LEVEL"@).interning("TWO_LEVEL"@).interning("ALPHABETIC"@)
}

/// The names of the key types.
#[verifier::opaque]
pub open spec fn type_names(s: ServerModel, conn: ClientConnection) -> Seq<u8> {
    let o = conn.byte_order;
    let s1 = s.interning("ONE_LEVEL"@);
    let s2 = s1.interning("TWO_LEVEL"@);
    bytes32(o, s.atoms.interned("ONE_LEVEL"@)) + bytes32(o, s1.atoms.interned("TWO_LEVEL"@))
        + bytes32(o, s2.atoms.interned("ALPHABETIC"@))
}

fn write_type_names(server: &mut XServer, conn: &ClientConnection, buf: &mut Vec<u8>)
    ensures
        final(server)@ == naming_types(old(server)@),
        final(buf)@ == old(buf)@ + type_names(old(server)@, *conn),
{
    reveal(type_names);
    let one_level: u32 = server.atoms.intern_or_create("ONE_LEVEL");
    let two_level: u32 = server.atoms.intern_or_create("TWO_LEVEL");
    let alphabetic: u32 = server.atoms.intern_or_create("ALPHABETIC");
    write_u32_to(conn, buf, one_level);
    write_u32_to(conn, buf, two_level);
    write_u32_to(conn, buf, alphabetic);
    assert(buf@ =~= old(buf)@ + type_names(old(server)@, *conn));
}

/// The state after the names of the levels were interned.
pub open spec fn naming_levels(s: ServerModel) -> ServerModel {
    s.interning("Any"@).interning("Shift"@).interning("Caps Lock"@)
}

/// The names of the levels of each key type.
#[verifier::opaque]
pub open spec fn level_names(s: ServerModel, conn: ClientConnection) -> Seq<u8> {
    let o = conn.byte_order;
    let s1 = s.interning("Any"@);
    let s2 = s1.interning("Shift"@);
    let any = bytes32(o, s.atoms.interned("Any"@));
    any + any + bytes32(o, s1.atoms.interned("Shift"@)) + any + bytes32(
        o,
        s2.atoms.interned("Caps Lock"@),
    )
}

fn write_level_names(server: &mut XServer, conn: &ClientConnection, buf: &mut Vec<u8>)
    ensures
        final(server)@ == naming_levels(old(server)@),
        final(buf)@ == old(buf)@ + level_names(old(server)@, *conn),
{
    reveal(level_names);
    let any: u32 = server.atoms.intern_or_create("Any");
    let shift: u32 = server.atoms.intern_or_create("Shift");
    let caps: u32 = server.atoms.intern_or_create("Caps Lock");
    write_u32_to(conn, buf, any);
    write_u32_to(conn, buf, any);
    write_u32_to(conn, buf, shift);
    write_u32_to(conn, buf, any);
    write_u32_to(conn, buf, caps);
    assert(buf@ =~= old(buf)@ + level_names(old(server)@, *conn));
}

/// Which names GetNames asks for.
pub open spec fn names_asked(conn: ClientConnection, data: Seq<u8>) -> u32 {
    if data.len() >= 10 {
        u16_at(conn.byte_order, data, 8) as u32
    } else {
        0
    }
}

/// The state after the names of the keyboard's components were interned.
pub open spec fn naming_components(s: ServerModel) -> ServerModel {
    s.interning("evdev+aliases(qwerty)"@).interning("pc(pc105)"@).interning("pc+us"@).interning(
        "complete"@,
    )
}

/// The names of the keyboard's components: keycodes, geometry, symbols and types.
#[verifier::opaque]
pub open spec fn component_names(s: ServerModel, conn: ClientConnection, which: u32) -> Seq<u8> {
    let o = conn.byte_order;
    let s1 = s.interning("evdev+aliases(qwerty)"@);
    let s2 = s1.interning("pc(pc105)"@);
    let s3 = s2.interning("pc+us"@);
    only_if(which & 1 != 0, bytes32(o, s.atoms.interned("evdev+aliases(qwerty)"@))) + only_if(
        which & 2 != 0,
        bytes32(o, s1.atoms.interned("pc(pc105)"@)),
    ) + only_if(which & 4 != 0, bytes32(o, s2.atoms.interned("pc+us"@))) + only_if(
        which & 0x40 != 0,
        bytes32(o, s3.atoms.interned("complete"@)),
    )
}

fn write_component_names(server: &mut XServer, conn: &ClientConnection, which: u32) -> (r: Vec<u8>)
    ensures
        final(server)@ == naming_components(old(server)@),
        r@ == component_names(old(server)@, *conn, which),
        r@.len() <= 16,
{
    reveal(component_names);
    let keycodes: u32 = server.atoms.intern_or_create("evdev+aliases(qwerty)");
    let geometry: u32 = server.atoms.intern_or_create("pc(pc105)");
    let symbols: u32 = server.atoms.intern_or_create("pc+us");
    let types: u32 = server.atoms.intern_or_create("complete");
    let mut r: Vec<u8> = Vec::new();
    if which & 1 != 0 {
        write_u32_to(conn, &mut r, keycodes);
    }
    if which & 2 != 0 {
        write_u32_to(conn, &mut r, geometry);
    }
    if which & 4 != 0 {
        write_u32_to(conn, &mut r, symbols);
    }
    if which & 0x40 != 0 {
        write_u32_to(conn, &mut r, types);
    }
    assert(r@ =~= component_names(old(server)@, *conn, which));
    r
}

/// The state after the names that GetNames asks for were interned.
pub open spec fn naming(s: ServerModel, which: u32) -> ServerModel {
    let components = naming_components(s);
    let types = if which & 0x100 != 0 {
        naming_types(components)
    } else {
        components
    };
    if which & 0x200 != 0 {
        naming_levels(types)
    } else {
        types
    }
}

/// The names that GetNames asks for.
pub open spec fn names_body(s: ServerModel, conn: ClientConnection, which: u32) -> Seq<u8> {
    let components = naming_components(s);
    let types = if which & 0x100 != 0 {
        naming_types(components)
    } else {
        components
    };
    component_names(s, conn, which) + only_if(which & 0x100 != 0, type_names(components, conn))
        + only_if(which & 0x200 != 0, level_names(types, conn)) + only_if(
        which & 0x1000 != 0,
        key_names(248),
    )
}

/// The reply to GetNames.
pub open spec fn names_reply(conn: ClientConnection, which: u32, body: Seq<u8>) -> Seq<u8> {
    let o = conn.byte_order;
    reply_head(conn, CORE_KEYBOARD, (body.len() / 4) as u32) + bytes32(o, which) + seq![
        MIN_KEYCODE,
        MAX_KEYCODE,
        3u8,
        0u8,
        0u8,
        0u8,
        MIN_KEYCODE,
        248u8,
    ] + zeros(6) + bytes16(o, 5) + zeros(4) + body
}

/// The names that GetNames asks for fill whole words, and not many of them.
pub proof fn law_names_fill_words(s: ServerModel, conn: ClientConnection, which: u32)
    ensures
        names_body(s, conn, which).len() % 4 == 0,
        names_body(s, conn, which).len() <= 1040,
{
    let components = naming_components(s);
    let types = if which & 0x100 != 0 {
        naming_types(components)
    } else {
        components
    };
    lemma_key_names_length(248);
    lemma_component_names_length(s, conn, which);
    lemma_names_lengths(components, types, conn);
    lemma_joined_length(
        component_names(s, conn, which),
        only_if(which & 0x100 != 0, type_names(components, conn)),
        only_if(which & 0x200 != 0, level_names(types, conn)),
        only_if(which & 0x1000 != 0, key_names(248)),
    );
}

proof fn lemma_joined_length(a: Seq<u8>, b: Seq<u8>, c: Seq<u8>, d: Seq<u8>)
    ensures
        (a + b + c + d).len() == a.len() + b.len() + c.len() + d.len(),
{
}

proof fn lemma_names_lengths(s: ServerModel, t: ServerModel, conn: ClientConnection)
    ensures
        type_names(s, conn).len() == 12,
        level_names(t, conn).len() == 20,
{
    reveal(type_names);
    reveal(level_names);
}

proof fn lemma_component_names_length(s: ServerModel, conn: ClientConnection, which: u32)
    ensures
        component_names(s, conn, which).len() % 4 == 0,
        component_names(s, conn, which).len() <= 16,
{
    reveal(component_names);
}

proof fn lemma_key_names_length(n: nat)
    ensures
        key_names(n).len() == 4 * n,
    decreases n,
{
    if n > 0 {
        lemma_key_names_length((n - 1) as nat);
    }
}

/// The names that GetNames asks for.
fn write_names(server: &mut XServer, conn: &ClientConnection, which: u32) -> (r: Vec<u8>)
    ensures
        final(server)@ == naming(old(server)@, which),
        r@ == names_body(old(server)@, *conn, which),
{
    let mut body = write_component_names(server, conn, which);
    if which & 0x100 != 0 {
        write_type_names(server, conn, &mut body);
    }
    if which & 0x200 != 0 {
        write_level_names(server, conn, &mut body);
    }
    if which & 0x1000 != 0 {
        write_key_names(&mut body);
    }
    assert(body@ =~= names_body(old(server)@, *conn, which));
    body
}

/// The reply to GetNames.
fn build_names_reply(conn: &ClientConnection, which: u32, mut body: Vec<u8>) -> (r: Vec<u8>)
    requires
        body@.len() <= 1040,
    ensures
        r@ == names_reply(*conn, which, body@),
{
    let words: u32 = (body.len() / 4) as u32;
    let mut reply = start_reply(conn, CORE_KEYBOARD, words);
    write_u32_to(conn, &mut reply, which);
    put_bytes(&mut reply, &[MIN_KEYCODE, MAX_KEYCODE, 3, 0, 0, 0, MIN_KEYCODE, 248]);
    put_zeros(&mut reply, 6);
    write_u16_to(conn, &mut reply, 5);
    put_zeros(&mut reply, 4);
    reply.append(&mut body);
    reply
}

fn handle_get_names(server: &mut XServer, conn: &ClientConnection, data: &[u8])
    ensures
        final(server)@ == ({
            let which = names_asked(*conn, data@);
            naming(old(server)@, which).replying(
                *conn,
                names_reply(*conn, which, names_body(old(server)@, *conn, which)),
            )
        }),
{
    let which: u32 = if data.len() >= 10 {
        read_u16(conn, data, 8) as u32
    } else {
        0
    };
    proof {
        law_names_fill_words(server@, *conn, which);
    }
    let body = write_names(server, conn, which);
    let reply = build_names_reply(conn, which, body);
    server.reply(conn, reply);
}

/// The flags that PerClientFlags sets.
pub open spec fn flags_set(conn: ClientConnection, data: Seq<u8>) -> u32 {
    let o = conn.byte_order;
    let change = if data.len() >= 12 {
        u32_at(o, data, 8)
    } else {
        0
    };
    let value = if data.len() >= 16 {
        u32_at(o, data, 12)
    } else {
        0
    };
    change & value
}

/// The reply to PerClientFlags.
pub open spec fn flags_reply(conn: ClientConnection, flags: u32) -> Seq<u8> {
    let o = conn.byte_order;
    reply_head(conn, CORE_KEYBOARD, 0) + bytes32(o, flags) + bytes32(o, flags) + zeros(16)
}

fn handle_per_client_flags(server: &mut XServer, conn: &ClientConnection, data: &[u8])
    ensures
        final(server)@ == old(server)@.replying(
            *conn,
            flags_reply(*conn, flags_set(*conn, data@)),
        ),
{
    let change: u32 = if data.len() >= 12 {
        read_u32(conn, data, 8)
    } else {
        0
    };
    let value: u32 = if data.len() >= 16 {
        read_u32(conn, data, 12)
    } else {
        0
    };
    let mut reply = start_reply(conn, CORE_KEYBOARD, 0);
    write_u32_to(conn, &mut reply, change & value);
    write_u32_to(conn, &mut reply, change & value);
    put_zeros(&mut reply, 16);
    server.reply(conn, reply);
}

/// A request of the extension. The compatibility map and the indicators are
/// empty; what the server does not know of is ignored.
pub open spec fn xkb_request(s: ServerModel, conn: ClientConnection, data: Seq<u8>) -> Outcome {
    let o = conn.byte_order;
    match data[1] {
        0 => done(
            s.replying(
                conn,
                reply_head(conn, 1, 0) + bytes16(o, 1) + bytes16(o, 0) + zeros(20),
            ),
        ),
        4 => done(s.replying(conn, state_reply(conn, s.modifier_state))),
        6 => done(s.replying(conn, controls_reply(conn))),
        8 => done(s.replying(conn, map_reply(s, conn, parts_asked(conn, data)))),
        10 | 12 | 13 => done(s.replying(conn, empty_reply(conn, CORE_KEYBOARD))),
        17 => {
            let which = names_asked(conn, data);
            done(
                naming(s, which).replying(
                    conn,
                    names_reply(conn, which, names_body(s, conn, which)),
                ),
            )
        },
        21 => done(s.replying(conn, flags_reply(conn, flags_set(conn, data)))),
        _ => done(s),
    }
}

/// Handles a request of the extension.
pub fn handle_xkb_request(server: &mut XServer, conn: &ClientConnection, data: &[u8]) -> (r: Result<
    (),
    ServerError,
>)
    requires
        data@.len() >= 2,
    ensures
        (final(server)@, r) == xkb_request(old(server)@, *conn, data@),
{
    match data[1] {
        0 => {
            let mut reply = start_reply(conn, 1, 0);
            write_u16_to(conn, &mut reply, 1);
            write_u16_to(conn, &mut reply, 0);
            put_zeros(&mut reply, 20);
            server.reply(conn, reply);
        },
        4 => handle_get_state(server, conn),
        6 => handle_get_controls(server, conn),
        8 => handle_get_map(server, conn, data),
        10 | 12 | 13 => {
            let reply = build_empty_reply(conn, CORE_KEYBOARD);
            server.reply(conn, reply);
        },
        17 => handle_get_names(server, conn, data),
        21 => handle_per_client_flags(server, conn, data),
        _ => {},
    }
    Ok(())
}

} // verus!
