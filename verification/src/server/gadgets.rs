//! What the extensions for input and shapes tell, and the input that they make up.

use vstd::prelude::*;

use super::blends::lemma_server_processed;
use super::connection::{reply_head, ClientConnection};
use super::extensions::shape::{extents_reply, rectangles_reply};
use super::extensions::xinput2::{fixed_point, pointer_reply, xi2_key_event};
use super::extensions::xtest::fake_may_lead_to;
use super::layout::{lemma_four_bytes, lemma_two_bytes};
use super::pasting::answered;
use super::requests::{
    counted, counting, processing_may_lead_to, server_fits, server_request, Pending,
};
use super::wire::{bytes16, bytes32, i16_at, pattern16, u16_at, u32_at, wrap16, zeros, ByteOrder};
use super::ServerModel;

verus! {

/// The answer to the query for a shape's extents as a client reads it: the same
/// rectangle twice.
pub open spec fn reads_extents(
    o: ByteOrder,
    e: Seq<u8>,
    x: i16,
    y: i16,
    width: u16,
    height: u16,
) -> bool {
    &&& e.len() == 32
    &&& e[0] == 1
    &&& i16_at(o, e, 12) == x
    &&& i16_at(o, e, 14) == y
    &&& u16_at(o, e, 16) == width
    &&& u16_at(o, e, 18) == height
    &&& i16_at(o, e, 20) == x
    &&& i16_at(o, e, 22) == y
    &&& u16_at(o, e, 24) == width
    &&& u16_at(o, e, 26) == height
}

proof fn lemma_extents(conn: ClientConnection, x: i16, y: i16, width: u16, height: u16)
    ensures
        reads_extents(
            conn.byte_order,
            extents_reply(conn, (x, y, width, height)),
            x,
            y,
            width,
            height,
        ),
{
    let o = conn.byte_order;
    let e = extents_reply(conn, (x, y, width, height));
    lemma_two_bytes(o, e, 12, pattern16(x));
    lemma_two_bytes(o, e, 14, pattern16(y));
    lemma_two_bytes(o, e, 16, width);
    lemma_two_bytes(o, e, 18, height);
    lemma_two_bytes(o, e, 20, pattern16(x));
    lemma_two_bytes(o, e, 22, pattern16(y));
    lemma_two_bytes(o, e, 24, width);
    lemma_two_bytes(o, e, 26, height);
}

proof fn lemma_query_extents(s: ServerModel, conn: ClientConnection, data: Seq<u8>, window: u32)
    requires
        data.len() >= 8,
        data[0] == 134,
        data[1] == 5,
        u32_at(conn.byte_order, data, 4) == window,
        s.window(window) is Some,
    ensures
        server_fits(s, conn, data),
        server_request(s, conn, data).1 is Ok,
        ({
            let w = s.window(window)->0;
            server_request(s, conn, data).0 == s.replying(
                conn,
                extents_reply(conn, (w.x, w.y, w.width, w.height)),
            )
        }),
{
    reveal(server_request);
}

/// The extents of a window's shape are the window's place and size.
pub proof fn law_extents_are_replied(
    s: ServerModel,
    id: u32,
    data: Seq<u8>,
    window: u32,
    after: ServerModel,
    r: Option<Pending>,
)
    requires
        s.connections.dom().contains(id),
        data.len() >= 8,
        data[0] == 134,
        data[1] == 5,
        u32_at(s.connections[id].byte_order, data, 4) == window,
        s.window(window) is Some,
        processing_may_lead_to(s, id, data, after, r),
    ensures
        ({
            let w = s.window(window)->0;
            exists|e: Seq<u8>| #[trigger]
                answered(s, after, s.connections[id].id, e) && reads_extents(
                    s.connections[id].byte_order,
                    e,
                    w.x,
                    w.y,
                    w.width,
                    w.height,
                )
        }),
{
    let conn = counting(s.connections[id]);
    let w = s.window(window)->0;
    lemma_query_extents(counted(s, id), conn, data, window);
    lemma_server_processed(s, id, data, after, r);
    lemma_extents(conn, w.x, w.y, w.width, w.height);
    assert(answered(
        s,
        after,
        s.connections[id].id,
        extents_reply(conn, (w.x, w.y, w.width, w.height)),
    ));
}

proof fn lemma_rectangles(s: ServerModel, conn: ClientConnection, data: Seq<u8>, window: u32) -> (e: Seq<
    u8,
>)
    requires
        data.len() >= 8,
        data[0] == 134,
        data[1] == 8,
        u32_at(conn.byte_order, data, 4) == window,
        s.window(window) is Some,
    ensures
        server_fits(s, conn, data),
        server_request(s, conn, data).1 is Ok,
        server_request(s, conn, data).0 == s.replying(conn, e),
        ({
            let o = conn.byte_order;
            let w = s.window(window)->0;
            &&& e.len() == 40
            &&& e[0] == 1
            &&& u32_at(o, e, 8) == 1
            &&& u16_at(o, e, 32) == 0
            &&& u16_at(o, e, 34) == 0
            &&& u16_at(o, e, 36) == w.width
            &&& u16_at(o, e, 38) == w.height
        }),
{
    reveal(server_request);
    let o = conn.byte_order;
    let w = s.window(window)->0;
    let e = rectangles_reply(conn, w.width, w.height);
    lemma_four_bytes(o, e, 8, 1);
    lemma_two_bytes(o, e, 32, 0);
    lemma_two_bytes(o, e, 34, 0);
    lemma_two_bytes(o, e, 36, w.width);
    lemma_two_bytes(o, e, 38, w.height);
    e
}

/// The shape of a window is one rectangle, as large as the window.
pub proof fn law_rectangles_are_replied(
    s: ServerModel,
    id: u32,
    data: Seq<u8>,
    window: u32,
    after: ServerModel,
    r: Option<Pending>,
)
    requires
        s.connections.dom().contains(id),
        data.len() >= 8,
        data[0] == 134,
        data[1] == 8,
        u32_at(s.connections[id].byte_order, data, 4) == window,
        s.window(window) is Some,
        processing_may_lead_to(s, id, data, after, r),
    ensures
        ({
            let o = s.connections[id].byte_order;
            let w = s.window(window)->0;
            exists|e: Seq<u8>| #[trigger]
                answered(s, after, s.connections[id].id, e) && e.len() == 40 && e[0] == 1 && u32_at(
                    o,
                    e,
                    8,
                ) == 1 && u16_at(o, e, 32) == 0 && u16_at(o, e, 34) == 0 && u16_at(o, e, 36)
                    == w.width && u16_at(o, e, 38) == w.height
        }),
{
    let e = lemma_rectangles(counted(s, id), counting(s.connections[id]), data, window);
    lemma_server_processed(s, id, data, after, r);
    assert(answered(s, after, s.connections[id].id, e));
}

/// A coordinate in sixteen bits before the point and sixteen after it.
pub open spec fn fixed_at(o: ByteOrder, e: Seq<u8>, at: int, v: i16) -> bool {
    u32_at(o, e, at) == pattern16(v) * 0x10000
}

/// The first thirty-two bytes of the answer to that query.
#[verifier::opaque]
spec fn device_pointer_start(conn: ClientConnection, root: u32, x: u32, y: u32) -> Seq<u8> {
    let o = conn.byte_order;
    reply_head(conn, 0, 7) + bytes32(o, root) + bytes32(o, 0) + bytes32(o, x) + bytes32(o, y)
        + bytes32(o, x) + bytes32(o, y)
}

proof fn lemma_device_pointer_start(conn: ClientConnection, root: u32, x: u32, y: u32)
    ensures
        ({
            let o = conn.byte_order;
            let e = device_pointer_start(conn, root, x, y);
            &&& e.len() == 32
            &&& e[0] == 1
            &&& u32_at(o, e, 8) == root
            &&& u32_at(o, e, 12) == 0
            &&& u32_at(o, e, 16) == x
            &&& u32_at(o, e, 20) == y
            &&& u32_at(o, e, 24) == x
            &&& u32_at(o, e, 28) == y
        }),
{
    reveal(device_pointer_start);
    let o = conn.byte_order;
    let e = device_pointer_start(conn, root, x, y);
    lemma_four_bytes(o, e, 8, root);
    lemma_four_bytes(o, e, 12, 0);
    lemma_four_bytes(o, e, 16, x);
    lemma_four_bytes(o, e, 20, y);
    lemma_four_bytes(o, e, 24, x);
    lemma_four_bytes(o, e, 28, y);
}

/// All of it.
#[verifier::opaque]
spec fn device_pointer_whole(start: Seq<u8>, o: ByteOrder, mods: Seq<u8>) -> Seq<u8> {
    start + seq![1u8, 0u8] + bytes16(o, 1) + mods + zeros(8) + mods + zeros(8)
}

proof fn lemma_device_pointer_whole(start: Seq<u8>, o: ByteOrder, mods: Seq<u8>)
    requires
        start.len() == 32,
    ensures
        device_pointer_whole(start, o, mods).len() >= 32,
        forall|i: int|
            0 <= i < 32 ==> #[trigger] device_pointer_whole(start, o, mods)[i] == start[i],
{
    reveal(device_pointer_whole);
}

proof fn lemma_query_pointer(s: ServerModel, conn: ClientConnection, data: Seq<u8>) -> (e: Seq<u8>)
    requires
        data.len() >= 4,
        data[0] == 131,
        data[1] == 40,
    ensures
        server_fits(s, conn, data),
        server_request(s, conn, data).1 is Ok,
        server_request(s, conn, data).0 == s.replying(conn, e),
        ({
            let o = conn.byte_order;
            &&& e[0] == 1
            &&& u32_at(o, e, 8) == s.root()
            &&& u32_at(o, e, 12) == 0
            &&& fixed_at(o, e, 16, wrap16(s.pointer_x as int))
            &&& fixed_at(o, e, 20, wrap16(s.pointer_y as int))
            &&& fixed_at(o, e, 24, wrap16(s.pointer_x as int))
            &&& fixed_at(o, e, 28, wrap16(s.pointer_y as int))
        }),
{
    assert(server_request(s, conn, data) == super::done(s.replying(conn, pointer_reply(s, conn))))
        by {
        reveal(server_request);
    }
    let o = conn.byte_order;
    let e = pointer_reply(s, conn);
    let x = fixed_point(wrap16(s.pointer_x as int));
    let y = fixed_point(wrap16(s.pointer_y as int));
    let start = device_pointer_start(conn, s.root(), x, y);
    let mods = bytes32(o, super::extensions::xkb::modifiers(s.modifier_state) as u32);
    lemma_device_pointer_start(conn, s.root(), x, y);
    lemma_device_pointer_whole(start, o, mods);
    assert(e == device_pointer_whole(start, o, mods)) by {
        reveal(device_pointer_whole);
        reveal(device_pointer_start);
    }
    assert forall|i: int| 0 <= i < 32 implies #[trigger] e[i] == start[i] by {}
    e
}

/// The input extension's query for the pointer is answered with where it is on the
/// screen.
pub proof fn law_device_pointer_is_replied(
    s: ServerModel,
    id: u32,
    data: Seq<u8>,
    after: ServerModel,
    r: Option<Pending>,
)
    requires
        s.connections.dom().contains(id),
        data.len() >= 4,
        data[0] == 131,
        data[1] == 40,
        processing_may_lead_to(s, id, data, after, r),
    ensures
        ({
            let o = s.connections[id].byte_order;
            exists|e: Seq<u8>| #[trigger]
                answered(s, after, s.connections[id].id, e) && e[0] == 1 && u32_at(o, e, 8)
                    == s.root() && fixed_at(o, e, 16, wrap16(s.pointer_x as int)) && fixed_at(
                    o,
                    e,
                    20,
                    wrap16(s.pointer_y as int),
                ) && fixed_at(o, e, 24, wrap16(s.pointer_x as int)) && fixed_at(
                    o,
                    e,
                    28,
                    wrap16(s.pointer_y as int),
                )
        }),
{
    let e = lemma_query_pointer(counted(s, id), counting(s.connections[id]), data);
    lemma_server_processed(s, id, data, after, r);
    assert(answered(s, after, s.connections[id].id, e));
}

/// The first half of a key event of the input extension.
#[verifier::opaque]
spec fn device_key_start(
    o: ByteOrder,
    evtype: u16,
    keycode: u8,
    time: u32,
    root: u32,
    window: u32,
    child: u32,
) -> Seq<u8> {
    seq![35u8, 131u8] + bytes16(o, 0) + bytes32(o, 12) + bytes16(o, evtype) + bytes16(o, 3)
        + bytes32(o, time) + bytes32(o, keycode as u32) + bytes32(o, root) + bytes32(o, window)
        + bytes32(o, child)
}

proof fn lemma_device_key_start(
    o: ByteOrder,
    evtype: u16,
    keycode: u8,
    time: u32,
    root: u32,
    window: u32,
    child: u32,
)
    ensures
        ({
            let e = device_key_start(o, evtype, keycode, time, root, window, child);
            &&& e.len() == 32
            &&& e[0] == 35
            &&& e[1] == 131
            &&& u32_at(o, e, 4) == 12
            &&& u16_at(o, e, 8) == evtype
            &&& u16_at(o, e, 10) == 3
            &&& u32_at(o, e, 12) == time
            &&& u32_at(o, e, 16) == keycode
            &&& u32_at(o, e, 20) == root
            &&& u32_at(o, e, 24) == window
            &&& u32_at(o, e, 28) == child
        }),
{
    reveal(device_key_start);
    let e = device_key_start(o, evtype, keycode, time, root, window, child);
    lemma_four_bytes(o, e, 4, 12);
    lemma_two_bytes(o, e, 8, evtype);
    lemma_two_bytes(o, e, 10, 3);
    lemma_four_bytes(o, e, 12, time);
    lemma_four_bytes(o, e, 16, keycode as u32);
    lemma_four_bytes(o, e, 20, root);
    lemma_four_bytes(o, e, 24, window);
    lemma_four_bytes(o, e, 28, child);
}

/// It with the coordinates.
#[verifier::opaque]
spec fn device_key_middle(
    o: ByteOrder,
    start: Seq<u8>,
    root_x: i16,
    root_y: i16,
    x: i16,
    y: i16,
) -> Seq<u8> {
    start + bytes32(o, fixed_point(root_x)) + bytes32(o, fixed_point(root_y)) + bytes32(
        o,
        fixed_point(x),
    ) + bytes32(o, fixed_point(y)) + zeros(4) + bytes16(o, 5) + zeros(6)
}

proof fn lemma_device_key_middle(
    o: ByteOrder,
    start: Seq<u8>,
    root_x: i16,
    root_y: i16,
    x: i16,
    y: i16,
)
    requires
        start.len() == 32,
    ensures
        ({
            let e = device_key_middle(o, start, root_x, root_y, x, y);
            &&& e.len() == 60
            &&& forall|i: int| 0 <= i < 32 ==> #[trigger] e[i] == start[i]
            &&& fixed_at(o, e, 32, root_x)
            &&& fixed_at(o, e, 36, root_y)
            &&& fixed_at(o, e, 40, x)
            &&& fixed_at(o, e, 44, y)
            &&& u16_at(o, e, 52) == 5
        }),
{
    reveal(device_key_middle);
    let e = device_key_middle(o, start, root_x, root_y, x, y);
    lemma_four_bytes(o, e, 32, fixed_point(root_x));
    lemma_four_bytes(o, e, 36, fixed_point(root_y));
    lemma_four_bytes(o, e, 40, fixed_point(x));
    lemma_four_bytes(o, e, 44, fixed_point(y));
    lemma_two_bytes(o, e, 52, 5);
}

/// A key event of the input extension is read as it was built, each number in its
/// place and the coordinates as fixed-point numbers.
pub proof fn law_device_keys_are_read(
    conn: ClientConnection,
    evtype: u16,
    keycode: u8,
    time: u32,
    root: u32,
    window: u32,
    child: u32,
    root_x: i16,
    root_y: i16,
    x: i16,
    y: i16,
    state: u16,
)
    ensures
        ({
            let o = conn.byte_order;
            let e = xi2_key_event(
                conn,
                evtype,
                keycode,
                time,
                root,
                window,
                child,
                root_x,
                root_y,
                x,
                y,
                state,
            );
            &&& e.len() == 80
            &&& e[0] == 35
            &&& e[1] == 131
            &&& u32_at(o, e, 4) == 12
            &&& u16_at(o, e, 8) == evtype
            &&& u16_at(o, e, 10) == 3
            &&& u32_at(o, e, 12) == time
            &&& u32_at(o, e, 16) == keycode
            &&& u32_at(o, e, 20) == root
            &&& u32_at(o, e, 24) == window
            &&& u32_at(o, e, 28) == child
            &&& fixed_at(o, e, 32, root_x)
            &&& fixed_at(o, e, 36, root_y)
            &&& fixed_at(o, e, 40, x)
            &&& fixed_at(o, e, 44, y)
            &&& u16_at(o, e, 52) == 5
        }),
{
    let o = conn.byte_order;
    let e = xi2_key_event(
        conn,
        evtype,
        keycode,
        time,
        root,
        window,
        child,
        root_x,
        root_y,
        x,
        y,
        state,
    );
    let start = device_key_start(o, evtype, keycode, time, root, window, child);
    let middle = device_key_middle(o, start, root_x, root_y, x, y);
    lemma_device_key_start(o, evtype, keycode, time, root, window, child);
    lemma_device_key_middle(o, start, root_x, root_y, x, y);
    let mods = bytes32(o, super::extensions::xkb::modifiers(state) as u32);
    let locked = bytes32(o, super::extensions::xkb::locked_modifiers(state) as u32);
    assert(e == middle + mods + zeros(4) + locked + mods + zeros(4)) by {
        reveal(device_key_start);
        reveal(device_key_middle);
    }
    assert forall|i: int| 0 <= i < 60 implies #[trigger] e[i] == middle[i] by {}
    assert forall|i: int| 0 <= i < 32 implies #[trigger] e[i] == start[i] by {
        assert(e[i] == middle[i]);
    }
}

/// Made-up motion puts the pointer where it was sent to, and leaves the windows.
pub proof fn law_made_up_motion_moves_the_pointer(
    s: ServerModel,
    conn: ClientConnection,
    data: Seq<u8>,
    after: ServerModel,
)
    requires
        data.len() >= 36,
        data[4] == 6,
        fake_may_lead_to(s, conn, data, after),
    ensures
        after.pointer_x == i16_at(conn.byte_order, data, 24),
        after.pointer_y == i16_at(conn.byte_order, data, 26),
        after.resources == s.resources,
{
}

/// The keyboard extension and GetKeyboardMapping tell the same of a key.
pub proof fn law_both_mappings_agree(s: ServerModel, keycode: u32)
    requires
        8 <= keycode < 200,
    ensures
        super::extensions::xkb::key_symbols(s, keycode as int)
            == super::keyboard::keycode_keysyms(s, keycode),
{
}

/// A key as the keyboard extension tells of it: one group, as wide as it has
/// symbols, and the symbols in their order. A key with a small letter is of the
/// kind that the lock turns into the capital.
pub proof fn law_key_entries_are_read(conn: ClientConnection, syms: (u32, u32))
    ensures
        ({
            let o = conn.byte_order;
            let e = super::extensions::xkb::key_entry(conn, syms);
            let wide = (0x61 <= syms.0 <= 0x7A) || (syms.0 != syms.1 && syms.1 != 0);
            &&& e.len() == (if wide {
                16nat
            } else {
                12nat
            })
            &&& e[4] == 1
            &&& e[5] == (if wide {
                2u8
            } else {
                1u8
            })
            &&& u16_at(o, e, 6) == e[5]
            &&& u32_at(o, e, 8) == syms.0
            &&& wide ==> u32_at(o, e, 12) == syms.1
            &&& (0x61 <= syms.0 <= 0x7A) <==> e[0] == 2
        }),
{
    let o = conn.byte_order;
    let e = super::extensions::xkb::key_entry(conn, syms);
    let width = super::extensions::xkb::key_width(syms);
    lemma_two_bytes(o, e, 6, width as u16);
    lemma_four_bytes(o, e, 8, syms.0);
    if width == 2 {
        lemma_four_bytes(o, e, 12, syms.1);
    }
}

/// A key's name is the letter K and its keycode in three digits.
pub proof fn law_key_names_are_decimal(keycode: int)
    requires
        8 <= keycode <= 255,
    ensures
        ({
            let e = super::extensions::xkb::key_name(keycode);
            &&& e.len() == 4
            &&& e[0] == 75
            &&& (e[1] - 48) * 100 + (e[2] - 48) * 10 + (e[3] - 48) == keycode
            &&& 48 <= e[1] <= 57
            &&& 48 <= e[2] <= 57
            &&& 48 <= e[3] <= 57
        }),
{
}

proof fn lemma_keyboard_state(s: ServerModel, conn: ClientConnection, data: Seq<u8>) -> (e: Seq<u8>)
    requires
        data.len() >= 4,
        data[0] == 135,
        data[1] == 4,
    ensures
        server_fits(s, conn, data),
        server_request(s, conn, data).1 is Ok,
        server_request(s, conn, data).0 == s.replying(conn, e),
        e.len() == 32,
        e[0] == 1,
        e[1] == 3,
        e[8] == s.modifier_state % 256,
        e[9] == s.modifier_state % 256,
        e[11] == (if s.modifier_state & 2 != 0 {
            2u8
        } else {
            0u8
        }),
{
    reveal(server_request);
    super::extensions::xkb::state_reply(conn, s.modifier_state)
}

/// The keyboard extension's query for the state is answered with the modifiers that
/// are down, and with the lock where it is on.
pub proof fn law_keyboard_state_is_replied(
    s: ServerModel,
    id: u32,
    data: Seq<u8>,
    after: ServerModel,
    r: Option<Pending>,
)
    requires
        s.connections.dom().contains(id),
        data.len() >= 4,
        data[0] == 135,
        data[1] == 4,
        processing_may_lead_to(s, id, data, after, r),
    ensures
        exists|e: Seq<u8>| #[trigger]
            answered(s, after, s.connections[id].id, e) && e.len() == 32 && e[0] == 1 && e[1] == 3
                && e[8] == s.modifier_state % 256 && e[9] == s.modifier_state % 256 && e[11] == (
            if s.modifier_state & 2 != 0 {
                2u8
            } else {
                0u8
            }),
{
    let e = lemma_keyboard_state(counted(s, id), counting(s.connections[id]), data);
    lemma_server_processed(s, id, data, after, r);
    assert(answered(s, after, s.connections[id].id, e));
}

} // verus!
