//! What a client is told when it connects, and what the display is told when a
//! window is shown.

use vstd::prelude::*;

use super::connection::ClientConnection;
use super::layout::{lemma_four_bytes, lemma_two_bytes};
use super::mapping::map_announced;
use super::pasting::answered;
use super::readings::{
    law_appearance_is_read, law_exposure_is_read, lemma_stamped, reads_exposed, reads_mapped,
};
use super::requests::{counted, counting, processing_may_lead_to, Pending};
use super::resources::WindowModel;
use super::sessions::{connected, screen_setup, setup_reply};
use super::wire::{bytes16, bytes32, u16_at, u32_at, zeros, ByteOrder};
use super::{ActionModel, Screen, ServerModel};
use crate::display::DisplayModel;

verus! {

/// The greeting up to its longest request.
#[verifier::opaque]
spec fn setup_start(o: ByteOrder, base: u32, mask: u32) -> Seq<u8> {
    seq![1u8, 0u8] + bytes16(o, 11) + bytes16(o, 0) + bytes16(o, 33) + zeros(4) + bytes32(o, base)
        + bytes32(o, mask) + zeros(4) + bytes16(o, 10) + bytes16(o, 65535)
}

/// The greeting up to its screen.
#[verifier::opaque]
spec fn setup_middle(start: Seq<u8>) -> Seq<u8> {
    start + seq![1u8, 2u8, 0u8, 0u8, 8u8, 32u8, 8u8, 255u8] + zeros(4) + seq![
        0x70u8, 0x73u8, 0x6Cu8, 0x58u8, 0x73u8, 0x65u8, 0x72u8, 0x76u8, 0x65u8, 0x72u8, 0u8, 0u8,
    ] + seq![1u8, 1u8, 32u8, 0u8, 0u8, 0u8, 0u8, 0u8] + seq![
        24u8, 32u8, 32u8, 0u8, 0u8, 0u8, 0u8, 0u8,
    ]
}

proof fn lemma_setup_start(o: ByteOrder, base: u32, mask: u32)
    ensures
        ({
            let e = setup_start(o, base, mask);
            &&& e.len() == 28
            &&& e[0] == 1
            &&& u16_at(o, e, 2) == 11
            &&& u16_at(o, e, 4) == 0
            &&& u16_at(o, e, 6) == 33
            &&& u32_at(o, e, 12) == base
            &&& u32_at(o, e, 16) == mask
            &&& u16_at(o, e, 24) == 10
            &&& u16_at(o, e, 26) == 65535
        }),
{
    reveal(setup_start);
    let e = setup_start(o, base, mask);
    lemma_two_bytes(o, e, 2, 11);
    lemma_two_bytes(o, e, 4, 0);
    lemma_two_bytes(o, e, 6, 33);
    lemma_four_bytes(o, e, 12, base);
    lemma_four_bytes(o, e, 16, mask);
    lemma_two_bytes(o, e, 24, 10);
    lemma_two_bytes(o, e, 26, 65535);
}

proof fn lemma_setup_middle(start: Seq<u8>)
    requires
        start.len() == 28,
    ensures
        ({
            let e = setup_middle(start);
            &&& e.len() == 68
            &&& forall|i: int| 0 <= i < 28 ==> #[trigger] e[i] == start[i]
            &&& e[28] == 1
            &&& e[29] == 2
            &&& e[34] == 8
            &&& e[35] == 255
            &&& e[60] == 24
            &&& e[61] == 32
        }),
{
    reveal(setup_middle);
}

/// The first half of a screen.
#[verifier::opaque]
spec fn screen_start(o: ByteOrder, c: Screen) -> Seq<u8> {
    bytes32(o, c.root_window) + bytes32(o, c.default_colormap) + bytes32(o, c.white_pixel)
        + bytes32(o, c.black_pixel) + zeros(4) + bytes16(o, c.width_in_pixels) + bytes16(
        o,
        c.height_in_pixels,
    ) + bytes16(o, c.width_in_mm) + bytes16(o, c.height_in_mm) + bytes16(o, 1) + bytes16(o, 1)
        + bytes32(o, c.root_visual.id)
}

proof fn lemma_screen_start(o: ByteOrder, c: Screen)
    ensures
        ({
            let e = screen_start(o, c);
            &&& e.len() == 36
            &&& u32_at(o, e, 0) == c.root_window
            &&& u32_at(o, e, 4) == c.default_colormap
            &&& u32_at(o, e, 8) == c.white_pixel
            &&& u32_at(o, e, 12) == c.black_pixel
            &&& u16_at(o, e, 20) == c.width_in_pixels
            &&& u16_at(o, e, 22) == c.height_in_pixels
            &&& u16_at(o, e, 24) == c.width_in_mm
            &&& u16_at(o, e, 26) == c.height_in_mm
            &&& u32_at(o, e, 32) == c.root_visual.id
        }),
{
    reveal(screen_start);
    let e = screen_start(o, c);
    lemma_four_bytes(o, e, 0, c.root_window);
    lemma_four_bytes(o, e, 4, c.default_colormap);
    lemma_four_bytes(o, e, 8, c.white_pixel);
    lemma_four_bytes(o, e, 12, c.black_pixel);
    lemma_two_bytes(o, e, 20, c.width_in_pixels);
    lemma_two_bytes(o, e, 22, c.height_in_pixels);
    lemma_two_bytes(o, e, 24, c.width_in_mm);
    lemma_two_bytes(o, e, 26, c.height_in_mm);
    lemma_four_bytes(o, e, 32, c.root_visual.id);
}

/// A screen as a client reads it.
pub open spec fn reads_screen(o: ByteOrder, e: Seq<u8>, c: Screen) -> bool {
    let v = c.root_visual;
    &&& e.len() == 72
    &&& u32_at(o, e, 0) == c.root_window
    &&& u32_at(o, e, 4) == c.default_colormap
    &&& u32_at(o, e, 8) == c.white_pixel
    &&& u32_at(o, e, 12) == c.black_pixel
    &&& u16_at(o, e, 20) == c.width_in_pixels
    &&& u16_at(o, e, 22) == c.height_in_pixels
    &&& u16_at(o, e, 24) == c.width_in_mm
    &&& u16_at(o, e, 26) == c.height_in_mm
    &&& u32_at(o, e, 32) == v.id
    &&& e[38] == c.root_depth
    &&& e[39] == 1
    &&& e[40] == 24
    &&& u16_at(o, e, 42) == 1
    &&& u32_at(o, e, 48) == v.id
    &&& e[52] == v.class
    &&& e[53] == v.bits_per_rgb
    &&& u16_at(o, e, 54) == v.colormap_entries
    &&& u32_at(o, e, 56) == v.red_mask
    &&& u32_at(o, e, 60) == v.green_mask
    &&& u32_at(o, e, 64) == v.blue_mask
}

/// A screen, with its first half given.
#[verifier::opaque]
spec fn whole_screen(o: ByteOrder, c: Screen, start: Seq<u8>) -> Seq<u8> {
    let v = c.root_visual;
    start + seq![0u8, 0u8, c.root_depth, 1u8, 24u8, 0u8] + bytes16(o, 1) + zeros(4)
        + bytes32(o, v.id) + seq![v.class, v.bits_per_rgb] + bytes16(o, v.colormap_entries)
        + bytes32(o, v.red_mask) + bytes32(o, v.green_mask) + bytes32(o, v.blue_mask) + zeros(4)
}

proof fn lemma_screen_rest(o: ByteOrder, c: Screen, start: Seq<u8>)
    requires
        start.len() == 36,
    ensures
        ({
            let v = c.root_visual;
            let e = whole_screen(o, c, start);
            &&& e.len() == 72
            &&& forall|i: int| 0 <= i < 36 ==> #[trigger] e[i] == start[i]
            &&& e[38] == c.root_depth
            &&& e[39] == 1
            &&& e[40] == 24
            &&& u16_at(o, e, 42) == 1
            &&& u32_at(o, e, 48) == v.id
            &&& e[52] == v.class
            &&& e[53] == v.bits_per_rgb
            &&& u16_at(o, e, 54) == v.colormap_entries
            &&& u32_at(o, e, 56) == v.red_mask
            &&& u32_at(o, e, 60) == v.green_mask
            &&& u32_at(o, e, 64) == v.blue_mask
        }),
{
    let v = c.root_visual;
    reveal(whole_screen);
    let e = whole_screen(o, c, start);
    lemma_two_bytes(o, e, 42, 1);
    lemma_four_bytes(o, e, 48, v.id);
    lemma_two_bytes(o, e, 54, v.colormap_entries);
    lemma_four_bytes(o, e, 56, v.red_mask);
    lemma_four_bytes(o, e, 60, v.green_mask);
    lemma_four_bytes(o, e, 64, v.blue_mask);
}

proof fn lemma_screen_setup(o: ByteOrder, c: Screen)
    ensures
        reads_screen(o, screen_setup(o, c), c),
{
    let start = screen_start(o, c);
    let e = screen_setup(o, c);
    lemma_screen_start(o, c);
    lemma_screen_rest(o, c, start);
    assert(e == whole_screen(o, c, start)) by {
        reveal(screen_setup);
        reveal(whole_screen);
        reveal(screen_start);
    }
    assert forall|i: int| 0 <= i < 36 implies #[trigger] e[i] == start[i] by {}
}

/// A greeting as a client reads it: the protocol's version, the identifiers it may
/// use, the longest request, the keycodes, and the screen behind sixty-eight bytes.
pub open spec fn reads_greeting(o: ByteOrder, e: Seq<u8>, base: u32, mask: u32, c: Screen) -> bool {
    &&& e.len() == 140
    &&& e[0] == 1
    &&& u16_at(o, e, 2) == 11
    &&& u16_at(o, e, 4) == 0
    &&& u16_at(o, e, 6) == 33
    &&& u32_at(o, e, 12) == base
    &&& u32_at(o, e, 16) == mask
    &&& u16_at(o, e, 24) == 10
    &&& u16_at(o, e, 26) == 65535
    &&& e[28] == 1
    &&& e[29] == 2
    &&& e[34] == 8
    &&& e[35] == 255
    &&& reads_screen(o, e.subrange(68, 140), c)
}

proof fn lemma_greeting(c: Screen, conn: ClientConnection)
    ensures
        reads_greeting(
            conn.byte_order,
            setup_reply(c, conn),
            conn.resource_id_base,
            conn.resource_id_mask,
            c,
        ),
{
    let o = conn.byte_order;
    let start = setup_start(o, conn.resource_id_base, conn.resource_id_mask);
    let middle = setup_middle(start);
    let e = setup_reply(c, conn);
    lemma_setup_start(o, conn.resource_id_base, conn.resource_id_mask);
    lemma_setup_middle(start);
    lemma_screen_setup(o, c);
    assert(e == middle + screen_setup(o, c)) by {
        reveal(setup_reply);
        reveal(setup_middle);
        reveal(setup_start);
    }
    assert(e.subrange(68, 140) =~= screen_setup(o, c));
    assert forall|i: int| 0 <= i < 68 implies #[trigger] e[i] == middle[i] by {}
}

/// A client that connects gets a block of identifiers that no later client gets,
/// and reads of it, and of the screen, in its own byte order.
pub proof fn law_clients_are_greeted(s: ServerModel, id: u32, order: ByteOrder)
    ensures
        ({
            let t = connected(s, id, order);
            &&& t.connections.dom().contains(id)
            &&& t.connections[id].byte_order == order
            &&& t.connections[id].id == id
            &&& t.connections[id].resource_id_base == s.next_resource_id_base
            &&& t.connections[id].resource_id_mask == 0x1FFFFF
            &&& t.connections[id].sequence_number == 1
            &&& s.next_resource_id_base <= 0xFFDFFFFF ==> t.next_resource_id_base
                == s.next_resource_id_base + 0x200000
            &&& exists|e: Seq<u8>| #[trigger]
                answered(s, t, id, e) && reads_greeting(
                    order,
                    e,
                    s.next_resource_id_base,
                    0x1FFFFF,
                    s.screen,
                )
        }),
{
    let t = connected(s, id, order);
    let conn = t.connections[id];
    lemma_greeting(s.screen, conn);
    assert(answered(s, t, id, setup_reply(s.screen, conn)));
}

/// MapWindow on a window below the root that has no native window yet asks the
/// display for one where, and as large as, the window is.
pub proof fn law_native_windows_are_asked_for(
    s: ServerModel,
    id: u32,
    data: Seq<u8>,
    window: u32,
    after: ServerModel,
    r: Option<Pending>,
)
    requires
        s.connections.dom().contains(id),
        data.len() >= 8,
        data[0] == 8,
        u32_at(s.connections[id].byte_order, data, 4) == window,
        s.window(window) is Some,
        s.window(window)->0.parent == s.root(),
        s.window(window)->0.native_window is None,
        processing_may_lead_to(s, id, data, after, r),
    ensures
        ({
            let w = s.window(window)->0;
            &&& after.window(window) == Some(
                (WindowModel { mapped: true, viewable: true, ..w }),
            )
            &&& after.outbox.len() == s.outbox.len() + 1
            &&& after.outbox.last() matches ActionModel::Display(
                DisplayModel::CreateWindow {
                    x11_id,
                    x,
                    y,
                    width,
                    height,
                    title,
                    override_redirect,
                },
            ) && x11_id == window && x == w.x && y == w.y && width == w.width && height == w.height
                && override_redirect == w.override_redirect
        }),
{
}

proof fn lemma_announced(s: ServerModel, conn: ClientConnection, window: u32, w: WindowModel)
    requires
        s.window(window) == Some(w),
        w.children.len() == 0,
    ensures
        ({
            let t = map_announced(s, conn, window);
            let o = conn.byte_order;
            &&& t.window(window) == Some(w)
            &&& t.outbox.len() == s.outbox.len() + if w.width > 0 && w.height > 0 {
                2nat
            } else {
                1nat
            }
            &&& t.outbox.take(s.outbox.len() as int) == s.outbox
            &&& t.outbox[s.outbox.len() as int] matches ActionModel::Reply { conn: who, data: e }
                && who == conn.id && reads_mapped(o, e, window)
            &&& w.width > 0 && w.height > 0 ==> (t.outbox.last() matches ActionModel::Event {
                conn: who,
                data: e,
            } && who == conn.id && reads_exposed(o, e, window, 0, 0, w.width, w.height, 0))
        }),
{
    let seq = conn.request_sequence();
    let m = super::events::map_notify(conn, window, window, false);
    law_appearance_is_read(conn, window, false);
    lemma_stamped(conn, m, seq);
    let x = super::events::expose_event(conn, window, 0, 0, w.width, w.height, 0);
    law_exposure_is_read(conn, window, 0, 0, w.width, w.height, 0);
    lemma_stamped(conn, x, seq);
    let t = map_announced(s, conn, window);
    assert(t.outbox.take(s.outbox.len() as int) =~= s.outbox);
}

/// MapWindow on a window inside another marks it mapped; the client is told, and
/// told to draw all of the window.
pub proof fn law_mapped_windows_are_announced(
    s: ServerModel,
    id: u32,
    data: Seq<u8>,
    window: u32,
    after: ServerModel,
    r: Option<Pending>,
)
    requires
        s.connections.dom().contains(id),
        data.len() >= 8,
        data[0] == 8,
        u32_at(s.connections[id].byte_order, data, 4) == window,
        s.window(window) is Some,
        s.window(window)->0.parent != s.root(),
        s.window(window)->0.children.len() == 0,
        s.window(window)->0.width > 0,
        s.window(window)->0.height > 0,
        processing_may_lead_to(s, id, data, after, r),
    ensures
        ({
            let w = s.window(window)->0;
            let o = s.connections[id].byte_order;
            &&& after.window(window) == Some(
                (WindowModel { mapped: true, viewable: true, ..w }),
            )
            &&& after.outbox.len() == s.outbox.len() + 2
            &&& after.outbox[s.outbox.len() as int] matches ActionModel::Reply {
                conn: who,
                data: e,
            } && who == s.connections[id].id && reads_mapped(o, e, window)
            &&& after.outbox.last() matches ActionModel::Event { conn: who, data: e } && who
                == s.connections[id].id && reads_exposed(
                o,
                e,
                window,
                0,
                0,
                w.width,
                w.height,
                0,
            )
        }),
{
    let w = s.window(window)->0;
    let conn = counting(s.connections[id]);
    let begun = counted(s, id);
    let marked = super::mapping::marked_mapped(begun, window);
    assert(after == map_announced(marked, conn, window));
    lemma_announced(
        marked,
        conn,
        window,
        WindowModel { mapped: true, viewable: true, ..w },
    );
}

} // verus!
