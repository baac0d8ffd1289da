//! The colors, cursors, fonts and keys that clients are told of.

use vstd::prelude::*;

use super::colors::{
    asked_color, channel_entries, channel_entry, channels_of, color_in, color_named, pixel_of,
    NamedColorModel,
};
use super::connection::{reply_head, ClientConnection};
use super::fonts::metrics_of;
use super::keyboard::{keycode_keysyms, keysym_table, us_keysyms};
use super::layout::{lemma_four_bytes, lemma_two_bytes};
use super::pasting::answered;
use super::pointing::lemma_input_processed;
use super::requests::{
    color_request, counted, counting, input_request, kind_of, processing_may_lead_to, Kind, Pending,
};
use super::resources::{CursorState, ResourceModel};
use super::wire::{bytes16, bytes32, u16_at, u32_at, zeros, ByteOrder};
use super::ServerModel;

verus! {

/// A request about colors or cursors, once it was processed.
pub proof fn lemma_color_processed(
    s: ServerModel,
    id: u32,
    data: Seq<u8>,
    after: ServerModel,
    r: Option<Pending>,
)
    requires
        s.connections.dom().contains(id),
        data.len() >= 4,
        kind_of(data[0]) == Kind::Color,
        processing_may_lead_to(s, id, data, after, r),
    ensures
        color_request(counted(s, id), counting(s.connections[id]), data).1 is Ok ==> after
            == color_request(counted(s, id), counting(s.connections[id]), data).0,
{
}

/// The answer to AllocColor as a client reads it.
pub open spec fn reads_color(o: ByteOrder, e: Seq<u8>, red: u16, green: u16, blue: u16) -> bool {
    &&& e.len() == 32
    &&& e[0] == 1
    &&& u16_at(o, e, 8) == (red / 256) * 257
    &&& u16_at(o, e, 10) == (green / 256) * 257
    &&& u16_at(o, e, 12) == (blue / 256) * 257
    &&& u32_at(o, e, 16) == (red / 256) * 65536 + (green / 256) * 256 + blue / 256
}

proof fn lemma_channels(red: u16, green: u16, blue: u16)
    ensures
        pixel_of(red, green, blue) == (red / 256) * 65536 + (green / 256) * 256 + blue / 256,
        channels_of(pixel_of(red, green, blue)).0 == (red / 256) * 257,
        channels_of(pixel_of(red, green, blue)).1 == (green / 256) * 257,
        channels_of(pixel_of(red, green, blue)).2 == (blue / 256) * 257,
{
}

proof fn lemma_alloc_color(s: ServerModel, conn: ClientConnection, data: Seq<u8>) -> (e: Seq<u8>)
    requires
        data.len() >= 14,
        data[0] == 84,
    ensures
        color_request(s, conn, data).1 is Ok,
        color_request(s, conn, data).0 == s.replying(conn, e),
        ({
            let o = conn.byte_order;
            reads_color(o, e, u16_at(o, data, 8), u16_at(o, data, 10), u16_at(o, data, 12))
        }),
{
    reveal(color_request);
    let o = conn.byte_order;
    let (r, g, b) = (u16_at(o, data, 8), u16_at(o, data, 10), u16_at(o, data, 12));
    let pixel = pixel_of(r, g, b);
    let (er, eg, eb) = channels_of(pixel);
    lemma_channels(r, g, b);
    let e = reply_head(conn, 0, 0) + bytes16(o, er) + bytes16(o, eg) + bytes16(o, eb) + zeros(2)
        + bytes32(o, pixel) + zeros(12);
    lemma_two_bytes(o, e, 8, er);
    lemma_two_bytes(o, e, 10, eg);
    lemma_two_bytes(o, e, 12, eb);
    lemma_four_bytes(o, e, 16, pixel);
    e
}

/// AllocColor replies with the pixel whose bytes are the high bytes of red, green
/// and blue, and with the color that it shows.
pub proof fn law_colors_are_replied(
    s: ServerModel,
    id: u32,
    data: Seq<u8>,
    after: ServerModel,
    r: Option<Pending>,
)
    requires
        s.connections.dom().contains(id),
        data.len() >= 14,
        data[0] == 84,
        processing_may_lead_to(s, id, data, after, r),
    ensures
        ({
            let o = s.connections[id].byte_order;
            exists|e: Seq<u8>| #[trigger]
                answered(s, after, s.connections[id].id, e) && reads_color(
                    o,
                    e,
                    u16_at(o, data, 8),
                    u16_at(o, data, 10),
                    u16_at(o, data, 12),
                )
        }),
{
    let e = lemma_alloc_color(counted(s, id), counting(s.connections[id]), data);
    lemma_color_processed(s, id, data, after, r);
    assert(answered(s, after, s.connections[id].id, e));
}

/// Whether a color is the last of its name.
pub open spec fn last_named(colors: Seq<NamedColorModel>, name: Seq<char>, i: int) -> bool {
    &&& 0 <= i < colors.len()
    &&& colors[i].name == name
    &&& forall|j: int| i < j < colors.len() ==> (#[trigger] colors[j]).name != name
}

proof fn lemma_named(colors: Seq<NamedColorModel>, name: Seq<char>, i: int)
    requires
        last_named(colors, name, i),
    ensures
        color_named(colors, name) == (colors[i].red, colors[i].green, colors[i].blue),
    decreases colors.len(),
{
    if i < colors.len() - 1 {
        assert(colors[colors.len() - 1].name != name);
        let rest = colors.drop_last();
        assert(rest[i] == colors[i]);
        assert forall|j: int| i < j < rest.len() implies (#[trigger] rest[j]).name != name by {
            assert(rest[j] == colors[j]);
        }
        lemma_named(rest, name, i);
    }
}

/// The answer to AllocNamedColor as a client reads it.
pub open spec fn reads_named(o: ByteOrder, e: Seq<u8>, c: NamedColorModel) -> bool {
    &&& e.len() == 32
    &&& e[0] == 1
    &&& u32_at(o, e, 8) == (c.red / 256) * 65536 + (c.green / 256) * 256 + c.blue / 256
    &&& u16_at(o, e, 12) == c.red
    &&& u16_at(o, e, 14) == c.green
    &&& u16_at(o, e, 16) == c.blue
    &&& u16_at(o, e, 18) == c.red
    &&& u16_at(o, e, 20) == c.green
    &&& u16_at(o, e, 22) == c.blue
}

proof fn lemma_alloc_named(s: ServerModel, conn: ClientConnection, data: Seq<u8>, i: int) -> (e: Seq<
    u8,
>)
    requires
        data.len() >= 12,
        data.len() >= 12 + u16_at(conn.byte_order, data, 8),
        data[0] == 85,
        last_named(s.colors, asked_color(conn.byte_order, data), i),
    ensures
        color_request(s, conn, data).1 is Ok,
        color_request(s, conn, data).0 == s.replying(conn, e),
        reads_named(conn.byte_order, e, s.colors[i]),
{
    reveal(color_request);
    let o = conn.byte_order;
    lemma_named(s.colors, asked_color(o, data), i);
    let c = s.colors[i];
    let (r, g, b) = (c.red, c.green, c.blue);
    lemma_channels(r, g, b);
    let e = reply_head(conn, 0, 0) + bytes32(o, pixel_of(r, g, b)) + bytes16(o, r) + bytes16(o, g)
        + bytes16(o, b) + bytes16(o, r) + bytes16(o, g) + bytes16(o, b) + zeros(8);
    lemma_four_bytes(o, e, 8, pixel_of(r, g, b));
    lemma_two_bytes(o, e, 12, r);
    lemma_two_bytes(o, e, 14, g);
    lemma_two_bytes(o, e, 16, b);
    lemma_two_bytes(o, e, 18, r);
    lemma_two_bytes(o, e, 20, g);
    lemma_two_bytes(o, e, 22, b);
    e
}

/// AllocNamedColor replies with the pixel and the color of that name.
pub proof fn law_named_colors_are_replied(
    s: ServerModel,
    id: u32,
    data: Seq<u8>,
    i: int,
    after: ServerModel,
    r: Option<Pending>,
)
    requires
        s.connections.dom().contains(id),
        data.len() >= 12,
        data.len() >= 12 + u16_at(s.connections[id].byte_order, data, 8),
        data[0] == 85,
        last_named(s.colors, asked_color(s.connections[id].byte_order, data), i),
        processing_may_lead_to(s, id, data, after, r),
    ensures
        exists|e: Seq<u8>| #[trigger]
            answered(s, after, s.connections[id].id, e) && reads_named(
                s.connections[id].byte_order,
                e,
                s.colors[i],
            ),
{
    let e = lemma_alloc_named(counted(s, id), counting(s.connections[id]), data, i);
    lemma_color_processed(s, id, data, after, r);
    assert(answered(s, after, s.connections[id].id, e));
}

/// The answer to LookupColor as a client reads it.
pub open spec fn reads_looked_up(o: ByteOrder, e: Seq<u8>, c: NamedColorModel) -> bool {
    &&& e.len() == 32
    &&& e[0] == 1
    &&& u16_at(o, e, 8) == c.red
    &&& u16_at(o, e, 10) == c.green
    &&& u16_at(o, e, 12) == c.blue
    &&& u16_at(o, e, 14) == c.red
    &&& u16_at(o, e, 16) == c.green
    &&& u16_at(o, e, 18) == c.blue
}

proof fn lemma_lookup(s: ServerModel, conn: ClientConnection, data: Seq<u8>, i: int) -> (e: Seq<u8>)
    requires
        data.len() >= 12,
        data.len() >= 12 + u16_at(conn.byte_order, data, 8),
        data[0] == 92,
        last_named(s.colors, asked_color(conn.byte_order, data), i),
    ensures
        color_request(s, conn, data).1 is Ok,
        color_request(s, conn, data).0 == s.replying(conn, e),
        reads_looked_up(conn.byte_order, e, s.colors[i]),
{
    reveal(color_request);
    let o = conn.byte_order;
    lemma_named(s.colors, asked_color(o, data), i);
    let c = s.colors[i];
    let (r, g, b) = (c.red, c.green, c.blue);
    let e = reply_head(conn, 0, 0) + bytes16(o, r) + bytes16(o, g) + bytes16(o, b) + bytes16(o, r)
        + bytes16(o, g) + bytes16(o, b) + zeros(12);
    lemma_two_bytes(o, e, 8, r);
    lemma_two_bytes(o, e, 10, g);
    lemma_two_bytes(o, e, 12, b);
    lemma_two_bytes(o, e, 14, r);
    lemma_two_bytes(o, e, 16, g);
    lemma_two_bytes(o, e, 18, b);
    e
}

/// LookupColor replies with the color of that name.
pub proof fn law_looked_up_colors_are_replied(
    s: ServerModel,
    id: u32,
    data: Seq<u8>,
    i: int,
    after: ServerModel,
    r: Option<Pending>,
)
    requires
        s.connections.dom().contains(id),
        data.len() >= 12,
        data.len() >= 12 + u16_at(s.connections[id].byte_order, data, 8),
        data[0] == 92,
        last_named(s.colors, asked_color(s.connections[id].byte_order, data), i),
        processing_may_lead_to(s, id, data, after, r),
    ensures
        exists|e: Seq<u8>| #[trigger]
            answered(s, after, s.connections[id].id, e) && reads_looked_up(
                s.connections[id].byte_order,
                e,
                s.colors[i],
            ),
{
    let e = lemma_lookup(counted(s, id), counting(s.connections[id]), data, i);
    lemma_color_processed(s, id, data, after, r);
    assert(answered(s, after, s.connections[id].id, e));
}

/// Whether the color of a pixel stands at a place: each byte of the pixel spread
/// over sixteen bits, red first.
pub open spec fn color_at(o: ByteOrder, e: Seq<u8>, at: int, pixel: u32) -> bool {
    &&& u16_at(o, e, at) == ((pixel / 65536) % 256) * 257
    &&& u16_at(o, e, at + 2) == ((pixel / 256) % 256) * 257
    &&& u16_at(o, e, at + 4) == (pixel % 256) * 257
}

proof fn lemma_entry(o: ByteOrder, before: Seq<u8>, pixel: u32, after: Seq<u8>)
    ensures
        channel_entry(o, pixel).len() == 8,
        color_at(o, before + channel_entry(o, pixel) + after, before.len() as int, pixel),
{
    let (r, g, b) = channels_of(pixel);
    let e = before + channel_entry(o, pixel) + after;
    let at = before.len() as int;
    let entry = channel_entry(o, pixel);
    assert(entry.len() == 8);
    assert forall|i: int| 0 <= i < 8 implies #[trigger] entry[i] == e[at + i] by {}
    lemma_two_bytes(o, entry, 0, r);
    lemma_two_bytes(o, entry, 2, g);
    lemma_two_bytes(o, entry, 4, b);
    assert(entry[0] == e[at] && entry[1] == e[at + 1] && entry[2] == e[at + 2] && entry[3] == e[at
        + 3] && entry[4] == e[at + 4] && entry[5] == e[at + 5]);
}

proof fn lemma_entries(o: ByteOrder, data: Seq<u8>, n: nat, before: Seq<u8>, after: Seq<u8>)
    ensures
        channel_entries(o, data, n).len() == 8 * n,
        forall|i: int| #![trigger u32_at(o, data, 8 + i * 4)]
            0 <= i < n ==> color_at(
                o,
                before + channel_entries(o, data, n) + after,
                before.len() + 8 * i,
                u32_at(o, data, 8 + i * 4),
            ),
    decreases n,
{
    if n > 0 {
        let k = (n - 1) as nat;
        let pixel = u32_at(o, data, 8 + (n - 1) * 4);
        let first = channel_entries(o, data, k);
        let last = channel_entry(o, pixel);
        let all = before + channel_entries(o, data, n) + after;
        lemma_entries(o, data, k, before, last + after);
        lemma_entry(o, before + first, pixel, after);
        assert(all =~= before + first + (last + after));
        assert(all =~= (before + first) + last + after);
        assert forall|i: int| #![trigger u32_at(o, data, 8 + i * 4)] 0 <= i < n implies color_at(
            o,
            all,
            before.len() + 8 * i,
            u32_at(o, data, 8 + i * 4),
        ) by {
            if i == k {
                assert((before + first).len() == before.len() + 8 * i);
            }
        }
    }
}

proof fn lemma_query_colors(s: ServerModel, conn: ClientConnection, data: Seq<u8>, n: nat) -> (e: Seq<
    u8,
>)
    requires
        data.len() == 8 + 4 * n,
        data[0] == 91,
        n < 0x10000,
    ensures
        color_request(s, conn, data).1 is Ok,
        color_request(s, conn, data).0 == s.replying(conn, e),
        e.len() == 32 + 8 * n,
        e[0] == 1,
        u16_at(conn.byte_order, e, 8) == n,
        forall|i: int| #![trigger u32_at(conn.byte_order, data, 8 + i * 4)]
            0 <= i < n ==> color_at(
                conn.byte_order,
                e,
                32 + 8 * i,
                u32_at(conn.byte_order, data, 8 + i * 4),
            ),
{
    reveal(color_request);
    let o = conn.byte_order;
    assert((data.len() - 8) / 4 == n);
    let head = reply_head(conn, 0, (n * 2) as u32) + bytes16(o, n as u16) + zeros(22);
    let e = head + channel_entries(o, data, n);
    assert(head.len() == 32);
    lemma_entries(o, data, n, head, seq![]);
    assert(e =~= head + channel_entries(o, data, n) + seq![]);
    lemma_two_bytes(o, e, 8, n as u16);
    e
}

/// QueryColors replies with the color of each pixel that was asked for.
pub proof fn law_pixels_are_named(
    s: ServerModel,
    id: u32,
    data: Seq<u8>,
    n: nat,
    after: ServerModel,
    r: Option<Pending>,
)
    requires
        s.connections.dom().contains(id),
        data.len() == 8 + 4 * n,
        data[0] == 91,
        n < 0x10000,
        processing_may_lead_to(s, id, data, after, r),
    ensures
        ({
            let o = s.connections[id].byte_order;
            exists|e: Seq<u8>| #[trigger]
                answered(s, after, s.connections[id].id, e) && e.len() == 32 + 8 * n && e[0] == 1
                    && u16_at(o, e, 8) == n && forall|i: int| #![trigger u32_at(o, data, 8 + i * 4)]
                    0 <= i < n ==> color_at(o, e, 32 + 8 * i, u32_at(o, data, 8 + i * 4))
        }),
{
    let e = lemma_query_colors(counted(s, id), counting(s.connections[id]), data, n);
    lemma_color_processed(s, id, data, after, r);
    assert(answered(s, after, s.connections[id].id, e));
}

/// A line of the color table with three numbers and a name is that color: each
/// number spread over sixteen bits, red first.
pub proof fn law_color_lines_are_read(line: Seq<char>, r: u32, g: u32, b: u32)
    requires
        super::parse::words(line).len() >= 4,
        super::parse::words(line)[0][0] != '!',
        super::parse::words(line)[0][0] != '#',
        super::parse::number_in(super::parse::words(line)[0], 255) == Some(r),
        super::parse::number_in(super::parse::words(line)[1], 255) == Some(g),
        super::parse::number_in(super::parse::words(line)[2], 255) == Some(b),
        r <= 255,
        g <= 255,
        b <= 255,
    ensures
        color_in(line) matches Some(c) && c.red == r * 257 && c.green == g * 257 && c.blue == b
            * 257,
{
}

/// Whether a cursor has these colors.
pub open spec fn tinted(
    c: CursorState,
    fore: (u16, u16, u16),
    back: (u16, u16, u16),
) -> bool {
    &&& c.fore_red == fore.0
    &&& c.fore_green == fore.1
    &&& c.fore_blue == fore.2
    &&& c.back_red == back.0
    &&& c.back_green == back.1
    &&& c.back_blue == back.2
}

proof fn lemma_glyph_cursor(s: ServerModel, conn: ClientConnection, data: Seq<u8>)
    requires
        data.len() >= 32,
        data[0] == 94,
    ensures
        color_request(s, conn, data).1 is Ok,
        ({
            let o = conn.byte_order;
            let c = super::cursors::cursor_from_glyph(s, conn, data);
            color_request(s, conn, data).0 == s.with_resource(c.id, ResourceModel::Cursor(c))
        }),
{
    reveal(color_request);
}

/// A cursor that CreateGlyphCursor made has the glyphs and colors that were sent,
/// and looks as the table says of its glyph.
pub proof fn law_glyph_cursors_are_made_as_asked(
    s: ServerModel,
    id: u32,
    data: Seq<u8>,
    cursor: u32,
    after: ServerModel,
    r: Option<Pending>,
)
    requires
        s.connections.dom().contains(id),
        data.len() >= 32,
        data[0] == 94,
        u32_at(s.connections[id].byte_order, data, 4) == cursor,
        processing_may_lead_to(s, id, data, after, r),
    ensures
        after.resources.dom().contains(cursor),
        ({
            let o = s.connections[id].byte_order;
            after.resources[cursor] matches ResourceModel::Cursor(c) && c.id == cursor
                && c.source_font == u32_at(o, data, 8) && c.mask_font == u32_at(o, data, 12)
                && c.source_char == u16_at(o, data, 16) && c.mask_char == u16_at(o, data, 18)
                && tinted(
                c,
                (u16_at(o, data, 20), u16_at(o, data, 22), u16_at(o, data, 24)),
                (u16_at(o, data, 26), u16_at(o, data, 28), u16_at(o, data, 30)),
            ) && (c.source_char < s.glyph_cursors.len() ==> c.macos_type
                == s.glyph_cursors[c.source_char as int])
        }),
{
    lemma_glyph_cursor(counted(s, id), counting(s.connections[id]), data);
    lemma_color_processed(s, id, data, after, r);
}

proof fn lemma_cursor(s: ServerModel, conn: ClientConnection, data: Seq<u8>)
    requires
        data.len() >= 32,
        data[0] == 93,
    ensures
        color_request(s, conn, data).1 is Ok,
        ({
            let c = super::cursors::cursor_from_pixmap(s, conn, data);
            color_request(s, conn, data).0 == s.with_resource(c.id, ResourceModel::Cursor(c))
        }),
{
    reveal(color_request);
}

/// A cursor that CreateCursor made has the colors that were sent; a tall and
/// narrow one whose hot spot is in its middle is a text cursor.
pub proof fn law_cursors_are_made_as_asked(
    s: ServerModel,
    id: u32,
    data: Seq<u8>,
    cursor: u32,
    after: ServerModel,
    r: Option<Pending>,
)
    requires
        s.connections.dom().contains(id),
        data.len() >= 32,
        data[0] == 93,
        u32_at(s.connections[id].byte_order, data, 4) == cursor,
        processing_may_lead_to(s, id, data, after, r),
    ensures
        after.resources.dom().contains(cursor),
        ({
            let o = s.connections[id].byte_order;
            after.resources[cursor] matches ResourceModel::Cursor(c) && c.id == cursor && tinted(
                c,
                (u16_at(o, data, 16), u16_at(o, data, 18), u16_at(o, data, 20)),
                (u16_at(o, data, 22), u16_at(o, data, 24), u16_at(o, data, 26)),
            ) && (super::pixmap_in(s.resources, u32_at(o, data, 8)) matches Some(p) ==> (p.width > 0
                && p.width * 3 < p.height && u16_at(o, data, 28) == p.width / 2 ==> c.macos_type
                == 1))
        }),
{
    lemma_cursor(counted(s, id), counting(s.connections[id]), data);
    lemma_color_processed(s, id, data, after, r);
}

proof fn lemma_keysyms(s: ServerModel, o: ByteOrder, first: u32, n: nat, before: Seq<u8>, after: Seq<
    u8,
>)
    requires
        first + n <= 0x1000,
    ensures
        keysym_table(s, o, first, n).len() == 16 * n,
        forall|i: int| #![trigger keycode_keysyms(s, (first + i) as u32)]
            0 <= i < n ==> {
                let e = before + keysym_table(s, o, first, n) + after;
                &&& u32_at(o, e, before.len() + 16 * i) == keycode_keysyms(
                    s,
                    (first + i) as u32,
                ).0
                &&& u32_at(o, e, before.len() + 16 * i + 4) == keycode_keysyms(
                    s,
                    (first + i) as u32,
                ).1
            },
    decreases n,
{
    if n > 0 {
        let k = (n - 1) as nat;
        let (plain, shifted) = keycode_keysyms(s, (first + k) as u32);
        let rest = keysym_table(s, o, first, k);
        let entry = bytes32(o, plain) + bytes32(o, shifted) + bytes32(o, 0) + bytes32(o, 0);
        let all = before + keysym_table(s, o, first, n) + after;
        lemma_keysyms(s, o, first, k, before, entry + after);
        assert(all =~= before + rest + (entry + after));
        let at = before.len() as int + 16 * k;
        assert(entry.len() == 16);
        assert forall|i: int| 0 <= i < 16 implies #[trigger] entry[i] == all[at + i] by {}
        assert(entry[0] == all[at] && entry[1] == all[at + 1] && entry[2] == all[at + 2] && entry[3]
            == all[at + 3]);
        assert(entry[4] == all[at + 4] && entry[5] == all[at + 5] && entry[6] == all[at + 6]
            && entry[7] == all[at + 7]);
        lemma_four_bytes(o, all, at, plain);
        lemma_four_bytes(o, all, at + 4, shifted);
        assert forall|i: int| #![trigger keycode_keysyms(s, (first + i) as u32)] 0 <= i
            < n implies u32_at(o, all, before.len() + 16 * i) == keycode_keysyms(
            s,
            (first + i) as u32,
        ).0 && u32_at(o, all, before.len() + 16 * i + 4) == keycode_keysyms(
            s,
            (first + i) as u32,
        ).1 by {}
    }
}

proof fn lemma_keyboard_mapping(s: ServerModel, conn: ClientConnection, data: Seq<u8>) -> (e: Seq<
    u8,
>)
    requires
        data.len() >= 6,
        data[0] == 101,
    ensures
        input_request(s, conn, data).1 is Ok,
        input_request(s, conn, data).0.outbox == s.replying(conn, e).outbox,
        reads_keys(s, conn.byte_order, e, data[4] as int, data[5] as int),
{
    reveal(input_request);
    let o = conn.byte_order;
    let count = data[5] as u32;
    let head = reply_head(conn, 4, (count * 4) as u32) + zeros(24);
    let table = keysym_table(s, o, data[4] as u32, count as nat);
    let e = head + table;
    lemma_keysyms(s, o, data[4] as u32, count as nat, head, seq![]);
    assert(e =~= head + table + seq![]);
    e
}

/// The answer to GetKeyboardMapping as a client reads it: four symbols for each
/// keycode, of which the first is what the key gives and the second what it gives
/// with shift.
pub open spec fn reads_keys(s: ServerModel, o: ByteOrder, e: Seq<u8>, first: int, n: int) -> bool {
    &&& e.len() == 32 + 16 * n
    &&& e[0] == 1
    &&& e[1] == 4
    &&& forall|i: int| #![trigger keycode_keysyms(s, (first + i) as u32)]
        0 <= i < n ==> u32_at(o, e, 32 + 16 * i) == keycode_keysyms(s, (first + i) as u32).0
            && u32_at(o, e, 32 + 16 * i + 4) == keycode_keysyms(s, (first + i) as u32).1
}

/// GetKeyboardMapping replies with the symbols of the keycodes that were asked
/// for, in their order.
pub proof fn law_keys_are_replied(
    s: ServerModel,
    id: u32,
    data: Seq<u8>,
    after: ServerModel,
    r: Option<Pending>,
)
    requires
        s.connections.dom().contains(id),
        data.len() >= 6,
        data[0] == 101,
        processing_may_lead_to(s, id, data, after, r),
    ensures
        exists|e: Seq<u8>| #[trigger]
            answered(s, after, s.connections[id].id, e) && reads_keys(
                s,
                s.connections[id].byte_order,
                e,
                data[4] as int,
                data[5] as int,
            ),
{
    let begun = counted(s, id);
    let e = lemma_keyboard_mapping(begun, counting(s.connections[id]), data);
    lemma_input_processed(s, id, data, after, r);
    assert(answered(s, after, s.connections[id].id, e));
    assert forall|i: int| #![trigger keycode_keysyms(s, (data[4] + i) as u32)] true implies keycode_keysyms(
        s,
        (data[4] + i) as u32,
    ) == keycode_keysyms(begun, (data[4] + i) as u32) by {}
}

/// A key that gives a small letter gives the capital with shift; a key that gives
/// a symbol above the letters gives the same with shift.
pub proof fn law_shift_gives_capitals(key: u32)
    ensures
        0x61 <= us_keysyms(key).0 <= 0x7A ==> us_keysyms(key).1 == us_keysyms(key).0 - 0x20,
        us_keysyms(key).0 >= 0xFF00 ==> us_keysyms(key).1 == us_keysyms(key).0,
{
    reveal(us_keysyms);
}

/// The height of a font named by its properties is the size in its name: ascent and
/// descent make it up, and a character is a tenth of the width in its name wide.
pub proof fn law_font_size_is_its_height(name: Seq<char>, size: u32, width: u32)
    requires
        name.len() > 0,
        name[0] == '-',
        super::parse::split(name, '-').len() >= 14,
        super::parse::number_in(super::parse::split(name, '-')[7], 32767) == Some(size),
        super::parse::number_in(super::parse::split(name, '-')[12], 32767) == Some(width),
        size <= 1000,
        width <= 10000,
    ensures
        metrics_of(name).0 + metrics_of(name).1 == size,
        metrics_of(name).0 == (size * 3 + 2) / 4,
        metrics_of(name).2 == (width + 5) / 10,
{
}

} // verus!
