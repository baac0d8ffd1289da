//! Requests that draw text.

use vstd::prelude::*;

use super::connection::{read_i16, read_u32, ClientConnection};
use super::drawing::{draw_one, drawn, spotted, update_ime_spot};
use super::resources::ResourceModel;
use super::text::{char_of, utf8_of};
use super::wire::{copy_range, i16_at, put_bytes, u32_at};
use super::{done, gc_in, refused, Outcome, ServerError, ServerModel, XServer};
use crate::display::{RenderCommand, RenderModel, Xid};

verus! {

/// Where the text item after one of a given length stands.
pub open spec fn next_item(at: int, n: u8, wide: bool) -> int {
    if wide {
        at + 2 + 2 * n
    } else {
        at + 2 + n
    }
}

/// Bytes left from an offset on.
pub open spec fn left_from(data: Seq<u8>, at: int) -> int {
    if at < data.len() {
        data.len() - at
    } else {
        0
    }
}

/// Whether the text items from an offset on can be read: an item that is not an
/// end mark has room for its second byte.
pub open spec fn items_readable(data: Seq<u8>, at: int, wide: bool) -> bool
    decreases left_from(data, at),
{
    if at >= data.len() || data[at] == 0 || data[at] == 255 {
        true
    } else {
        at + 1 < data.len() && items_readable(data, next_item(at, data[at], wide), wide)
    }
}

/// Tests whether the text items of a request can be read.
pub fn text_items_readable(data: &[u8], start: usize, wide: bool) -> (r: bool)
    ensures
        r == items_readable(data@, start as int, wide),
{
    let len: usize = data.len();
    let mut at: usize = start;
    while at < len
        invariant
            len == data@.len(),
            items_readable(data@, start as int, wide) == items_readable(data@, at as int, wide),
        decreases left_from(data@, at as int),
    {
        let n: u8 = data[at];
        if n == 0 || n == 255 {
            return true;
        }
        if at + 1 >= len {
            return false;
        }
        let step: usize = if wide {
            2 + 2 * n as usize
        } else {
            2 + n as usize
        };
        if len - at <= step {
            assert(items_readable(data@, next_item(at as int, n, wide), wide));
            return true;
        }
        at = at + step;
    }
    true
}

/// The bytes of the text items from an offset on. An item is a length, a shift
/// and that many bytes; 0 and 255 end the list, and an item that runs past the
/// end has no text.
pub open spec fn item_text(data: Seq<u8>, at: int) -> Seq<u8>
    decreases left_from(data, at),
{
    if at >= data.len() || data[at] == 0 || data[at] == 255 {
        Seq::empty()
    } else {
        let n = data[at] as int;
        (if at + 2 + n <= data.len() {
            data.subrange(at + 2, at + 2 + n)
        } else {
            Seq::empty()
        }) + item_text(data, at + 2 + n)
    }
}

/// UTF-8 of one character given by two bytes, high byte first; nothing for a
/// surrogate.
pub open spec fn wide_char(hi: u8, lo: u8) -> Seq<u8> {
    let code = (hi * 256 + lo) as u32;
    if vstd::utf8::is_scalar(code) {
        vstd::utf8::encode_scalar(code)
    } else {
        Seq::empty()
    }
}

/// UTF-8 of `n` two-byte characters from an offset on.
pub open spec fn wide_text(data: Seq<u8>, at: int, n: nat) -> Seq<u8>
    decreases n,
{
    if n == 0 {
        Seq::empty()
    } else {
        wide_text(data, at, (n - 1) as nat) + wide_char(
            data[at + 2 * (n - 1)],
            data[at + 2 * (n - 1) + 1],
        )
    }
}

/// How many of `n` two-byte characters from an offset on can be shown.
pub open spec fn wide_count(data: Seq<u8>, at: int, n: nat) -> nat
    decreases n,
{
    if n == 0 {
        0
    } else {
        wide_count(data, at, (n - 1) as nat) + (if vstd::utf8::is_scalar(
            (data[at + 2 * (n - 1)] * 256 + data[at + 2 * (n - 1) + 1]) as u32,
        ) {
            1nat
        } else {
            0nat
        })
    }
}

/// UTF-8 of the two-byte text items from an offset on.
pub open spec fn wide_item_text(data: Seq<u8>, at: int) -> Seq<u8>
    decreases left_from(data, at),
{
    if at >= data.len() || data[at] == 0 || data[at] == 255 {
        Seq::empty()
    } else {
        let n = data[at] as int;
        (if at + 2 + 2 * n <= data.len() {
            wide_text(data, at + 2, n as nat)
        } else {
            Seq::empty()
        }) + wide_item_text(data, at + 2 + 2 * n)
    }
}

/// Appends the UTF-8 of two-byte characters and counts those that can be shown.
fn put_wide_text(out: &mut Vec<u8>, data: &[u8], at: usize, n: usize) -> (r: usize)
    requires
        n <= 255,
        at + 2 * n <= data@.len(),
    ensures
        final(out)@ == old(out)@ + wide_text(data@, at as int, n as nat),
        r == wide_count(data@, at as int, n as nat),
        r <= n,
{
    let len: usize = data.len();
    let ghost start = out@;
    let mut count: usize = 0;
    assert(out@ =~= start + wide_text(data@, at as int, 0));
    for j in 0..n
        invariant
            n <= 255,
            len == data@.len(),
            at + 2 * n <= len,
            count <= j,
            count == wide_count(data@, at as int, j as nat),
            out@ == start + wide_text(data@, at as int, j as nat),
    {
        let hi: u32 = data[at + 2 * j] as u32;
        let lo: u32 = data[at + 2 * j + 1] as u32;
        let ghost before = out@;
        if let Some(c) = char_of(hi * 256 + lo) {
            let bytes = utf8_of(c);
            put_bytes(out, bytes.as_slice());
            count = count + 1;
        }
        assert(out@ =~= before + wide_char(hi as u8, lo as u8));
        assert(out@ =~= start + wide_text(data@, at as int, (j + 1) as nat));
    }
    count
}

/// What a graphics context draws text with: colour, background, font and
/// raster operation.
pub open spec fn text_pen(m: Map<u32, ResourceModel>, gcid: u32) -> (u32, u32, u32, u8) {
    match gc_in(m, gcid) {
        Some(g) => (g.foreground, g.background, g.font, g.function.number()),
        None => (0xFFFFFFu32, 0u32, 0u32, 3u8),
    }
}

fn text_pen_of(server: &XServer, gcid: Xid) -> (r: (u32, u32, u32, u8))
    ensures
        r == text_pen(server@.resources, gcid),
{
    match server.gc(gcid) {
        Some(g) => (g.foreground, g.background, g.font, g.function.code()),
        None => (0xFFFFFF, 0, 0, 3),
    }
}

/// The state after text without a background was drawn, if there is any.
pub open spec fn text_drawn(s: ServerModel, conn: ClientConnection, data: Seq<u8>, text: Seq<u8>) -> ServerModel {
    let o = conn.byte_order;
    let (color, _, font_id, gc_function) = text_pen(s.resources, u32_at(o, data, 8));
    if text.len() == 0 {
        s
    } else {
        drawn(
            s,
            u32_at(o, data, 4),
            seq![
                RenderModel::DrawText {
                    x: i16_at(o, data, 12),
                    y: i16_at(o, data, 14),
                    text,
                    font_id,
                    color,
                    bg_color: None,
                    gc_function,
                },
            ],
        )
    }
}

fn draw_text(server: &mut XServer, conn: &ClientConnection, data: &[u8], text: Vec<u8>)
    requires
        data@.len() >= 16,
    ensures
        final(server)@ == text_drawn(old(server)@, *conn, data@, text@),
{
    if text.len() > 0 {
        let (color, _, font_id, gc_function) = text_pen_of(server, read_u32(conn, data, 8));
        draw_one(
            server,
            read_u32(conn, data, 4),
            RenderCommand::DrawText {
                x: read_i16(conn, data, 12),
                y: read_i16(conn, data, 14),
                text,
                font_id,
                color,
                bg_color: None,
                gc_function,
            },
        );
    }
}

/// PolyText8.
pub open spec fn poly_text8(s: ServerModel, conn: ClientConnection, data: Seq<u8>) -> Outcome {
    if data.len() < 16 {
        refused(s, ServerError::Protocol)
    } else {
        done(text_drawn(s, conn, data, item_text(data, 16)))
    }
}

pub fn handle_poly_text8(server: &mut XServer, conn: &ClientConnection, data: &[u8]) -> (r: Result<
    (),
    ServerError,
>)
    requires
        items_readable(data@, 16, false),
    ensures
        (final(server)@, r) == poly_text8(old(server)@, *conn, data@),
{
    let len: usize = data.len();
    if len < 16 {
        return Err(ServerError::Protocol);
    }
    let mut text: Vec<u8> = Vec::new();
    let mut at: usize = 16;
    let ghost goal = item_text(data@, 16);
    assert(text@ + item_text(data@, 16) =~= goal);
    while at < len
        invariant
            len == data@.len(),
            items_readable(data@, at as int, false),
            text@ + item_text(data@, at as int) == goal,
        ensures
            text@ == goal,
        decreases left_from(data@, at as int),
    {
        let n: usize = data[at] as usize;
        if n == 0 || n == 255 {
            assert(text@ + item_text(data@, at as int) =~= text@);
            break;
        }
        let ghost before = text@;
        if n <= len - at - 2 {
            let piece = copy_range(data, at + 2, at + 2 + n);
            put_bytes(&mut text, piece.as_slice());
            at = at + 2 + n;
            assert(text@ + item_text(data@, at as int) =~= goal);
        } else {
            assert(item_text(data@, at + 2 + n) =~= Seq::empty());
            assert(item_text(data@, at as int) =~= Seq::empty());
            assert(text@ + item_text(data@, at as int) =~= text@);
            break;
        }
        if at == len {
            assert(text@ + item_text(data@, at as int) =~= text@);
        }
    }
    draw_text(server, conn, data, text);
    Ok(())
}

/// PolyText16.
pub open spec fn poly_text16(s: ServerModel, conn: ClientConnection, data: Seq<u8>) -> Outcome {
    if data.len() < 16 {
        refused(s, ServerError::Protocol)
    } else {
        done(text_drawn(s, conn, data, wide_item_text(data, 16)))
    }
}

pub fn handle_poly_text16(server: &mut XServer, conn: &ClientConnection, data: &[u8]) -> (r: Result<
    (),
    ServerError,
>)
    requires
        items_readable(data@, 16, true),
    ensures
        (final(server)@, r) == poly_text16(old(server)@, *conn, data@),
{
    let len: usize = data.len();
    if len < 16 {
        return Err(ServerError::Protocol);
    }
    let mut text: Vec<u8> = Vec::new();
    let mut at: usize = 16;
    let ghost goal = wide_item_text(data@, 16);
    assert(text@ + wide_item_text(data@, 16) =~= goal);
    while at < len
        invariant
            len == data@.len(),
            items_readable(data@, at as int, true),
            text@ + wide_item_text(data@, at as int) == goal,
        ensures
            text@ == goal,
        decreases left_from(data@, at as int),
    {
        let n: usize = data[at] as usize;
        if n == 0 || n == 255 {
            assert(text@ + wide_item_text(data@, at as int) =~= text@);
            break;
        }
        if 2 * n <= len - at - 2 {
            put_wide_text(&mut text, data, at + 2, n);
            at = at + 2 + 2 * n;
            assert(text@ + wide_item_text(data@, at as int) =~= goal);
        } else {
            assert(wide_item_text(data@, at + 2 + 2 * n) =~= Seq::empty());
            assert(wide_item_text(data@, at as int) =~= Seq::empty());
            assert(text@ + wide_item_text(data@, at as int) =~= text@);
            break;
        }
        if at == len {
            assert(text@ + wide_item_text(data@, at as int) =~= text@);
        }
    }
    draw_text(server, conn, data, text);
    Ok(())
}

/// The state after text on a background was drawn and the input method's
/// candidate window placed at its end, if there is any text.
pub open spec fn image_text_drawn(
    s: ServerModel,
    conn: ClientConnection,
    data: Seq<u8>,
    text: Seq<u8>,
    advance: int,
) -> ServerModel {
    let o = conn.byte_order;
    let drawable = u32_at(o, data, 4);
    let (x, y) = (i16_at(o, data, 12), i16_at(o, data, 14));
    let (color, bg, font_id, _) = text_pen(s.resources, u32_at(o, data, 8));
    if text.len() == 0 {
        s
    } else {
        drawn(
            spotted(s, drawable, x.wrapping_add(advance as i16), y),
            drawable,
            seq![
                RenderModel::DrawText {
                    x,
                    y,
                    text,
                    font_id,
                    color,
                    bg_color: Some(bg),
                    gc_function: 3,
                },
            ],
        )
    }
}

fn draw_image_text(
    server: &mut XServer,
    conn: &ClientConnection,
    data: &[u8],
    text: Vec<u8>,
    advance: i16,
)
    requires
        data@.len() >= 16,
    ensures
        final(server)@ == image_text_drawn(old(server)@, *conn, data@, text@, advance as int),
{
    if text.len() > 0 {
        let drawable: u32 = read_u32(conn, data, 4);
        let x: i16 = read_i16(conn, data, 12);
        let y: i16 = read_i16(conn, data, 14);
        let (color, bg, font_id, _) = text_pen_of(server, read_u32(conn, data, 8));
        update_ime_spot(server, drawable, x.wrapping_add(advance), y);
        draw_one(
            server,
            drawable,
            RenderCommand::DrawText {
                x,
                y,
                text,
                font_id,
                color,
                bg_color: Some(bg),
                gc_function: 3,
            },
        );
    }
}

/// ImageText8. Characters count as six pixels wide.
pub open spec fn image_text8(s: ServerModel, conn: ClientConnection, data: Seq<u8>) -> Outcome {
    if data.len() < 16 {
        refused(s, ServerError::Protocol)
    } else {
        let end = if 16 + data[1] < data.len() {
            16 + data[1]
        } else {
            data.len() as int
        };
        done(image_text_drawn(s, conn, data, data.subrange(16, end), data[1] * 6))
    }
}

pub fn handle_image_text8(server: &mut XServer, conn: &ClientConnection, data: &[u8]) -> (r: Result<
    (),
    ServerError,
>)
    ensures
        (final(server)@, r) == image_text8(old(server)@, *conn, data@),
{
    let len: usize = data.len();
    if len < 16 {
        return Err(ServerError::Protocol);
    }
    let n: usize = data[1] as usize;
    let end: usize = if n < len - 16 {
        16 + n
    } else {
        len
    };
    let text = copy_range(data, 16, end);
    draw_image_text(server, conn, data, text, n as i16 * 6);
    Ok(())
}

/// How many two-byte characters ImageText16 holds.
pub open spec fn wide_chars_there(data: Seq<u8>) -> int {
    if 2 * data[1] <= data.len() - 16 {
        data[1] as int
    } else {
        (data.len() - 16) / 2
    }
}

/// ImageText16. Characters count as twelve pixels wide.
pub open spec fn image_text16(s: ServerModel, conn: ClientConnection, data: Seq<u8>) -> Outcome {
    if data.len() < 16 {
        refused(s, ServerError::Protocol)
    } else {
        let n = wide_chars_there(data) as nat;
        done(
            image_text_drawn(
                s,
                conn,
                data,
                wide_text(data, 16, n),
                wide_count(data, 16, n) as int * 12,
            ),
        )
    }
}

pub fn handle_image_text16(server: &mut XServer, conn: &ClientConnection, data: &[u8]) -> (r:
    Result<(), ServerError>)
    ensures
        (final(server)@, r) == image_text16(old(server)@, *conn, data@),
{
    let len: usize = data.len();
    if len < 16 {
        return Err(ServerError::Protocol);
    }
    let want: usize = data[1] as usize;
    let n: usize = if 2 * want <= len - 16 {
        want
    } else {
        (len - 16) / 2
    };
    let mut text: Vec<u8> = Vec::new();
    let count: usize = put_wide_text(&mut text, data, 16, n);
    assert(text@ =~= wide_text(data@, 16, n as nat));
    draw_image_text(server, conn, data, text, count as i16 * 12);
    Ok(())
}

} // verus!
