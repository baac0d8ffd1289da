//! Requests that copy pixels.

use vstd::prelude::*;

use super::connection::{read_i16, read_u16, read_u32, ClientConnection};
use super::drawing::{draw_one, drawn, find_native_handle, native_for};
use super::protocol::event_type;
use super::resources::{PixmapModel, PixmapState, Resource, ResourceModel, WindowModel};
use super::wire::{
    byte, bytes16, bytes32, i16_at, pad4, put_bytes, put_u16, put_u32, put_u8, put_zeros,
    u16_at, u32_at, zeros, ByteOrder,
};
use super::{done, gc_in, refused, Outcome, ServerError, ServerModel, XServer};
use crate::display::{DisplayCommand, DisplayModel, RenderCommand, RenderModel, Xid};

verus! {

/// Rows of bytes, one after the other.
pub open spec fn raster(row: spec_fn(int) -> Seq<u8>, n: nat) -> Seq<u8>
    decreases n,
{
    if n == 0 {
        Seq::empty()
    } else {
        raster(row, (n - 1) as nat) + row(n - 1)
    }
}

/// A row of an area of a pixmap. What lies outside the pixmap, or past the end
/// of its pixels, is black.
pub open spec fn copied_row(p: PixmapModel, x: i16, y: i16, width: u16, row: int) -> Seq<u8> {
    let columns = if x < 0 || x >= p.width {
        0
    } else if width < p.width - x {
        width as int
    } else {
        p.width - x
    };
    let start = ((y + row) * p.width + x) * 4;
    let there = 0 <= y && y + row < p.height && start + columns * 4 <= p.data.len();
    Seq::new(
        (width * 4) as nat,
        |i: int|
            if there && i < columns * 4 {
                p.data[start + i]
            } else {
                0u8
            },
    )
}

/// An area of a pixmap.
pub open spec fn copied_area(p: PixmapModel, x: i16, y: i16, width: u16, height: u16) -> Seq<u8> {
    raster(|row: int| copied_row(p, x, y, width, row), height as nat)
}

/// Copies an area of a pixmap.
fn copy_pixmap_area(p: &PixmapState, x: i16, y: i16, width: u16, height: u16) -> (r: Vec<u8>)
    ensures
        r@ == copied_area(p@, x, y, width, height),
{
    let columns: u64 = if x < 0 || x as i32 >= p.width as i32 {
        0
    } else if (width as i32) < p.width as i32 - x as i32 {
        width as u64
    } else {
        (p.width as i32 - x as i32) as u64
    };
    let len: u64 = p.data.len() as u64;
    let row_len: usize = width as usize * 4;
    let mut out: Vec<u8> = Vec::new();
    let ghost f = |row: int| copied_row(p@, x, y, width, row);
    for row in 0..height
        invariant
            row_len == width * 4,
            len == p.data@.len(),
            len <= usize::MAX,
            columns == (if x < 0 || x >= p.width {
                0
            } else if width < p.width - x {
                width as int
            } else {
                p.width - x
            }),
            f == (|row: int| copied_row(p@, x, y, width, row)),
            out@ == raster(f, row as nat),
    {
        let ghost before = out@;
        let inside: bool = 0 <= y && (y as i32 + row as i32) < p.height as i32;
        let start: u64 = if inside && x >= 0 {
            let line: u64 = (y as i32 + row as i32) as u64;
            let w: u64 = p.width as u64;
            assert(line * w <= 0xFFFF * 0xFFFF) by (nonlinear_arith)
                requires
                    line <= 0xFFFF,
                    w <= 0xFFFF,
            ;
            (line * w + x as u64) * 4
        } else {
            0
        };
        let there: bool = inside && columns > 0 && start + columns * 4 <= len;
        let ghost want = copied_row(p@, x, y, width, row as int);
        for i in 0..row_len
            invariant
                row_len == width * 4,
                len == p.data@.len(),
            len <= usize::MAX,
                columns <= width,
                there ==> start + columns * 4 <= len,
                want.len() == row_len,
                forall|k: int|
                    0 <= k < row_len ==> #[trigger] want[k] == (if there && k < columns * 4 {
                        p.data@[start + k]
                    } else {
                        0u8
                    }),
                out@ =~= before + want.take(i as int),
        {
            if there && (i as u64) < columns * 4 {
                let at: u64 = start + i as u64;
                out.push(p.data[at as usize]);
            } else {
                out.push(0);
            }
        }
        assert(want.take(row_len as int) =~= want);
        assert(f(row as int) == want);
    }
    out
}

/// The event that says nothing was left to expose after a copy. Its sequence
/// number is in little-endian order for every client.
pub open spec fn no_exposure(conn: ClientConnection, drawable: u32) -> Seq<u8> {
    byte(event_type::NO_EXPOSURE) + byte(0) + bytes16(
        ByteOrder::LittleEndian,
        conn.request_sequence(),
    ) + bytes32(conn.byte_order, drawable) + bytes16(conn.byte_order, 0) + byte(62) + zeros(21)
}

fn build_no_exposure(conn: &ClientConnection, drawable: Xid) -> (r: Vec<u8>)
    ensures
        r@ == no_exposure(*conn, drawable),
{
    let mut e: Vec<u8> = Vec::with_capacity(32);
    put_u8(&mut e, event_type::NO_EXPOSURE);
    assert(e@ =~= byte(event_type::NO_EXPOSURE));
    put_u8(&mut e, 0);
    put_u16(ByteOrder::LittleEndian, &mut e, conn.current_request_sequence());
    put_u32(conn.byte_order, &mut e, drawable);
    put_u16(conn.byte_order, &mut e, 0);
    put_u8(&mut e, 62);
    put_zeros(&mut e, 21);
    e
}

/// CopyArea: from a pixmap as an image, from a window as a copy on the surface.
pub open spec fn copy_area(s: ServerModel, conn: ClientConnection, data: Seq<u8>) -> Outcome {
    if data.len() < 28 {
        refused(s, ServerError::Protocol)
    } else {
        let o = conn.byte_order;
        let src = u32_at(o, data, 4);
        let dst = u32_at(o, data, 8);
        let (src_x, src_y) = (i16_at(o, data, 16), i16_at(o, data, 18));
        let (dst_x, dst_y) = (i16_at(o, data, 20), i16_at(o, data, 22));
        let (width, height) = (u16_at(o, data, 24), u16_at(o, data, 26));
        let (exposures, gc_function) = match gc_in(s.resources, u32_at(o, data, 12)) {
            Some(g) => (g.graphics_exposures, g.function.number()),
            None => (false, 3u8),
        };
        let after = if !s.resources.dom().contains(src) {
            s
        } else {
            match s.resources[src] {
                ResourceModel::Pixmap(p) => drawn(
                    s,
                    dst,
                    seq![
                        RenderModel::PutImage {
                            x: dst_x,
                            y: dst_y,
                            width,
                            height,
                            depth: 24,
                            format: 2,
                            data: copied_area(p, src_x, src_y, width, height),
                            gc_function,
                        },
                    ],
                ),
                ResourceModel::Window(_) => drawn(
                    s,
                    dst,
                    seq![
                        RenderModel::CopyArea {
                            src_x,
                            src_y,
                            dst_x,
                            dst_y,
                            width,
                            height,
                            gc_function,
                        },
                    ],
                ),
                _ => s,
            }
        };
        if exposures {
            done(after.replying(conn, no_exposure(conn, dst)))
        } else {
            done(after)
        }
    }
}

pub fn handle_copy_area(server: &mut XServer, conn: &ClientConnection, data: &[u8]) -> (r: Result<
    (),
    ServerError,
>)
    ensures
        (final(server)@, r) == copy_area(old(server)@, *conn, data@),
{
    if data.len() < 28 {
        return Err(ServerError::Protocol);
    }
    let src: u32 = read_u32(conn, data, 4);
    let dst: u32 = read_u32(conn, data, 8);
    let gcid: u32 = read_u32(conn, data, 12);
    let src_x: i16 = read_i16(conn, data, 16);
    let src_y: i16 = read_i16(conn, data, 18);
    let dst_x: i16 = read_i16(conn, data, 20);
    let dst_y: i16 = read_i16(conn, data, 22);
    let width: u16 = read_u16(conn, data, 24);
    let height: u16 = read_u16(conn, data, 26);
    let (exposures, gc_function): (bool, u8) = match server.gc(gcid) {
        Some(g) => (g.graphics_exposures, g.function.code()),
        None => (false, 3),
    };
    match super::tables::get_resource(&server.resources, src) {
        Some(Resource::Pixmap(p)) => {
            let pixels = copy_pixmap_area(&p, src_x, src_y, width, height);
            draw_one(
                server,
                dst,
                RenderCommand::PutImage {
                    x: dst_x,
                    y: dst_y,
                    width,
                    height,
                    depth: 24,
                    format: 2,
                    data: pixels,
                    gc_function,
                },
            );
        },
        Some(Resource::Window(_)) => {
            draw_one(
                server,
                dst,
                RenderCommand::CopyArea {
                    src_x,
                    src_y,
                    dst_x,
                    dst_y,
                    width,
                    height,
                    gc_function,
                },
            );
        },
        _ => {},
    }
    if exposures {
        let e = build_no_exposure(conn, dst);
        server.reply(conn, e);
    }
    Ok(())
}

/// A row of an area of a pixmap whose corner is moved inside. Pixels outside
/// the pixmap, or past the end of its bytes, are black.
pub open spec fn read_row(p: PixmapModel, x: i16, y: i16, width: u16, row: int) -> Seq<u8> {
    let px = if x < 0 {
        0
    } else {
        x as int
    };
    let py = if y < 0 {
        0
    } else {
        y as int
    };
    Seq::new(
        (width * 4) as nat,
        |i: int|
            {
                let start = ((py + row) * p.width + px + i / 4) * 4;
                if py + row < p.height && px + i / 4 < p.width && start + 4 <= p.data.len() {
                    p.data[start + i % 4]
                } else {
                    0u8
                }
            },
    )
}

/// An area of a pixmap whose corner is moved inside.
pub open spec fn read_area(p: PixmapModel, x: i16, y: i16, width: u16, height: u16) -> Seq<u8> {
    raster(|row: int| read_row(p, x, y, width, row), height as nat)
}

/// Reads an area of a pixmap.
fn read_pixmap_area(p: &PixmapState, x: i16, y: i16, width: u16, height: u16) -> (r: Vec<u8>)
    ensures
        r@ == read_area(p@, x, y, width, height),
{
    let px: u64 = if x < 0 {
        0
    } else {
        x as u64
    };
    let py: u64 = if y < 0 {
        0
    } else {
        y as u64
    };
    let len: u64 = p.data.len() as u64;
    let row_len: u64 = width as u64 * 4;
    let mut out: Vec<u8> = Vec::new();
    let ghost f = |row: int| read_row(p@, x, y, width, row);
    for row in 0..height
        invariant
            row_len == width * 4,
            len == p.data@.len(),
            len <= usize::MAX,
            px == (if x < 0 {
                0
            } else {
                x as int
            }),
            py == (if y < 0 {
                0
            } else {
                y as int
            }),
            f == (|row: int| read_row(p@, x, y, width, row)),
            out@ == raster(f, row as nat),
    {
        let ghost before = out@;
        let ghost want = read_row(p@, x, y, width, row as int);
        let line: u64 = py + row as u64;
        let w: u64 = p.width as u64;
        assert(line * w <= 0x1FFFE * 0xFFFF) by (nonlinear_arith)
            requires
                line <= 0x1FFFE,
                w <= 0xFFFF,
        ;
        for i in 0..row_len
            invariant
                row_len == width * 4,
                len == p.data@.len(),
            len <= usize::MAX,
                px <= 0x7FFF,
                line * w <= 0x1FFFE * 0xFFFF,
                line == py + row,
                w == p.width,
                px == (if x < 0 {
                    0
                } else {
                    x as int
                }),
                py == (if y < 0 {
                    0
                } else {
                    y as int
                }),
                want == read_row(p@, x, y, width, row as int),
                out@ =~= before + want.take(i as int),
        {
            let start: u64 = (line * w + px + i / 4) * 4;
            assert((py + row) * p@.width == line * w);
            let mut v: u8 = 0;
            if line < p.height as u64 && px + i / 4 < w && start + 4 <= len {
                let at: u64 = start + i % 4;
                v = p.data[at as usize];
            }
            assert(want[i as int] == v);
            out.push(v);
        }
        assert(want.take(row_len as int) =~= want);
        assert(f(row as int) == want);
    }
    out
}

/// A number of pixels of one colour.
pub open spec fn plain_pixels(color: u32, n: nat) -> Seq<u8>
    decreases n,
{
    if n == 0 {
        Seq::empty()
    } else {
        plain_pixels(color, (n - 1) as nat) + bytes32(ByteOrder::LittleEndian, color)
    }
}

fn fill_pixels(color: u32, width: u16, height: u16) -> (r: Vec<u8>)
    ensures
        r@ == plain_pixels(color, (width * height) as nat),
{
    let mut out: Vec<u8> = Vec::new();
    let w: u64 = width as u64;
    let h: u64 = height as u64;
    assert(w * h <= 0xFFFF * 0xFFFF) by (nonlinear_arith)
        requires
            w <= 0xFFFF,
            h <= 0xFFFF,
    ;
    for i in 0..w * h
        invariant
            out@ == plain_pixels(color, i as nat),
    {
        put_u32(ByteOrder::LittleEndian, &mut out, color);
    }
    out
}

/// The reply to GetImage.
pub open spec fn image_reply(conn: ClientConnection, depth: u8, visual: u32, image: Seq<u8>) -> Seq<
    u8,
> {
    let o = conn.byte_order;
    byte(1) + byte(depth) + bytes16(o, conn.request_sequence()) + bytes32(
        o,
        ((image.len() + pad4(image.len() as int)) / 4) as u32,
    ) + bytes32(o, visual) + zeros(20) + image + zeros(pad4(image.len() as int) as nat)
}

/// Builds the reply to GetImage. The length field holds the low 32 bits of the
/// image's length in words.
fn build_image_reply(conn: &ClientConnection, depth: u8, visual: u32, image: &Vec<u8>) -> (r: Vec<
    u8,
>)
    ensures
        r@ == image_reply(*conn, depth, visual, image@),
{
    let len: usize = image.len();
    let pad: usize = (4 - (len % 4)) % 4;
    assert(pad == pad4(len as int));
    let words: u64 = if len % 4 == 0 {
        len as u64 / 4
    } else {
        len as u64 / 4 + 1
    };
    assert(words == (len + pad) / 4);
    let mut reply: Vec<u8> = Vec::new();
    put_u8(&mut reply, 1);
    assert(reply@ =~= byte(1));
    put_u8(&mut reply, depth);
    put_u16(conn.byte_order, &mut reply, conn.current_request_sequence());
    put_u32(conn.byte_order, &mut reply, words as u32);
    put_u32(conn.byte_order, &mut reply, visual);
    put_zeros(&mut reply, 20);
    put_bytes(&mut reply, image.as_slice());
    put_zeros(&mut reply, pad);
    reply
}

/// The error for a request on something that is not a drawable, without the
/// opcode's second copy.
pub open spec fn bad_drawable(conn: ClientConnection, opcode: u8) -> Seq<u8> {
    byte(0) + byte(9) + bytes16(ByteOrder::LittleEndian, conn.request_sequence()) + zeros(4) + byte(
        opcode,
    ) + zeros(23)
}

/// What of a window goes into the reply to GetImage besides its pixels.
#[derive(Debug, Clone, Copy, PartialEq, Eq, Structural)]
pub struct ImageSource {
    pub depth: u8,
    pub visual: u32,
    /// The color that stands in for pixels that cannot be read.
    pub background: u32,
}

/// What of a window goes into the reply to GetImage.
pub open spec fn image_source(w: WindowModel) -> ImageSource {
    ImageSource {
        depth: w.depth,
        visual: w.visual,
        background: match w.background_pixel {
            Some(b) => b,
            None => 0u32,
        },
    }
}

/// The state after an image of a window was sent. Pixels that cannot be read are
/// the window's background.
pub open spec fn image_from_window(
    s: ServerModel,
    conn: ClientConnection,
    source: ImageSource,
    width: u16,
    height: u16,
    pixels: Option<Seq<u8>>,
) -> ServerModel {
    let image = match pixels {
        Some(p) => p,
        None => plain_pixels(source.background, (width * height) as nat),
    };
    s.replying(conn, image_reply(conn, source.depth, source.visual, image))
}

/// Finishes GetImage with the pixels of a native window, if they could be read.
pub fn finish_get_image(
    server: &mut XServer,
    conn: &ClientConnection,
    source: ImageSource,
    width: u16,
    height: u16,
    pixels: Option<Vec<u8>>,
)
    ensures
        final(server)@ == image_from_window(
            old(server)@,
            *conn,
            source,
            width,
            height,
            super::resources::buffer_model(pixels),
        ),
{
    let image: Vec<u8> = match pixels {
        Some(p) => p,
        None => fill_pixels(source.background, width, height),
    };
    let reply = build_image_reply(conn, source.depth, source.visual, &image);
    server.reply(conn, reply);
}

/// GetImage up to the point where the native display's pixels are needed: what
/// has been done, and what they will be sent with if they are.
pub open spec fn get_image(s: ServerModel, conn: ClientConnection, data: Seq<u8>) -> (
    ServerModel,
    Option<ImageSource>,
) {
    let o = conn.byte_order;
    let drawable = u32_at(o, data, 4);
    let (x, y) = (i16_at(o, data, 8), i16_at(o, data, 10));
    let (width, height) = (u16_at(o, data, 12), u16_at(o, data, 14));
    if !s.resources.dom().contains(drawable) {
        (s.replying(conn, bad_drawable(conn, data[0])), None)
    } else {
        match s.resources[drawable] {
            ResourceModel::Window(w) => match native_for(s.resources, drawable, 0, 0) {
                Some((handle, _, _)) => (
                    s.showing(DisplayModel::ReadPixels { handle, x, y, width, height }),
                    Some(image_source(w)),
                ),
                None => (image_from_window(s, conn, image_source(w), width, height, None), None),
            },
            ResourceModel::Pixmap(p) => (
                s.replying(
                    conn,
                    image_reply(conn, p.depth, 0, read_area(p, x, y, width, height)),
                ),
                None,
            ),
            _ => (s.replying(conn, bad_drawable(conn, data[0])), None),
        }
    }
}

/// GetImage. Where pixels of a native window are needed, asks for them and says
/// so; `finish_get_image` then answers.
pub fn handle_get_image(server: &mut XServer, conn: &ClientConnection, data: &[u8]) -> (r: Option<
    ImageSource,
>)
    requires
        data@.len() >= 20,
    ensures
        (final(server)@, r) == get_image(old(server)@, *conn, data@),
{
    let drawable: u32 = read_u32(conn, data, 4);
    let x: i16 = read_i16(conn, data, 8);
    let y: i16 = read_i16(conn, data, 10);
    let width: u16 = read_u16(conn, data, 12);
    let height: u16 = read_u16(conn, data, 14);
    match super::tables::get_resource(&server.resources, drawable) {
        Some(Resource::Window(w)) => {
            let source = ImageSource {
                depth: w.depth,
                visual: w.visual,
                background: match w.background_pixel {
                    Some(b) => b,
                    None => 0,
                },
            };
            match find_native_handle(server, drawable) {
                Some(handle) => {
                    server.show(DisplayCommand::ReadPixels { handle, x, y, width, height });
                    Some(source)
                },
                None => {
                    finish_get_image(server, conn, source, width, height, None);
                    None
                },
            }
        },
        Some(Resource::Pixmap(p)) => {
            let image = read_pixmap_area(&p, x, y, width, height);
            let reply = build_image_reply(conn, p.depth, 0, &image);
            server.reply(conn, reply);
            None
        },
        _ => {
            let mut e: Vec<u8> = Vec::with_capacity(32);
            put_u8(&mut e, 0);
            assert(e@ =~= byte(0));
            put_u8(&mut e, 9);
            put_u16(ByteOrder::LittleEndian, &mut e, conn.current_request_sequence());
            put_zeros(&mut e, 4);
            put_u8(&mut e, data[0]);
            put_zeros(&mut e, 23);
            server.reply(conn, e);
            None
        },
    }
}

} // verus!
