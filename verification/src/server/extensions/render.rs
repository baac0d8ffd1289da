//! The RENDER extension, version 0.11: pictures, solid rectangles, and the
//! compositing of pixmaps into drawables. Other operations are accepted and
//! draw nothing.

use vstd::prelude::*;

use crate::display::{lemma_render_push, render_models, RenderCommand, RenderModel, Xid};
use crate::server::connection::{
    build_empty_reply, empty_reply, read_u32, reply_head, start_reply, write_u16_to, write_u32_to,
    ClientConnection,
};
use crate::server::drawing::{dispatch_render_commands, draw_one, drawn, item_count};
use crate::server::pixels::raster;
use crate::server::resources::{PixmapModel, PixmapState};
use crate::server::tables;
use crate::server::wire::{
    bytes16, bytes32, get_i16, get_u16, i16_at, put_bytes, put_zeros, u16_at, u32_at, zeros,
    ByteOrder,
};
use crate::server::{done, pixmap_in, refused, Outcome, ServerError, ServerModel, XServer};

verus! {

pub const RENDER_MAJOR_OPCODE: u8 = 139;

pub const RENDER_QUERY_VERSION: u8 = 0;

pub const RENDER_QUERY_PICT_FORMATS: u8 = 1;

pub const RENDER_QUERY_PICT_INDEX_VALUES: u8 = 2;

pub const RENDER_CREATE_PICTURE: u8 = 4;

pub const RENDER_FREE_PICTURE: u8 = 7;

pub const RENDER_COMPOSITE: u8 = 8;

pub const RENDER_FILL_RECTANGLES: u8 = 26;

pub const RENDER_QUERY_FILTERS: u8 = 29;

/// A color channel that was multiplied by its alpha, as it was before.
pub open spec fn unmultiplied(v: u8, alpha: u8) -> u8 {
    if alpha == 0 {
        0
    } else if v * 255 / alpha as int > 255 {
        255
    } else {
        (v * 255 / alpha as int) as u8
    }
}

/// Pixels with alpha, made opaque. Bytes after the last whole pixel stay.
pub open spec fn opaque_pixels(data: Seq<u8>) -> Seq<u8> {
    Seq::new(
        data.len(),
        |i: int|
            if i / 4 * 4 + 4 > data.len() {
                data[i]
            } else if i % 4 == 3 {
                0xFFu8
            } else {
                unmultiplied(data[i], data[i / 4 * 4 + 3])
            },
    )
}

proof fn lemma_opaque_channel_stays(v: u8)
    ensures
        unmultiplied(v, 255) == v,
{
}

/// Making pixels opaque, pixel by pixel: each gets the alpha 255, one that has it
/// stays, one without any becomes black, and in the others each channel is
/// divided by the alpha and capped at 255.
pub proof fn law_pixels_become_opaque(data: Seq<u8>, pixel: int)
    requires
        0 <= pixel,
        4 * pixel + 4 <= data.len(),
    ensures
        ({
            let r = opaque_pixels(data);
            let alpha = data[4 * pixel + 3];
            let before = data.subrange(4 * pixel, 4 * pixel + 4);
            let after = r.subrange(4 * pixel, 4 * pixel + 4);
            &&& after[3] == 255
            &&& alpha == 255 ==> after == before
            &&& alpha == 0 ==> after == seq![0u8, 0u8, 0u8, 255u8]
            &&& alpha != 0 ==> forall|c: int|
                0 <= c < 3 ==> #[trigger] after[c] == (if before[c] * 255 / alpha as int > 255 {
                    255
                } else {
                    before[c] * 255 / alpha as int
                })
        }),
{
    let r = opaque_pixels(data);
    let alpha = data[4 * pixel + 3];
    let before = data.subrange(4 * pixel, 4 * pixel + 4);
    let after = r.subrange(4 * pixel, 4 * pixel + 4);
    assert forall|c: int| 0 <= c < 3 implies #[trigger] after[c] == unmultiplied(
        before[c],
        alpha,
    ) by {
        assert((4 * pixel + c) / 4 * 4 == 4 * pixel);
    }
    assert forall|c: int| 0 <= c < 3 && alpha != 0 implies 0 <= #[trigger] before[c] * 255
        / alpha as int by {
        let (v, a) = (before[c] as int, alpha as int);
        assert(0 <= v * 255 / a) by (nonlinear_arith)
            requires
                0 <= v,
                0 < a,
        ;
    }
    if alpha == 255 {
        assert forall|c: int| 0 <= c < 3 implies #[trigger] after[c] == before[c] by {
            lemma_opaque_channel_stays(before[c]);
        }
        assert(after =~= before);
    }
    if alpha == 0 {
        assert(after =~= seq![0u8, 0u8, 0u8, 255u8]);
    }
}

/// Making pixels opaque keeps their number, and the bytes after the last whole
/// one.
pub proof fn law_bytes_after_pixels_stay(data: Seq<u8>)
    ensures
        ({
            let whole = data.len() as int / 4 * 4;
            &&& opaque_pixels(data).len() == data.len()
            &&& opaque_pixels(data).skip(whole) == data.skip(whole)
        }),
{
    let whole = data.len() as int / 4 * 4;
    assert(opaque_pixels(data).skip(whole) =~= data.skip(whole));
}

/// Pixels that are opaque already stay as they are.
pub proof fn law_opaque_pixels_stay(data: Seq<u8>)
    requires
        forall|i: int|
            0 <= i < data.len() / 4 * 4 && i % 4 == 3 ==> #[trigger] data[i] == 0xFF,
    ensures
        opaque_pixels(data) == data,
{
    assert forall|i: int| 0 <= i < data.len() implies #[trigger] opaque_pixels(data)[i]
        == data[i] by {
        if i / 4 * 4 + 4 <= data.len() {
            assert(data[i / 4 * 4 + 3] == 0xFF);
            lemma_opaque_channel_stays(data[i]);
        }
    }
    assert(opaque_pixels(data) =~= data);
}

/// Making pixels opaque a second time changes nothing.
pub proof fn law_opaque_once(data: Seq<u8>)
    ensures
        opaque_pixels(opaque_pixels(data)) == opaque_pixels(data),
{
    law_opaque_pixels_stay(opaque_pixels(data));
}

fn unmultiply(v: u8, alpha: u8) -> (r: u8)
    ensures
        r == unmultiplied(v, alpha),
{
    if alpha == 0 {
        return 0;
    }
    let q: u32 = v as u32 * 255 / alpha as u32;
    if q > 255 {
        255
    } else {
        q as u8
    }
}

/// Makes pixels with alpha opaque.
fn premultiplied_argb_to_bgra(data: &Vec<u8>) -> (r: Vec<u8>)
    ensures
        r@ == opaque_pixels(data@),
{
    let mut r: Vec<u8> = Vec::new();
    let len: usize = data.len();
    let whole: usize = len / 4 * 4;
    for i in 0..len
        invariant
            len == data@.len(),
            whole == len / 4 * 4,
            r@ =~= opaque_pixels(data@).take(i as int),
    {
        if i >= whole {
            r.push(data[i]);
        } else if i % 4 == 3 {
            r.push(0xFF);
        } else {
            let alpha: u8 = data[i / 4 * 4 + 3];
            r.push(unmultiply(data[i], alpha));
        }
    }
    assert(r@ =~= opaque_pixels(data@));
    r
}

/// How much of a length is left from a place on that may lie before the start.
pub open spec fn left_from(size: u16, at: i16, wanted: u16) -> int {
    let start = from_start(at);
    let left = if size < start {
        0
    } else {
        size - start
    };
    if wanted < left {
        wanted as int
    } else {
        left
    }
}

fn count_left(size: u16, at: i16, wanted: u16) -> (r: u16)
    ensures
        r == left_from(size, at, wanted),
        r > 0 ==> r + from_start(at) <= size,
{
    let start: u16 = if at < 0 {
        0
    } else {
        at as u16
    };
    let left: u16 = if size < start {
        0
    } else {
        size - start
    };
    if wanted < left {
        wanted
    } else {
        left
    }
}

/// A place in a pixmap that may lie before its start.
pub open spec fn from_start(at: i16) -> int {
    if at < 0 {
        0
    } else {
        at as int
    }
}

/// Whether a pixmap has the pixels of an area, as far as the area lies inside it.
pub open spec fn area_there(p: PixmapModel, x: i16, y: i16, width: u16, height: u16) -> bool {
    let columns = left_from(p.width, x, width);
    let rows = left_from(p.height, y, height);
    columns > 0 && rows > 0 ==> ((from_start(y) + rows - 1) * p.width + from_start(x) + columns) * 4
        <= p.data.len()
}

/// A pixmap with all its pixels has those of every area.
pub proof fn law_whole_pixmap_has_every_area(
    p: PixmapModel,
    x: i16,
    y: i16,
    width: u16,
    height: u16,
)
    requires
        p.data.len() >= p.width * p.height * 4,
    ensures
        area_there(p, x, y, width, height),
{
    let columns = left_from(p.width, x, width);
    let rows = left_from(p.height, y, height);
    if columns > 0 && rows > 0 {
        let (last, w, h) = (from_start(y) + rows - 1, p.width as int, p.height as int);
        assert(last * w + w <= w * h) by (nonlinear_arith)
            requires
                last + 1 <= h,
                0 <= w,
        ;
    }
}

/// A row of the part of a pixmap that is composited.
pub open spec fn source_row(p: PixmapModel, x: i16, y: i16, columns: int, row: int) -> Seq<u8> {
    let start = ((from_start(y) + row) * p.width + from_start(x)) * 4;
    p.data.subrange(start, start + columns * 4)
}

/// The part of a pixmap that is composited.
pub open spec fn source_area(p: PixmapModel, x: i16, y: i16, columns: int, rows: nat) -> Seq<u8> {
    raster(|row: int| source_row(p, x, y, columns, row), rows)
}

/// Copies the part of a pixmap that is composited.
fn copy_source(p: &PixmapState, x: i16, y: i16, columns: u16, rows: u16) -> (r: Vec<u8>)
    requires
        columns > 0,
        rows > 0,
        columns + from_start(x) <= p.width,
        rows + from_start(y) <= p.height,
        ((from_start(y) + rows - 1) * p.width + from_start(x) + columns) * 4 <= p.data@.len(),
    ensures
        r@ == source_area(p@, x, y, columns as int, rows as nat),
{
    let sx: u64 = if x < 0 {
        0
    } else {
        x as u64
    };
    let sy: u64 = if y < 0 {
        0
    } else {
        y as u64
    };
    let w: u64 = p.width as u64;
    let len: usize = p.data.len();
    let ghost f = |row: int| source_row(p@, x, y, columns as int, row);
    let mut out: Vec<u8> = Vec::new();
    for row in 0..rows
        invariant
            len == p.data@.len(),
            w == p.width,
            sx == from_start(x),
            sy == from_start(y),
            columns + sx <= p.width,
            rows + sy <= p.height,
            ((sy + rows - 1) * p.width + sx + columns) * 4 <= len,
            f == (|row: int| source_row(p@, x, y, columns as int, row)),
            out@ == raster(f, row as nat),
    {
        let line: u64 = sy + row as u64;
        proof {
            let (l, last, pw) = (line as int, sy + rows - 1, p.width as int);
            assert(l * pw <= last * pw) by (nonlinear_arith)
                requires
                    l <= last,
                    0 <= pw,
            ;
            assert(l * pw <= 0xFFFF * 0xFFFF) by (nonlinear_arith)
                requires
                    0 <= l <= 0xFFFF,
                    0 <= pw <= 0xFFFF,
            ;
            assert(line * w == l * pw);
            assert((line * w + sx) * 4 + columns * 4 <= len);
        }
        let start: usize = ((line * w + sx) * 4) as usize;
        let end: usize = start + columns as usize * 4;
        put_bytes(&mut out, vstd::slice::slice_subrange(p.data.as_slice(), start, end));
        assert(f(row as int) == p.data@.subrange(start as int, end as int));
    }
    out
}

/// The state after a pixmap was composited into a drawable.
pub open spec fn composited(
    s: ServerModel,
    src: u32,
    dst: u32,
    src_x: i16,
    src_y: i16,
    dst_x: i16,
    dst_y: i16,
    width: u16,
    height: u16,
) -> ServerModel {
    match pixmap_in(s.resources, src) {
        Some(p) => {
            let columns = left_from(p.width, src_x, width);
            let rows = left_from(p.height, src_y, height);
            if columns == 0 || rows == 0 {
                s
            } else {
                drawn(
                    s,
                    dst,
                    seq![
                        RenderModel::PutImage {
                            x: dst_x,
                            y: dst_y,
                            width: columns as u16,
                            height: rows as u16,
                            depth: 32,
                            format: 2,
                            data: opaque_pixels(
                                source_area(p, src_x, src_y, columns, rows as nat),
                            ),
                            gc_function: 3,
                        },
                    ],
                )
            }
        },
        None => s,
    }
}

fn composite_src_pixmap_to_drawable(
    server: &mut XServer,
    src: Xid,
    dst: Xid,
    src_x: i16,
    src_y: i16,
    dst_x: i16,
    dst_y: i16,
    width: u16,
    height: u16,
)
    requires
        match pixmap_in(old(server)@.resources, src) {
            Some(p) => area_there(p, src_x, src_y, width, height),
            None => true,
        },
    ensures
        final(server)@ == composited(
            old(server)@,
            src,
            dst,
            src_x,
            src_y,
            dst_x,
            dst_y,
            width,
            height,
        ),
{
    if let Some(p) = server.pixmap(src) {
        let columns: u16 = count_left(p.width, src_x, width);
        let rows: u16 = count_left(p.height, src_y, height);
        if columns == 0 || rows == 0 {
            return;
        }
        let pixels = copy_source(&p, src_x, src_y, columns, rows);
        let data = premultiplied_argb_to_bgra(&pixels);
        draw_one(
            server,
            dst,
            RenderCommand::PutImage {
                x: dst_x,
                y: dst_y,
                width: columns,
                height: rows,
                depth: 32,
                format: 2,
                data,
                gc_function: 3,
            },
        );
    }
}

/// A direct format: its number, its depth, and place and mask of each channel.
pub open spec fn pict_format(
    o: ByteOrder,
    id: u32,
    depth: u8,
    red: (u16, u16),
    green: (u16, u16),
    blue: (u16, u16),
    alpha: (u16, u16),
) -> Seq<u8> {
    bytes32(o, id) + seq![1u8, depth, 0u8, 0u8] + bytes16(o, red.0) + bytes16(o, red.1) + bytes16(
        o,
        green.0,
    ) + bytes16(o, green.1) + bytes16(o, blue.0) + bytes16(o, blue.1) + bytes16(o, alpha.0)
        + bytes16(o, alpha.1) + bytes32(o, 0)
}

fn write_pict_format(
    conn: &ClientConnection,
    buf: &mut Vec<u8>,
    id: u32,
    depth: u8,
    red: (u16, u16),
    green: (u16, u16),
    blue: (u16, u16),
    alpha: (u16, u16),
)
    ensures
        final(buf)@ == old(buf)@ + pict_format(conn.byte_order, id, depth, red, green, blue, alpha),
{
    write_u32_to(conn, buf, id);
    put_bytes(buf, &[1, depth, 0, 0]);
    write_u16_to(conn, buf, red.0);
    write_u16_to(conn, buf, red.1);
    write_u16_to(conn, buf, green.0);
    write_u16_to(conn, buf, green.1);
    write_u16_to(conn, buf, blue.0);
    write_u16_to(conn, buf, blue.1);
    write_u16_to(conn, buf, alpha.0);
    write_u16_to(conn, buf, alpha.1);
    write_u32_to(conn, buf, 0);
    assert(buf@ =~= old(buf)@ + pict_format(conn.byte_order, id, depth, red, green, blue, alpha));
}

/// The formats of pictures: pixels with alpha, pixels without, and alpha alone.
pub open spec fn pict_formats(o: ByteOrder) -> Seq<u8> {
    pict_format(o, 1, 32, (16, 0xFF), (8, 0xFF), (0, 0xFF), (24, 0xFF)) + pict_format(
        o,
        2,
        24,
        (16, 0xFF),
        (8, 0xFF),
        (0, 0xFF),
        (0, 0),
    ) + pict_format(o, 3, 8, (0, 0), (0, 0), (0, 0), (0, 0xFF))
}

/// The depths of the screen; its visual has pixels without alpha.
pub open spec fn pict_screen(o: ByteOrder) -> Seq<u8> {
    bytes32(o, 2) + bytes32(o, 2) + seq![24u8, 0u8] + bytes16(o, 1) + zeros(4) + bytes32(o, 0x21)
        + bytes32(o, 2) + seq![32u8, 0u8] + bytes16(o, 0) + zeros(4) + bytes32(o, 0)
}

/// The reply to QueryPictFormats.
pub open spec fn formats_reply(conn: ClientConnection) -> Seq<u8> {
    let o = conn.byte_order;
    reply_head(conn, 0, 30) + bytes32(o, 3) + bytes32(o, 1) + bytes32(o, 2) + bytes32(o, 1)
        + bytes32(o, 1) + bytes32(o, 0) + pict_formats(o) + pict_screen(o)
}

fn write_pict_formats(conn: &ClientConnection, buf: &mut Vec<u8>)
    ensures
        final(buf)@ == old(buf)@ + pict_formats(conn.byte_order),
{
    write_pict_format(conn, buf, 1, 32, (16, 0xFF), (8, 0xFF), (0, 0xFF), (24, 0xFF));
    write_pict_format(conn, buf, 2, 24, (16, 0xFF), (8, 0xFF), (0, 0xFF), (0, 0));
    write_pict_format(conn, buf, 3, 8, (0, 0), (0, 0), (0, 0), (0, 0xFF));
    assert(buf@ =~= old(buf)@ + pict_formats(conn.byte_order));
}

fn write_pict_screen(conn: &ClientConnection, buf: &mut Vec<u8>)
    ensures
        final(buf)@ == old(buf)@ + pict_screen(conn.byte_order),
{
    write_u32_to(conn, buf, 2);
    write_u32_to(conn, buf, 2);
    put_bytes(buf, &[24, 0]);
    write_u16_to(conn, buf, 1);
    put_zeros(buf, 4);
    write_u32_to(conn, buf, 0x21);
    write_u32_to(conn, buf, 2);
    put_bytes(buf, &[32, 0]);
    write_u16_to(conn, buf, 0);
    put_zeros(buf, 4);
    write_u32_to(conn, buf, 0);
    assert(buf@ =~= old(buf)@ + pict_screen(conn.byte_order));
}

fn query_pict_formats(server: &mut XServer, conn: &ClientConnection)
    ensures
        final(server)@ == old(server)@.replying(*conn, formats_reply(*conn)),
{
    let mut reply = start_reply(conn, 0, 30);
    write_u32_to(conn, &mut reply, 3);
    write_u32_to(conn, &mut reply, 1);
    write_u32_to(conn, &mut reply, 2);
    write_u32_to(conn, &mut reply, 1);
    write_u32_to(conn, &mut reply, 1);
    write_u32_to(conn, &mut reply, 0);
    write_pict_formats(conn, &mut reply);
    write_pict_screen(conn, &mut reply);
    server.reply(conn, reply);
}

/// The state after CreatePicture.
pub open spec fn create_picture(s: ServerModel, conn: ClientConnection, data: Seq<u8>) -> ServerModel {
    let o = conn.byte_order;
    if data.len() >= 16 {
        ServerModel {
            pictures: s.pictures.insert(
                u32_at(o, data, 4),
                (u32_at(o, data, 8), u32_at(o, data, 12)),
            ),
            ..s
        }
    } else {
        s
    }
}

/// The state after FreePicture.
pub open spec fn free_picture(s: ServerModel, conn: ClientConnection, data: Seq<u8>) -> ServerModel {
    if data.len() >= 8 {
        ServerModel { pictures: s.pictures.remove(u32_at(conn.byte_order, data, 4)), ..s }
    } else {
        s
    }
}

/// A picture that was freed is gone, and the table of pictures is as it was
/// before it was created.
pub proof fn law_picture_comes_and_goes(
    s: ServerModel,
    conn: ClientConnection,
    create: Seq<u8>,
    free: Seq<u8>,
)
    requires
        create.len() >= 16,
        free.len() >= 8,
        u32_at(conn.byte_order, free, 4) == u32_at(conn.byte_order, create, 4),
        !s.pictures.dom().contains(u32_at(conn.byte_order, create, 4)),
    ensures
        free_picture(create_picture(s, conn, create), conn, free) == s,
{
    let id = u32_at(conn.byte_order, create, 4);
    let after = free_picture(create_picture(s, conn, create), conn, free);
    assert(after.pictures =~= s.pictures);
}

/// The rectangles of FillRectangles. They, and the color, are low byte first.
pub open spec fn solid_rectangles(data: Seq<u8>) -> Seq<RenderModel> {
    let o = ByteOrder::LittleEndian;
    let color = (data[13] * 0x10000 + data[15] * 256 + data[17]) as u32;
    Seq::new(
        item_count(data.len() as int, 20, 8) as nat,
        |i: int|
            RenderModel::FillRectangle {
                x: i16_at(o, data, 20 + 8 * i),
                y: i16_at(o, data, 20 + 8 * i + 2),
                width: u16_at(o, data, 20 + 8 * i + 4),
                height: u16_at(o, data, 20 + 8 * i + 6),
                color,
                gc_function: if data[4] == 0 {
                    3
                } else {
                    7
                },
            },
    )
}

/// The state after FillRectangles.
pub open spec fn fill_picture(s: ServerModel, conn: ClientConnection, data: Seq<u8>) -> ServerModel {
    let dst = u32_at(conn.byte_order, data, 8);
    if data.len() >= 20 && s.pictures.dom().contains(dst) {
        drawn(s, s.pictures[dst].0, solid_rectangles(data))
    } else {
        s
    }
}

fn fill_rectangles(server: &mut XServer, conn: &ClientConnection, data: &[u8])
    ensures
        final(server)@ == fill_picture(old(server)@, *conn, data@),
{
    let len: usize = data.len();
    if len < 20 {
        return;
    }
    let order = ByteOrder::LittleEndian;
    let found = tables::get_pair(&server.pictures, read_u32(conn, data, 8));
    if let Some((drawable, _)) = found {
        let color: u32 = data[13] as u32 * 0x10000 + data[15] as u32 * 256 + data[17] as u32;
        let function: u8 = if data[4] == 0 {
            3
        } else {
            7
        };
        let n: usize = (len - 20) / 8;
        let mut commands: Vec<RenderCommand> = Vec::with_capacity(n);
        let ghost goal = solid_rectangles(data@);
        assert(render_models(commands@) =~= goal.take(0));
        for i in 0..n
            invariant
                len == data@.len(),
                len >= 20,
                n == (len - 20) / 8,
                order == ByteOrder::LittleEndian,
                color == (data@[13] * 0x10000 + data@[15] * 256 + data@[17]) as u32,
                function == (if data@[4] == 0 {
                    3u8
                } else {
                    7
                }),
                goal == solid_rectangles(data@),
                render_models(commands@) == goal.take(i as int),
        {
            let at: usize = 20 + 8 * i;
            let c = RenderCommand::FillRectangle {
                x: get_i16(order, data, at),
                y: get_i16(order, data, at + 2),
                width: get_u16(order, data, at + 4),
                height: get_u16(order, data, at + 6),
                color,
                gc_function: function,
            };
            proof {
                lemma_render_push(commands@, c);
                assert(goal.take(i + 1) =~= goal.take(i as int).push(goal[i as int]));
            }
            commands.push(c);
        }
        assert(goal.take(n as int) =~= goal);
        dispatch_render_commands(server, drawable, commands);
    }
}

/// The picture a request names at an offset, if there is one: its drawable.
pub open spec fn picture_at(s: ServerModel, conn: ClientConnection, data: Seq<u8>, at: int) -> Option<u32> {
    let id = u32_at(conn.byte_order, data, at);
    if s.pictures.dom().contains(id) {
        Some(s.pictures[id].0)
    } else {
        None
    }
}

/// The state after Composite. Its coordinates are low byte first; the operators
/// that need what lies below draw nothing.
pub open spec fn composite(s: ServerModel, conn: ClientConnection, data: Seq<u8>) -> ServerModel {
    let o = ByteOrder::LittleEndian;
    if data.len() < 36 || data[4] > 3 {
        s
    } else {
        match (picture_at(s, conn, data, 8), picture_at(s, conn, data, 16)) {
            (Some(src), Some(dst)) => composited(
                s,
                src,
                dst,
                i16_at(o, data, 20),
                i16_at(o, data, 22),
                i16_at(o, data, 28),
                i16_at(o, data, 30),
                u16_at(o, data, 32),
                u16_at(o, data, 34),
            ),
            _ => s,
        }
    }
}

/// Whether the pixels that Composite reads, if any, are there.
pub open spec fn source_there(s: ServerModel, conn: ClientConnection, data: Seq<u8>) -> bool {
    let o = ByteOrder::LittleEndian;
    if data.len() < 36 || data[4] > 3 {
        true
    } else {
        match (picture_at(s, conn, data, 8), picture_at(s, conn, data, 16)) {
            (Some(src), Some(_)) => match pixmap_in(s.resources, src) {
                Some(p) => area_there(
                    p,
                    i16_at(o, data, 20),
                    i16_at(o, data, 22),
                    u16_at(o, data, 32),
                    u16_at(o, data, 34),
                ),
                None => true,
            },
            _ => true,
        }
    }
}

fn check_area(p: &PixmapState, x: i16, y: i16, width: u16, height: u16) -> (r: bool)
    ensures
        r == area_there(p@, x, y, width, height),
{
    let columns: u16 = count_left(p.width, x, width);
    let rows: u16 = count_left(p.height, y, height);
    if columns == 0 || rows == 0 {
        return true;
    }
    let sx: u64 = if x < 0 {
        0
    } else {
        x as u64
    };
    let sy: u64 = if y < 0 {
        0
    } else {
        y as u64
    };
    let last: u64 = sy + rows as u64 - 1;
    let w: u64 = p.width as u64;
    proof {
        assert(last * w <= 0xFFFF * 0xFFFF) by (nonlinear_arith)
            requires
                last <= 0xFFFF,
                w <= 0xFFFF,
        ;
        assert(last * w == (from_start(y) + rows - 1) * p@.width);
    }
    (last * w + sx + columns as u64) * 4 <= p.data.len() as u64
}

/// Tests whether the pixels that Composite reads, if any, are there.
pub fn check_source(server: &XServer, conn: &ClientConnection, data: &[u8]) -> (r: bool)
    ensures
        r == source_there(server@, *conn, data@),
{
    if data.len() < 36 || data[4] > 3 {
        return true;
    }
    let order = ByteOrder::LittleEndian;
    let src = tables::get_pair(&server.pictures, read_u32(conn, data, 8));
    let dst = tables::get_pair(&server.pictures, read_u32(conn, data, 16));
    if let (Some((from, _)), Some(_)) = (src, dst) {
        if let Some(p) = server.pixmap(from) {
            return check_area(
                &p,
                get_i16(order, data, 20),
                get_i16(order, data, 22),
                get_u16(order, data, 32),
                get_u16(order, data, 34),
            );
        }
    }
    true
}

fn handle_composite(server: &mut XServer, conn: &ClientConnection, data: &[u8])
    requires
        source_there(old(server)@, *conn, data@),
    ensures
        final(server)@ == composite(old(server)@, *conn, data@),
{
    if data.len() < 36 || data[4] > 3 {
        return;
    }
    let order = ByteOrder::LittleEndian;
    let src = tables::get_pair(&server.pictures, read_u32(conn, data, 8));
    let dst = tables::get_pair(&server.pictures, read_u32(conn, data, 16));
    if let (Some((from, _)), Some((to, _))) = (src, dst) {
        composite_src_pixmap_to_drawable(
            server,
            from,
            to,
            get_i16(order, data, 20),
            get_i16(order, data, 22),
            get_i16(order, data, 28),
            get_i16(order, data, 30),
            get_u16(order, data, 32),
            get_u16(order, data, 34),
        );
    }
}

/// The reply to RenderQueryVersion.
pub open spec fn version_reply(conn: ClientConnection) -> Seq<u8> {
    let o = conn.byte_order;
    reply_head(conn, 0, 0) + bytes32(o, 0) + bytes32(o, 11) + zeros(16)
}

/// A request of the extension.
pub open spec fn render_request(s: ServerModel, conn: ClientConnection, data: Seq<u8>) -> Outcome {
    if data.len() < 4 {
        refused(s, ServerError::Protocol)
    } else if data[1] == RENDER_QUERY_VERSION {
        done(s.replying(conn, version_reply(conn)))
    } else if data[1] == RENDER_QUERY_PICT_FORMATS {
        done(s.replying(conn, formats_reply(conn)))
    } else if data[1] == RENDER_QUERY_PICT_INDEX_VALUES || data[1] == RENDER_QUERY_FILTERS {
        done(s.replying(conn, empty_reply(conn, 0)))
    } else if data[1] == RENDER_CREATE_PICTURE {
        done(create_picture(s, conn, data))
    } else if data[1] == RENDER_FREE_PICTURE {
        done(free_picture(s, conn, data))
    } else if data[1] == RENDER_FILL_RECTANGLES {
        done(fill_picture(s, conn, data))
    } else if data[1] == RENDER_COMPOSITE {
        done(composite(s, conn, data))
    } else {
        done(s)
    }
}

/// Handles a request of the extension.
pub fn handle_render_request(server: &mut XServer, conn: &ClientConnection, data: &[u8]) -> (r:
    Result<(), ServerError>)
    requires
        data@.len() >= 4 && data@[1] == RENDER_COMPOSITE ==> source_there(
            old(server)@,
            *conn,
            data@,
        ),
    ensures
        (final(server)@, r) == render_request(old(server)@, *conn, data@),
{
    if data.len() < 4 {
        return Err(ServerError::Protocol);
    }
    match data[1] {
        RENDER_QUERY_VERSION => {
            let mut reply = start_reply(conn, 0, 0);
            write_u32_to(conn, &mut reply, 0);
            write_u32_to(conn, &mut reply, 11);
            put_zeros(&mut reply, 16);
            server.reply(conn, reply);
        },
        RENDER_QUERY_PICT_FORMATS => query_pict_formats(server, conn),
        RENDER_QUERY_PICT_INDEX_VALUES | RENDER_QUERY_FILTERS => {
            let reply = build_empty_reply(conn, 0);
            server.reply(conn, reply);
        },
        RENDER_CREATE_PICTURE => {
            if data.len() >= 16 {
                let id: Xid = read_u32(conn, data, 4);
                let drawable: Xid = read_u32(conn, data, 8);
                let format: u32 = read_u32(conn, data, 12);
                tables::put_pair(&mut server.pictures, id, (drawable, format));
            }
        },
        RENDER_FREE_PICTURE => {
            if data.len() >= 8 {
                tables::drop_pair(&mut server.pictures, read_u32(conn, data, 4));
            }
        },
        RENDER_FILL_RECTANGLES => fill_rectangles(server, conn, data),
        RENDER_COMPOSITE => handle_composite(server, conn, data),
        _ => {},
    }
    Ok(())
}

} // verus!
