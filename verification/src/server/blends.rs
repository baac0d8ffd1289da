//! What the rendering extension draws.

use vstd::prelude::*;

use super::blits::{has_all_pixels, pixel_at};
use super::connection::ClientConnection;
use super::drawing::drawn;
use super::extensions::render::{
    area_there, composited, opaque_pixels, solid_rectangles, source_area, source_row, unmultiplied,
};
use super::pixels::raster;
use super::requests::{
    counted, counting, kind_of, processing_may_lead_to, server_fits, server_request, Kind, Pending,
};
use super::resources::PixmapModel;
use super::wire::{i16_at, u16_at, u32_at, ByteOrder};
use super::{pixmap_in, ServerModel};
use crate::display::RenderModel;

verus! {

/// A request about the server or to an extension, once it was processed.
pub proof fn lemma_server_processed(
    s: ServerModel,
    id: u32,
    data: Seq<u8>,
    after: ServerModel,
    r: Option<Pending>,
)
    requires
        s.connections.dom().contains(id),
        data.len() >= 4,
        kind_of(data[0]) == Kind::Server,
        server_fits(counted(s, id), counting(s.connections[id]), data),
        processing_may_lead_to(s, id, data, after, r),
    ensures
        server_request(counted(s, id), counting(s.connections[id]), data).1 is Ok ==> after
            == server_request(counted(s, id), counting(s.connections[id]), data).0,
{
}

proof fn lemma_fill(s: ServerModel, conn: ClientConnection, data: Seq<u8>)
    requires
        data.len() >= 20,
        data[0] == 139,
        data[1] == 26,
        s.pictures.dom().contains(u32_at(conn.byte_order, data, 8)),
    ensures
        server_fits(s, conn, data),
        server_request(s, conn, data).1 is Ok,
        server_request(s, conn, data).0 == drawn(
            s,
            s.pictures[u32_at(conn.byte_order, data, 8)].0,
            solid_rectangles(data),
        ),
{
    reveal(server_request);
}

/// Whether drawing operations fill rectangles that stand in some data, in a color
/// of which red, green and blue are given.
pub open spec fn fills(
    cs: Seq<RenderModel>,
    data: Seq<u8>,
    at: int,
    red: u8,
    green: u8,
    blue: u8,
    copy: bool,
) -> bool {
    forall|i: int| #![trigger cs[i]]
        0 <= i < cs.len() ==> (cs[i] matches RenderModel::FillRectangle {
            x,
            y,
            width,
            height,
            color,
            gc_function,
        } && x == i16_at(ByteOrder::LittleEndian, data, at + 8 * i) && y == i16_at(
            ByteOrder::LittleEndian,
            data,
            at + 8 * i + 2,
        ) && width == u16_at(ByteOrder::LittleEndian, data, at + 8 * i + 4) && height == u16_at(
            ByteOrder::LittleEndian,
            data,
            at + 8 * i + 6,
        ) && color == red * 0x10000 + green * 0x100 + blue && gc_function == if copy {
            3u8
        } else {
            7u8
        })
}

/// FillRectangles of the rendering extension fills each rectangle that was sent, on
/// the drawable of the picture, in the high bytes of the color.
pub proof fn law_solid_rectangles_are_filled(
    s: ServerModel,
    id: u32,
    data: Seq<u8>,
    picture: u32,
    n: nat,
    after: ServerModel,
    r: Option<Pending>,
)
    requires
        s.connections.dom().contains(id),
        data.len() == 20 + 8 * n,
        data[0] == 139,
        data[1] == 26,
        u32_at(s.connections[id].byte_order, data, 8) == picture,
        s.pictures.dom().contains(picture),
        processing_may_lead_to(s, id, data, after, r),
    ensures
        exists|cs: Seq<RenderModel>|
            after == #[trigger] drawn(counted(s, id), s.pictures[picture].0, cs) && cs.len() == n
                && fills(cs, data, 20, data[13], data[15], data[17], data[4] == 0),
{
    lemma_fill(counted(s, id), counting(s.connections[id]), data);
    lemma_server_processed(s, id, data, after, r);
    let cs = solid_rectangles(data);
    assert(cs.len() == n);
    assert(fills(cs, data, 20, data[13], data[15], data[17], data[4] == 0));
}

/// The length of an image made of rows that all have the same length.
proof fn lemma_rows_length(row: spec_fn(int) -> Seq<u8>, n: nat, len: int)
    requires
        forall|r: int| 0 <= r < n ==> (#[trigger] row(r)).len() == len,
    ensures
        raster(row, n).len() == n * len,
    decreases n,
{
    if n > 0 {
        lemma_rows_length(row, (n - 1) as nat, len);
        assert(row(n - 1).len() == len);
        assert(n * len == (n - 1) * len + len) by (nonlinear_arith);
    } else {
        assert(0 * len == 0) by (nonlinear_arith);
    }
}

/// A byte of such an image is one of its row's.
proof fn lemma_rows_at(row: spec_fn(int) -> Seq<u8>, n: nat, len: int, r: int, k: int)
    requires
        forall|r: int| 0 <= r < n ==> (#[trigger] row(r)).len() == len,
        0 <= r < n,
        0 <= k < len,
    ensures
        0 <= r * len + k < n * len,
        raster(row, n)[r * len + k] == row(r)[k],
    decreases n,
{
    let before = raster(row, (n - 1) as nat);
    lemma_rows_length(row, (n - 1) as nat, len);
    lemma_rows_length(row, n, len);
    assert(row(n - 1).len() == len);
    assert(n * len == (n - 1) * len + len) by (nonlinear_arith);
    if r < n - 1 {
        lemma_rows_at(row, (n - 1) as nat, len, r, k);
    } else {
        assert(before.len() == r * len);
        assert(0 <= r * len) by (nonlinear_arith)
            requires
                0 <= r,
                0 <= len,
        ;
    }
}

proof fn lemma_source_pixel(
    p: PixmapModel,
    x: i16,
    y: i16,
    columns: int,
    rows: nat,
    i: int,
    j: int,
    k: int,
)
    requires
        has_all_pixels(p),
        0 <= x,
        0 <= y,
        0 < columns <= p.width - x,
        0 < rows <= p.height - y,
        0 <= i < columns,
        0 <= j < rows,
        0 <= k < 4,
    ensures
        source_area(p, x, y, columns, rows).len() == columns * rows * 4,
        0 <= pixel_at(columns, i, j),
        pixel_at(columns, i, j) + 4 <= columns * rows * 4,
        source_area(p, x, y, columns, rows)[pixel_at(columns, i, j) + k] == p.data[pixel_at(
            p.width as int,
            x + i,
            y + j,
        ) + k],
{
    let row = |r: int| source_row(p, x, y, columns, r);
    let len = columns * 4;
    let (w, h) = (p.width as int, p.height as int);
    assert forall|r: int| 0 <= r < rows implies (#[trigger] row(r)).len() == len by {
        lemma_row_inside(p, x, y, columns, r);
    }
    lemma_rows_length(row, rows, len);
    lemma_rows_at(row, rows, len, j, 4 * i + k);
    assert(source_area(p, x, y, columns, rows) == raster(row, rows));
    assert(rows * (columns * 4) == columns * rows * 4) by (nonlinear_arith);
    assert(j * (columns * 4) + (4 * i + k) == (j * columns + i) * 4 + k) by (nonlinear_arith);
    let at = 4 * i + k;
    assert(raster(row, rows)[j * len + at] == row(j)[at]);
    assert(0 <= j * columns) by (nonlinear_arith)
        requires
            0 <= j,
            0 <= columns,
    ;
    assert((j * columns + i) * 4 + 4 <= columns * rows * 4) by (nonlinear_arith)
        requires
            0 <= i < columns,
            0 <= j < rows,
    ;
    lemma_row_inside(p, x, y, columns, j);
    assert(row(j)[at] == p.data[((y + j) * w + x) * 4 + at]);
    assert(((y + j) * w + x) * 4 + (4 * i + k) == ((y + j) * w + (x + i)) * 4 + k)
        by (nonlinear_arith);
}

proof fn lemma_row_inside(p: PixmapModel, x: i16, y: i16, columns: int, r: int)
    requires
        has_all_pixels(p),
        0 <= x,
        0 <= y,
        0 < columns <= p.width - x,
        0 <= r < p.height - y,
    ensures
        0 <= ((y + r) * p.width + x) * 4,
        ((y + r) * p.width + x) * 4 + columns * 4 <= p.data.len(),
{
    let (w, h, v) = (p.width as int, p.height as int, y + r);
    assert(v * w + w <= w * h) by (nonlinear_arith)
        requires
            v + 1 <= h,
            0 <= w,
    ;
    assert(0 <= v * w) by (nonlinear_arith)
        requires
            0 <= v,
            0 <= w,
    ;
}

/// A color channel with its alpha taken out.
pub open spec fn without_alpha(v: u8, alpha: u8) -> int {
    if alpha == 0 {
        0
    } else if v * 255 / alpha as int > 255 {
        255
    } else {
        v * 255 / alpha as int
    }
}

/// Whether an image shows a pixmap from a place on, made opaque.
pub open spec fn shows_opaque(
    image: Seq<u8>,
    width: int,
    height: int,
    p: PixmapModel,
    x: int,
    y: int,
) -> bool {
    &&& image.len() == width * height * 4
    &&& forall|i: int, j: int| #![trigger pixel_at(width, i, j)]
        0 <= i < width && 0 <= j < height ==> {
            let at = pixel_at(width, i, j);
            let from = pixel_at(p.width as int, x + i, y + j);
            let alpha = p.data[from + 3];
            &&& image[at] == without_alpha(p.data[from], alpha)
            &&& image[at + 1] == without_alpha(p.data[from + 1], alpha)
            &&& image[at + 2] == without_alpha(p.data[from + 2], alpha)
            &&& image[at + 3] == 255
        }
}

proof fn lemma_opaque_at(data: Seq<u8>, n: int)
    requires
        0 <= n,
        4 * n + 4 <= data.len(),
    ensures
        opaque_pixels(data)[4 * n] == without_alpha(data[4 * n], data[4 * n + 3]),
        opaque_pixels(data)[4 * n + 1] == without_alpha(data[4 * n + 1], data[4 * n + 3]),
        opaque_pixels(data)[4 * n + 2] == without_alpha(data[4 * n + 2], data[4 * n + 3]),
        opaque_pixels(data)[4 * n + 3] == 255,
{
    assert((4 * n) / 4 * 4 == 4 * n && (4 * n + 1) / 4 * 4 == 4 * n && (4 * n + 2) / 4 * 4 == 4 * n
        && (4 * n + 3) / 4 * 4 == 4 * n);
    assert((4 * n) % 4 == 0 && (4 * n + 1) % 4 == 1 && (4 * n + 2) % 4 == 2 && (4 * n + 3) % 4 == 3);
    let a = data[4 * n + 3];
    lemma_quotient(data[4 * n], a);
    lemma_quotient(data[4 * n + 1], a);
    lemma_quotient(data[4 * n + 2], a);
}

proof fn lemma_quotient(v: u8, a: u8)
    ensures
        unmultiplied(v, a) == without_alpha(v, a),
{
    if a != 0 {
        assert(0 <= v * 255 / a as int) by (nonlinear_arith)
            requires
                0 <= v,
                0 < a,
        ;
    }
}

proof fn lemma_composited(
    p: PixmapModel,
    x: i16,
    y: i16,
    columns: int,
    rows: nat,
)
    requires
        has_all_pixels(p),
        0 <= x,
        0 <= y,
        0 < columns <= p.width - x,
        0 < rows <= p.height - y,
    ensures
        shows_opaque(
            opaque_pixels(source_area(p, x, y, columns, rows)),
            columns,
            rows as int,
            p,
            x as int,
            y as int,
        ),
{
    let area = source_area(p, x, y, columns, rows);
    let image = opaque_pixels(area);
    lemma_source_pixel(p, x, y, columns, rows, 0, 0, 0);
    assert forall|i: int, j: int| #![trigger pixel_at(columns, i, j)]
        0 <= i < columns && 0 <= j < rows implies ({
        let at = pixel_at(columns, i, j);
        let from = pixel_at(p.width as int, x + i, y + j);
        let alpha = p.data[from + 3];
        &&& image[at] == without_alpha(p.data[from], alpha)
        &&& image[at + 1] == without_alpha(p.data[from + 1], alpha)
        &&& image[at + 2] == without_alpha(p.data[from + 2], alpha)
        &&& image[at + 3] == 255
    }) by {
        lemma_source_pixel(p, x, y, columns, rows, i, j, 0);
        lemma_source_pixel(p, x, y, columns, rows, i, j, 1);
        lemma_source_pixel(p, x, y, columns, rows, i, j, 2);
        lemma_source_pixel(p, x, y, columns, rows, i, j, 3);
        lemma_opaque_at(area, j * columns + i);
    }
}

proof fn lemma_composite(s: ServerModel, conn: ClientConnection, data: Seq<u8>, src: u32, dst: u32)
    requires
        data.len() >= 36,
        data[0] == 139,
        data[1] == 8,
        data[4] <= 3,
        s.pictures.dom().contains(u32_at(conn.byte_order, data, 8)),
        s.pictures.dom().contains(u32_at(conn.byte_order, data, 16)),
        s.pictures[u32_at(conn.byte_order, data, 8)].0 == src,
        s.pictures[u32_at(conn.byte_order, data, 16)].0 == dst,
        pixmap_in(s.resources, src) is Some,
        ({
            let o = ByteOrder::LittleEndian;
            area_there(
                pixmap_in(s.resources, src)->0,
                i16_at(o, data, 20),
                i16_at(o, data, 22),
                u16_at(o, data, 32),
                u16_at(o, data, 34),
            )
        }),
    ensures
        server_fits(s, conn, data),
        server_request(s, conn, data).1 is Ok,
        ({
            let o = ByteOrder::LittleEndian;
            server_request(s, conn, data).0 == composited(
                s,
                src,
                dst,
                i16_at(o, data, 20),
                i16_at(o, data, 22),
                i16_at(o, data, 28),
                i16_at(o, data, 30),
                u16_at(o, data, 32),
                u16_at(o, data, 34),
            )
        }),
{
    reveal(server_request);
}

/// The smaller of two numbers.
pub open spec fn least(a: int, b: int) -> int {
    if a < b {
        a
    } else {
        b
    }
}

/// Composite puts, at the destination, an image of the source picture's pixmap from
/// the source point on, as far as the pixmap reaches: each pixel is the pixmap's,
/// made opaque.
pub proof fn law_pictures_are_composited(
    s: ServerModel,
    id: u32,
    data: Seq<u8>,
    src: u32,
    dst: u32,
    src_x: i16,
    src_y: i16,
    dst_x: i16,
    dst_y: i16,
    width: u16,
    height: u16,
    after: ServerModel,
    r: Option<Pending>,
)
    requires
        s.connections.dom().contains(id),
        data.len() >= 36,
        data[0] == 139,
        data[1] == 8,
        data[4] <= 3,
        ({
            let o = s.connections[id].byte_order;
            &&& s.pictures.dom().contains(u32_at(o, data, 8))
            &&& s.pictures.dom().contains(u32_at(o, data, 16))
            &&& s.pictures[u32_at(o, data, 8)].0 == src
            &&& s.pictures[u32_at(o, data, 16)].0 == dst
        }),
        i16_at(ByteOrder::LittleEndian, data, 20) == src_x,
        i16_at(ByteOrder::LittleEndian, data, 22) == src_y,
        i16_at(ByteOrder::LittleEndian, data, 28) == dst_x,
        i16_at(ByteOrder::LittleEndian, data, 30) == dst_y,
        u16_at(ByteOrder::LittleEndian, data, 32) == width,
        u16_at(ByteOrder::LittleEndian, data, 34) == height,
        pixmap_in(s.resources, src) is Some,
        has_all_pixels(pixmap_in(s.resources, src)->0),
        0 <= src_x < pixmap_in(s.resources, src)->0.width,
        0 <= src_y < pixmap_in(s.resources, src)->0.height,
        width > 0,
        height > 0,
        processing_may_lead_to(s, id, data, after, r),
    ensures
        ({
            let p = pixmap_in(s.resources, src)->0;
            let columns = least(width as int, p.width - src_x);
            let rows = least(height as int, p.height - src_y);
            exists|image: Seq<u8>|
                after == drawn(
                    counted(s, id),
                    dst,
                    seq![
                        RenderModel::PutImage {
                            x: dst_x,
                            y: dst_y,
                            width: columns as u16,
                            height: rows as u16,
                            depth: 32,
                            format: 2,
                            data: image,
                            gc_function: 3,
                        },
                    ],
                ) && #[trigger] shows_opaque(image, columns, rows, p, src_x as int, src_y as int)
        }),
{
    let begun = counted(s, id);
    let conn = counting(s.connections[id]);
    let p = pixmap_in(s.resources, src)->0;
    let columns = least(width as int, p.width - src_x);
    let rows = least(height as int, p.height - src_y);
    lemma_row_inside(p, src_x, src_y, columns, rows - 1);
    assert(area_there(p, src_x, src_y, width, height)) by {
        assert(((src_y + rows - 1) * p.width + src_x + columns) * 4 == ((src_y + (rows - 1))
            * p.width + src_x) * 4 + columns * 4);
    }
    lemma_composite(begun, conn, data, src, dst);
    lemma_server_processed(s, id, data, after, r);
    lemma_composited(p, src_x, src_y, columns, rows as nat);
    let image = opaque_pixels(source_area(p, src_x, src_y, columns, rows as nat));
    assert(shows_opaque(image, columns, rows, p, src_x as int, src_y as int));
}

} // verus!
