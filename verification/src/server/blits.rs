//! Pixels that requests carry from one place to another.

use vstd::prelude::*;

use super::connection::ClientConnection;
use super::drawing::{drawn, pen};
use super::layout::{halves, lemma_request, request, words};
use super::pixels::{
    copied_area, copied_row, copy_area, get_image, image_reply, raster, read_area, read_row,
};
use super::requests::{counted, counting, drawing_request, processing_may_lead_to, Pending};
use super::resources::PixmapModel;
use super::strokes::{has_surface, lands_on, lemma_drawing_processed, lemma_lands};
use super::wire::{byte, bytes16, bytes32, i16_at, pattern16, u16_at, u32_at, zeros, ByteOrder};
use super::{gc_in, pixmap_in, ActionModel, ServerModel};
use crate::display::RenderModel;

verus! {

/// Whether a pixmap has all its pixels.
pub open spec fn has_all_pixels(p: PixmapModel) -> bool {
    p.data.len() >= p.width * p.height * 4
}

/// Where the bytes of a pixel start in an image of some width.
pub open spec fn pixel_at(width: int, i: int, j: int) -> int {
    (j * width + i) * 4
}

/// Whether an image shows a pixmap from a place on: each of its pixels that lies
/// inside the pixmap is the pixmap's.
pub open spec fn shows(image: Seq<u8>, width: int, height: int, p: PixmapModel, x: int, y: int) -> bool {
    image.len() == width * height * 4 && forall|i: int, j: int, k: int|
        0 <= i < width && 0 <= j < height && 0 <= k < 4 && x + i < p.width && y + j < p.height
            ==> #[trigger] image[pixel_at(width, i, j) + k] == p.data[pixel_at(
            p.width as int,
            x + i,
            y + j,
        ) + k]
}

proof fn lemma_raster(row: spec_fn(int) -> Seq<u8>, n: nat, len: int, r: int, k: int)
    requires
        forall|r: int| (#[trigger] row(r)).len() == len,
        0 <= r < n,
        0 <= k < len,
    ensures
        raster(row, n).len() == n * len,
        0 <= r * len + k < n * len,
        raster(row, n)[r * len + k] == row(r)[k],
    decreases n,
{
    let before = raster(row, (n - 1) as nat);
    lemma_raster_length(row, (n - 1) as nat, len);
    lemma_raster_length(row, n, len);
    assert(n * len == (n - 1) * len + len) by (nonlinear_arith);
    if r < n - 1 {
        lemma_raster(row, (n - 1) as nat, len, r, k);
    } else {
        assert(before.len() == r * len);
        assert(0 <= r * len) by (nonlinear_arith)
            requires
                0 <= r,
                0 <= len,
        ;
    }
}

proof fn lemma_raster_length(row: spec_fn(int) -> Seq<u8>, n: nat, len: int)
    requires
        forall|r: int| (#[trigger] row(r)).len() == len,
    ensures
        raster(row, n).len() == n * len,
    decreases n,
{
    if n > 0 {
        lemma_raster_length(row, (n - 1) as nat, len);
        assert(n * len == (n - 1) * len + len) by (nonlinear_arith);
    } else {
        assert(0 * len == 0) by (nonlinear_arith);
    }
}

/// A pixel inside a pixmap has its bytes inside the pixmap's data.
proof fn lemma_pixel_inside(p: PixmapModel, x: int, y: int)
    requires
        has_all_pixels(p),
        0 <= x < p.width,
        0 <= y < p.height,
    ensures
        0 <= pixel_at(p.width as int, x, y),
        pixel_at(p.width as int, x, y) + 4 <= p.data.len(),
        (y * p.width + p.width) * 4 <= p.data.len(),
{
    let (w, h) = (p.width as int, p.height as int);
    assert(y * w + w <= w * h) by (nonlinear_arith)
        requires
            y + 1 <= h,
            0 <= w,
    ;
    assert(0 <= y * w) by (nonlinear_arith)
        requires
            0 <= y,
            0 <= w,
    ;
}

proof fn lemma_copied_area(p: PixmapModel, x: i16, y: i16, width: u16, height: u16)
    requires
        has_all_pixels(p),
        0 <= x,
        0 <= y,
    ensures
        shows(copied_area(p, x, y, width, height), width as int, height as int, p, x as int, y as int),
{
    let row = |r: int| copied_row(p, x, y, width, r);
    let len = width * 4;
    let image = copied_area(p, x, y, width, height);
    assert(forall|r: int| (#[trigger] row(r)).len() == len);
    lemma_raster_length(row, height as nat, len);
    assert(image == raster(row, height as nat));
    assert(height * (width * 4) == width * height * 4) by (nonlinear_arith);
    assert forall|i: int, j: int, k: int|
        0 <= i < width && 0 <= j < height && 0 <= k < 4 && x + i < p.width && y + j < p.height implies
        #[trigger] image[pixel_at(width as int, i, j) + k] == p.data[pixel_at(
        p.width as int,
        x + i,
        y + j,
    ) + k] by {
        lemma_raster(row, height as nat, len, j, 4 * i + k);
        let w = width as int;
        assert(j * (w * 4) == (j * w) * 4) by (nonlinear_arith);
        assert(image[pixel_at(w, i, j) + k] == copied_row(p, x, y, width, j)[4 * i + k]);
        lemma_pixel_inside(p, x + i, y + j);
    }
}

proof fn lemma_read_area(p: PixmapModel, x: i16, y: i16, width: u16, height: u16)
    requires
        has_all_pixels(p),
        0 <= x,
        0 <= y,
    ensures
        shows(read_area(p, x, y, width, height), width as int, height as int, p, x as int, y as int),
{
    let row = |r: int| read_row(p, x, y, width, r);
    let len = width * 4;
    let image = read_area(p, x, y, width, height);
    assert(forall|r: int| (#[trigger] row(r)).len() == len);
    lemma_raster_length(row, height as nat, len);
    assert(image == raster(row, height as nat));
    assert(height * (width * 4) == width * height * 4) by (nonlinear_arith);
    assert forall|i: int, j: int, k: int|
        0 <= i < width && 0 <= j < height && 0 <= k < 4 && x + i < p.width && y + j < p.height implies
        #[trigger] image[pixel_at(width as int, i, j) + k] == p.data[pixel_at(
        p.width as int,
        x + i,
        y + j,
    ) + k] by {
        lemma_raster(row, height as nat, len, j, 4 * i + k);
        let w = width as int;
        assert(j * (w * 4) == (j * w) * 4) by (nonlinear_arith);
        assert((4 * i + k) / 4 == i && (4 * i + k) % 4 == k);
        assert(image[pixel_at(w, i, j) + k] == read_row(p, x, y, width, j)[4 * i + k]);
        lemma_pixel_inside(p, x + i, y + j);
    }
}

/// CopyArea as a client writes it.
pub open spec fn copy_request(
    o: ByteOrder,
    src: u32,
    dst: u32,
    gc: u32,
    from: (i16, i16),
    to: (i16, i16),
    width: u16,
    height: u16,
) -> Seq<u8> {
    request(
        o,
        62,
        0,
        words(o, seq![src, dst, gc]) + halves(
            o,
            seq![
                pattern16(from.0),
                pattern16(from.1),
                pattern16(to.0),
                pattern16(to.1),
                width,
                height,
            ],
        ) + words(o, seq![]) + seq![],
    )
}

proof fn lemma_copy_request(
    o: ByteOrder,
    src: u32,
    dst: u32,
    gc: u32,
    from: (i16, i16),
    to: (i16, i16),
    width: u16,
    height: u16,
)
    ensures
        ({
            let data = copy_request(o, src, dst, gc, from, to, width, height);
            &&& data.len() == 28
            &&& data[0] == 62
            &&& u32_at(o, data, 4) == src
            &&& u32_at(o, data, 8) == dst
            &&& u32_at(o, data, 12) == gc
            &&& i16_at(o, data, 16) == from.0
            &&& i16_at(o, data, 18) == from.1
            &&& i16_at(o, data, 20) == to.0
            &&& i16_at(o, data, 22) == to.1
            &&& u16_at(o, data, 24) == width
            &&& u16_at(o, data, 26) == height
        }),
{
    let ws = seq![src, dst, gc];
    let hs = seq![
        pattern16(from.0),
        pattern16(from.1),
        pattern16(to.0),
        pattern16(to.1),
        width,
        height,
    ];
    lemma_request(o, 62, 0, ws, hs, seq![], seq![]);
    assert(ws[0] == src && ws[1] == dst && ws[2] == gc);
    assert(hs[0] == pattern16(from.0) && hs[1] == pattern16(from.1));
    assert(hs[2] == pattern16(to.0) && hs[3] == pattern16(to.1));
    assert(hs[4] == width && hs[5] == height);
}

/// Whether an event tells the client that a copy left nothing out.
pub open spec fn says_no_exposure(o: ByteOrder, e: Seq<u8>, drawable: u32) -> bool {
    e.len() == 32 && e[0] == 14 && u32_at(o, e, 4) == drawable && e[10] == 62
}

/// Whether a state differs from another by what a copy is answered: nothing, or
/// an event where the graphics context asks for one.
pub open spec fn copy_answered(
    drawn: ServerModel,
    after: ServerModel,
    conn: ClientConnection,
    dst: u32,
    wanted: bool,
) -> bool {
    if wanted {
        &&& after.outbox.len() == drawn.outbox.len() + 1
        &&& after.outbox.drop_last() == drawn.outbox
        &&& after.outbox.last() matches ActionModel::Reply { conn: to, data } && to == conn.id
            && says_no_exposure(conn.byte_order, data, dst)
    } else {
        after.outbox == drawn.outbox
    }
}

proof fn lemma_no_exposure(conn: ClientConnection, dst: u32)
    ensures
        says_no_exposure(
            conn.byte_order,
            super::pixels::no_exposure(conn, dst),
            dst,
        ),
{
    let o = conn.byte_order;
    let e = super::pixels::no_exposure(conn, dst);
    let head = byte(14) + byte(0) + bytes16(ByteOrder::LittleEndian, conn.request_sequence());
    let tail = bytes16(o, 0) + byte(62) + zeros(21);
    assert(e =~= head + bytes32(o, dst) + tail);
    super::wire::law_u32_round_trip(o, head, dst, tail);
}

proof fn lemma_copy_area(s: ServerModel, conn: ClientConnection, data: Seq<u8>)
    requires
        data.len() >= 28,
        data[0] == 62,
    ensures
        drawing_request(s, conn, data) == copy_area(s, conn, data),
        copy_area(s, conn, data).1 is Ok,
{
    reveal(drawing_request);
}

/// CopyArea from a pixmap puts the pixmap's pixels where the client said: pixel
/// (i, j) of what is put is the pixmap's pixel that lies as far from the source
/// point.
pub proof fn law_copies_show_the_pixmap(
    s: ServerModel,
    id: u32,
    src: u32,
    dst: u32,
    gc: u32,
    from: (i16, i16),
    to: (i16, i16),
    width: u16,
    height: u16,
    after: ServerModel,
    r: Option<Pending>,
)
    requires
        s.connections.dom().contains(id),
        has_surface(s, dst),
        pixmap_in(s.resources, src) is Some,
        has_all_pixels(pixmap_in(s.resources, src)->0),
        0 <= from.0,
        0 <= from.1,
        processing_may_lead_to(
            s,
            id,
            copy_request(s.connections[id].byte_order, src, dst, gc, from, to, width, height),
            after,
            r,
        ),
    ensures
        exists|mid: ServerModel, cs: Seq<RenderModel>| #[trigger]
            lands_on(s, mid, dst, cs) && copy_answered(
                mid,
                after,
                s.connections[id],
                dst,
                gc_in(s.resources, gc) matches Some(g) && g.graphics_exposures,
            ) && cs.len() == 1 && (cs[0] matches RenderModel::PutImage {
                x,
                y,
                width: w,
                height: h,
                depth,
                format,
                data,
                gc_function,
            } && (x, y) == to && w == width && h == height && format == 2 && shows(
                data,
                width as int,
                height as int,
                pixmap_in(s.resources, src)->0,
                from.0 as int,
                from.1 as int,
            ) && (gc_in(s.resources, gc) matches Some(g) ==> gc_function == g.function.number())),
{
    let o = s.connections[id].byte_order;
    let conn = counting(s.connections[id]);
    let begun = counted(s, id);
    let data = copy_request(o, src, dst, gc, from, to, width, height);
    lemma_copy_request(o, src, dst, gc, from, to, width, height);
    lemma_drawing_processed(s, id, data, after, r);
    lemma_copy_area(begun, conn, data);
    let p = pixmap_in(s.resources, src)->0;
    lemma_copied_area(p, from.0, from.1, width, height);
    let gc_function = match gc_in(begun.resources, gc) {
        Some(g) => g.function.number(),
        None => 3u8,
    };
    let cs = seq![
        RenderModel::PutImage {
            x: to.0,
            y: to.1,
            width,
            height,
            depth: 24,
            format: 2,
            data: copied_area(p, from.0, from.1, width, height),
            gc_function,
        },
    ];
    let mid = drawn(begun, dst, cs);
    lemma_lands(s, begun, mid, dst, cs);
    lemma_no_exposure(conn, dst);
    assert(mid.outbox.push(
        ActionModel::Reply { conn: conn.id, data: super::pixels::no_exposure(conn, dst) },
    ).drop_last() =~= mid.outbox);
    assert(lands_on(s, mid, dst, cs));
}

/// CopyArea from a window moves the area within the surface, as the client said.
pub proof fn law_windows_are_scrolled(
    s: ServerModel,
    id: u32,
    src: u32,
    dst: u32,
    gc: u32,
    from: (i16, i16),
    to: (i16, i16),
    width: u16,
    height: u16,
    after: ServerModel,
    r: Option<Pending>,
)
    requires
        s.connections.dom().contains(id),
        has_surface(s, dst),
        s.window(src) is Some,
        processing_may_lead_to(
            s,
            id,
            copy_request(s.connections[id].byte_order, src, dst, gc, from, to, width, height),
            after,
            r,
        ),
    ensures
        exists|mid: ServerModel, cs: Seq<RenderModel>| #[trigger]
            lands_on(s, mid, dst, cs) && copy_answered(
                mid,
                after,
                s.connections[id],
                dst,
                gc_in(s.resources, gc) matches Some(g) && g.graphics_exposures,
            ) && cs.len() == 1 && (cs[0] matches RenderModel::CopyArea {
                src_x,
                src_y,
                dst_x,
                dst_y,
                width: w,
                height: h,
                gc_function,
            } && (src_x, src_y) == from && (dst_x, dst_y) == to && w == width && h == height && (
            gc_in(s.resources, gc) matches Some(g) ==> gc_function == g.function.number())),
{
    let o = s.connections[id].byte_order;
    let conn = counting(s.connections[id]);
    let begun = counted(s, id);
    let data = copy_request(o, src, dst, gc, from, to, width, height);
    lemma_copy_request(o, src, dst, gc, from, to, width, height);
    lemma_drawing_processed(s, id, data, after, r);
    lemma_copy_area(begun, conn, data);
    let gc_function = match gc_in(begun.resources, gc) {
        Some(g) => g.function.number(),
        None => 3u8,
    };
    let cs = seq![
        RenderModel::CopyArea {
            src_x: from.0,
            src_y: from.1,
            dst_x: to.0,
            dst_y: to.1,
            width,
            height,
            gc_function,
        },
    ];
    let mid = drawn(begun, dst, cs);
    lemma_lands(s, begun, mid, dst, cs);
    lemma_no_exposure(conn, dst);
    assert(mid.outbox.push(
        ActionModel::Reply { conn: conn.id, data: super::pixels::no_exposure(conn, dst) },
    ).drop_last() =~= mid.outbox);
    assert(lands_on(s, mid, dst, cs));
}

/// GetImage as a client writes it.
pub open spec fn image_request(
    o: ByteOrder,
    drawable: u32,
    x: i16,
    y: i16,
    width: u16,
    height: u16,
    planes: u32,
) -> Seq<u8> {
    request(
        o,
        73,
        2,
        words(o, seq![drawable]) + halves(o, seq![pattern16(x), pattern16(y), width, height])
            + words(o, seq![planes]) + seq![],
    )
}

proof fn lemma_image_request(
    o: ByteOrder,
    drawable: u32,
    x: i16,
    y: i16,
    width: u16,
    height: u16,
    planes: u32,
)
    ensures
        ({
            let data = image_request(o, drawable, x, y, width, height, planes);
            &&& data.len() == 20
            &&& data[0] == 73
            &&& u32_at(o, data, 4) == drawable
            &&& i16_at(o, data, 8) == x
            &&& i16_at(o, data, 10) == y
            &&& u16_at(o, data, 12) == width
            &&& u16_at(o, data, 14) == height
        }),
{
    let ws = seq![drawable];
    let hs = seq![pattern16(x), pattern16(y), width, height];
    lemma_request(o, 73, 2, ws, hs, seq![planes], seq![]);
    assert(ws[0] == drawable);
    assert(hs[0] == pattern16(x) && hs[1] == pattern16(y) && hs[2] == width && hs[3] == height);
}

proof fn lemma_get_image_processed(
    s: ServerModel,
    id: u32,
    data: Seq<u8>,
    after: ServerModel,
    r: Option<Pending>,
)
    requires
        s.connections.dom().contains(id),
        data.len() >= 20,
        data[0] == 73,
        processing_may_lead_to(s, id, data, after, r),
    ensures
        after == get_image(counted(s, id), counting(s.connections[id]), data).0,
{
}

proof fn lemma_image_reply(conn: ClientConnection, depth: u8, visual: u32, image: Seq<u8>)
    ensures
        image_reply(conn, depth, visual, image).subrange(32, 32 + image.len() as int) == image,
        image_reply(conn, depth, visual, image)[1] == depth,
        image_reply(conn, depth, visual, image).len() >= 32 + image.len(),
{
    assert(image_reply(conn, depth, visual, image).subrange(32, 32 + image.len() as int) =~= image);
}

/// GetImage of a pixmap gives the pixmap's pixels from the place that was asked
/// for, and its depth.
pub proof fn law_images_show_the_pixmap(
    s: ServerModel,
    id: u32,
    drawable: u32,
    x: i16,
    y: i16,
    width: u16,
    height: u16,
    planes: u32,
    after: ServerModel,
    r: Option<Pending>,
)
    requires
        s.connections.dom().contains(id),
        pixmap_in(s.resources, drawable) is Some,
        has_all_pixels(pixmap_in(s.resources, drawable)->0),
        0 <= x,
        0 <= y,
        processing_may_lead_to(
            s,
            id,
            image_request(s.connections[id].byte_order, drawable, x, y, width, height, planes),
            after,
            r,
        ),
    ensures
        ({
            let p = pixmap_in(s.resources, drawable)->0;
            &&& after.outbox.len() == s.outbox.len() + 1
            &&& after.outbox.drop_last() == s.outbox
            &&& after.outbox.last() matches ActionModel::Reply { conn, data } && conn
                == s.connections[id].id && data[1] == p.depth && data.len() >= 32 + width * height
                * 4 && shows(
                data.subrange(32, 32 + width * height * 4),
                width as int,
                height as int,
                p,
                x as int,
                y as int,
            )
        }),
{
    let o = s.connections[id].byte_order;
    let conn = counting(s.connections[id]);
    let data = image_request(o, drawable, x, y, width, height, planes);
    lemma_image_request(o, drawable, x, y, width, height, planes);
    lemma_get_image_processed(s, id, data, after, r);
    let p = pixmap_in(s.resources, drawable)->0;
    let image = read_area(p, x, y, width, height);
    lemma_read_area(p, x, y, width, height);
    lemma_image_reply(conn, p.depth, 0, image);
    assert(after.outbox.drop_last() =~= s.outbox);
}

/// PutImage as a client writes it.
pub open spec fn put_request(
    o: ByteOrder,
    format: u8,
    drawable: u32,
    gc: u32,
    width: u16,
    height: u16,
    x: i16,
    y: i16,
    depth: u8,
    image: Seq<u8>,
) -> Seq<u8> {
    request(
        o,
        72,
        format,
        words(o, seq![drawable, gc]) + halves(
            o,
            seq![width, height, pattern16(x), pattern16(y)],
        ) + words(o, seq![]) + (seq![0u8, depth, 0u8, 0u8] + image),
    )
}

proof fn lemma_put_image(s: ServerModel, conn: ClientConnection, data: Seq<u8>)
    requires
        data.len() >= 24,
        data[0] == 72,
    ensures
        drawing_request(s, conn, data) == super::drawing::put_image(s, conn, data),
{
    reveal(drawing_request);
}

proof fn lemma_put_request(
    o: ByteOrder,
    format: u8,
    drawable: u32,
    gc: u32,
    width: u16,
    height: u16,
    x: i16,
    y: i16,
    depth: u8,
    image: Seq<u8>,
)
    ensures
        ({
            let data = put_request(o, format, drawable, gc, width, height, x, y, depth, image);
            &&& data.len() == 24 + image.len()
            &&& data[0] == 72
            &&& data[1] == format
            &&& u32_at(o, data, 4) == drawable
            &&& u32_at(o, data, 8) == gc
            &&& u16_at(o, data, 12) == width
            &&& u16_at(o, data, 14) == height
            &&& i16_at(o, data, 16) == x
            &&& i16_at(o, data, 18) == y
            &&& data[21] == depth
            &&& data.subrange(24, data.len() as int) == image
        }),
{
    let ws = seq![drawable, gc];
    let hs = seq![width, height, pattern16(x), pattern16(y)];
    let rest = seq![0u8, depth, 0u8, 0u8] + image;
    let data = put_request(o, format, drawable, gc, width, height, x, y, depth, image);
    lemma_request(o, 72, format, ws, hs, seq![], rest);
    assert(ws[0] == drawable && ws[1] == gc);
    assert(hs[0] == width && hs[1] == height && hs[2] == pattern16(x) && hs[3] == pattern16(y));
    assert(data.skip(20) == rest);
    assert(data[21] == data.skip(20)[1]);
    assert(data.subrange(24, data.len() as int) =~= data.skip(20).skip(4));
    assert(rest.skip(4) =~= image);
}

/// PutImage puts the image that was sent where the client said.
pub proof fn law_images_are_put(
    s: ServerModel,
    id: u32,
    format: u8,
    drawable: u32,
    gc: u32,
    width: u16,
    height: u16,
    x: i16,
    y: i16,
    depth: u8,
    image: Seq<u8>,
    after: ServerModel,
    r: Option<Pending>,
)
    requires
        s.connections.dom().contains(id),
        has_surface(s, drawable),
        processing_may_lead_to(
            s,
            id,
            put_request(
                s.connections[id].byte_order,
                format,
                drawable,
                gc,
                width,
                height,
                x,
                y,
                depth,
                image,
            ),
            after,
            r,
        ),
    ensures
        exists|mid: ServerModel, cs: Seq<RenderModel>| #[trigger]
            lands_on(mid, after, drawable, cs) && mid.resources == s.resources && (mid.outbox
                == s.outbox || (mid.outbox.len() == s.outbox.len() + 1 && mid.outbox.drop_last()
                == s.outbox && mid.outbox.last() is ImeSpot)) && cs.len() == 1 && (
            cs[0] matches RenderModel::PutImage {
                x: px,
                y: py,
                width: w,
                height: h,
                depth: d,
                format: f,
                data,
                gc_function,
            } && (px, py, w, h, d, f) == (x, y, width, height, depth, format) && data == image && (
            gc_in(s.resources, gc) matches Some(g) ==> gc_function == g.function.number())),
{
    let o = s.connections[id].byte_order;
    let conn = counting(s.connections[id]);
    let begun = counted(s, id);
    let data = put_request(o, format, drawable, gc, width, height, x, y, depth, image);
    lemma_put_request(o, format, drawable, gc, width, height, x, y, depth, image);
    lemma_drawing_processed(s, id, data, after, r);
    lemma_put_image(begun, conn, data);
    let mid = if super::drawing::glyph_sized(width, height) {
        super::drawing::spotted(begun, drawable, x.wrapping_add(width as i16), y)
    } else {
        begun
    };
    let cs = seq![
        RenderModel::PutImage {
            x,
            y,
            width,
            height,
            depth,
            format,
            data: image,
            gc_function: pen(begun.resources, gc, 0).function,
        },
    ];
    lemma_lands(mid, mid, after, drawable, cs);
    assert(lands_on(mid, after, drawable, cs));
    assert(super::drawing::glyph_sized(width, height) ==> mid.outbox.drop_last() =~= s.outbox);
}

} // verus!
