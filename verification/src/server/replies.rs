//! Requests that are answered from what the server is, not from its state.

use vstd::prelude::*;

use super::connection::{
    build_empty_reply, read_u16, read_u32, reply_head, start_reply, write_u16_to, write_u32_to,
    ClientConnection,
};
use super::extensions::{
    announced, extension_models, supported_extensions, ExtensionInfo, ExtensionModel,
};
use super::fonts::{counted_all, put_counted};
use super::keyboard::succeeded;
use super::properties::{asked_name, count_words, filled, put_filled, words_for};
use super::resources::{PixmapModel, PixmapState, Resource, ResourceModel};
use super::text::{from_utf8, same_text};
use super::wire::{
    byte, bytes16, bytes32, copy_range, put_u16, put_u8, put_zeros, u16_at, u32_at, zeros,
    ByteOrder,
};
use super::{done, refused, Outcome, ServerError, ServerModel, XServer};

verus! {

/// The extension of a name, if a list has it.
pub open spec fn extension_named(list: Seq<ExtensionModel>, name: Seq<char>) -> Option<ExtensionModel>
    decreases list.len(),
{
    if list.len() == 0 {
        None
    } else if list[0].name == name {
        Some(list[0])
    } else {
        extension_named(list.drop_first(), name)
    }
}

/// QueryExtension.
pub open spec fn query_extension(s: ServerModel, conn: ClientConnection, data: Seq<u8>) -> Outcome {
    let o = conn.byte_order;
    if data.len() < 8 || data.len() < 8 + u16_at(o, data, 4) {
        refused(s, ServerError::Protocol)
    } else {
        let head = reply_head(conn, 0, 0);
        let found = match extension_named(announced(), asked_name(o, data)) {
            Some(e) => head + byte(1) + byte(e.major_opcode) + byte(e.first_event) + byte(
                e.first_error,
            ),
            None => head + byte(0) + byte(0) + byte(0) + byte(0),
        };
        done(s.replying(conn, found + zeros(20)))
    }
}

fn find_extension(name: &String) -> (r: Option<ExtensionInfo>)
    ensures
        match extension_named(announced(), name@) {
            Some(e) => r is Some && r->0@ == e,
            None => r is None,
        },
{
    let list = supported_extensions();
    let ghost all = announced();
    assert(all.skip(0) =~= all);
    for i in 0..list.len()
        invariant
            all == announced(),
            extension_models(list@) == all,
            extension_named(all, name@) == extension_named(all.skip(i as int), name@),
    {
        assert(all[i as int] == list@[i as int]@);
        assert(all.skip(i as int)[0] == all[i as int]);
        assert(all.skip(i as int).drop_first() =~= all.skip(i + 1));
        if same_text(name, list[i].name) {
            return Some(list[i]);
        }
    }
    assert(all.skip(list@.len() as int) =~= Seq::empty());
    None
}

pub fn handle_query_extension(server: &mut XServer, conn: &ClientConnection, data: &[u8]) -> (r:
    Result<(), ServerError>)
    ensures
        (final(server)@, r) == query_extension(old(server)@, *conn, data@),
{
    if data.len() < 8 {
        return Err(ServerError::Protocol);
    }
    let name_len: usize = read_u16(conn, data, 4) as usize;
    if data.len() < 8 + name_len {
        return Err(ServerError::Protocol);
    }
    let given: Option<String> = from_utf8(copy_range(data, 8, 8 + name_len).as_slice());
    let name: String = match given {
        Some(t) => t,
        None => String::new(),
    };
    assert(name@ == asked_name(conn.byte_order, data@));
    let mut reply = start_reply(conn, 0, 0);
    match find_extension(&name) {
        Some(e) => {
            put_u8(&mut reply, 1);
            put_u8(&mut reply, e.major_opcode);
            put_u8(&mut reply, e.first_event);
            put_u8(&mut reply, e.first_error);
        },
        None => {
            put_u8(&mut reply, 0);
            put_u8(&mut reply, 0);
            put_u8(&mut reply, 0);
            put_u8(&mut reply, 0);
        },
    }
    put_zeros(&mut reply, 20);
    server.reply(conn, reply);
    Ok(())
}

/// The names of extensions.
pub open spec fn extension_names(list: Seq<ExtensionModel>) -> Seq<Seq<char>> {
    Seq::new(list.len(), |i: int| list[i].name)
}

/// ListExtensions.
pub open spec fn list_extensions(s: ServerModel, conn: ClientConnection) -> Outcome {
    let names = extension_names(announced());
    let list = counted_all(names);
    done(
        s.replying(
            conn,
            reply_head(conn, names.len() as u8, words_for(list.len() as int) as u32) + zeros(24)
                + filled(list),
        ),
    )
}

pub fn handle_list_extensions(server: &mut XServer, conn: &ClientConnection) -> (r: Result<
    (),
    ServerError,
>)
    ensures
        (final(server)@, r) == list_extensions(old(server)@, *conn),
{
    let extensions = supported_extensions();
    let ghost names = extension_names(announced());
    let mut list: Vec<u8> = Vec::new();
    assert(list@ =~= counted_all(names.take(0)));
    for i in 0..extensions.len()
        invariant
            extension_models(extensions@) == announced(),
            names == extension_names(announced()),
            list@ == counted_all(names.take(i as int)),
    {
        assert(announced()[i as int] == extensions@[i as int]@);
        assert(names.take(i + 1).drop_last() =~= names.take(i as int));
        put_counted(&mut list, extensions[i].name);
    }
    assert(names.take(extensions@.len() as int) =~= names);
    let mut reply = start_reply(conn, extensions.len() as u8, count_words(list.len()));
    put_zeros(&mut reply, 24);
    put_filled(&mut reply, list.as_slice());
    server.reply(conn, reply);
    Ok(())
}

/// QueryBestSize: the size asked about is the best.
pub open spec fn query_best_size(s: ServerModel, conn: ClientConnection, data: Seq<u8>) -> Outcome {
    let o = conn.byte_order;
    done(
        s.replying(
            conn,
            reply_head(conn, 0, 0) + bytes16(o, u16_at(o, data, 8)) + bytes16(
                o,
                u16_at(o, data, 10),
            ) + zeros(20),
        ),
    )
}

pub fn handle_query_best_size(server: &mut XServer, conn: &ClientConnection, data: &[u8]) -> (r:
    Result<(), ServerError>)
    requires
        data@.len() >= 12,
    ensures
        (final(server)@, r) == query_best_size(old(server)@, *conn, data@),
{
    let mut reply = start_reply(conn, 0, 0);
    write_u16_to(conn, &mut reply, read_u16(conn, data, 8));
    write_u16_to(conn, &mut reply, read_u16(conn, data, 10));
    put_zeros(&mut reply, 20);
    server.reply(conn, reply);
    Ok(())
}

/// A reply with an empty list: fonts' paths, hosts.
pub open spec fn no_entries(s: ServerModel, conn: ClientConnection) -> Outcome {
    done(s.replying(conn, reply_head(conn, 0, 0) + bytes16(conn.byte_order, 0) + zeros(22)))
}

/// Answers with an empty list: GetFontPath, ListHosts.
pub fn handle_get_font_path(server: &mut XServer, conn: &ClientConnection) -> (r: Result<
    (),
    ServerError,
>)
    ensures
        (final(server)@, r) == no_entries(old(server)@, *conn),
{
    let mut reply = start_reply(conn, 0, 0);
    write_u16_to(conn, &mut reply, 0);
    put_zeros(&mut reply, 22);
    server.reply(conn, reply);
    Ok(())
}

/// GetScreenSaver: there is none.
pub open spec fn get_screen_saver(s: ServerModel, conn: ClientConnection) -> Outcome {
    let o = conn.byte_order;
    done(
        s.replying(
            conn,
            reply_head(conn, 0, 0) + bytes16(o, 0) + bytes16(o, 0) + byte(0) + byte(0) + zeros(18),
        ),
    )
}

pub fn handle_get_screen_saver(server: &mut XServer, conn: &ClientConnection) -> (r: Result<
    (),
    ServerError,
>)
    ensures
        (final(server)@, r) == get_screen_saver(old(server)@, *conn),
{
    let mut reply = start_reply(conn, 0, 0);
    write_u16_to(conn, &mut reply, 0);
    write_u16_to(conn, &mut reply, 0);
    put_u8(&mut reply, 0);
    put_u8(&mut reply, 0);
    put_zeros(&mut reply, 18);
    server.reply(conn, reply);
    Ok(())
}

/// GrabPointer and GrabKeyboard succeed and change nothing.
pub fn handle_grab_keyboard(server: &mut XServer, conn: &ClientConnection) -> (r: Result<(), ServerError>)
    ensures
        (final(server)@, r) == succeeded(old(server)@, *conn),
{
    let reply = build_empty_reply(conn, 0);
    server.reply(conn, reply);
    Ok(())
}

/// A reply of a number of words after its head, all zero.
pub open spec fn blank_reply(s: ServerModel, conn: ClientConnection, words: u32) -> Outcome {
    done(s.replying(conn, reply_head(conn, 0, words) + zeros((24 + 4 * words) as nat)))
}

/// Answers with zeros: QueryKeymap says that no key is down, ListFontsWithInfo
/// that the list is over, GetMotionEvents that there were none.
pub fn reply_blank(server: &mut XServer, conn: &ClientConnection, words: u32) -> (r: Result<
    (),
    ServerError,
>)
    requires
        words <= 1024,
    ensures
        (final(server)@, r) == blank_reply(old(server)@, *conn, words),
{
    let mut reply = start_reply(conn, 0, words);
    put_zeros(&mut reply, (24 + 4 * words) as usize);
    server.reply(conn, reply);
    Ok(())
}

/// QueryTextExtents: every text is as high as any other, and has no width.
pub open spec fn query_text_extents(s: ServerModel, conn: ClientConnection) -> Outcome {
    let o = conn.byte_order;
    done(
        s.replying(
            conn,
            reply_head(conn, 0, 0) + bytes16(o, 13) + bytes16(o, 2) + bytes16(o, 13) + bytes16(o, 2)
                + bytes32(o, 0) + bytes32(o, 0) + bytes32(o, 0) + zeros(4),
        ),
    )
}

pub fn handle_query_text_extents(server: &mut XServer, conn: &ClientConnection) -> (r: Result<
    (),
    ServerError,
>)
    ensures
        (final(server)@, r) == query_text_extents(old(server)@, *conn),
{
    let mut reply = start_reply(conn, 0, 0);
    write_u16_to(conn, &mut reply, 13);
    write_u16_to(conn, &mut reply, 2);
    write_u16_to(conn, &mut reply, 13);
    write_u16_to(conn, &mut reply, 2);
    write_u32_to(conn, &mut reply, 0);
    write_u32_to(conn, &mut reply, 0);
    write_u32_to(conn, &mut reply, 0);
    put_zeros(&mut reply, 4);
    server.reply(conn, reply);
    Ok(())
}

/// GetPointerControl: the pointer speeds up twofold after four pixels.
pub open spec fn get_pointer_control(s: ServerModel, conn: ClientConnection) -> Outcome {
    let o = conn.byte_order;
    done(
        s.replying(
            conn,
            reply_head(conn, 0, 0) + bytes16(o, 2) + bytes16(o, 1) + bytes16(o, 4) + zeros(18),
        ),
    )
}

pub fn handle_get_pointer_control(server: &mut XServer, conn: &ClientConnection) -> (r: Result<
    (),
    ServerError,
>)
    ensures
        (final(server)@, r) == get_pointer_control(old(server)@, *conn),
{
    let mut reply = start_reply(conn, 0, 0);
    write_u16_to(conn, &mut reply, 2);
    write_u16_to(conn, &mut reply, 1);
    write_u16_to(conn, &mut reply, 4);
    put_zeros(&mut reply, 18);
    server.reply(conn, reply);
    Ok(())
}

/// The longest request that BIG-REQUESTS allows, in words.
pub const MAX_REQUEST_WORDS: u32 = 4194304;

/// BigReqEnable.
pub open spec fn enable_big_requests(s: ServerModel, conn: ClientConnection) -> Outcome {
    done(
        s.replying(
            conn,
            reply_head(conn, 0, 0) + bytes32(conn.byte_order, MAX_REQUEST_WORDS) + zeros(20),
        ),
    )
}

pub fn handle_enable_big_requests(server: &mut XServer, conn: &ClientConnection) -> (r: Result<
    (),
    ServerError,
>)
    ensures
        (final(server)@, r) == enable_big_requests(old(server)@, *conn),
{
    let mut reply = start_reply(conn, 0, 0);
    write_u32_to(conn, &mut reply, MAX_REQUEST_WORDS);
    put_zeros(&mut reply, 20);
    server.reply(conn, reply);
    Ok(())
}

/// An error as a client gets it, always in little-endian order.
pub open spec fn error_bytes(code: u8, seq: u16, opcode: u8) -> Seq<u8> {
    byte(0) + byte(code) + bytes16(ByteOrder::LittleEndian, seq) + zeros(4) + byte(opcode) + byte(0)
        + byte(opcode) + zeros(21)
}

/// Builds an error.
pub fn build_error(code: u8, seq: u16, opcode: u8) -> (r: Vec<u8>)
    ensures
        r@ == error_bytes(code, seq, opcode),
{
    let mut r: Vec<u8> = Vec::with_capacity(32);
    put_u8(&mut r, 0);
    assert(r@ =~= byte(0));
    put_u8(&mut r, code);
    put_u16(ByteOrder::LittleEndian, &mut r, seq);
    put_zeros(&mut r, 4);
    put_u8(&mut r, opcode);
    put_u8(&mut r, 0);
    put_u8(&mut r, opcode);
    put_zeros(&mut r, 21);
    r
}

/// The error code for a request that found no room.
pub const BAD_ALLOC: u8 = 11;

/// AllocColorCells and AllocColorPlanes: no color of the one visual can be
/// changed, so there is nothing to allocate.
pub open spec fn no_cells(s: ServerModel, conn: ClientConnection, opcode: u8) -> Outcome {
    done(s.replying(conn, error_bytes(BAD_ALLOC, conn.request_sequence(), opcode)))
}

pub fn reply_no_cells(server: &mut XServer, conn: &ClientConnection, opcode: u8) -> (r: Result<
    (),
    ServerError,
>)
    ensures
        (final(server)@, r) == no_cells(old(server)@, *conn, opcode),
{
    let e = build_error(BAD_ALLOC, conn.current_request_sequence(), opcode);
    server.reply(conn, e);
    Ok(())
}

/// CreatePixmap: all zero to begin with, four bytes for each pixel.
pub open spec fn create_pixmap(s: ServerModel, conn: ClientConnection, data: Seq<u8>) -> Outcome {
    if data.len() < 16 {
        refused(s, ServerError::Protocol)
    } else {
        let o = conn.byte_order;
        let id = u32_at(o, data, 4);
        let width = u16_at(o, data, 12);
        let height = u16_at(o, data, 14);
        done(
            s.with_resource(
                id,
                ResourceModel::Pixmap(
                    PixmapModel {
                        id,
                        drawable: u32_at(o, data, 8),
                        width,
                        height,
                        depth: data[1],
                        data: zeros((width * height * 4) as nat),
                    },
                ),
            ),
        )
    }
}

pub fn handle_create_pixmap(server: &mut XServer, conn: &ClientConnection, data: &[u8]) -> (r:
    Result<(), ServerError>)
    requires
        data@.len() >= 16 ==> u16_at(conn.byte_order, data@, 12) * u16_at(conn.byte_order, data@, 14)
            * 4 <= usize::MAX,
    ensures
        (final(server)@, r) == create_pixmap(old(server)@, *conn, data@),
{
    if data.len() < 16 {
        return Err(ServerError::Protocol);
    }
    let id: u32 = read_u32(conn, data, 4);
    let width: u16 = read_u16(conn, data, 12);
    let height: u16 = read_u16(conn, data, 14);
    assert(width * height <= 65535 * 65535) by (nonlinear_arith)
        requires
            0 <= width <= 65535,
            0 <= height <= 65535,
    ;
    let size: u64 = width as u64 * height as u64 * 4;
    let mut pixels: Vec<u8> = Vec::new();
    put_zeros(&mut pixels, size as usize);
    assert(pixels@ =~= zeros(size as nat));
    let pixmap = PixmapState {
        id,
        drawable: read_u32(conn, data, 8),
        width,
        height,
        depth: data[1],
        data: pixels,
    };
    server.set_resource(id, Resource::Pixmap(pixmap));
    Ok(())
}

} // verus!
