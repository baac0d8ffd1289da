//! From a request's bytes to the handler that carries it out.

use vstd::prelude::*;

use super::colors;
use super::connection::{read_u16, read_u32, ClientConnection};
use super::cursors;
use super::drawing;
use super::extensions::render::{
    check_source, handle_render_request, render_request, source_there, RENDER_COMPOSITE,
};
use super::extensions::shape::{handle_shape_request, shape_request};
use super::extensions::xinput2::{handle_xinput2_request, xinput2_request};
use super::extensions::xkb::{handle_xkb_request, xkb_request};
use super::extensions::xtest::{handle_xtest_request, xtest_may_lead_to};
use super::fonts;
use super::keyboard;
use super::labels;
use super::mapping::{handle_map_window, map_window};
use super::pixels;
use super::pointer;
use super::properties;
use super::replies;
use super::selections;
use super::tables;
use super::values::{check_values, values_fit};
use super::windows;
use super::wire::{u16_at, u32_at};
use super::{done, refused, Outcome, ServerError, ServerModel, XServer};
use crate::display::Xid;

verus! {

/// What a request still waits for when its handler is through.
#[derive(Debug, Clone, Copy, PartialEq, Eq, Structural)]
#[allow(inconsistent_fields)]
pub enum Pending {
    /// Nothing.
    Nothing,
    /// The native window that was asked for.
    NativeWindow { window: Xid, override_redirect: bool },
    /// The pixels that were asked for.
    Pixels { source: pixels::ImageSource, width: u16, height: u16 },
}

/// Whether a request about windows can be read.
pub open spec fn window_fits(s: ServerModel, conn: ClientConnection, data: Seq<u8>) -> bool {
    let o = conn.byte_order;
    let len = data.len() as int;
    let there = len >= 12 && s.window(u32_at(o, data, 4)) is Some;
    match data[0] {
        1 => len >= 32 ==> values_fit(u32_at(o, data, 28), 0x7FFF, len, 32, 0, 15),
        2 => there ==> values_fit(u32_at(o, data, 8), windows::CHANGED_BITS, len, 12, 0, 15),
        12 => there ==> values_fit(u16_at(o, data, 8) as u32, 0x1F, len, 12, 0, 5),
        7 => true,
        _ => len >= 8,
    }
}

fn check_window(server: &XServer, conn: &ClientConnection, data: &[u8]) -> (r: bool)
    requires
        data@.len() >= 4,
    ensures
        r == window_fits(server@, *conn, data@),
{
    let len: usize = data.len();
    match data[0] {
        1 => len < 32 || check_values(read_u32(conn, data, 28), 0x7FFF, len, 32, 15),
        2 => {
            if len < 12 {
                return true;
            }
            match server.window(read_u32(conn, data, 4)) {
                Some(_) => check_values(
                    read_u32(conn, data, 8),
                    windows::CHANGED_BITS,
                    len,
                    12,
                    15,
                ),
                None => true,
            }
        },
        12 => {
            if len < 12 {
                return true;
            }
            match server.window(read_u32(conn, data, 4)) {
                Some(_) => check_values(read_u16(conn, data, 8) as u32, 0x1F, len, 12, 5),
                None => true,
            }
        },
        7 => true,
        _ => len >= 8,
    }
}

/// A request about windows.
#[verifier::opaque]
pub open spec fn window_request(s: ServerModel, conn: ClientConnection, data: Seq<u8>) -> Outcome {
    match data[0] {
        1 => windows::create_window(s, conn, data),
        2 => windows::change_window_attributes(s, conn, data),
        3 => windows::get_window_attributes(s, conn, data),
        4 => windows::destroy_window(s, conn, data),
        7 => windows::reparent_window(s, conn, data),
        9 => windows::map_subwindows(s, conn, data),
        10 => done(windows::unmapped(s, u32_at(conn.byte_order, data, 4))),
        12 => windows::configure_window(s, conn, data),
        14 => windows::get_geometry(s, conn, data),
        _ => windows::query_tree(s, conn, data),
    }
}

fn handle_window_request(server: &mut XServer, conn: &ClientConnection, data: &[u8]) -> (r: Result<
    (),
    ServerError,
>)
    requires
        data@.len() >= 4,
        window_fits(old(server)@, *conn, data@),
    ensures
        (final(server)@, r) == window_request(old(server)@, *conn, data@),
{
    reveal(window_request);
    match data[0] {
        1 => windows::handle_create_window(server, conn, data),
        2 => windows::handle_change_window_attributes(server, conn, data),
        3 => windows::handle_get_window_attributes(server, conn, data),
        4 => windows::handle_destroy_window(server, conn, data),
        7 => windows::handle_reparent_window(server, conn, data),
        9 => windows::handle_map_subwindows(server, conn, data),
        10 => windows::handle_unmap_window(server, conn, data),
        12 => windows::handle_configure_window(server, conn, data),
        14 => windows::handle_get_geometry(server, conn, data),
        _ => windows::handle_query_tree(server, conn, data),
    }
}

/// Whether a request about atoms, properties or selections can be read.
pub open spec fn property_fits(s: ServerModel, conn: ClientConnection, data: Seq<u8>) -> bool {
    match data[0] {
        17 | 21 => data.len() >= 8,
        19 => data.len() >= 12,
        20 => data.len() >= 24 ==> properties::part_starts_inside(s, conn.byte_order, data),
        _ => true,
    }
}

fn check_property(server: &XServer, conn: &ClientConnection, data: &[u8]) -> (r: bool)
    requires
        data@.len() >= 4,
    ensures
        r == property_fits(server@, *conn, data@),
{
    match data[0] {
        17 | 21 => data.len() >= 8,
        19 => data.len() >= 12,
        20 => {
            if data.len() < 24 {
                return true;
            }
            properties::check_part(server, conn, data)
        },
        _ => true,
    }
}

/// A request about atoms, properties or selections.
#[verifier::opaque]
pub open spec fn property_request(s: ServerModel, conn: ClientConnection, data: Seq<u8>) -> Outcome {
    match data[0] {
        16 => properties::intern_atom(s, conn, data),
        17 => properties::get_atom_name(s, conn, data),
        18 => properties::change_property(s, conn, data),
        19 => properties::delete_property(s, conn, data),
        20 => properties::get_property(s, conn, data),
        21 => properties::list_properties(s, conn, data),
        22 => selections::set_selection_owner(s, conn, data),
        _ => selections::get_selection_owner(s, conn, data),
    }
}

fn handle_property_request(server: &mut XServer, conn: &ClientConnection, data: &[u8]) -> (r: Result<
    (),
    ServerError,
>)
    requires
        data@.len() >= 4,
        property_fits(old(server)@, *conn, data@),
    ensures
        (final(server)@, r) == property_request(old(server)@, *conn, data@),
{
    reveal(property_request);
    match data[0] {
        16 => properties::handle_intern_atom(server, conn, data),
        17 => properties::handle_get_atom_name(server, conn, data),
        18 => properties::handle_change_property(server, conn, data),
        19 => properties::handle_delete_property(server, conn, data),
        20 => properties::handle_get_property(server, conn, data),
        21 => properties::handle_list_properties(server, conn, data),
        22 => selections::handle_set_selection_owner(server, conn, data),
        _ => selections::handle_get_selection_owner(server, conn, data),
    }
}

/// A request about the pointer, the keyboard or the focus.
#[verifier::opaque]
pub open spec fn input_request(s: ServerModel, conn: ClientConnection, data: Seq<u8>) -> Outcome {
    match data[0] {
        26 => pointer::grab_pointer(s, conn, data),
        27 => pointer::ungrab_pointer(s),
        31 => keyboard::succeeded(s, conn),
        38 => pointer::query_pointer(s, conn, data),
        39 => replies::blank_reply(s, conn, 0),
        40 => pointer::translate_coordinates(s, conn, data),
        41 => pointer::warp_pointer(s, conn, data),
        42 => done(windows::set_input_focus(s, u32_at(conn.byte_order, data, 4), data[1])),
        43 => windows::get_input_focus(s, conn),
        44 => replies::blank_reply(s, conn, 2),
        101 => keyboard::get_keyboard_mapping(s, conn, data),
        103 => keyboard::get_keyboard_control(s, conn),
        106 => replies::get_pointer_control(s, conn),
        116 => keyboard::succeeded(s, conn),
        117 => pointer::get_pointer_mapping(s, conn),
        118 => keyboard::succeeded(s, conn),
        _ => keyboard::get_modifier_mapping(s, conn),
    }
}

/// Whether a request about the pointer, the keyboard or the focus can be read.
pub open spec fn input_fits(data: Seq<u8>) -> bool {
    match data[0] {
        42 => data.len() >= 8,
        101 => data.len() >= 6,
        _ => true,
    }
}

fn handle_input_request(server: &mut XServer, conn: &ClientConnection, data: &[u8]) -> (r: Result<
    (),
    ServerError,
>)
    requires
        data@.len() >= 4,
        input_fits(data@),
    ensures
        (final(server)@, r) == input_request(old(server)@, *conn, data@),
{
    reveal(input_request);
    match data[0] {
        26 => pointer::handle_grab_pointer(server, conn, data),
        27 => pointer::handle_ungrab_pointer(server),
        31 => replies::handle_grab_keyboard(server, conn),
        38 => pointer::handle_query_pointer(server, conn, data),
        39 => replies::reply_blank(server, conn, 0),
        40 => pointer::handle_translate_coordinates(server, conn, data),
        41 => pointer::handle_warp_pointer(server, conn, data),
        42 => windows::handle_set_input_focus(server, conn, data),
        43 => windows::handle_get_input_focus(server, conn),
        44 => replies::reply_blank(server, conn, 2),
        101 => keyboard::handle_get_keyboard_mapping(server, conn, data),
        103 => keyboard::handle_get_keyboard_control(server, conn),
        106 => replies::handle_get_pointer_control(server, conn),
        116 => pointer::handle_set_pointer_mapping(server, conn),
        117 => pointer::handle_get_pointer_mapping(server, conn),
        118 => keyboard::handle_set_modifier_mapping(server, conn),
        _ => keyboard::handle_get_modifier_mapping(server, conn),
    }
}

/// A request about fonts.
#[verifier::opaque]
pub open spec fn font_request(s: ServerModel, conn: ClientConnection, data: Seq<u8>) -> Outcome {
    match data[0] {
        45 => fonts::open_font(s, conn, data),
        46 => drawing::free_resource(s, conn, data),
        47 => fonts::query_font(s, conn, data),
        48 => replies::query_text_extents(s, conn),
        49 => fonts::list_fonts(s, conn, data),
        50 => replies::blank_reply(s, conn, 7),
        _ => replies::no_entries(s, conn),
    }
}

/// Whether a request about fonts can be read.
pub open spec fn font_fits(data: Seq<u8>) -> bool {
    data[0] == 46 || data[0] == 47 ==> data.len() >= 8
}

fn handle_font_request(server: &mut XServer, conn: &ClientConnection, data: &[u8]) -> (r: Result<
    (),
    ServerError,
>)
    requires
        data@.len() >= 4,
        font_fits(data@),
    ensures
        (final(server)@, r) == font_request(old(server)@, *conn, data@),
{
    reveal(font_request);
    match data[0] {
        45 => fonts::handle_open_font(server, conn, data),
        46 => drawing::handle_free_gc(server, conn, data),
        47 => fonts::handle_query_font(server, conn, data),
        48 => replies::handle_query_text_extents(server, conn),
        49 => fonts::handle_list_fonts(server, conn, data),
        50 => replies::reply_blank(server, conn, 7),
        _ => replies::handle_get_font_path(server, conn),
    }
}

/// A request that draws, or that is about what is drawn with and drawn on.
#[verifier::opaque]
pub open spec fn drawing_request(s: ServerModel, conn: ClientConnection, data: Seq<u8>) -> Outcome {
    match data[0] {
        53 => replies::create_pixmap(s, conn, data),
        54 => drawing::free_resource(s, conn, data),
        55 => drawing::create_gc(s, conn, data),
        56 => drawing::change_gc(s, conn, data),
        60 => drawing::free_resource(s, conn, data),
        61 => drawing::clear_area(s, conn, data),
        62 => pixels::copy_area(s, conn, data),
        64 => drawing::poly_point(s, conn, data),
        65 => drawing::poly_line(s, conn, data),
        66 => drawing::poly_segment(s, conn, data),
        67 => drawing::poly_rectangle(s, conn, data),
        68 => drawing::poly_arc(s, conn, data),
        69 => drawing::fill_poly(s, conn, data),
        70 => drawing::poly_fill_rectangle(s, conn, data),
        71 => drawing::poly_fill_arc(s, conn, data),
        72 => drawing::put_image(s, conn, data),
        74 => labels::poly_text8(s, conn, data),
        75 => labels::poly_text16(s, conn, data),
        76 => labels::image_text8(s, conn, data),
        _ => labels::image_text16(s, conn, data),
    }
}

/// Whether a request that draws can be read.
pub open spec fn drawing_fits(conn: ClientConnection, data: Seq<u8>) -> bool {
    let o = conn.byte_order;
    match data[0] {
        53 => data.len() >= 16 ==> u16_at(o, data, 12) * u16_at(o, data, 14) * 4 <= usize::MAX,
        54 | 60 => data.len() >= 8,
        74 => labels::items_readable(data, 16, false),
        75 => labels::items_readable(data, 16, true),
        _ => true,
    }
}

fn check_drawing(conn: &ClientConnection, data: &[u8]) -> (r: bool)
    requires
        data@.len() >= 4,
    ensures
        r == drawing_fits(*conn, data@),
{
    match data[0] {
        53 => {
            if data.len() < 16 {
                return true;
            }
            let w: u64 = read_u16(conn, data, 12) as u64;
            let h: u64 = read_u16(conn, data, 14) as u64;
            proof {
                assert(w * h <= 0xFFFF * 0xFFFF) by (nonlinear_arith)
                    requires
                        w <= 0xFFFF,
                        h <= 0xFFFF,
                ;
            }
            w * h * 4 <= usize::MAX as u64
        },
        54 | 60 => data.len() >= 8,
        74 => labels::text_items_readable(data, 16, false),
        75 => labels::text_items_readable(data, 16, true),
        _ => true,
    }
}

fn handle_drawing_request(server: &mut XServer, conn: &ClientConnection, data: &[u8]) -> (r: Result<
    (),
    ServerError,
>)
    requires
        data@.len() >= 4,
        drawing_fits(*conn, data@),
    ensures
        (final(server)@, r) == drawing_request(old(server)@, *conn, data@),
{
    reveal(drawing_request);
    match data[0] {
        53 => replies::handle_create_pixmap(server, conn, data),
        54 => drawing::handle_free_gc(server, conn, data),
        55 => drawing::handle_create_gc(server, conn, data),
        56 => drawing::handle_change_gc(server, conn, data),
        60 => drawing::handle_free_gc(server, conn, data),
        61 => drawing::handle_clear_area(server, conn, data),
        62 => pixels::handle_copy_area(server, conn, data),
        64 => drawing::handle_poly_point(server, conn, data),
        65 => drawing::handle_poly_line(server, conn, data),
        66 => drawing::handle_poly_segment(server, conn, data),
        67 => drawing::handle_poly_rectangle(server, conn, data),
        68 => drawing::handle_poly_arc(server, conn, data),
        69 => drawing::handle_fill_poly(server, conn, data),
        70 => drawing::handle_poly_fill_rectangle(server, conn, data),
        71 => drawing::handle_poly_fill_arc(server, conn, data),
        72 => drawing::handle_put_image(server, conn, data),
        74 => labels::handle_poly_text8(server, conn, data),
        75 => labels::handle_poly_text16(server, conn, data),
        76 => labels::handle_image_text8(server, conn, data),
        _ => labels::handle_image_text16(server, conn, data),
    }
}

/// A request about colors or cursors.
#[verifier::opaque]
pub open spec fn color_request(s: ServerModel, conn: ClientConnection, data: Seq<u8>) -> Outcome {
    match data[0] {
        78 => colors::create_colormap(s, data),
        79 => colors::free_colormap(s, data),
        84 => colors::alloc_color(s, conn, data),
        85 => colors::alloc_named_color(s, conn, data),
        86 => replies::no_cells(s, conn, 86),
        87 => replies::no_cells(s, conn, 87),
        91 => colors::query_colors(s, conn, data),
        92 => colors::lookup_color(s, conn, data),
        93 => cursors::create_cursor(s, conn, data),
        94 => cursors::create_glyph_cursor(s, conn, data),
        _ => cursors::free_cursor(s, conn, data),
    }
}

fn handle_color_request(server: &mut XServer, conn: &ClientConnection, data: &[u8]) -> (r: Result<
    (),
    ServerError,
>)
    requires
        data@.len() >= 4,
    ensures
        (final(server)@, r) == color_request(old(server)@, *conn, data@),
{
    reveal(color_request);
    match data[0] {
        78 => colors::handle_create_colormap(server, data),
        79 => colors::handle_free_colormap(server, data),
        84 => colors::handle_alloc_color(server, conn, data),
        85 => colors::handle_alloc_named_color(server, conn, data),
        86 => replies::reply_no_cells(server, conn, 86),
        87 => replies::reply_no_cells(server, conn, 87),
        91 => colors::handle_query_colors(server, conn, data),
        92 => colors::handle_lookup_color(server, conn, data),
        93 => cursors::handle_create_cursor(server, conn, data),
        94 => cursors::handle_create_glyph_cursor(server, conn, data),
        _ => cursors::handle_free_cursor(server, conn, data),
    }
}

/// A request about the server, or one of an extension.
#[verifier::opaque]
pub open spec fn server_request(s: ServerModel, conn: ClientConnection, data: Seq<u8>) -> Outcome {
    match data[0] {
        97 => replies::query_best_size(s, conn, data),
        98 => replies::query_extension(s, conn, data),
        99 => replies::list_extensions(s, conn),
        108 => replies::get_screen_saver(s, conn),
        110 => replies::no_entries(s, conn),
        131 => xinput2_request(s, conn, data),
        133 => replies::enable_big_requests(s, conn),
        134 => shape_request(s, conn, data),
        135 => xkb_request(s, conn, data),
        _ => render_request(s, conn, data),
    }
}

/// Whether a request about the server, or one of an extension, can be read.
pub open spec fn server_fits(s: ServerModel, conn: ClientConnection, data: Seq<u8>) -> bool {
    match data[0] {
        97 => data.len() >= 12,
        139 => data[1] == RENDER_COMPOSITE ==> source_there(s, conn, data),
        _ => true,
    }
}

fn check_server(server: &XServer, conn: &ClientConnection, data: &[u8]) -> (r: bool)
    requires
        data@.len() >= 4,
    ensures
        r == server_fits(server@, *conn, data@),
{
    match data[0] {
        97 => data.len() >= 12,
        139 => data[1] != RENDER_COMPOSITE || check_source(server, conn, data),
        _ => true,
    }
}

fn handle_server_request(server: &mut XServer, conn: &ClientConnection, data: &[u8]) -> (r: Result<
    (),
    ServerError,
>)
    requires
        data@.len() >= 4,
        server_fits(old(server)@, *conn, data@),
        data@[0] == 97 || data@[0] == 98 || data@[0] == 99 || data@[0] == 108 || data@[0] == 110
            || data@[0] == 131 || data@[0] == 133 || data@[0] == 134 || data@[0] == 135 || data@[0]
            == 139,
    ensures
        (final(server)@, r) == server_request(old(server)@, *conn, data@),
{
    reveal(server_request);
    match data[0] {
        97 => replies::handle_query_best_size(server, conn, data),
        98 => replies::handle_query_extension(server, conn, data),
        99 => replies::handle_list_extensions(server, conn),
        108 => replies::handle_get_screen_saver(server, conn),
        110 => replies::handle_get_font_path(server, conn),
        131 => handle_xinput2_request(server, conn, data),
        133 => replies::handle_enable_big_requests(server, conn),
        134 => handle_shape_request(server, conn, data),
        135 => handle_xkb_request(server, conn, data),
        _ => handle_render_request(server, conn, data),
    }
}

/// What requests are about.
#[derive(Debug, Clone, Copy, PartialEq, Eq, Structural)]
pub enum Kind {
    Window,
    Property,
    Input,
    Font,
    Drawing,
    Color,
    Server,
    /// MapWindow.
    MapWindow,
    /// ConvertSelection.
    ConvertSelection,
    /// SendEvent.
    SendEvent,
    /// GetImage.
    GetImage,
    /// A request of the XTEST extension.
    MadeUpInput,
    /// A request that is accepted and changes nothing.
    Ignored,
    /// A request the server does not know.
    Unknown,
}

/// What a request with an opcode is about.
pub open spec fn kind_of(opcode: u8) -> Kind {
    match opcode {
        1 | 2 | 3 | 4 | 7 | 9 | 10 | 12 | 14 | 15 => Kind::Window,
        8 => Kind::MapWindow,
        16 | 17 | 18 | 19 | 20 | 21 | 22 | 23 => Kind::Property,
        24 => Kind::ConvertSelection,
        25 => Kind::SendEvent,
        26 | 27 | 31 | 38 | 39 | 40 | 41 | 42 | 43 | 44 | 101 | 103 | 106 | 116 | 117 | 118
        | 119 => Kind::Input,
        45 | 46 | 47 | 48 | 49 | 50 | 52 | 80 => Kind::Font,
        53 | 54 | 55 | 56 | 60 | 61 | 62 | 64 | 65 | 66 | 67 | 68 | 69 | 70 | 71 | 72 | 74 | 75
        | 76 | 77 => Kind::Drawing,
        73 => Kind::GetImage,
        78 | 79 | 84 | 85 | 86 | 87 | 91 | 92 | 93 | 94 | 95 => Kind::Color,
        97 | 98 | 99 | 108 | 110 | 131 | 133 | 134 | 135 | 139 => Kind::Server,
        132 => Kind::MadeUpInput,
        5 | 6 | 11 | 13 | 28 | 29 | 30 | 32 | 33 | 34 | 35 | 36 | 37 | 51 | 57 | 58 | 59 | 63
        | 81 | 83 | 88 | 89 | 90 | 96 | 100 | 102 | 104 | 105 | 107 | 109 | 111 | 112 | 113 | 114
        | 115 => Kind::Ignored,
        _ => Kind::Unknown,
    }
}

fn find_kind(opcode: u8) -> (r: Kind)
    ensures
        r == kind_of(opcode),
{
    match opcode {
        1 | 2 | 3 | 4 | 7 | 9 | 10 | 12 | 14 | 15 => Kind::Window,
        8 => Kind::MapWindow,
        16 | 17 | 18 | 19 | 20 | 21 | 22 | 23 => Kind::Property,
        24 => Kind::ConvertSelection,
        25 => Kind::SendEvent,
        26 | 27 | 31 | 38 | 39 | 40 | 41 | 42 | 43 | 44 | 101 | 103 | 106 | 116 | 117 | 118
        | 119 => Kind::Input,
        45 | 46 | 47 | 48 | 49 | 50 | 52 | 80 => Kind::Font,
        53 | 54 | 55 | 56 | 60 | 61 | 62 | 64 | 65 | 66 | 67 | 68 | 69 | 70 | 71 | 72 | 74 | 75
        | 76 | 77 => Kind::Drawing,
        73 => Kind::GetImage,
        78 | 79 | 84 | 85 | 86 | 87 | 91 | 92 | 93 | 94 | 95 => Kind::Color,
        97 | 98 | 99 | 108 | 110 | 131 | 133 | 134 | 135 | 139 => Kind::Server,
        132 => Kind::MadeUpInput,
        5 | 6 | 11 | 13 | 28 | 29 | 30 | 32 | 33 | 34 | 35 | 36 | 37 | 51 | 57 | 58 | 59 | 63
        | 81 | 83 | 88 | 89 | 90 | 96 | 100 | 102 | 104 | 105 | 107 | 109 | 111 | 112 | 113 | 114
        | 115 => Kind::Ignored,
        _ => Kind::Unknown,
    }
}

/// Whether the values a request is made of lie inside it.
pub open spec fn request_fits(s: ServerModel, conn: ClientConnection, data: Seq<u8>) -> bool {
    data.len() >= 4 && match kind_of(data[0]) {
        Kind::Window => window_fits(s, conn, data),
        Kind::Property => property_fits(s, conn, data),
        Kind::Input => input_fits(data),
        Kind::Font => font_fits(data),
        Kind::Drawing => drawing_fits(conn, data),
        Kind::Server => server_fits(s, conn, data),
        Kind::MapWindow => data.len() >= 8,
        Kind::GetImage => data.len() >= 20,
        _ => true,
    }
}

/// Tests whether the values a request is made of lie inside it.
pub fn check_request(server: &XServer, conn: &ClientConnection, data: &[u8]) -> (r: bool)
    ensures
        r == request_fits(server@, *conn, data@),
{
    if data.len() < 4 {
        return false;
    }
    match find_kind(data[0]) {
        Kind::Window => check_window(server, conn, data),
        Kind::Property => check_property(server, conn, data),
        Kind::Input => match data[0] {
            42 => data.len() >= 8,
            101 => data.len() >= 6,
            _ => true,
        },
        Kind::Font => !(data[0] == 46 || data[0] == 47) || data.len() >= 8,
        Kind::Drawing => check_drawing(conn, data),
        Kind::Server => check_server(server, conn, data),
        Kind::MapWindow => data.len() >= 8,
        Kind::GetImage => data.len() >= 20,
        _ => true,
    }
}

/// The outcome of a request that waits for nothing.
pub open spec fn settled(o: Outcome, after: ServerModel, r: Result<Pending, ServerError>) -> bool {
    &&& after == o.0
    &&& match o.1 {
        Ok(_) => r == Ok::<Pending, ServerError>(Pending::Nothing),
        Err(e) => r == Err::<Pending, ServerError>(e),
    }
}

/// Whether this follows from a request.
pub open spec fn request_may_lead_to(
    s: ServerModel,
    conn: ClientConnection,
    data: Seq<u8>,
    after: ServerModel,
    r: Result<Pending, ServerError>,
) -> bool {
    let o = conn.byte_order;
    match kind_of(data[0]) {
        Kind::Window => settled(window_request(s, conn, data), after, r),
        Kind::Property => settled(property_request(s, conn, data), after, r),
        Kind::Input => settled(input_request(s, conn, data), after, r),
        Kind::Font => settled(font_request(s, conn, data), after, r),
        Kind::Drawing => settled(drawing_request(s, conn, data), after, r),
        Kind::Color => settled(color_request(s, conn, data), after, r),
        Kind::Server => settled(server_request(s, conn, data), after, r),
        Kind::MapWindow => {
            let window = u32_at(o, data, 4);
            let (mapped, waiting) = map_window(s, conn, window);
            &&& after == mapped
            &&& r == Ok::<Pending, ServerError>(
                match waiting {
                    Some(override_redirect) => Pending::NativeWindow { window, override_redirect },
                    None => Pending::Nothing,
                },
            )
        },
        Kind::ConvertSelection => if data.len() < 24 {
            settled(refused(s, ServerError::Protocol), after, r)
        } else {
            r == Ok::<Pending, ServerError>(Pending::Nothing) && selections::convert_may_lead_to(
                s,
                conn,
                data,
                after,
            )
        },
        Kind::SendEvent => if data.len() < 44 {
            settled(refused(s, ServerError::Protocol), after, r)
        } else {
            r == Ok::<Pending, ServerError>(Pending::Nothing) && selections::send_may_lead_to(
                s,
                conn,
                data,
                after,
            )
        },
        Kind::GetImage => {
            let (read, waiting) = pixels::get_image(s, conn, data);
            &&& after == read
            &&& r == Ok::<Pending, ServerError>(
                match waiting {
                    Some(source) => Pending::Pixels {
                        source,
                        width: u16_at(o, data, 12),
                        height: u16_at(o, data, 14),
                    },
                    None => Pending::Nothing,
                },
            )
        },
        Kind::MadeUpInput => match r {
            Ok(p) => p == Pending::Nothing && xtest_may_lead_to(s, conn, data, after, Ok(())),
            Err(e) => xtest_may_lead_to(s, conn, data, after, Err(e)),
        },
        Kind::Ignored => settled(done(s), after, r),
        Kind::Unknown => settled(refused(s, ServerError::NotImplemented), after, r),
    }
}

fn settle(r: Result<(), ServerError>) -> (q: Result<Pending, ServerError>)
    ensures
        match r {
            Ok(_) => q == Ok::<Pending, ServerError>(Pending::Nothing),
            Err(e) => q == Err::<Pending, ServerError>(e),
        },
{
    match r {
        Ok(()) => Ok(Pending::Nothing),
        Err(e) => Err(e),
    }
}

/// Handles a single request.
pub fn handle_request(server: &mut XServer, conn: &ClientConnection, data: &[u8]) -> (r: Result<
    Pending,
    ServerError,
>)
    requires
        request_fits(old(server)@, *conn, data@),
    ensures
        request_may_lead_to(old(server)@, *conn, data@, final(server)@, r),
{
    match find_kind(data[0]) {
        Kind::Window => settle(handle_window_request(server, conn, data)),
        Kind::Property => settle(handle_property_request(server, conn, data)),
        Kind::Input => settle(handle_input_request(server, conn, data)),
        Kind::Font => settle(handle_font_request(server, conn, data)),
        Kind::Drawing => settle(handle_drawing_request(server, conn, data)),
        Kind::Color => settle(handle_color_request(server, conn, data)),
        Kind::Server => settle(handle_server_request(server, conn, data)),
        Kind::MapWindow => {
            let window: Xid = read_u32(conn, data, 4);
            match handle_map_window(server, conn, data) {
                Some(override_redirect) => Ok(Pending::NativeWindow { window, override_redirect }),
                None => Ok(Pending::Nothing),
            }
        },
        Kind::ConvertSelection => settle(
            selections::handle_convert_selection(server, conn, data),
        ),
        Kind::SendEvent => settle(selections::handle_send_event(server, conn, data)),
        Kind::GetImage => {
            match pixels::handle_get_image(server, conn, data) {
                Some(source) => Ok(
                    Pending::Pixels {
                        source,
                        width: read_u16(conn, data, 12),
                        height: read_u16(conn, data, 14),
                    },
                ),
                None => Ok(Pending::Nothing),
            }
        },
        Kind::MadeUpInput => settle(handle_xtest_request(server, conn, data)),
        Kind::Ignored => Ok(Pending::Nothing),
        Kind::Unknown => Err(ServerError::NotImplemented),
    }
}

/// A connection after it counted one more request.
pub open spec fn counting(c: ClientConnection) -> ClientConnection {
    ClientConnection { sequence_number: c.sequence_number.wrapping_add(1), ..c }
}

/// The state after a connection counted one more request.
pub open spec fn counted(s: ServerModel, id: u32) -> ServerModel {
    ServerModel { connections: s.connections.insert(id, counting(s.connections[id])), ..s }
}

/// The state after a request's result was reported: an error is answered.
pub open spec fn reported(
    s: ServerModel,
    conn: ClientConnection,
    opcode: u8,
    r: Result<Pending, ServerError>,
) -> ServerModel {
    match r {
        Ok(_) => s,
        Err(e) => s.replying(
            conn,
            replies::error_bytes(e.code(), conn.request_sequence(), opcode),
        ),
    }
}

/// What a reported request waits for.
pub open spec fn waits_for(r: Result<Pending, ServerError>) -> Pending {
    match r {
        Ok(p) => p,
        Err(_) => Pending::Nothing,
    }
}

/// Whether this follows when a client's request is processed. A request that
/// cannot be read ends the connection.
pub open spec fn processing_may_lead_to(
    s: ServerModel,
    id: u32,
    data: Seq<u8>,
    after: ServerModel,
    r: Option<Pending>,
) -> bool {
    if !s.connections.dom().contains(id) {
        r is None && after == s
    } else {
        let conn = counting(s.connections[id]);
        let begun = counted(s, id);
        if !request_fits(begun, conn, data) {
            r is None && after == begun
        } else {
            exists|mid: ServerModel, q: Result<Pending, ServerError>| #[trigger]
                request_may_lead_to(begun, conn, data, mid, q) && after == reported(
                    mid,
                    conn,
                    data[0],
                    q,
                ) && r == Some(waits_for(q))
        }
    }
}

/// Processes a client's request: counts it, handles it, and answers it with an
/// error if it was refused. Gives what the request waits for, or nothing where
/// the connection has to end.
pub fn process_request(server: &mut XServer, id: u32, data: &[u8]) -> (r: Option<Pending>)
    ensures
        processing_may_lead_to(old(server)@, id, data@, final(server)@, r),
{
    let mut conn: ClientConnection = match server.connection(id) {
        Some(c) => c,
        None => {
            return None;
        },
    };
    let seq: u16 = conn.next_sequence();
    tables::put_connection(&mut server.connections, id, conn);
    assert(server@ == counted(old(server)@, id));
    if !check_request(server, &conn, data) {
        return None;
    }
    let ghost begun = server@;
    let result = handle_request(server, &conn, data);
    let ghost mid = server@;
    assert(request_may_lead_to(begun, conn, data@, mid, result));
    match result {
        Ok(p) => Some(p),
        Err(e) => {
            let reply = replies::build_error(e.x11_error_code(), seq, data[0]);
            server.reply(&conn, reply);
            Some(Pending::Nothing)
        },
    }
}

/// Requests are numbered one after the other, and after the last number comes
/// zero; whatever a request leads to, its client has counted it.
pub proof fn law_requests_are_counted(c: ClientConnection)
    ensures
        counting(c).request_sequence() == c.sequence_number,
        c.sequence_number < u16::MAX ==> counting(c).sequence_number == c.sequence_number + 1,
        c.sequence_number == u16::MAX ==> counting(c).sequence_number == 0,
        counting(c).id == c.id,
        counting(c).resource_id_base == c.resource_id_base,
        counting(c).byte_order == c.byte_order,
{
}

/// A request that the server does not know is answered with an error that names
/// it, and changes nothing else but the count.
pub proof fn law_unknown_requests_are_answered(
    s: ServerModel,
    id: u32,
    data: Seq<u8>,
    after: ServerModel,
    r: Option<Pending>,
)
    requires
        s.connections.dom().contains(id),
        data.len() >= 4,
        kind_of(data[0]) == Kind::Unknown,
        processing_may_lead_to(s, id, data, after, r),
    ensures
        r == Some(Pending::Nothing),
        after == counted(s, id).replying(
            counting(s.connections[id]),
            replies::error_bytes(17, s.connections[id].sequence_number, data[0]),
        ),
{
}

} // verus!
