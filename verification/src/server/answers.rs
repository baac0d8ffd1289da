//! Every request that asks for an answer gets exactly one.

use vstd::prelude::*;

use super::colors::{
    alloc_color, alloc_named_color, channel_entries, lookup_color, query_colors,
};
use super::connection::{empty_reply, reply_head, ClientConnection};
use super::extensions::announced;
use super::extensions::render::{formats_reply, pict_formats, pict_screen, render_request, version_reply};
use super::extensions::shape::shape_request;
use super::extensions::xinput2::{
    asks_master, button_class, device_asked, device_count, device_info, device_list,
    device_list_reply, devices, devices_reply, focus_reply, key_class, keycode_words, legacy_version_reply, masters, naming_devices,
    naming_pointer, pair_reply, pointer_classes, pointer_reply, slaves, xinput2_request, MASTER_KEYBOARD, MASTER_POINTER,
    SLAVE_KEYBOARD, SLAVE_POINTER, XI_MASTER_KEYBOARD, XI_MASTER_POINTER, XI_SLAVE_KEYBOARD,
    XI_SLAVE_POINTER,
};
use super::extensions::xkb::{
    controls_reply, law_map_length, law_names_fill_words, map_body, map_reply, names_asked,
    names_body, names_reply, naming, parts_asked, xkb_request, CORE_KEYBOARD,
};
use super::fonts::{
    char_infos, counted_all, font_list_reply, list_fonts, queried_font, query_font,
};
use super::keyboard::{
    get_keyboard_control, get_keyboard_mapping, get_modifier_mapping, keysym_table, succeeded,
};
use super::pixels::{
    bad_drawable, get_image, image_from_window, image_reply, image_source, plain_pixels, read_area,
};
use super::pointer::{
    get_pointer_mapping, grab_pointer, query_pointer, translate_coordinates,
};
use super::properties::{
    bad_atom, filled, get_atom_name, get_property, intern_atom, list_properties, property_names, property_reply,
    words_for,
};
use super::replies::{
    blank_reply, enable_big_requests, error_bytes, extension_names, get_pointer_control, get_screen_saver,
    list_extensions, no_cells, BAD_ALLOC, no_entries, query_best_size, query_extension, query_text_extents,
};
use super::requests::{
    color_request, counted, counting, font_request, input_request, kind_of, processing_may_lead_to,
    property_request, reported, request_fits, request_may_lead_to, server_request, waits_for,
    window_request, Kind, Pending,
};
use super::resources::ResourceModel;
use super::selections::get_selection_owner;
use super::windows::{
    geometry_reply, get_geometry, get_input_focus, get_window_attributes, id_list, query_tree,
    tree_reply,
};
use super::wire::{bytes16, bytes32, i16_at, pad4, u16_at, u32_at, zeros, ByteOrder};
use super::{done, ActionModel, Outcome, ServerError, ServerModel};

verus! {

/// Whether bytes are a reply to the request a client is at: they start with its
/// number and are as long as they say.
pub open spec fn is_reply(conn: ClientConnection, b: Seq<u8>) -> bool {
    &&& b.len() >= 32
    &&& b.len() % 4 == 0
    &&& b.take(8) == reply_head(conn, b[1], ((b.len() - 32) / 4) as u32)
}

/// Whether bytes are an error about the request a client is at.
pub open spec fn is_error(conn: ClientConnection, b: Seq<u8>) -> bool {
    &&& b.len() == 32
    &&& b[0] == 0
    &&& u16_at(ByteOrder::LittleEndian, b, 2) == conn.request_sequence() || u16_at(
        conn.byte_order,
        b,
        2,
    ) == conn.request_sequence()
}

/// What a reply says of itself: that it is one, the number of its request, and
/// its length.
pub proof fn law_reply_fields(conn: ClientConnection, b: Seq<u8>)
    requires
        is_reply(conn, b),
        (b.len() - 32) / 4 <= u32::MAX,
    ensures
        b[0] == 1,
        u16_at(conn.byte_order, b, 2) == conn.request_sequence(),
        b.len() == 32 + 4 * u32_at(conn.byte_order, b, 4),
{
    let o = conn.byte_order;
    let head = b.take(8);
    let seq = conn.request_sequence();
    let words = ((b.len() - 32) / 4) as u32;
    assert(head[0] == b[0] && head[2] == b[2] && head[3] == b[3] && head[4] == b[4] && head[5]
        == b[5] && head[6] == b[6] && head[7] == b[7]);
    super::wire::law_u16_round_trip(o, seq![1u8, b[1]], seq, bytes32(o, words));
    super::wire::law_u32_round_trip(o, seq![1u8, b[1]] + bytes16(o, seq), words, Seq::empty());
    assert(head =~= seq![1u8, b[1]] + bytes16(o, seq) + bytes32(o, words));
    assert(head =~= seq![1u8, b[1]] + bytes16(o, seq) + bytes32(o, words) + Seq::empty());
    assert(u16_at(o, b, 2) == u16_at(o, head, 2));
    assert(u32_at(o, b, 4) == u32_at(o, head, 4));
}

/// Whether a request was answered: it was refused and changed nothing, which an
/// error answers, or its client gets one reply or error.
pub open spec fn answered(s: ServerModel, conn: ClientConnection, o: Outcome) -> bool {
    match o.1 {
        Err(_) => o.0 == s,
        Ok(_) => {
            &&& o.0.outbox.len() == s.outbox.len() + 1
            &&& o.0.outbox == s.outbox.push(o.0.outbox.last())
            &&& match o.0.outbox.last() {
                ActionModel::Reply { conn: to, data } => to == conn.id && (is_reply(conn, data)
                    || is_error(conn, data)),
                _ => false,
            }
        },
    }
}

/// A reply that follows its head with as much as it says.
proof fn lemma_reply(conn: ClientConnection, detail: u8, words: int, b: Seq<u8>)
    requires
        words >= 0,
        b.len() == 32 + 4 * words,
        b.take(8) == reply_head(conn, detail, words as u32),
    ensures
        is_reply(conn, b),
{
    assert(b[1] == b.take(8)[1]);
}

/// A state with one answer more.
proof fn lemma_answered(s: ServerModel, conn: ClientConnection, before: ServerModel, b: Seq<u8>)
    requires
        before.outbox == s.outbox,
        is_reply(conn, b) || is_error(conn, b),
    ensures
        answered(s, conn, done(before.replying(conn, b))),
{
    let after = before.replying(conn, b);
    assert(after.outbox.last() == ActionModel::Reply { conn: conn.id, data: b });
}

/// An error that carries the request's number.
proof fn lemma_error(conn: ClientConnection, b: Seq<u8>)
    requires
        b.len() == 32,
        b.take(4) == seq![0u8, b[1]] + bytes16(ByteOrder::LittleEndian, conn.request_sequence()),
    ensures
        is_error(conn, b),
{
    let o = ByteOrder::LittleEndian;
    let head = b.take(4);
    assert(head[0] == b[0] && head[2] == b[2] && head[3] == b[3]);
}

proof fn lemma_errors(conn: ClientConnection, atom: u32, code: u8, opcode: u8)
    ensures
        is_error(conn, bad_atom(conn, atom)),
        is_error(conn, bad_drawable(conn, opcode)),
        is_error(conn, error_bytes(code, conn.request_sequence(), opcode)),
{
    let seq = bytes16(ByteOrder::LittleEndian, conn.request_sequence());
    let b = bad_atom(conn, atom);
    assert(b.take(4) =~= seq![0u8, b[1]] + seq);
    lemma_error(conn, b);
    let d = bad_drawable(conn, opcode);
    assert(d.take(4) =~= seq![0u8, d[1]] + seq);
    lemma_error(conn, d);
    let e = error_bytes(code, conn.request_sequence(), opcode);
    assert(e.take(4) =~= seq![0u8, e[1]] + seq);
    lemma_error(conn, e);
}

proof fn lemma_name_reply(conn: ClientConnection, name: Seq<u8>)
    ensures
        is_reply(
            conn,
            reply_head(conn, 0, words_for(name.len() as int) as u32) + bytes16(
                conn.byte_order,
                name.len() as u16,
            ) + zeros(22) + filled(name),
        ),
{
    let words = words_for(name.len() as int);
    let b = reply_head(conn, 0, words as u32) + bytes16(conn.byte_order, name.len() as u16) + zeros(
        22,
    ) + filled(name);
    assert(b.take(8) =~= reply_head(conn, 0, words as u32));
    lemma_reply(conn, 0, words, b);
}

proof fn lemma_image_reply(conn: ClientConnection, depth: u8, visual: u32, image: Seq<u8>)
    ensures
        is_reply(conn, image_reply(conn, depth, visual, image)),
{
    let b = image_reply(conn, depth, visual, image);
    let words = (image.len() + pad4(image.len() as int)) / 4;
    assert(b.take(8) =~= reply_head(conn, depth, words as u32));
    lemma_reply(conn, depth, words, b);
}

proof fn lemma_id_list_length(o: ByteOrder, ids: Seq<u32>)
    ensures
        id_list(o, ids).len() == 4 * ids.len(),
    decreases ids.len(),
{
    if ids.len() > 0 {
        lemma_id_list_length(o, ids.drop_last());
    }
}

proof fn lemma_channel_entries_length(o: ByteOrder, data: Seq<u8>, n: nat)
    ensures
        channel_entries(o, data, n).len() == 8 * n,
    decreases n,
{
    if n > 0 {
        lemma_channel_entries_length(o, data, (n - 1) as nat);
    }
}

proof fn lemma_keysym_table_length(s: ServerModel, o: ByteOrder, first: u32, n: nat)
    ensures
        keysym_table(s, o, first, n).len() == 16 * n,
    decreases n,
{
    if n > 0 {
        lemma_keysym_table_length(s, o, first, (n - 1) as nat);
    }
}

proof fn lemma_char_infos_length(o: ByteOrder, width: i16, ascent: i16, descent: i16, n: nat)
    ensures
        char_infos(o, width, ascent, descent, n).len() == 12 * n,
    decreases n,
{
    if n > 0 {
        lemma_char_infos_length(o, width, ascent, descent, (n - 1) as nat);
    }
}

/// GetGeometry is answered.
pub proof fn law_get_geometry_answered(s: ServerModel, conn: ClientConnection, data: Seq<u8>)
    ensures
        answered(s, conn, get_geometry(s, conn, data)),
{
    assert forall|d: u8, x: i16, y: i16, w: u16, h: u16, bw: u16| is_reply(
        conn,
        #[trigger] geometry_reply(s, conn, d, x, y, w, h, bw),
    ) by {
        let b = geometry_reply(s, conn, d, x, y, w, h, bw);
        assert(b.take(8) =~= reply_head(conn, d, 0int as u32));
        lemma_reply(conn, d, 0int, b);
    }
    let after = get_geometry(s, conn, data).0;
    if get_geometry(s, conn, data).1 is Ok {
        lemma_answered(s, conn, s, after.outbox.last()->Reply_data);
    }
}

/// GetWindowAttributes is answered.
pub proof fn law_get_window_attributes_answered(s: ServerModel, conn: ClientConnection, data: Seq<u8>)
    ensures
        answered(s, conn, get_window_attributes(s, conn, data)),
{
    let out = get_window_attributes(s, conn, data);
    if out.1 is Ok {
        let b = out.0.outbox.last()->Reply_data;
        assert(b.take(8) =~= reply_head(conn, b[1], 3int as u32));
        lemma_reply(conn, b[1], 3int, b);
        assert(out.0.outbox =~= s.outbox.push(out.0.outbox.last()));
    }
}

/// GetInputFocus is answered.
pub proof fn law_get_input_focus_answered(s: ServerModel, conn: ClientConnection)
    ensures
        answered(s, conn, get_input_focus(s, conn)),
{
    let out = get_input_focus(s, conn);
    if out.1 is Ok {
        let b = out.0.outbox.last()->Reply_data;
        assert(b.take(8) =~= reply_head(conn, b[1], 0int as u32));
        lemma_reply(conn, b[1], 0int, b);
        assert(out.0.outbox =~= s.outbox.push(out.0.outbox.last()));
    }
}

/// InternAtom is answered.
pub proof fn law_intern_atom_answered(s: ServerModel, conn: ClientConnection, data: Seq<u8>)
    ensures
        answered(s, conn, intern_atom(s, conn, data)),
{
    let out = intern_atom(s, conn, data);
    if out.1 is Ok {
        let b = out.0.outbox.last()->Reply_data;
        assert(b.take(8) =~= reply_head(conn, 0, 0int as u32));
        lemma_reply(conn, 0, 0int, b);
        assert(out.0.outbox =~= s.outbox.push(out.0.outbox.last()));
    }
}

/// GetSelectionOwner is answered.
pub proof fn law_get_selection_owner_answered(s: ServerModel, conn: ClientConnection, data: Seq<u8>)
    ensures
        answered(s, conn, get_selection_owner(s, conn, data)),
{
    let out = get_selection_owner(s, conn, data);
    if out.1 is Ok {
        let b = out.0.outbox.last()->Reply_data;
        assert(b.take(8) =~= reply_head(conn, 0, 0int as u32));
        lemma_reply(conn, 0, 0int, b);
        assert(out.0.outbox =~= s.outbox.push(out.0.outbox.last()));
    }
}

/// GetKeyboardControl is answered.
pub proof fn law_get_keyboard_control_answered(s: ServerModel, conn: ClientConnection)
    ensures
        answered(s, conn, get_keyboard_control(s, conn)),
{
    let out = get_keyboard_control(s, conn);
    if out.1 is Ok {
        let b = out.0.outbox.last()->Reply_data;
        assert(b.take(8) =~= reply_head(conn, 1, 5int as u32));
        lemma_reply(conn, 1, 5int, b);
        assert(out.0.outbox =~= s.outbox.push(out.0.outbox.last()));
    }
}

/// GetModifierMapping is answered.
pub proof fn law_get_modifier_mapping_answered(s: ServerModel, conn: ClientConnection)
    ensures
        answered(s, conn, get_modifier_mapping(s, conn)),
{
    let out = get_modifier_mapping(s, conn);
    if out.1 is Ok {
        let b = out.0.outbox.last()->Reply_data;
        assert(b.take(8) =~= reply_head(conn, 2, 4int as u32));
        lemma_reply(conn, 2, 4int, b);
        assert(out.0.outbox =~= s.outbox.push(out.0.outbox.last()));
    }
}

/// GrabPointer is answered.
pub proof fn law_grab_pointer_answered(s: ServerModel, conn: ClientConnection, data: Seq<u8>)
    ensures
        answered(s, conn, grab_pointer(s, conn, data)),
{
    let out = grab_pointer(s, conn, data);
    let b = out.0.outbox.last()->Reply_data;
    assert(b.take(8) =~= reply_head(conn, 0, 0int as u32));
    lemma_reply(conn, 0, 0, b);
    assert(out.0.outbox =~= s.outbox.push(out.0.outbox.last()));
}

/// GrabKeyboard, or a change of a mapping, is answered.
pub proof fn law_grab_answered(s: ServerModel, conn: ClientConnection)
    ensures
        answered(s, conn, succeeded(s, conn)),
{
    let out = succeeded(s, conn);
    if out.1 is Ok {
        let b = out.0.outbox.last()->Reply_data;
        assert(b.take(8) =~= reply_head(conn, 0, 0int as u32));
        lemma_reply(conn, 0, 0int, b);
        assert(out.0.outbox =~= s.outbox.push(out.0.outbox.last()));
    }
}

/// QueryPointer is answered.
pub proof fn law_query_pointer_answered(s: ServerModel, conn: ClientConnection, data: Seq<u8>)
    ensures
        answered(s, conn, query_pointer(s, conn, data)),
{
    let out = query_pointer(s, conn, data);
    if out.1 is Ok {
        let b = out.0.outbox.last()->Reply_data;
        assert(b.take(8) =~= reply_head(conn, 1, 0int as u32));
        lemma_reply(conn, 1, 0int, b);
        assert(out.0.outbox =~= s.outbox.push(out.0.outbox.last()));
    }
}

/// TranslateCoordinates is answered.
pub proof fn law_translate_coordinates_answered(s: ServerModel, conn: ClientConnection, data: Seq<u8>)
    ensures
        answered(s, conn, translate_coordinates(s, conn, data)),
{
    let out = translate_coordinates(s, conn, data);
    if out.1 is Ok {
        let b = out.0.outbox.last()->Reply_data;
        assert(b.take(8) =~= reply_head(conn, 1, 0int as u32));
        lemma_reply(conn, 1, 0int, b);
        assert(out.0.outbox =~= s.outbox.push(out.0.outbox.last()));
    }
}

/// GetPointerMapping is answered.
pub proof fn law_get_pointer_mapping_answered(s: ServerModel, conn: ClientConnection)
    ensures
        answered(s, conn, get_pointer_mapping(s, conn)),
{
    let out = get_pointer_mapping(s, conn);
    if out.1 is Ok {
        let b = out.0.outbox.last()->Reply_data;
        assert(b.take(8) =~= reply_head(conn, 3, 1int as u32));
        lemma_reply(conn, 3, 1int, b);
        assert(out.0.outbox =~= s.outbox.push(out.0.outbox.last()));
    }
}

/// AllocColor is answered.
pub proof fn law_alloc_color_answered(s: ServerModel, conn: ClientConnection, data: Seq<u8>)
    ensures
        answered(s, conn, alloc_color(s, conn, data)),
{
    let out = alloc_color(s, conn, data);
    if out.1 is Ok {
        let b = out.0.outbox.last()->Reply_data;
        assert(b.take(8) =~= reply_head(conn, 0, 0int as u32));
        lemma_reply(conn, 0, 0int, b);
        assert(out.0.outbox =~= s.outbox.push(out.0.outbox.last()));
    }
}

/// AllocNamedColor is answered.
pub proof fn law_alloc_named_color_answered(s: ServerModel, conn: ClientConnection, data: Seq<u8>)
    ensures
        answered(s, conn, alloc_named_color(s, conn, data)),
{
    let out = alloc_named_color(s, conn, data);
    if out.1 is Ok {
        let b = out.0.outbox.last()->Reply_data;
        assert(b.take(8) =~= reply_head(conn, 0, 0int as u32));
        lemma_reply(conn, 0, 0int, b);
        assert(out.0.outbox =~= s.outbox.push(out.0.outbox.last()));
    }
}

/// LookupColor is answered.
pub proof fn law_lookup_color_answered(s: ServerModel, conn: ClientConnection, data: Seq<u8>)
    ensures
        answered(s, conn, lookup_color(s, conn, data)),
{
    let out = lookup_color(s, conn, data);
    if out.1 is Ok {
        let b = out.0.outbox.last()->Reply_data;
        assert(b.take(8) =~= reply_head(conn, 0, 0int as u32));
        lemma_reply(conn, 0, 0int, b);
        assert(out.0.outbox =~= s.outbox.push(out.0.outbox.last()));
    }
}

/// QueryColors is answered.
pub proof fn law_query_colors_answered(s: ServerModel, conn: ClientConnection, data: Seq<u8>)
    ensures
        answered(s, conn, query_colors(s, conn, data)),
{
    let out = query_colors(s, conn, data);
    if out.1 is Ok {
        let b = out.0.outbox.last()->Reply_data;
        lemma_channel_entries_length(conn.byte_order, data, ((data.len() - 8) / 4) as nat);
        assert(b.take(8) =~= reply_head(conn, 0, ((data.len() - 8) / 4 * 2) as u32));
        lemma_reply(conn, 0, ((data.len() - 8) / 4 * 2), b);
        assert(out.0.outbox =~= s.outbox.push(out.0.outbox.last()));
    }
}

/// QueryExtension is answered.
pub proof fn law_query_extension_answered(s: ServerModel, conn: ClientConnection, data: Seq<u8>)
    ensures
        answered(s, conn, query_extension(s, conn, data)),
{
    let out = query_extension(s, conn, data);
    if out.1 is Ok {
        let b = out.0.outbox.last()->Reply_data;
        assert(b.take(8) =~= reply_head(conn, 0, 0int as u32));
        lemma_reply(conn, 0, 0int, b);
        assert(out.0.outbox =~= s.outbox.push(out.0.outbox.last()));
    }
}

/// QueryBestSize is answered.
pub proof fn law_query_best_size_answered(s: ServerModel, conn: ClientConnection, data: Seq<u8>)
    ensures
        answered(s, conn, query_best_size(s, conn, data)),
{
    let out = query_best_size(s, conn, data);
    if out.1 is Ok {
        let b = out.0.outbox.last()->Reply_data;
        assert(b.take(8) =~= reply_head(conn, 0, 0int as u32));
        lemma_reply(conn, 0, 0int, b);
        assert(out.0.outbox =~= s.outbox.push(out.0.outbox.last()));
    }
}

/// GetScreenSaver is answered.
pub proof fn law_get_screen_saver_answered(s: ServerModel, conn: ClientConnection)
    ensures
        answered(s, conn, get_screen_saver(s, conn)),
{
    let out = get_screen_saver(s, conn);
    if out.1 is Ok {
        let b = out.0.outbox.last()->Reply_data;
        assert(b.take(8) =~= reply_head(conn, 0, 0int as u32));
        lemma_reply(conn, 0, 0int, b);
        assert(out.0.outbox =~= s.outbox.push(out.0.outbox.last()));
    }
}

/// QueryTextExtents is answered.
pub proof fn law_query_text_extents_answered(s: ServerModel, conn: ClientConnection)
    ensures
        answered(s, conn, query_text_extents(s, conn)),
{
    let out = query_text_extents(s, conn);
    if out.1 is Ok {
        let b = out.0.outbox.last()->Reply_data;
        assert(b.take(8) =~= reply_head(conn, 0, 0int as u32));
        lemma_reply(conn, 0, 0int, b);
        assert(out.0.outbox =~= s.outbox.push(out.0.outbox.last()));
    }
}

/// GetPointerControl is answered.
pub proof fn law_get_pointer_control_answered(s: ServerModel, conn: ClientConnection)
    ensures
        answered(s, conn, get_pointer_control(s, conn)),
{
    let out = get_pointer_control(s, conn);
    if out.1 is Ok {
        let b = out.0.outbox.last()->Reply_data;
        assert(b.take(8) =~= reply_head(conn, 0, 0int as u32));
        lemma_reply(conn, 0, 0int, b);
        assert(out.0.outbox =~= s.outbox.push(out.0.outbox.last()));
    }
}

/// BigReqEnable is answered.
pub proof fn law_enable_big_requests_answered(s: ServerModel, conn: ClientConnection)
    ensures
        answered(s, conn, enable_big_requests(s, conn)),
{
    let out = enable_big_requests(s, conn);
    if out.1 is Ok {
        let b = out.0.outbox.last()->Reply_data;
        assert(b.take(8) =~= reply_head(conn, 0, 0int as u32));
        lemma_reply(conn, 0, 0int, b);
        assert(out.0.outbox =~= s.outbox.push(out.0.outbox.last()));
    }
}

/// GetFontPath, or ListHosts, is answered.
pub proof fn law_no_entries_answered(s: ServerModel, conn: ClientConnection)
    ensures
        answered(s, conn, no_entries(s, conn)),
{
    let out = no_entries(s, conn);
    if out.1 is Ok {
        let b = out.0.outbox.last()->Reply_data;
        assert(b.take(8) =~= reply_head(conn, 0, 0int as u32));
        lemma_reply(conn, 0, 0int, b);
        assert(out.0.outbox =~= s.outbox.push(out.0.outbox.last()));
    }
}

/// ListExtensions is answered.
pub proof fn law_list_extensions_answered(s: ServerModel, conn: ClientConnection)
    ensures
        answered(s, conn, list_extensions(s, conn)),
{
    let out = list_extensions(s, conn);
    if out.1 is Ok {
        let b = out.0.outbox.last()->Reply_data;
        assert(b.take(8) =~= reply_head(conn, b[1], words_for(counted_all(extension_names(announced())).len() as int) as u32));
        lemma_reply(conn, b[1], words_for(counted_all(extension_names(announced())).len() as int), b);
        assert(out.0.outbox =~= s.outbox.push(out.0.outbox.last()));
    }
}

/// GetMotionEvents, QueryKeymap or ListFontsWithInfo is answered.
pub proof fn law_blank_reply_answered(s: ServerModel, conn: ClientConnection, words: u32)
    ensures
        answered(s, conn, blank_reply(s, conn, words)),
{
    let out = blank_reply(s, conn, words);
    let b = out.0.outbox.last()->Reply_data;
    assert(b.take(8) =~= reply_head(conn, 0, words));
    lemma_reply(conn, 0, words as int, b);
    assert(out.0.outbox =~= s.outbox.push(out.0.outbox.last()));
}

/// GetKeyboardMapping is answered.
pub proof fn law_get_keyboard_mapping_answered(s: ServerModel, conn: ClientConnection, data: Seq<u8>)
    ensures
        answered(s, conn, get_keyboard_mapping(s, conn, data)),
{
    let out = get_keyboard_mapping(s, conn, data);
    if out.1 is Ok {
        let b = out.0.outbox.last()->Reply_data;
        lemma_keysym_table_length(s, conn.byte_order, data[4] as u32, data[5] as nat);
        assert(b.take(8) =~= reply_head(conn, 4, (data[5] * 4) as u32));
        lemma_reply(conn, 4, (data[5] * 4), b);
        assert(out.0.outbox =~= s.outbox.push(out.0.outbox.last()));
    }
}

/// GetAtomName is answered.
pub proof fn law_get_atom_name_answered(s: ServerModel, conn: ClientConnection, data: Seq<u8>)
    ensures
        answered(s, conn, get_atom_name(s, conn, data)),
{
    let atom = u32_at(conn.byte_order, data, 4);
    match s.atoms.name_of(atom) {
        None => {
            lemma_errors(conn, atom, 0, 0);
            lemma_answered(s, conn, s, bad_atom(conn, atom));
        },
        Some(name) => {
            let b = vstd::utf8::encode_utf8(name);
            lemma_name_reply(conn, b);
            lemma_answered(
                s,
                conn,
                s,
                reply_head(conn, 0, words_for(b.len() as int) as u32) + bytes16(
                    conn.byte_order,
                    b.len() as u16,
                ) + zeros(22) + filled(b),
            );
        },
    }
}

/// GetProperty is answered.
pub proof fn law_get_property_answered(s: ServerModel, conn: ClientConnection, data: Seq<u8>)
    ensures
        answered(s, conn, get_property(s, conn, data)),
{
    assert forall|f: u8, t: u32, a: u32, e: u32, v: Seq<u8>| is_reply(
        conn,
        #[trigger] property_reply(conn, f, t, a, e, v),
    ) by {
        let b = property_reply(conn, f, t, a, e, v);
        assert(b.take(8) =~= reply_head(conn, f, words_for(v.len() as int) as u32));
        lemma_reply(conn, f, words_for(v.len() as int), b);
    }
    let out = get_property(s, conn, data);
    if out.1 is Ok {
        assert(out.0.outbox =~= s.outbox.push(out.0.outbox.last()));
    }
}

/// ListProperties is answered.
pub proof fn law_list_properties_answered(s: ServerModel, conn: ClientConnection, data: Seq<u8>)
    ensures
        answered(s, conn, list_properties(s, conn, data)),
{
    let out = list_properties(s, conn, data);
    let b = out.0.outbox.last()->Reply_data;
    let id = u32_at(conn.byte_order, data, 4);
    if s.resources.dom().contains(id) {
        let names = match s.window(id) {
            Some(w) => property_names(w.properties),
            None => Seq::empty(),
        };
        lemma_id_list_length(conn.byte_order, names);
        assert(b.take(8) =~= reply_head(conn, 0, names.len() as u32));
        lemma_reply(conn, 0, names.len() as int, b);
    }
    assert(out.0.outbox =~= s.outbox.push(out.0.outbox.last()));
}

/// QueryTree is answered.
pub proof fn law_query_tree_answered(s: ServerModel, conn: ClientConnection, data: Seq<u8>)
    ensures
        answered(s, conn, query_tree(s, conn, data)),
{
    assert forall|p: u32, c: Seq<u32>| is_reply(conn, #[trigger] tree_reply(s, conn, p, c)) by {
        let b = tree_reply(s, conn, p, c);
        lemma_id_list_length(conn.byte_order, c);
        assert(b.take(8) =~= reply_head(conn, 0, c.len() as u32));
        lemma_reply(conn, 0, c.len() as int, b);
    }
    let out = query_tree(s, conn, data);
    assert(out.0.outbox =~= s.outbox.push(out.0.outbox.last()));
}

/// QueryFont is answered.
pub proof fn law_query_font_answered(s: ServerModel, conn: ClientConnection, data: Seq<u8>)
    ensures
        answered(s, conn, query_font(s, conn, data)),
{
    let out = query_font(s, conn, data);
    let b = out.0.outbox.last()->Reply_data;
    let f = queried_font(s, u32_at(conn.byte_order, data, 4));
    let count: nat = if f.4 {
        0
    } else {
        95
    };
    lemma_char_infos_length(conn.byte_order, f.2, f.0, f.1, count);
    assert(b.take(8) =~= reply_head(conn, 0, (7 + count * 3) as u32));
    lemma_reply(conn, 0, 7 + 3 * count as int, b);
    assert(out.0.outbox =~= s.outbox.push(out.0.outbox.last()));
}

/// ListFonts is answered.
pub proof fn law_list_fonts_answered(s: ServerModel, conn: ClientConnection, data: Seq<u8>)
    ensures
        answered(s, conn, list_fonts(s, conn, data)),
{
    assert forall|found: Seq<Seq<char>>| is_reply(conn, #[trigger] font_list_reply(conn, found)) by {
        let b = font_list_reply(conn, found);
        let words = words_for(counted_all(found).len() as int);
        assert(b.take(8) =~= reply_head(conn, 0, words as u32));
        lemma_reply(conn, 0, words, b);
    }
    let out = list_fonts(s, conn, data);
    if out.1 is Ok {
        assert(out.0.outbox =~= s.outbox.push(out.0.outbox.last()));
    }
}

/// AllocColorCells, or AllocColorPlanes, is answered: with an error.
pub proof fn law_no_cells_answered(s: ServerModel, conn: ClientConnection, opcode: u8)
    ensures
        answered(s, conn, no_cells(s, conn, opcode)),
{
    lemma_errors(conn, 0, BAD_ALLOC, opcode);
    lemma_answered(s, conn, s, error_bytes(BAD_ALLOC, conn.request_sequence(), opcode));
}

/// GetImage is answered, at once or when the pixels of a native window are there.
pub proof fn law_get_image_answered(
    s: ServerModel,
    conn: ClientConnection,
    data: Seq<u8>,
    later: ServerModel,
    pixels: Option<Seq<u8>>,
)
    ensures
        match get_image(s, conn, data).1 {
            None => answered(s, conn, done(get_image(s, conn, data).0)),
            Some(source) => answered(
                later,
                conn,
                done(
                    image_from_window(
                        later,
                        conn,
                        source,
                        u16_at(conn.byte_order, data, 12),
                        u16_at(conn.byte_order, data, 14),
                        pixels,
                    ),
                ),
            ),
        },
{
    let o = conn.byte_order;
    let (after, waiting) = get_image(s, conn, data);
    match waiting {
        None => {
            lemma_errors(conn, 0, 0, data[0]);
            let b = after.outbox.last()->Reply_data;
            let drawable = u32_at(o, data, 4);
            if s.resources.dom().contains(drawable) {
                match s.resources[drawable] {
                    ResourceModel::Window(w) => {
                        let source = image_source(w);
                        let n = (u16_at(o, data, 12) * u16_at(o, data, 14)) as nat;
                        let plain = plain_pixels(source.background, n);
                        lemma_image_reply(conn, source.depth, source.visual, plain);
                        assert(b == image_reply(conn, source.depth, source.visual, plain));
                    },
                    ResourceModel::Pixmap(p) => {
                        let area = read_area(
                            p,
                            i16_at(o, data, 8),
                            i16_at(o, data, 10),
                            u16_at(o, data, 12),
                            u16_at(o, data, 14),
                        );
                        lemma_image_reply(conn, p.depth, 0, area);
                        assert(b == image_reply(conn, p.depth, 0, area));
                    },
                    _ => {},
                }
            }
            lemma_answered(s, conn, s, b);
        },
        Some(source) => {
            let n = (u16_at(o, data, 12) * u16_at(o, data, 14)) as nat;
            let image = match pixels {
                Some(p) => p,
                None => plain_pixels(source.background, n),
            };
            lemma_image_reply(conn, source.depth, source.visual, image);
            lemma_answered(
                later,
                conn,
                later,
                image_reply(conn, source.depth, source.visual, image),
            );
        },
    }
}

/// A request of the XKEYBOARD extension that asks for an answer gets one.
pub proof fn law_xkb_answered(s: ServerModel, conn: ClientConnection, data: Seq<u8>)
    requires
        data[1] == 0 || data[1] == 4 || data[1] == 6 || data[1] == 8 || data[1] == 10 || data[1]
            == 12 || data[1] == 13 || data[1] == 17 || data[1] == 21,
    ensures
        answered(s, conn, xkb_request(s, conn, data)),
{
    let o = conn.byte_order;
    if data[1] == 8 {
        let full = parts_asked(conn, data);
        lemma_map_reply(s, conn, full);
        lemma_answered(s, conn, s, map_reply(s, conn, full));
    } else if data[1] == 17 {
        let which = names_asked(conn, data);
        let body = names_body(s, conn, which);
        law_names_fill_words(s, conn, which);
        lemma_names_reply(conn, which, body);
        lemma_naming_keeps_outbox(s, which);
        lemma_answered(s, conn, naming(s, which), names_reply(conn, which, body));
    } else if data[1] == 6 {
        let b = controls_reply(conn);
        assert(b.take(8) =~= reply_head(conn, CORE_KEYBOARD, 15int as u32));
        lemma_reply(conn, CORE_KEYBOARD, 15, b);
        lemma_answered(s, conn, s, b);
    } else {
        let b = xkb_request(s, conn, data).0.outbox.last()->Reply_data;
        assert(b.take(8) =~= reply_head(conn, b[1], 0int as u32));
        lemma_reply(conn, b[1], 0, b);
        lemma_answered(s, conn, s, b);
    }
}

proof fn lemma_map_reply(s: ServerModel, conn: ClientConnection, full: u16)
    ensures
        is_reply(conn, map_reply(s, conn, full)),
{
    let b = map_reply(s, conn, full);
    let words = (8 + map_body(s, conn, full).len()) as int / 4;
    law_map_length(s, conn, full);
    assert(b.take(8) =~= reply_head(conn, CORE_KEYBOARD, words as u32));
    lemma_reply(conn, CORE_KEYBOARD, words, b);
}

proof fn lemma_names_reply(conn: ClientConnection, which: u32, body: Seq<u8>)
    requires
        body.len() % 4 == 0,
    ensures
        is_reply(conn, names_reply(conn, which, body)),
{
    let b = names_reply(conn, which, body);
    let words = body.len() as int / 4;
    assert(b.take(8) =~= reply_head(conn, CORE_KEYBOARD, words as u32));
    lemma_reply(conn, CORE_KEYBOARD, words, b);
}

proof fn lemma_naming_keeps_outbox(s: ServerModel, which: u32)
    ensures
        naming(s, which).outbox == s.outbox,
{
}

/// A request of the SHAPE extension that asks for an answer gets one.
pub proof fn law_shape_answered(s: ServerModel, conn: ClientConnection, data: Seq<u8>)
    requires
        data[1] == 0 || data[1] == 5 || data[1] == 7 || data[1] == 8,
    ensures
        answered(s, conn, shape_request(s, conn, data)),
{
    let out = shape_request(s, conn, data);
    if out.1 is Ok {
        let b = out.0.outbox.last()->Reply_data;
        let words: int = if data[1] == 8 {
            2
        } else {
            0
        };
        assert(b.take(8) =~= reply_head(conn, 0, words as u32));
        lemma_reply(conn, 0, words, b);
        lemma_answered(s, conn, s, b);
    }
}

/// A request of the RENDER extension that asks for an answer gets one.
pub proof fn law_render_answered(s: ServerModel, conn: ClientConnection, data: Seq<u8>)
    requires
        data[1] == 0 || data[1] == 1 || data[1] == 2 || data[1] == 29,
    ensures
        answered(s, conn, render_request(s, conn, data)),
{
    if data.len() >= 4 {
        lemma_render_replies(conn);
        if data[1] == 0 {
            lemma_answered(s, conn, s, version_reply(conn));
        } else if data[1] == 1 {
            lemma_answered(s, conn, s, formats_reply(conn));
        } else {
            lemma_answered(s, conn, s, empty_reply(conn, 0));
        }
    }
}

proof fn lemma_render_replies(conn: ClientConnection)
    ensures
        is_reply(conn, version_reply(conn)),
        is_reply(conn, formats_reply(conn)),
        is_reply(conn, empty_reply(conn, 0)),
{
    let v = version_reply(conn);
    assert(v.take(8) =~= reply_head(conn, 0, 0int as u32));
    lemma_reply(conn, 0, 0, v);
    lemma_formats_reply(conn);
    lemma_empty_reply(conn, 0);
}

proof fn lemma_empty_reply(conn: ClientConnection, detail: u8)
    ensures
        is_reply(conn, empty_reply(conn, detail)),
{
    let e = empty_reply(conn, detail);
    assert(e.take(8) =~= reply_head(conn, detail, 0int as u32));
    lemma_reply(conn, detail, 0, e);
}

proof fn lemma_pict_lengths(o: ByteOrder)
    ensures
        pict_formats(o).len() == 84,
        pict_screen(o).len() == 36,
{
}

proof fn lemma_formats_reply(conn: ClientConnection)
    ensures
        is_reply(conn, formats_reply(conn)),
{
    let b = formats_reply(conn);
    lemma_pict_lengths(conn.byte_order);
    assert(b.take(8) =~= reply_head(conn, 0, 30int as u32));
    lemma_reply(conn, 0, 30, b);
}

proof fn lemma_keycode_words_length(o: ByteOrder, n: nat)
    ensures
        keycode_words(o, n).len() == 4 * n,
    decreases n,
{
    if n > 0 {
        lemma_keycode_words_length(o, (n - 1) as nat);
    }
}

proof fn lemma_device_info_length(
    o: ByteOrder,
    id: u16,
    kind: u16,
    attachment: u16,
    count: u16,
    name: Seq<char>,
    classes: Seq<u8>,
)
    requires
        classes.len() % 4 == 0,
    ensures
        device_info(o, id, kind, attachment, count, name, classes).len() % 4 == 0,
{
}

proof fn lemma_pointer_classes_length(s: ServerModel, o: ByteOrder)
    ensures
        pointer_classes(s, o).len() == 112,
{
    reveal(pointer_classes);
    reveal(button_class);
    assert(button_class(s, o, SLAVE_POINTER).len() == 24);
}

proof fn lemma_devices_length(s: ServerModel, t: ServerModel, o: ByteOrder, asked: u16)
    ensures
        masters(s, o, asked).len() % 4 == 0,
        slaves(t, o, asked).len() % 4 == 0,
{
    lemma_pointer_classes_length(s, o);
    lemma_pointer_classes_length(t, o);
    lemma_keycode_words_length(o, 248);
    let keys = key_class(o, SLAVE_KEYBOARD);
    assert(keys.len() == 1000);
    lemma_device_info_length(
        o,
        MASTER_POINTER,
        XI_MASTER_POINTER,
        MASTER_KEYBOARD,
        3,
        "Virtual core pointer"@,
        pointer_classes(s, o),
    );
    lemma_device_info_length(
        o,
        MASTER_KEYBOARD,
        XI_MASTER_KEYBOARD,
        MASTER_POINTER,
        1,
        "Virtual core keyboard"@,
        keys,
    );
    lemma_device_info_length(
        o,
        SLAVE_POINTER,
        XI_SLAVE_POINTER,
        MASTER_POINTER,
        3,
        "Xerver pointer"@,
        pointer_classes(t, o),
    );
    lemma_device_info_length(
        o,
        SLAVE_KEYBOARD,
        XI_SLAVE_KEYBOARD,
        MASTER_KEYBOARD,
        1,
        "Xerver keyboard"@,
        keys,
    );
}

proof fn lemma_all_devices_length(s: ServerModel, o: ByteOrder, asked: u16)
    ensures
        devices(s, o, asked).len() % 4 == 0,
{
    let s1 = if asks_master(asked, MASTER_POINTER) {
        naming_pointer(s)
    } else {
        s
    };
    lemma_devices_length(s, s1, o, asked);
    lemma_two_parts(masters(s, o, asked), slaves(s1, o, asked));
}

proof fn lemma_two_parts(a: Seq<u8>, b: Seq<u8>)
    requires
        a.len() % 4 == 0,
        b.len() % 4 == 0,
    ensures
        (a + b).len() % 4 == 0,
{
}

proof fn lemma_devices_reply(conn: ClientConnection, count: u16, body: Seq<u8>)
    requires
        body.len() % 4 == 0,
    ensures
        is_reply(conn, devices_reply(conn, count, body)),
{
    let b = devices_reply(conn, count, body);
    let words = body.len() as int / 4;
    assert(b.take(8) =~= reply_head(conn, 0, words as u32));
    lemma_reply(conn, 0, words, b);
}

proof fn lemma_device_list_reply(conn: ClientConnection, list: Seq<u8>)
    ensures
        is_reply(conn, device_list_reply(conn, list)),
{
    let b = device_list_reply(conn, list);
    let words = filled(list).len() as int / 4;
    assert(b.take(8) =~= reply_head(conn, 0, words as u32));
    lemma_reply(conn, 0, words, b);
}

proof fn lemma_naming_devices_keeps_outbox(s: ServerModel, asked: u16)
    ensures
        naming_devices(s, asked).outbox == s.outbox,
{
}

/// A request of the XInputExtension that asks for an answer gets one.
pub proof fn law_xinput2_answered(s: ServerModel, conn: ClientConnection, data: Seq<u8>)
    requires
        data[1] == 1 || data[1] == 2 || data[1] == 7 || data[1] == 40 || data[1] == 45 || data[1]
            == 47 || data[1] == 48 || data[1] == 50 || data[1] == 51 || data[1] == 54 || data[1]
            == 56 || data[1] == 59 || data[1] == 60,
    ensures
        answered(s, conn, xinput2_request(s, conn, data)),
{
    let o = conn.byte_order;
    if data[1] == 48 {
        let asked = device_asked(conn, data);
        let body = devices(s, o, asked);
        lemma_all_devices_length(s, o, asked);
        lemma_devices_reply(conn, device_count(asked) as u16, body);
        lemma_naming_devices_keeps_outbox(s, asked);
        lemma_answered(
            s,
            conn,
            naming_devices(s, asked),
            devices_reply(conn, device_count(asked) as u16, body),
        );
    } else if data[1] == 2 {
        let list = device_list(s, o);
        lemma_device_list_reply(conn, list);
        lemma_answered(
            s,
            conn,
            s.interning("MOUSE"@).interning("KEYBOARD"@),
            device_list_reply(conn, list),
        );
    } else {
        lemma_input_replies(s, conn);
        lemma_empty_reply(conn, 0);
        match data[1] {
            1 => lemma_answered(s, conn, s, legacy_version_reply(conn)),
            40 => lemma_answered(s, conn, s, pointer_reply(s, conn)),
            45 => lemma_answered(s, conn, s, pair_reply(conn, 1, MASTER_POINTER, 0)),
            47 => lemma_answered(s, conn, s, pair_reply(conn, 0, 2, 0)),
            50 => lemma_answered(s, conn, s, focus_reply(conn, s.focus_window)),
            _ => lemma_answered(s, conn, s, empty_reply(conn, 0)),
        }
    }
}

proof fn lemma_input_replies(s: ServerModel, conn: ClientConnection)
    ensures
        is_reply(conn, legacy_version_reply(conn)),
        is_reply(conn, pointer_reply(s, conn)),
        is_reply(conn, pair_reply(conn, 1, MASTER_POINTER, 0)),
        is_reply(conn, pair_reply(conn, 0, 2, 0)),
        is_reply(conn, focus_reply(conn, s.focus_window)),
{
    let v = legacy_version_reply(conn);
    assert(v.take(8) =~= reply_head(conn, 0, 0int as u32));
    lemma_reply(conn, 0, 0, v);
    let p = pointer_reply(s, conn);
    assert(p.take(8) =~= reply_head(conn, 0, 7int as u32));
    lemma_reply(conn, 0, 7, p);
    let c = pair_reply(conn, 1, MASTER_POINTER, 0);
    assert(c.take(8) =~= reply_head(conn, 1, 0int as u32));
    lemma_reply(conn, 1, 0, c);
    let d = pair_reply(conn, 0, 2, 0);
    assert(d.take(8) =~= reply_head(conn, 0, 0int as u32));
    lemma_reply(conn, 0, 0, d);
    let f = focus_reply(conn, s.focus_window);
    assert(f.take(8) =~= reply_head(conn, 0, 0int as u32));
    lemma_reply(conn, 0, 0, f);
}

/// The core requests that ask for an answer, and wait for nothing.
pub open spec fn asks(opcode: u8) -> bool {
    match opcode {
        3 | 14 | 15 | 16 | 17 | 20 | 21 | 23 | 26 | 31 | 38 | 39 | 40 | 43 | 44 | 47 | 48 | 49 | 50
        | 52 | 80 | 84 | 85 | 86 | 87 | 91 | 92 | 97 | 98 | 99 | 101 | 103 | 106 | 108 | 110 | 116
        | 117 | 118 | 119 | 133 => true,
        _ => false,
    }
}

proof fn lemma_window_and_property_answered(s: ServerModel, conn: ClientConnection, data: Seq<u8>)
    ensures
        data[0] == 3 || data[0] == 14 || data[0] == 15 ==> answered(
            s,
            conn,
            window_request(s, conn, data),
        ),
        data[0] == 16 || data[0] == 17 || data[0] == 20 || data[0] == 21 || data[0] == 23
            ==> answered(s, conn, property_request(s, conn, data)),
{
    reveal(window_request);
    reveal(property_request);
    match data[0] {
        3 => law_get_window_attributes_answered(s, conn, data),
        14 => law_get_geometry_answered(s, conn, data),
        15 => law_query_tree_answered(s, conn, data),
        16 => law_intern_atom_answered(s, conn, data),
        17 => law_get_atom_name_answered(s, conn, data),
        20 => law_get_property_answered(s, conn, data),
        21 => law_list_properties_answered(s, conn, data),
        23 => law_get_selection_owner_answered(s, conn, data),
        _ => {},
    }
}

proof fn lemma_input_answered(s: ServerModel, conn: ClientConnection, data: Seq<u8>)
    requires
        asks(data[0]),
        kind_of(data[0]) == Kind::Input,
    ensures
        answered(s, conn, input_request(s, conn, data)),
{
    reveal(input_request);
    match data[0] {
        26 => law_grab_pointer_answered(s, conn, data),
        31 | 116 | 118 => law_grab_answered(s, conn),
        38 => law_query_pointer_answered(s, conn, data),
        39 => law_blank_reply_answered(s, conn, 0),
        40 => law_translate_coordinates_answered(s, conn, data),
        43 => law_get_input_focus_answered(s, conn),
        44 => law_blank_reply_answered(s, conn, 2),
        101 => law_get_keyboard_mapping_answered(s, conn, data),
        103 => law_get_keyboard_control_answered(s, conn),
        106 => law_get_pointer_control_answered(s, conn),
        117 => law_get_pointer_mapping_answered(s, conn),
        _ => law_get_modifier_mapping_answered(s, conn),
    }
}

proof fn lemma_font_and_color_answered(s: ServerModel, conn: ClientConnection, data: Seq<u8>)
    requires
        asks(data[0]),
    ensures
        kind_of(data[0]) == Kind::Font ==> answered(s, conn, font_request(s, conn, data)),
        kind_of(data[0]) == Kind::Color ==> answered(s, conn, color_request(s, conn, data)),
{
    reveal(font_request);
    reveal(color_request);
    match data[0] {
        47 => law_query_font_answered(s, conn, data),
        48 => law_query_text_extents_answered(s, conn),
        49 => law_list_fonts_answered(s, conn, data),
        50 => law_blank_reply_answered(s, conn, 7),
        52 | 80 => law_no_entries_answered(s, conn),
        84 => law_alloc_color_answered(s, conn, data),
        85 => law_alloc_named_color_answered(s, conn, data),
        86 => law_no_cells_answered(s, conn, 86),
        87 => law_no_cells_answered(s, conn, 87),
        91 => law_query_colors_answered(s, conn, data),
        92 => law_lookup_color_answered(s, conn, data),
        _ => {},
    }
}

proof fn lemma_server_answered(s: ServerModel, conn: ClientConnection, data: Seq<u8>)
    requires
        asks(data[0]),
        kind_of(data[0]) == Kind::Server,
    ensures
        answered(s, conn, server_request(s, conn, data)),
{
    reveal(server_request);
    match data[0] {
        97 => law_query_best_size_answered(s, conn, data),
        98 => law_query_extension_answered(s, conn, data),
        99 => law_list_extensions_answered(s, conn),
        108 => law_get_screen_saver_answered(s, conn),
        110 => law_no_entries_answered(s, conn),
        _ => law_enable_big_requests_answered(s, conn),
    }
}

/// Every core request that asks for an answer and waits for nothing gets exactly
/// one: a reply that carries its number and is as long as it says, or an error.
/// It is the only thing the client is sent.
pub proof fn law_every_question_is_answered(
    s: ServerModel,
    id: u32,
    data: Seq<u8>,
    after: ServerModel,
    r: Option<Pending>,
)
    requires
        s.connections.dom().contains(id),
        s.connections[id].id == id,
        request_fits(counted(s, id), counting(s.connections[id]), data),
        asks(data[0]),
        processing_may_lead_to(s, id, data, after, r),
    ensures
        r == Some(Pending::Nothing),
        answered(counted(s, id), counting(s.connections[id]), done(after)),
{
    let conn = counting(s.connections[id]);
    let begun = counted(s, id);
    let (mid, q) = choose|mid: ServerModel, q: Result<Pending, ServerError>| #[trigger]
        request_may_lead_to(begun, conn, data, mid, q) && after == reported(mid, conn, data[0], q)
            && r == Some(waits_for(q));
    match kind_of(data[0]) {
        Kind::Window | Kind::Property => lemma_window_and_property_answered(begun, conn, data),
        Kind::Input => lemma_input_answered(begun, conn, data),
        Kind::Font | Kind::Color => lemma_font_and_color_answered(begun, conn, data),
        _ => lemma_server_answered(begun, conn, data),
    }
    match q {
        Ok(_) => {},
        Err(e) => {
            lemma_errors(conn, 0, e.code(), data[0]);
            lemma_answered(
                begun,
                conn,
                begun,
                error_bytes(e.code(), conn.request_sequence(), data[0]),
            );
        },
    }
}

} // verus!
