//! Requests on atoms and window properties.

use vstd::prelude::*;

use super::connection::{
    read_u16, read_u32, reply_head, start_reply, write_u16_to, write_u32_to, ClientConnection,
};
use super::predefined;
use super::resources::{
    property_named, with_property, without_property, Property, PropertyModel, WindowModel,
    WindowState,
};
use super::tables;
use super::text::{from_utf8, same_text, utf8_text};
use super::windows::{id_list, write_ids};
use super::wire::{
    byte, bytes16, bytes32, copy_range, pad4, padded4, put_bytes, put_u16, put_u32, put_u8,
    put_zeros, u16_at, u32_at, zeros, ByteOrder,
};
use super::{done, refused, Action, ActionModel, Outcome, ServerError, ServerModel, XServer};
use crate::display::{DisplayCommand, DisplayModel, NativeWindowHandle, Xid};

verus! {

/// The name that InternAtom carries; bytes that are not UTF-8 count as the
/// empty name.
pub open spec fn asked_name(o: ByteOrder, data: Seq<u8>) -> Seq<char> {
    match utf8_text(data.subrange(8, 8 + u16_at(o, data, 4))) {
        Some(t) => t,
        None => Seq::empty(),
    }
}

/// InternAtom.
pub open spec fn intern_atom(s: ServerModel, conn: ClientConnection, data: Seq<u8>) -> Outcome {
    let o = conn.byte_order;
    if data.len() < 8 || data.len() < 8 + u16_at(o, data, 4) {
        refused(s, ServerError::Protocol)
    } else {
        let name = asked_name(o, data);
        let reply = |atom: u32| reply_head(conn, 0, 0) + bytes32(o, atom) + zeros(20);
        if data[1] != 0 {
            done(
                s.replying(
                    conn,
                    reply(
                        match s.atoms.id_of(name) {
                            Some(id) => id,
                            None => 0,
                        },
                    ),
                ),
            )
        } else {
            done(s.interning(name).replying(conn, reply(s.atoms.interned(name))))
        }
    }
}

pub fn handle_intern_atom(server: &mut XServer, conn: &ClientConnection, data: &[u8]) -> (r: Result<
    (),
    ServerError,
>)
    ensures
        (final(server)@, r) == intern_atom(old(server)@, *conn, data@),
{
    if data.len() < 8 {
        return Err(ServerError::Protocol);
    }
    let only_if_exists: bool = data[1] != 0;
    let name_len: usize = read_u16(conn, data, 4) as usize;
    if data.len() < 8 + name_len {
        return Err(ServerError::Protocol);
    }
    let bytes = copy_range(data, 8, 8 + name_len);
    let name: String = match from_utf8(bytes.as_slice()) {
        Some(t) => t,
        None => String::new(),
    };
    assert(name@ == asked_name(conn.byte_order, data@));
    let atom: u32 = match server.atoms.intern(name.as_str(), only_if_exists) {
        Some(id) => id,
        None => 0,
    };
    let mut reply = start_reply(conn, 0, 0);
    write_u32_to(conn, &mut reply, atom);
    put_zeros(&mut reply, 20);
    server.reply(conn, reply);
    Ok(())
}

/// Bytes filled up with zeros to whole words.
pub open spec fn filled(b: Seq<u8>) -> Seq<u8> {
    b + zeros(pad4(b.len() as int) as nat)
}

/// Appends bytes, filled up to whole words.
pub fn put_filled(buf: &mut Vec<u8>, bytes: &[u8])
    ensures
        final(buf)@ == old(buf)@ + filled(bytes@),
{
    let ghost start = buf@;
    put_bytes(buf, bytes);
    let pad: usize = (4 - bytes.len() % 4) % 4;
    put_zeros(buf, pad);
    assert(buf@ =~= start + filled(bytes@));
}

/// How many words bytes fill.
pub open spec fn words_for(n: int) -> int {
    padded4(n) / 4
}

/// How many words bytes fill, as a reply's length.
pub fn count_words(n: usize) -> (r: u32)
    ensures
        r == words_for(n as int) as u32,
{
    let whole: usize = n / 4;
    if n % 4 == 0 {
        assert(words_for(n as int) == whole);
        whole as u32
    } else {
        assert(words_for(n as int) == whole + 1);
        (whole + 1) as u32
    }
}

/// The error for an atom that does not exist, always in little-endian order.
pub open spec fn bad_atom(conn: ClientConnection, atom: u32) -> Seq<u8> {
    byte(0) + byte(5) + bytes16(ByteOrder::LittleEndian, conn.request_sequence()) + bytes32(
        ByteOrder::LittleEndian,
        atom,
    ) + zeros(2) + byte(17) + zeros(21)
}

/// GetAtomName.
pub open spec fn get_atom_name(s: ServerModel, conn: ClientConnection, data: Seq<u8>) -> Outcome {
    let o = conn.byte_order;
    let atom = u32_at(o, data, 4);
    match s.atoms.name_of(atom) {
        None => done(s.replying(conn, bad_atom(conn, atom))),
        Some(name) => {
            let b = vstd::utf8::encode_utf8(name);
            let n = b.len() as int;
            done(
                s.replying(
                    conn,
                    reply_head(conn, 0, words_for(n) as u32) + bytes16(o, n as u16) + zeros(22)
                        + filled(b),
                ),
            )
        },
    }
}

pub fn handle_get_atom_name(server: &mut XServer, conn: &ClientConnection, data: &[u8]) -> (r:
    Result<(), ServerError>)
    requires
        data@.len() >= 8,
    ensures
        (final(server)@, r) == get_atom_name(old(server)@, *conn, data@),
{
    let atom: u32 = read_u32(conn, data, 4);
    match server.atoms.get_name(atom) {
        None => {
            let mut err: Vec<u8> = Vec::with_capacity(32);
            put_u8(&mut err, 0);
            assert(err@ =~= byte(0));
            put_u8(&mut err, 5);
            put_u16(ByteOrder::LittleEndian, &mut err, conn.current_request_sequence());
            put_u32(ByteOrder::LittleEndian, &mut err, atom);
            put_zeros(&mut err, 2);
            put_u8(&mut err, 17);
            put_zeros(&mut err, 21);
            server.reply(conn, err);
        },
        Some(name) => {
            let text: &str = name.as_str();
            let bytes: &[u8] = text.as_bytes();
            let n: usize = bytes.len();
            let mut reply = start_reply(conn, 0, count_words(n));
            write_u16_to(conn, &mut reply, n as u16);
            put_zeros(&mut reply, 22);
            put_filled(&mut reply, bytes);
            server.reply(conn, reply);
        },
    }
    Ok(())
}

/// How many bytes an element of a property of a format takes; 0 for formats
/// that do not exist.
pub open spec fn element_size(format: u8) -> int {
    if format == 8 {
        1
    } else if format == 16 {
        2
    } else if format == 32 {
        4
    } else {
        0
    }
}

/// The name of an atom, or the empty text.
pub open spec fn atom_name(s: ServerModel, atom: u32) -> Seq<char> {
    match s.atoms.name_of(atom) {
        Some(n) => n,
        None => Seq::empty(),
    }
}

/// The property that ChangeProperty sets.
pub open spec fn new_property(o: ByteOrder, data: Seq<u8>) -> PropertyModel {
    PropertyModel {
        name: u32_at(o, data, 8),
        type_atom: u32_at(o, data, 12),
        format: data[16],
        data: data.subrange(24, 24 + u32_at(o, data, 20) * element_size(data[16])),
    }
}

/// The state after a property arrived that may answer a request for the
/// clipboard.
pub open spec fn clipboard_answered(s: ServerModel, name: Seq<char>, data: Seq<u8>) -> ServerModel {
    if s.pending_clipboard_copy && name == "_PSLX_CLIP"@ {
        let t = ServerModel { pending_clipboard_copy: false, ..s };
        match utf8_text(data) {
            Some(text) => if text.len() > 0 {
                t.doing(ActionModel::Clipboard { text })
            } else {
                t
            },
            None => t,
        }
    } else {
        s
    }
}

fn answer_clipboard(server: &mut XServer, name: &String, data: &Vec<u8>)
    ensures
        final(server)@ == clipboard_answered(old(server)@, name@, data@),
{
    if server.pending_clipboard_copy && same_text(name, "_PSLX_CLIP") {
        server.pending_clipboard_copy = false;
        if let Some(text) = from_utf8(data.as_slice()) {
            if !text.as_str().is_empty() {
                server.act(Action::Clipboard { text });
            }
        }
    }
}

/// The state after the native window of a window took its title from a
/// property.
pub open spec fn titled(s: ServerModel, w: WindowModel, data: Seq<u8>) -> ServerModel {
    match (utf8_text(data), w.native_window) {
        (Some(title), Some(handle)) => s.showing(DisplayModel::SetWindowTitle { handle, title }),
        _ => s,
    }
}

/// The 32-bit values of a property.
pub open spec fn words_of(o: ByteOrder, data: Seq<u8>) -> Seq<u32> {
    Seq::new(data.len() / 4, |i: int| u32_at(o, data, 4 * i))
}

/// Reads the 32-bit values of a property.
fn read_words(conn: &ClientConnection, data: &Vec<u8>) -> (r: Vec<u32>)
    ensures
        r@ == words_of(conn.byte_order, data@),
{
    let len: usize = data.len();
    let n: usize = len / 4;
    let mut r: Vec<u32> = Vec::with_capacity(n);
    for i in 0..n
        invariant
            len == data@.len(),
            n == len / 4,
            r@ == words_of(conn.byte_order, data@).take(i as int),
    {
        let v: u32 = read_u32(conn, data.as_slice(), 4 * i);
        r.push(v);
        assert(r@ =~= words_of(conn.byte_order, data@).take(i + 1));
    }
    assert(r@ =~= words_of(conn.byte_order, data@));
    r
}

/// An image in an icon property: its size and where its pixels start.
#[derive(Debug, Clone, Copy)]
pub struct IconImage {
    pub width: u32,
    pub height: u32,
    pub at: usize,
}

/// Whether an image's header stands at a place and its pixels follow it.
pub open spec fn image_fits(words: Seq<u32>, at: int) -> bool {
    0 <= at && at + 2 < words.len() && at + 2 + words[at] * words[at + 1] <= words.len()
}

/// The images of an icon property, up to the first that is cut short.
pub open spec fn images_from(words: Seq<u32>, at: int) -> Seq<IconImage>
    decreases words.len() - at,
{
    if !image_fits(words, at) {
        Seq::empty()
    } else {
        let size = words[at] * words[at + 1];
        if size < 0 {
            Seq::empty()
        } else {
            seq![IconImage { width: words[at], height: words[at + 1], at: (at + 2) as usize }]
                + images_from(words, at + 2 + size)
        }
    }
}

/// How far a side is from the preferred 48 pixels, modulo 2^32.
pub open spec fn side_distance(v: u32) -> u32 {
    let d = v.wrapping_sub(48);
    if d < 0x8000_0000 {
        d
    } else {
        0u32.wrapping_sub(d)
    }
}

/// How far an image is from the preferred size.
pub open spec fn image_score(i: IconImage) -> u32 {
    side_distance(i.width).saturating_add(side_distance(i.height))
}

/// The first image among those nearest to the preferred size.
pub open spec fn nearest(images: Seq<IconImage>) -> Option<IconImage>
    decreases images.len(),
{
    if images.len() == 0 {
        None
    } else {
        let last = images.last();
        match nearest(images.drop_last()) {
            None => if image_score(last) < u32::MAX {
                Some(last)
            } else {
                None
            },
            Some(best) => if image_score(last) < image_score(best) {
                Some(last)
            } else {
                Some(best)
            },
        }
    }
}

/// The image chosen as icon is one of the images and none is nearer to the
/// preferred size.
pub proof fn law_nearest_icon(images: Seq<IconImage>)
    ensures
        match nearest(images) {
            Some(best) => images.contains(best) && forall|i: int|
                0 <= i < images.len() ==> image_score(best) <= image_score(#[trigger] images[i]),
            None => forall|i: int|
                0 <= i < images.len() ==> image_score(#[trigger] images[i]) == u32::MAX,
        },
    decreases images.len(),
{
    if images.len() > 0 {
        let rest = images.drop_last();
        law_nearest_icon(rest);
        assert(images[images.len() - 1] == images.last());
        match nearest(rest) {
            Some(best) => {
                let j = choose|j: int| 0 <= j < rest.len() && rest[j] == best;
                assert(images[j] == best);
                assert forall|i: int| 0 <= i < images.len() - 1 implies image_score(best)
                    <= image_score(#[trigger] images[i]) by {
                    assert(images[i] == rest[i]);
                }
            },
            None => {
                assert forall|i: int| 0 <= i < images.len() - 1 implies image_score(
                    #[trigger] images[i],
                ) == u32::MAX by {
                    assert(images[i] == rest[i]);
                }
            },
        }
    }
}

/// The icon an icon property stands for, with its pixels.
pub open spec fn icon_of(words: Seq<u32>) -> Option<(u32, u32, Seq<u32>)> {
    match nearest(images_from(words, 0)) {
        Some(best) => if best.width > 0 && best.height > 0 {
            Some(
                (
                    best.width,
                    best.height,
                    words.subrange(best.at as int, best.at + best.width * best.height),
                ),
            )
        } else {
            None
        },
        None => None,
    }
}

/// The state after the native window took its icon from a property.
pub open spec fn iconned(
    s: ServerModel,
    conn: ClientConnection,
    w: WindowModel,
    property: u32,
    handle: NativeWindowHandle,
) -> ServerModel {
    match property_named(w.properties, property) {
        Some(p) => match icon_of(words_of(conn.byte_order, p.data)) {
            Some((width, height, argb_data)) => s.showing(
                DisplayModel::SetWindowIcon { handle, width, height, argb_data },
            ),
            None => s,
        },
        None => s,
    }
}

/// How far a side is from the preferred 48 pixels.
fn distance_of(v: u32) -> (r: u32)
    ensures
        r == side_distance(v),
{
    let d: u32 = v.wrapping_sub(48);
    if d < 0x8000_0000 {
        d
    } else {
        0u32.wrapping_sub(d)
    }
}

proof fn lemma_nearest_push(images: Seq<IconImage>, i: IconImage)
    ensures
        nearest(images.push(i)) == (match nearest(images) {
            None => if image_score(i) < u32::MAX {
                Some(i)
            } else {
                None
            },
            Some(best) => if image_score(i) < image_score(best) {
                Some(i)
            } else {
                Some(best)
            },
        }),
{
    assert(images.push(i).drop_last() =~= images);
    assert(images.push(i).last() == i);
}

proof fn lemma_image_size(a: u32, b: u32)
    ensures
        0 <= a * b <= 0xFFFF_FFFE_0000_0001,
{
    assert(0 <= a * b <= 0xFFFF_FFFE_0000_0001) by (nonlinear_arith)
        requires
            0 <= a <= 0xFFFF_FFFF,
            0 <= b <= 0xFFFF_FFFF,
    ;
}

/// Every image of a property lies inside it.
proof fn lemma_images_inside(words: Seq<u32>, at: int)
    requires
        0 <= at,
        words.len() <= usize::MAX,
    ensures
        forall|i: int|
            0 <= i < images_from(words, at).len() ==> {
                let m = #[trigger] images_from(words, at)[i];
                m.at + m.width * m.height <= words.len()
            },
    decreases words.len() - at,
{
    if image_fits(words, at) {
        let size = words[at] * words[at + 1];
        lemma_image_size(words[at], words[at + 1]);
        let next = at + 2 + size;
        lemma_images_inside(words, next);
        assert forall|i: int| 0 <= i < images_from(words, at).len() implies {
            let m = #[trigger] images_from(words, at)[i];
            m.at + m.width * m.height <= words.len()
        } by {
            if i > 0 {
                assert(images_from(words, at)[i] == images_from(words, next)[i - 1]);
            }
        }
    }
}

/// Finds the icon in the values of an icon property.
pub fn find_icon(words: &Vec<u32>) -> (r: Option<(u32, u32, Vec<u32>)>)
    ensures
        match (icon_of(words@), r) {
            (Some((w, h, pixels)), Some((width, height, data))) => width == w && height == h
                && data@ == pixels,
            (None, None) => true,
            _ => false,
        },
{
    let len: usize = words.len();
    let mut best: Option<IconImage> = None;
    let mut best_score: u32 = u32::MAX;
    let mut offset: usize = 0;
    let ghost all = images_from(words@, 0);
    let ghost mut seen: Seq<IconImage> = Seq::empty();
    assert(seen + images_from(words@, 0) =~= all);
    let mut going: bool = true;
    while going
        invariant
            len == words@.len(),
            all == images_from(words@, 0),
            offset <= len,
            best == nearest(seen),
            best is None ==> best_score == u32::MAX,
            best is Some ==> best_score == image_score(best->0),
            going ==> seen + images_from(words@, offset as int) == all,
            !going ==> seen == all,
        decreases (len - offset) + if going {
            1int
        } else {
            0
        },
    {
        if len < 3 || offset > len - 3 {
            going = false;
            assert(seen + images_from(words@, offset as int) =~= seen);
        } else {
            let iw: u32 = words[offset];
            let ih: u32 = words[offset + 1];
            proof {
                lemma_image_size(iw, ih);
            }
            let size: u64 = iw as u64 * ih as u64;
            let left: usize = len - offset - 2;
            if size > left as u64 {
                going = false;
                assert(seen + images_from(words@, offset as int) =~= seen);
            } else {
                let image = IconImage { width: iw, height: ih, at: offset + 2 };
                let score: u32 = distance_of(iw).saturating_add(distance_of(ih));
                proof {
                    lemma_nearest_push(seen, image);
                    let next = offset + 2 + iw * ih;
                    assert(seen + images_from(words@, offset as int) =~= seen.push(image)
                        + images_from(words@, next));
                    seen = seen.push(image);
                }
                if score < best_score {
                    best_score = score;
                    best = Some(image);
                }
                offset = offset + 2 + size as usize;
            }
        }
    }
    match best {
        Some(image) => {
            if image.width > 0 && image.height > 0 {
                proof {
                    law_nearest_icon(all);
                    lemma_images_inside(words@, 0);
                    lemma_image_size(image.width, image.height);
                    let j = choose|j: int| 0 <= j < all.len() && all[j] == image;
                    assert(all[j] == image);
                }
                let size: u64 = image.width as u64 * image.height as u64;
                let end: usize = image.at + size as usize;
                let mut pixels: Vec<u32> = Vec::with_capacity(size as usize);
                for i in image.at..end
                    invariant
                        image.at <= end <= words@.len(),
                        pixels@ == words@.subrange(image.at as int, i as int),
                {
                    pixels.push(words[i]);
                    assert(pixels@ =~= words@.subrange(image.at as int, i + 1));
                }
                Some((image.width, image.height, pixels))
            } else {
                None
            }
        },
        None => None,
    }
}

/// Sets the native window's icon from an icon property.
pub fn send_icon_from_property(
    server: &mut XServer,
    conn: &ClientConnection,
    w: &WindowState,
    property: u32,
    handle: NativeWindowHandle,
)
    ensures
        final(server)@ == iconned(old(server)@, *conn, w@, property, handle),
{
    if let Some(p) = w.get_property(property) {
        let words = read_words(conn, &p.data);
        if let Some((width, height, argb_data)) = find_icon(&words) {
            server.show(DisplayCommand::SetWindowIcon { handle, width, height, argb_data });
        }
    }
}

/// The state after a window's property was set, with the native title or icon
/// that it stands for. Atom `p.name` is called `name`.
pub open spec fn property_set(
    s: ServerModel,
    conn: ClientConnection,
    id: u32,
    p: PropertyModel,
    name: Seq<char>,
) -> ServerModel {
    match s.window(id) {
        None => s,
        Some(old) => {
            let w = WindowModel { properties: with_property(old.properties, p), ..old };
            let set = s.with_window(id, w);
            let named = if p.name == predefined::WM_NAME || name == "_NET_WM_NAME"@ {
                titled(set, w, p.data)
            } else {
                set
            };
            match w.native_window {
                Some(handle) => if name == "_NET_WM_ICON"@ && p.format == 32 {
                    iconned(named, conn, w, p.name, handle)
                } else {
                    named
                },
                None => named,
            }
        },
    }
}

fn set_property(
    server: &mut XServer,
    conn: &ClientConnection,
    wid: Xid,
    prop: Property,
    name: &String,
)
    ensures
        final(server)@ == property_set(old(server)@, *conn, wid, prop@, name@),
{
    let found: Option<WindowState> = server.window(wid);
    if let Some(mut w) = found {
        let property: u32 = prop.name;
        let format: u8 = prop.format;
        let title: Option<String> = from_utf8(prop.data.as_slice());
        w.set_property(prop);
        server.set_window(wid, w.clone());
        if property == predefined::WM_NAME || same_text(name, "_NET_WM_NAME") {
            if let Some(title) = title {
                if let Some(handle) = w.native_window {
                    server.show(DisplayCommand::SetWindowTitle { handle, title });
                }
            }
        }
        if same_text(name, "_NET_WM_ICON") && format == 32 {
            if let Some(handle) = w.native_window {
                send_icon_from_property(server, conn, &w, property, handle);
            }
        }
    }
}

/// ChangeProperty. Whatever the mode, the new value replaces the old one.
pub open spec fn change_property(s: ServerModel, conn: ClientConnection, data: Seq<u8>) -> Outcome {
    let o = conn.byte_order;
    if data.len() < 24 || element_size(data[16]) == 0 || data.len() < 24 + u32_at(o, data, 20)
        * element_size(data[16]) {
        refused(s, ServerError::Protocol)
    } else {
        let p = new_property(o, data);
        let name = atom_name(s, p.name);
        done(
            property_set(
                clipboard_answered(s, name, p.data),
                conn,
                u32_at(o, data, 4),
                p,
                name,
            ),
        )
    }
}

pub fn handle_change_property(server: &mut XServer, conn: &ClientConnection, data: &[u8]) -> (r:
    Result<(), ServerError>)
    ensures
        (final(server)@, r) == change_property(old(server)@, *conn, data@),
{
    if data.len() < 24 {
        return Err(ServerError::Protocol);
    }
    let wid: u32 = read_u32(conn, data, 4);
    let property: u32 = read_u32(conn, data, 8);
    let type_atom: u32 = read_u32(conn, data, 12);
    let format: u8 = data[16];
    let num_elements: u64 = read_u32(conn, data, 20) as u64;
    let data_len: u64 = match format {
        8 => num_elements,
        16 => num_elements * 2,
        32 => num_elements * 4,
        _ => {
            return Err(ServerError::Protocol);
        },
    };
    let ghost asked = u32_at(conn.byte_order, data@, 20) * element_size(data@[16]);
    assert(data_len == asked);
    let len: usize = data.len();
    if ((len - 24) as u64) < data_len {
        return Err(ServerError::Protocol);
    }
    let prop_data = copy_range(data, 24, 24 + data_len as usize);
    let name: String = match server.atoms.get_name(property) {
        Some(n) => n,
        None => String::new(),
    };
    assert(name@ =~= atom_name(server@, property));
    answer_clipboard(server, &name, &prop_data);
    let prop = Property { name: property, type_atom, format, data: prop_data };
    assert(prop@ == new_property(conn.byte_order, data@));
    set_property(server, conn, wid, prop, &name);
    Ok(())
}

/// The part of a property that GetProperty asks for.
pub open spec fn asked_part(o: ByteOrder, data: Seq<u8>, value: Seq<u8>) -> Seq<u8> {
    let from = u32_at(o, data, 16) * 4;
    let most = u32_at(o, data, 20) * 4;
    value.subrange(
        from,
        from + if value.len() - from < most {
            value.len() - from
        } else {
            most
        },
    )
}

/// The property that GetProperty asks for.
pub open spec fn asked_property(s: ServerModel, o: ByteOrder, data: Seq<u8>) -> Option<
    PropertyModel,
> {
    match s.window(u32_at(o, data, 4)) {
        Some(w) => property_named(w.properties, u32_at(o, data, 8)),
        None => None,
    }
}

/// Whether GetProperty asks for a property by its own type, or by any.
pub open spec fn type_matches(o: ByteOrder, data: Seq<u8>, p: PropertyModel) -> bool {
    u32_at(o, data, 12) == 0 || u32_at(o, data, 12) == p.type_atom
}

/// Whether GetProperty can be answered: what it asks for starts inside the
/// value.
pub open spec fn part_starts_inside(s: ServerModel, o: ByteOrder, data: Seq<u8>) -> bool {
    match asked_property(s, o, data) {
        Some(p) => type_matches(o, data, p) ==> u32_at(o, data, 16) * 4 <= p.data.len(),
        None => true,
    }
}

/// Tests whether GetProperty can be answered.
pub fn check_part(server: &XServer, conn: &ClientConnection, data: &[u8]) -> (r: bool)
    requires
        data@.len() >= 24,
    ensures
        r == part_starts_inside(server@, conn.byte_order, data@),
{
    let type_atom: u32 = read_u32(conn, data, 12);
    let from: u64 = read_u32(conn, data, 16) as u64 * 4;
    if let Some(w) = server.window(read_u32(conn, data, 4)) {
        if let Some(p) = w.get_property(read_u32(conn, data, 8)) {
            return (type_atom != 0 && type_atom != p.type_atom) || from <= p.data.len() as u64;
        }
    }
    true
}

/// A reply to GetProperty.
pub open spec fn property_reply(
    conn: ClientConnection,
    format: u8,
    type_atom: u32,
    after: u32,
    elements: u32,
    value: Seq<u8>,
) -> Seq<u8> {
    let o = conn.byte_order;
    reply_head(conn, format, words_for(value.len() as int) as u32) + bytes32(o, type_atom)
        + bytes32(o, after) + bytes32(o, elements) + zeros(12) + filled(value)
}

/// GetProperty. A property of another type is described, but not sent.
pub open spec fn get_property(s: ServerModel, conn: ClientConnection, data: Seq<u8>) -> Outcome {
    let o = conn.byte_order;
    if data.len() < 24 {
        refused(s, ServerError::Protocol)
    } else {
        match asked_property(s, o, data) {
            None => done(s.replying(conn, property_reply(conn, 0, 0, 0, 0, Seq::empty()))),
            Some(p) => if !type_matches(o, data, p) {
                done(
                    s.replying(
                        conn,
                        property_reply(conn, p.format, p.type_atom, 0, 0, Seq::empty()),
                    ),
                )
            } else {
                let part = asked_part(o, data, p.data);
                let size = element_size(p.format);
                done(
                    s.replying(
                        conn,
                        property_reply(
                            conn,
                            p.format,
                            p.type_atom,
                            (p.data.len() - u32_at(o, data, 16) * 4 - part.len()) as u32,
                            if size == 0 {
                                0
                            } else {
                                (part.len() as int / size) as u32
                            },
                            part,
                        ),
                    ),
                )
            },
        }
    }
}

fn build_property_reply(
    conn: &ClientConnection,
    format: u8,
    type_atom: u32,
    after: u32,
    elements: u32,
    value: &[u8],
) -> (r: Vec<u8>)
    ensures
        r@ == property_reply(*conn, format, type_atom, after, elements, value@),
{
    let mut reply = start_reply(conn, format, count_words(value.len()));
    write_u32_to(conn, &mut reply, type_atom);
    write_u32_to(conn, &mut reply, after);
    write_u32_to(conn, &mut reply, elements);
    put_zeros(&mut reply, 12);
    put_filled(&mut reply, value);
    reply
}

pub fn handle_get_property(server: &mut XServer, conn: &ClientConnection, data: &[u8]) -> (r:
    Result<(), ServerError>)
    requires
        data@.len() >= 24 ==> part_starts_inside(old(server)@, conn.byte_order, data@),
    ensures
        (final(server)@, r) == get_property(old(server)@, *conn, data@),
{
    if data.len() < 24 {
        return Err(ServerError::Protocol);
    }
    let wid: u32 = read_u32(conn, data, 4);
    let property: u32 = read_u32(conn, data, 8);
    let type_atom: u32 = read_u32(conn, data, 12);
    let from: u64 = read_u32(conn, data, 16) as u64 * 4;
    let most: u64 = read_u32(conn, data, 20) as u64 * 4;
    let empty: Vec<u8> = Vec::new();
    assert(empty@ =~= Seq::empty());
    if let Some(w) = server.window(wid) {
        if let Some(p) = w.get_property(property) {
            if type_atom != 0 && type_atom != p.type_atom {
                let reply = build_property_reply(conn, p.format, p.type_atom, 0, 0, empty.as_slice());
                server.reply(conn, reply);
            } else {
                let len: usize = p.data.len();
                let start: usize = from as usize;
                let left: usize = len - start;
                let count: usize = if (left as u64) < most {
                    left
                } else {
                    most as usize
                };
                let part = copy_range(p.data.as_slice(), start, start + count);
                assert(part@ == asked_part(conn.byte_order, data@, p@.data));
                let elements: u32 = match p.format {
                    8 => count as u32,
                    16 => (count / 2) as u32,
                    32 => (count / 4) as u32,
                    _ => 0,
                };
                let reply = build_property_reply(
                    conn,
                    p.format,
                    p.type_atom,
                    (left - count) as u32,
                    elements,
                    part.as_slice(),
                );
                server.reply(conn, reply);
            }
            return Ok(());
        }
    }
    let reply = build_property_reply(conn, 0, 0, 0, 0, empty.as_slice());
    server.reply(conn, reply);
    Ok(())
}

/// DeleteProperty.
pub open spec fn delete_property(s: ServerModel, conn: ClientConnection, data: Seq<u8>) -> Outcome {
    let o = conn.byte_order;
    let id = u32_at(o, data, 4);
    match s.window(id) {
        Some(w) => done(
            s.with_window(
                id,
                WindowModel {
                    properties: without_property(w.properties, u32_at(o, data, 8)),
                    ..w
                },
            ),
        ),
        None => done(s),
    }
}

pub fn handle_delete_property(server: &mut XServer, conn: &ClientConnection, data: &[u8]) -> (r:
    Result<(), ServerError>)
    requires
        data@.len() >= 12,
    ensures
        (final(server)@, r) == delete_property(old(server)@, *conn, data@),
{
    let wid: u32 = read_u32(conn, data, 4);
    let property: u32 = read_u32(conn, data, 8);
    let found: Option<WindowState> = server.window(wid);
    if let Some(mut w) = found {
        w.delete_property(property);
        server.set_window(wid, w);
    }
    Ok(())
}

/// The names of a list of properties.
pub open spec fn property_names(props: Seq<PropertyModel>) -> Seq<u32> {
    Seq::new(props.len(), |i: int| props[i].name)
}

/// The error for a window that does not exist.
pub open spec fn bad_window(conn: ClientConnection, id: u32) -> Seq<u8> {
    let o = conn.byte_order;
    byte(0) + byte(3) + bytes16(o, conn.request_sequence()) + bytes32(o, id) + bytes16(o, 0)
        + byte(21) + zeros(21)
}

/// ListProperties.
pub open spec fn list_properties(s: ServerModel, conn: ClientConnection, data: Seq<u8>) -> Outcome {
    let o = conn.byte_order;
    let id = u32_at(o, data, 4);
    if !s.resources.dom().contains(id) {
        done(s.replying(conn, bad_window(conn, id)))
    } else {
        let names = match s.window(id) {
            Some(w) => property_names(w.properties),
            None => Seq::empty(),
        };
        done(
            s.replying(
                conn,
                reply_head(conn, 0, names.len() as u32) + bytes16(o, names.len() as u16) + zeros(22)
                    + id_list(o, names),
            ),
        )
    }
}

pub fn handle_list_properties(server: &mut XServer, conn: &ClientConnection, data: &[u8]) -> (r:
    Result<(), ServerError>)
    requires
        data@.len() >= 8,
    ensures
        (final(server)@, r) == list_properties(old(server)@, *conn, data@),
{
    let wid: u32 = read_u32(conn, data, 4);
    if tables::get_resource(&server.resources, wid).is_none() {
        let mut err: Vec<u8> = Vec::with_capacity(32);
        put_u8(&mut err, 0);
        assert(err@ =~= byte(0));
        put_u8(&mut err, 3);
        write_u16_to(conn, &mut err, conn.current_request_sequence());
        write_u32_to(conn, &mut err, wid);
        write_u16_to(conn, &mut err, 0);
        put_u8(&mut err, 21);
        put_zeros(&mut err, 21);
        server.reply(conn, err);
        return Ok(());
    }
    let mut names: Vec<Xid> = Vec::new();
    assert(names@ =~= Seq::empty());
    if let Some(w) = server.window(wid) {
        for i in 0..w.properties.len()
            invariant
                names@ == property_names(w@.properties).take(i as int),
        {
            names.push(w.properties[i].name);
            assert(names@ =~= property_names(w@.properties).take(i + 1));
        }
        assert(names@ =~= property_names(w@.properties));
    }
    let mut reply = start_reply(conn, 0, names.len() as u32);
    write_u16_to(conn, &mut reply, names.len() as u16);
    put_zeros(&mut reply, 22);
    write_ids(conn, &mut reply, &names);
    server.reply(conn, reply);
    Ok(())
}

} // verus!
