//! Colors. The one visual is TrueColor: a pixel holds eight bits each of red,
//! green and blue, and colors are named by a database in the format of
//! `rgb.txt`.

use vstd::prelude::*;

use super::connection::{
    read_u16, read_u32, reply_head, start_reply, write_u16_to, write_u32_to, ClientConnection,
};
use super::parse::{
    find_words, is_space, number_in, parse_number, split, split_chars, texts, until_space, words,
};
use super::text::{chars_of, from_utf8, lowercase, string_of, to_lowercase, utf8_text};
use super::wire::{bytes16, bytes32, copy_range, put_zeros, u16_at, u32_at, zeros, ByteOrder};
use super::{done, refused, Outcome, ServerError, ServerModel, XServer};

verus! {

/// A color with a name.
#[derive(Debug)]
pub struct NamedColor {
    pub name: String,
    pub red: u16,
    pub green: u16,
    pub blue: u16,
}

/// What a named color holds.
pub struct NamedColorModel {
    pub name: Seq<char>,
    pub red: u16,
    pub green: u16,
    pub blue: u16,
}

impl View for NamedColor {
    type V = NamedColorModel;

    open spec fn view(&self) -> NamedColorModel {
        NamedColorModel {
            name: self.name@,
            red: self.red,
            green: self.green,
            blue: self.blue,
        }
    }
}

/// The models of a list of named colors.
pub open spec fn color_models(s: Seq<NamedColor>) -> Seq<NamedColorModel> {
    Seq::new(s.len(), |i: int| s[i]@)
}

/// Eight bits of intensity spread over sixteen.
pub open spec fn spread(v: int) -> u16 {
    (v * 257) as u16
}

/// The pixel of a color: the high bytes of its channels.
pub open spec fn pixel_of(red: u16, green: u16, blue: u16) -> u32 {
    ((red / 256) * 65536 + (green / 256) * 256 + blue / 256) as u32
}

/// The channels of a pixel.
pub open spec fn channels_of(pixel: u32) -> (u16, u16, u16) {
    (
        spread(((pixel / 65536) % 256) as int),
        spread(((pixel / 256) % 256) as int),
        spread((pixel % 256) as int),
    )
}

fn spread_byte(v: u32) -> (r: u16)
    requires
        v < 256,
    ensures
        r == spread(v as int),
{
    (v * 257) as u16
}

fn make_pixel(red: u16, green: u16, blue: u16) -> (r: u32)
    ensures
        r == pixel_of(red, green, blue),
{
    (red / 256) as u32 * 65536 + (green / 256) as u32 * 256 + (blue / 256) as u32
}

fn take_channels(pixel: u32) -> (r: (u16, u16, u16))
    ensures
        r == channels_of(pixel),
{
    (
        spread_byte((pixel / 65536) % 256),
        spread_byte((pixel / 256) % 256),
        spread_byte(pixel % 256),
    )
}

/// What is read back of a pixel is what allocating it reported: the high byte of
/// each channel, spread again.
pub proof fn law_color_round_trip(red: u16, green: u16, blue: u16)
    ensures
        channels_of(pixel_of(red, green, blue)) == (
            spread((red / 256) as int),
            spread((green / 256) as int),
            spread((blue / 256) as int),
        ),
        pixel_of(red, green, blue) < 0x1000000,
{
}

/// Allocating the color of a pixel gives the pixel back.
pub proof fn law_pixel_round_trip(pixel: u32)
    requires
        pixel < 0x1000000,
    ensures
        pixel_of(channels_of(pixel).0, channels_of(pixel).1, channels_of(pixel).2) == pixel,
{
}

/// CreateColormap. All colormaps are alike, so nothing is kept.
pub open spec fn create_colormap(s: ServerModel, data: Seq<u8>) -> Outcome {
    if data.len() < 16 {
        refused(s, ServerError::Protocol)
    } else {
        done(s)
    }
}

pub fn handle_create_colormap(server: &mut XServer, data: &[u8]) -> (r: Result<(), ServerError>)
    ensures
        (final(server)@, r) == create_colormap(old(server)@, data@),
{
    if data.len() < 16 {
        return Err(ServerError::Protocol);
    }
    Ok(())
}

/// FreeColormap.
pub open spec fn free_colormap(s: ServerModel, data: Seq<u8>) -> Outcome {
    if data.len() < 8 {
        refused(s, ServerError::Protocol)
    } else {
        done(s)
    }
}

pub fn handle_free_colormap(server: &mut XServer, data: &[u8]) -> (r: Result<(), ServerError>)
    ensures
        (final(server)@, r) == free_colormap(old(server)@, data@),
{
    if data.len() < 8 {
        return Err(ServerError::Protocol);
    }
    Ok(())
}

/// AllocColor.
pub open spec fn alloc_color(s: ServerModel, conn: ClientConnection, data: Seq<u8>) -> Outcome {
    let o = conn.byte_order;
    if data.len() < 14 {
        refused(s, ServerError::Protocol)
    } else {
        let (r, g, b) = (u16_at(o, data, 8), u16_at(o, data, 10), u16_at(o, data, 12));
        let pixel = pixel_of(r, g, b);
        let (er, eg, eb) = channels_of(pixel);
        done(
            s.replying(
                conn,
                reply_head(conn, 0, 0) + bytes16(o, er) + bytes16(o, eg) + bytes16(o, eb) + zeros(2)
                    + bytes32(o, pixel) + zeros(12),
            ),
        )
    }
}

pub fn handle_alloc_color(server: &mut XServer, conn: &ClientConnection, data: &[u8]) -> (r: Result<
    (),
    ServerError,
>)
    ensures
        (final(server)@, r) == alloc_color(old(server)@, *conn, data@),
{
    if data.len() < 14 {
        return Err(ServerError::Protocol);
    }
    let pixel: u32 = make_pixel(
        read_u16(conn, data, 8),
        read_u16(conn, data, 10),
        read_u16(conn, data, 12),
    );
    let (red, green, blue) = take_channels(pixel);
    let mut reply = start_reply(conn, 0, 0);
    write_u16_to(conn, &mut reply, red);
    write_u16_to(conn, &mut reply, green);
    write_u16_to(conn, &mut reply, blue);
    put_zeros(&mut reply, 2);
    write_u32_to(conn, &mut reply, pixel);
    put_zeros(&mut reply, 12);
    server.reply(conn, reply);
    Ok(())
}

/// The color of a name, the last one to have it; black where none has.
pub open spec fn color_named(colors: Seq<NamedColorModel>, name: Seq<char>) -> (u16, u16, u16)
    decreases colors.len(),
{
    if colors.len() == 0 {
        (0, 0, 0)
    } else if colors.last().name == name {
        (colors.last().red, colors.last().green, colors.last().blue)
    } else {
        color_named(colors.drop_last(), name)
    }
}

/// Looks a color up by its name, in lower case.
pub fn lookup_x11_color(server: &XServer, name: &String) -> (r: (u16, u16, u16))
    ensures
        r == color_named(server@.colors, name@),
{
    let mut i: usize = server.colors.len();
    let ghost all = server@.colors;
    assert(all.take(i as int) =~= all);
    while i > 0
        invariant
            all == server@.colors,
            i <= all.len(),
            color_named(all, name@) == color_named(all.take(i as int), name@),
        decreases i,
    {
        i = i - 1;
        let c: &NamedColor = &server.colors[i];
        assert(all[i as int] == c@);
        assert(all.take(i + 1).drop_last() =~= all.take(i as int));
        if c.name == *name {
            return (c.red, c.green, c.blue);
        }
    }
    (0, 0, 0)
}

/// The color name that a request carries, in lower case; bytes that are not
/// UTF-8 count as the empty name.
pub open spec fn asked_color(o: ByteOrder, data: Seq<u8>) -> Seq<char> {
    lowercase(
        match utf8_text(data.subrange(12, 12 + u16_at(o, data, 8))) {
            Some(t) => t,
            None => Seq::empty(),
        },
    )
}

/// Whether a request is long enough for the color name it says it carries.
pub open spec fn name_fits(o: ByteOrder, data: Seq<u8>) -> bool {
    data.len() >= 12 && data.len() >= 12 + u16_at(o, data, 8)
}

fn read_color_name(conn: &ClientConnection, data: &[u8]) -> (r: Option<String>)
    ensures
        match r {
            Some(t) => name_fits(conn.byte_order, data@) && t@ == asked_color(
                conn.byte_order,
                data@,
            ),
            None => !name_fits(conn.byte_order, data@),
        },
{
    if data.len() < 12 {
        return None;
    }
    let name_len: usize = read_u16(conn, data, 8) as usize;
    if data.len() < 12 + name_len {
        return None;
    }
    let given: Option<String> = from_utf8(copy_range(data, 12, 12 + name_len).as_slice());
    let name: String = match given {
        Some(t) => t,
        None => String::new(),
    };
    Some(to_lowercase(name.as_str()))
}

/// AllocNamedColor.
pub open spec fn alloc_named_color(s: ServerModel, conn: ClientConnection, data: Seq<u8>) -> Outcome {
    let o = conn.byte_order;
    if !name_fits(o, data) {
        refused(s, ServerError::Protocol)
    } else {
        let (r, g, b) = color_named(s.colors, asked_color(o, data));
        done(
            s.replying(
                conn,
                reply_head(conn, 0, 0) + bytes32(o, pixel_of(r, g, b)) + bytes16(o, r) + bytes16(
                    o,
                    g,
                ) + bytes16(o, b) + bytes16(o, r) + bytes16(o, g) + bytes16(o, b) + zeros(8),
            ),
        )
    }
}

pub fn handle_alloc_named_color(server: &mut XServer, conn: &ClientConnection, data: &[u8]) -> (r:
    Result<(), ServerError>)
    ensures
        (final(server)@, r) == alloc_named_color(old(server)@, *conn, data@),
{
    match read_color_name(conn, data) {
        None => Err(ServerError::Protocol),
        Some(name) => {
            let (red, green, blue) = lookup_x11_color(server, &name);
            let mut reply = start_reply(conn, 0, 0);
            write_u32_to(conn, &mut reply, make_pixel(red, green, blue));
            write_u16_to(conn, &mut reply, red);
            write_u16_to(conn, &mut reply, green);
            write_u16_to(conn, &mut reply, blue);
            write_u16_to(conn, &mut reply, red);
            write_u16_to(conn, &mut reply, green);
            write_u16_to(conn, &mut reply, blue);
            put_zeros(&mut reply, 8);
            server.reply(conn, reply);
            Ok(())
        },
    }
}

/// LookupColor.
pub open spec fn lookup_color(s: ServerModel, conn: ClientConnection, data: Seq<u8>) -> Outcome {
    let o = conn.byte_order;
    if !name_fits(o, data) {
        refused(s, ServerError::Protocol)
    } else {
        let (r, g, b) = color_named(s.colors, asked_color(o, data));
        done(
            s.replying(
                conn,
                reply_head(conn, 0, 0) + bytes16(o, r) + bytes16(o, g) + bytes16(o, b) + bytes16(
                    o,
                    r,
                ) + bytes16(o, g) + bytes16(o, b) + zeros(12),
            ),
        )
    }
}

pub fn handle_lookup_color(server: &mut XServer, conn: &ClientConnection, data: &[u8]) -> (r:
    Result<(), ServerError>)
    ensures
        (final(server)@, r) == lookup_color(old(server)@, *conn, data@),
{
    match read_color_name(conn, data) {
        None => Err(ServerError::Protocol),
        Some(name) => {
            let (red, green, blue) = lookup_x11_color(server, &name);
            let mut reply = start_reply(conn, 0, 0);
            write_u16_to(conn, &mut reply, red);
            write_u16_to(conn, &mut reply, green);
            write_u16_to(conn, &mut reply, blue);
            write_u16_to(conn, &mut reply, red);
            write_u16_to(conn, &mut reply, green);
            write_u16_to(conn, &mut reply, blue);
            put_zeros(&mut reply, 12);
            server.reply(conn, reply);
            Ok(())
        },
    }
}

/// A pixel's channels on the wire.
pub open spec fn channel_entry(o: ByteOrder, pixel: u32) -> Seq<u8> {
    let (r, g, b) = channels_of(pixel);
    bytes16(o, r) + bytes16(o, g) + bytes16(o, b) + bytes16(o, 0)
}

/// The channels of the first `n` pixels of a request, on the wire.
pub open spec fn channel_entries(o: ByteOrder, data: Seq<u8>, n: nat) -> Seq<u8>
    decreases n,
{
    if n == 0 {
        Seq::empty()
    } else {
        channel_entries(o, data, (n - 1) as nat) + channel_entry(
            o,
            u32_at(o, data, 8 + (n - 1) * 4),
        )
    }
}

/// QueryColors.
pub open spec fn query_colors(s: ServerModel, conn: ClientConnection, data: Seq<u8>) -> Outcome {
    let o = conn.byte_order;
    if data.len() < 8 {
        refused(s, ServerError::Protocol)
    } else {
        let n = (data.len() - 8) / 4;
        done(
            s.replying(
                conn,
                reply_head(conn, 0, (n * 2) as u32) + bytes16(o, n as u16) + zeros(22)
                    + channel_entries(o, data, n as nat),
            ),
        )
    }
}

pub fn handle_query_colors(server: &mut XServer, conn: &ClientConnection, data: &[u8]) -> (r:
    Result<(), ServerError>)
    ensures
        (final(server)@, r) == query_colors(old(server)@, *conn, data@),
{
    if data.len() < 8 {
        return Err(ServerError::Protocol);
    }
    let len: usize = data.len();
    let n: usize = (len - 8) / 4;
    let mut reply = start_reply(conn, 0, (n * 2) as u32);
    write_u16_to(conn, &mut reply, n as u16);
    put_zeros(&mut reply, 22);
    let ghost head = reply@;
    assert(reply@ =~= head + channel_entries(conn.byte_order, data@, 0));
    for i in 0..n
        invariant
            len == data@.len(),
            len >= 8,
            n == (len - 8) / 4,
            reply@ == head + channel_entries(conn.byte_order, data@, i as nat),
    {
        let pixel: u32 = read_u32(conn, data, 8 + i * 4);
        let (red, green, blue) = take_channels(pixel);
        let ghost before = channel_entries(conn.byte_order, data@, i as nat);
        write_u16_to(conn, &mut reply, red);
        write_u16_to(conn, &mut reply, green);
        write_u16_to(conn, &mut reply, blue);
        write_u16_to(conn, &mut reply, 0);
        assert(reply@ =~= head + (before + channel_entry(conn.byte_order, pixel)));
    }
    server.reply(conn, reply);
    Ok(())
}

/// Words with single spaces between them.
pub open spec fn joined(ws: Seq<Seq<char>>) -> Seq<char>
    decreases ws.len(),
{
    if ws.len() == 0 {
        Seq::empty()
    } else if ws.len() == 1 {
        ws[0]
    } else {
        joined(ws.drop_last()) + seq![' '] + ws.last()
    }
}

/// The color that a line of the database defines, if it does: three intensities
/// up to 255 and a name, which may be of several words. Lines that start with
/// `!` or `#` are comments.
pub open spec fn color_in(line: Seq<char>) -> Option<NamedColorModel> {
    let ws = words(line);
    if ws.len() < 4 || ws[0][0] == '!' || ws[0][0] == '#' {
        None
    } else {
        match (number_in(ws[0], 255), number_in(ws[1], 255), number_in(ws[2], 255)) {
            (Some(r), Some(g), Some(b)) => Some(
                NamedColorModel {
                    name: lowercase(joined(ws.skip(3))),
                    red: spread(r as int),
                    green: spread(g as int),
                    blue: spread(b as int),
                },
            ),
            _ => None,
        }
    }
}

/// The colors that lines of the database define.
pub open spec fn colors_in(lines: Seq<Seq<char>>) -> Seq<NamedColorModel>
    decreases lines.len(),
{
    if lines.len() == 0 {
        Seq::empty()
    } else {
        let before = colors_in(lines.drop_last());
        match color_in(lines.last()) {
            Some(c) => before.push(c),
            None => before,
        }
    }
}

fn join_words(ws: &Vec<Vec<char>>, from: usize) -> (r: Vec<char>)
    requires
        from < ws@.len(),
    ensures
        r@ == joined(texts(ws@).skip(from as int)),
{
    let ghost all = texts(ws@).skip(from as int);
    let mut r: Vec<char> = Vec::new();
    for i in from..ws.len()
        invariant
            from < ws@.len(),
            all == texts(ws@).skip(from as int),
            r@ == joined(all.take(i - from)),
    {
        let ghost before = r@;
        if i > from {
            r.push(' ');
        }
        let ghost spaced = r@;
        let w: &Vec<char> = &ws[i];
        for k in 0..w.len()
            invariant
                r@ == spaced + w@.take(k as int),
        {
            r.push(w[k]);
            assert(r@ =~= spaced + w@.take(k + 1));
        }
        proof {
            assert(w@.take(w@.len() as int) =~= w@);
            assert(all.take(i + 1 - from).drop_last() =~= all.take(i - from));
            assert(all[i - from] == w@);
            if i == from {
                assert(all.take(1)[0] == w@);
                assert(r@ =~= w@);
            } else {
                assert(r@ =~= before + seq![' '] + w@);
            }
        }
    }
    assert(all.take(ws@.len() - from) =~= all);
    r
}

fn parse_color(line: &Vec<char>) -> (r: Option<NamedColor>)
    ensures
        match color_in(line@) {
            Some(c) => r is Some && r->0@ == c,
            None => r is None,
        },
{
    let ws = find_words(line);
    let ghost model = words(line@);
    assert(ws@.len() == model.len());
    if ws.len() < 4 {
        return None;
    }
    assert(ws@[0]@ == model[0] && ws@[1]@ == model[1] && ws@[2]@ == model[2]);
    proof {
        lemma_words_not_empty(line@);
    }
    if ws[0][0] == '!' || ws[0][0] == '#' {
        return None;
    }
    let red: Option<u32> = parse_number(&ws[0], 255);
    let green: Option<u32> = parse_number(&ws[1], 255);
    let blue: Option<u32> = parse_number(&ws[2], 255);
    match (red, green, blue) {
        (Some(r), Some(g), Some(b)) => {
            let name = string_of(&join_words(&ws, 3));
            Some(
                NamedColor {
                    name: to_lowercase(name.as_str()),
                    red: spread_byte(r),
                    green: spread_byte(g),
                    blue: spread_byte(b),
                },
            )
        },
        _ => None,
    }
}

proof fn lemma_words_not_empty(s: Seq<char>)
    ensures
        forall|i: int| 0 <= i < words(s).len() ==> (#[trigger] words(s)[i]).len() > 0,
    decreases s.len(),
{
    if s.len() > 0 {
        if is_space(s[0]) {
            lemma_words_not_empty(s.drop_first());
            assert(words(s) == words(s.drop_first()));
        } else {
            let n = until_space(s) as int;
            if 0 < n <= s.len() {
                lemma_words_not_empty(s.skip(n));
                assert forall|i: int| 0 <= i < words(s).len() implies (#[trigger] words(s)[i]).len()
                    > 0 by {
                    if i > 0 {
                        assert(words(s)[i] == words(s.skip(n))[i - 1]);
                    } else {
                        assert(words(s)[0] == s.take(n));
                    }
                }
            } else {
                assert(words(s).len() == 0);
            }
        }
    }
}

/// Takes the named colors from a database; says whether it has any.
pub fn load_colors(server: &mut XServer, content: &str) -> (r: bool)
    ensures
        final(server)@ == (ServerModel {
            colors: colors_in(split(content@, '\n')),
            ..old(server)@
        }),
        r == (colors_in(split(content@, '\n')).len() > 0),
{
    let lines = split_chars(&chars_of(content), '\n');
    let ghost all = split(content@, '\n');
    let mut colors: Vec<NamedColor> = Vec::new();
    assert(color_models(colors@) =~= colors_in(all.take(0)));
    for i in 0..lines.len()
        invariant
            texts(lines@) == all,
            color_models(colors@) == colors_in(all.take(i as int)),
    {
        assert(all[i as int] == lines@[i as int]@);
        assert(all.take(i + 1).drop_last() =~= all.take(i as int));
        if let Some(c) = parse_color(&lines[i]) {
            let ghost before = colors@;
            let ghost m = c@;
            colors.push(c);
            assert(color_models(colors@) =~= color_models(before).push(m));
        }
    }
    assert(all.take(lines@.len() as int) =~= all);
    let any: bool = colors.len() > 0;
    server.colors = colors;
    any
}

} // verus!
