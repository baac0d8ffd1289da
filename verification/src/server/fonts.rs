//! Requests on fonts.

use vstd::prelude::*;

use super::connection::{
    read_u16, read_u32, reply_head, start_reply, write_i16_to, write_u16_to, write_u32_to,
    ClientConnection,
};
use super::parse::{
    contains_text, holds_text, match_pattern, matches_pattern, number_in, parse_number, split,
    split_chars,
};
use super::properties::{count_words, filled, put_filled, words_for};
use super::resources::{FontModel, FontState, Resource, ResourceModel};
use super::text::{chars_of, from_utf8, lowercase, strings, to_lowercase, utf8_text};
use super::wire::{
    byte, bytes16, bytes32, copy_range, pattern16, put_bytes, put_u8, put_zeros, u16_at, u32_at,
    wrap16, zeros, ByteOrder,
};
use super::{done, font_in, refused, Outcome, ServerError, ServerModel, XServer};

verus! {

/// Division that rounds toward zero.
pub open spec fn toward_zero(v: i16, d: int) -> int {
    if v >= 0 {
        v as int / d
    } else {
        -((-v) / d)
    }
}

fn divide(v: i16, d: i32) -> (r: i16)
    requires
        2 <= d <= 16,
    ensures
        r == toward_zero(v, d as int),
{
    if v >= 0 {
        (v as i32 / d) as i16
    } else {
        let up: i32 = -(v as i32);
        let q: i32 = up / d;
        assert(q <= 16384) by (nonlinear_arith)
            requires
                0 <= up <= 32768,
                2 <= d,
                q == up / d,
        ;
        (-q) as i16
    }
}

/// The ascent, descent and character width that a font's name stands for: those
/// of its pixel size and average width if it is a full name of at least fourteen
/// fields, else fixed ones. Sizes count modulo 2^16.
pub open spec fn metrics_of(name: Seq<char>) -> (i16, i16, i16) {
    let fields = split(name, '-');
    if name.len() == 0 || name[0] != '-' || fields.len() < 14 {
        (10, 3, 6)
    } else {
        let size = match number_in(fields[7], 32767) {
            Some(v) => v as i16,
            None => 13,
        };
        let width = match number_in(fields[12], 32767) {
            Some(v) => v as i16,
            None => 60,
        };
        let ascent = toward_zero(wrap16(size * 3 + 2), 4) as i16;
        (ascent, size.wrapping_sub(ascent), toward_zero(width.wrapping_add(5), 10) as i16)
    }
}

/// Reads a font's metrics off its name.
pub fn parse_xlfd_metrics(name: &str) -> (r: (i16, i16, i16))
    ensures
        r == metrics_of(name@),
{
    let chars = chars_of(name);
    if chars.len() == 0 || chars[0] != '-' {
        return (10, 3, 6);
    }
    let fields = split_chars(&chars, '-');
    assert(fields@.len() == split(name@, '-').len());
    if fields.len() < 14 {
        return (10, 3, 6);
    }
    assert(fields@[7]@ == split(name@, '-')[7] && fields@[12]@ == split(name@, '-')[12]);
    let size: i16 = match parse_number(&fields[7], 32767) {
        Some(v) => v as i16,
        None => 13,
    };
    let width: i16 = match parse_number(&fields[12], 32767) {
        Some(v) => v as i16,
        None => 60,
    };
    let ascent: i16 = divide(super::wire::truncate16(size as i32 * 3 + 2), 4);
    (ascent, size.wrapping_sub(ascent), divide(width.wrapping_add(5), 10))
}

/// The name that OpenFont carries.
pub open spec fn opened_name(o: ByteOrder, data: Seq<u8>) -> Seq<char> {
    let n = u16_at(o, data, 8);
    if data.len() < 12 + n {
        "unknown"@
    } else {
        match utf8_text(data.subrange(12, 12 + n)) {
            Some(t) => t,
            None => "unknown"@,
        }
    }
}

/// The font of a name.
pub open spec fn font_named(id: u32, name: Seq<char>) -> FontModel {
    let (ascent, descent, width) = metrics_of(name);
    FontModel {
        id,
        name,
        ascent,
        descent,
        default_char: 0,
        min_char_width: width,
        max_char_width: width,
        is_2byte: contains_text(name, "iso10646"@),
    }
}

/// OpenFont. Every name opens a font.
pub open spec fn open_font(s: ServerModel, conn: ClientConnection, data: Seq<u8>) -> Outcome {
    if data.len() < 12 {
        refused(s, ServerError::Protocol)
    } else {
        let o = conn.byte_order;
        let id = u32_at(o, data, 4);
        done(s.with_resource(id, ResourceModel::Font(font_named(id, opened_name(o, data)))))
    }
}

pub fn handle_open_font(server: &mut XServer, conn: &ClientConnection, data: &[u8]) -> (r: Result<
    (),
    ServerError,
>)
    ensures
        (final(server)@, r) == open_font(old(server)@, *conn, data@),
{
    if data.len() < 12 {
        return Err(ServerError::Protocol);
    }
    let fid: u32 = read_u32(conn, data, 4);
    let name_len: usize = read_u16(conn, data, 8) as usize;
    let given: Option<String> = if data.len() >= 12 + name_len {
        from_utf8(copy_range(data, 12, 12 + name_len).as_slice())
    } else {
        None
    };
    let name: String = match given {
        Some(t) => t,
        None => "unknown".to_owned(),
    };
    assert(name@ == opened_name(conn.byte_order, data@));
    let is_2byte: bool = holds_text(&chars_of(name.as_str()), &chars_of("iso10646"));
    let (ascent, descent, width) = parse_xlfd_metrics(name.as_str());
    let font = FontState {
        id: fid,
        name,
        ascent,
        descent,
        default_char: 0,
        min_char_width: width,
        max_char_width: width,
        is_2byte,
    };
    server.set_resource(fid, Resource::Font(font));
    Ok(())
}

/// The metrics of a character on the wire.
pub open spec fn char_info(o: ByteOrder, width: i16, ascent: i16, descent: i16) -> Seq<u8> {
    bytes16(o, pattern16(0)) + bytes16(o, pattern16(width)) + bytes16(o, pattern16(width))
        + bytes16(o, pattern16(ascent)) + bytes16(o, pattern16(0i16.wrapping_sub(descent)))
        + bytes16(o, 0)
}

/// Metrics repeated.
pub open spec fn char_infos(o: ByteOrder, width: i16, ascent: i16, descent: i16, n: nat) -> Seq<u8>
    decreases n,
{
    if n == 0 {
        Seq::empty()
    } else {
        char_infos(o, width, ascent, descent, (n - 1) as nat) + char_info(o, width, ascent, descent)
    }
}

fn write_char_info(conn: &ClientConnection, buf: &mut Vec<u8>, width: i16, ascent: i16, descent: i16)
    ensures
        final(buf)@ == old(buf)@ + char_info(conn.byte_order, width, ascent, descent),
{
    let ghost start = buf@;
    write_i16_to(conn, buf, 0);
    write_i16_to(conn, buf, width);
    write_i16_to(conn, buf, width);
    write_i16_to(conn, buf, ascent);
    write_i16_to(conn, buf, 0i16.wrapping_sub(descent));
    write_u16_to(conn, buf, 0);
    assert(buf@ =~= start + char_info(conn.byte_order, width, ascent, descent));
}

/// What QueryFont tells: ascent, descent, width, default character, and whether
/// characters take two bytes.
pub open spec fn queried_font(s: ServerModel, id: u32) -> (i16, i16, i16, u16, bool) {
    match font_in(s.resources, id) {
        Some(f) => (f.ascent, f.descent, f.max_char_width, f.default_char, f.is_2byte),
        None => (12, 3, 8, 0, false),
    }
}

/// The reply to QueryFont. All characters are alike; a font of two-byte
/// characters says so once, one of single bytes for each of 32 to 126.
pub open spec fn font_reply(conn: ClientConnection, f: (i16, i16, i16, u16, bool)) -> Seq<u8> {
    let o = conn.byte_order;
    let (ascent, descent, width, default_char, wide) = f;
    let count: u32 = if wide {
        0
    } else {
        95
    };
    reply_head(conn, 0, (7 + count * 3) as u32) + char_info(o, width, ascent, descent) + bytes32(
        o,
        0,
    ) + char_info(o, width, ascent, descent) + bytes32(o, 0) + bytes16(
        o,
        if wide {
            0
        } else {
            32
        },
    ) + bytes16(
        o,
        if wide {
            255
        } else {
            126
        },
    ) + bytes16(o, default_char) + bytes16(o, 0) + byte(0) + byte(0) + byte(
        if wide {
            255
        } else {
            0
        },
    ) + byte(1) + bytes16(o, pattern16(ascent)) + bytes16(o, pattern16(descent)) + bytes32(o, count)
        + char_infos(o, width, ascent, descent, count as nat)
}

/// QueryFont.
pub open spec fn query_font(s: ServerModel, conn: ClientConnection, data: Seq<u8>) -> Outcome {
    done(
        s.replying(
            conn,
            font_reply(conn, queried_font(s, u32_at(conn.byte_order, data, 4))),
        ),
    )
}

pub fn handle_query_font(server: &mut XServer, conn: &ClientConnection, data: &[u8]) -> (r: Result<
    (),
    ServerError,
>)
    requires
        data@.len() >= 8,
    ensures
        (final(server)@, r) == query_font(old(server)@, *conn, data@),
{
    let fid: u32 = read_u32(conn, data, 4);
    let (ascent, descent, width, default_char, wide) = match server.font(fid) {
        Some(f) => (f.ascent, f.descent, f.max_char_width, f.default_char, f.is_2byte),
        None => (12, 3, 8, 0, false),
    };
    let count: u32 = if wide {
        0
    } else {
        95
    };
    let mut reply = start_reply(conn, 0, 7 + count * 3);
    write_char_info(conn, &mut reply, width, ascent, descent);
    write_u32_to(conn, &mut reply, 0);
    write_char_info(conn, &mut reply, width, ascent, descent);
    write_u32_to(conn, &mut reply, 0);
    write_u16_to(
        conn,
        &mut reply,
        if wide {
            0
        } else {
            32
        },
    );
    write_u16_to(
        conn,
        &mut reply,
        if wide {
            255
        } else {
            126
        },
    );
    write_u16_to(conn, &mut reply, default_char);
    write_u16_to(conn, &mut reply, 0);
    put_u8(&mut reply, 0);
    put_u8(&mut reply, 0);
    put_u8(
        &mut reply,
        if wide {
            255
        } else {
            0
        },
    );
    put_u8(&mut reply, 1);
    write_i16_to(conn, &mut reply, ascent);
    write_i16_to(conn, &mut reply, descent);
    write_u32_to(conn, &mut reply, count);
    let ghost head = reply@;
    assert(reply@ =~= head + char_infos(conn.byte_order, width, ascent, descent, 0));
    for i in 0..count
        invariant
            reply@ == head + char_infos(conn.byte_order, width, ascent, descent, i as nat),
    {
        let ghost before = char_infos(conn.byte_order, width, ascent, descent, i as nat);
        write_char_info(conn, &mut reply, width, ascent, descent);
        assert(reply@ =~= head + (before + char_info(conn.byte_order, width, ascent, descent)));
    }
    server.reply(conn, reply);
    Ok(())
}

/// A string after its length in one byte.
pub open spec fn counted(t: Seq<char>) -> Seq<u8> {
    let b = vstd::utf8::encode_utf8(t);
    byte(b.len() as u8) + b
}

/// Strings, each after its length.
pub open spec fn counted_all(ts: Seq<Seq<char>>) -> Seq<u8>
    decreases ts.len(),
{
    if ts.len() == 0 {
        Seq::empty()
    } else {
        counted_all(ts.drop_last()) + counted(ts.last())
    }
}

/// Appends a string after its length.
pub fn put_counted(buf: &mut Vec<u8>, t: &str)
    ensures
        final(buf)@ == old(buf)@ + counted(t@),
{
    let ghost start = buf@;
    let bytes: &[u8] = t.as_bytes();
    put_u8(buf, bytes.len() as u8);
    put_bytes(buf, bytes);
    assert(buf@ =~= start + counted(t@));
}

/// The first names, up to a number of them, whose lower-case forms match a
/// pattern, among the first `n`.
pub open spec fn matching(
    names: Seq<Seq<char>>,
    lower: Seq<Seq<char>>,
    pattern: Seq<char>,
    most: nat,
    n: nat,
) -> Seq<Seq<char>>
    decreases n,
{
    if n == 0 {
        Seq::empty()
    } else {
        let before = matching(names, lower, pattern, most, (n - 1) as nat);
        if before.len() < most && matches_pattern(pattern, lower[n - 1]) {
            before.push(names[n - 1])
        } else {
            before
        }
    }
}

/// The pattern that ListFonts carries, in lower case; one that is cut short or
/// not UTF-8 counts as a star.
pub open spec fn asked_pattern(o: ByteOrder, data: Seq<u8>) -> Seq<char> {
    let n = u16_at(o, data, 6);
    let given = if data.len() < 8 + n {
        None
    } else {
        utf8_text(data.subrange(8, 8 + n))
    };
    lowercase(
        match given {
            Some(t) => t,
            None => "*"@,
        },
    )
}

/// ListFonts.
pub open spec fn list_fonts(s: ServerModel, conn: ClientConnection, data: Seq<u8>) -> Outcome {
    let o = conn.byte_order;
    if data.len() < 8 {
        refused(s, ServerError::Protocol)
    } else {
        let n = if s.font_names.len() < s.font_names_lower.len() {
            s.font_names.len()
        } else {
            s.font_names_lower.len()
        };
        let found = matching(
            s.font_names,
            s.font_names_lower,
            asked_pattern(o, data),
            u16_at(o, data, 4) as nat,
            n,
        );
        done(s.replying(conn, font_list_reply(conn, found)))
    }
}

/// The reply to ListFonts.
pub open spec fn font_list_reply(conn: ClientConnection, found: Seq<Seq<char>>) -> Seq<u8> {
    let list = counted_all(found);
    reply_head(conn, 0, words_for(list.len() as int) as u32) + bytes16(
        conn.byte_order,
        found.len() as u16,
    ) + zeros(22) + filled(list)
}

/// Whether a font's name matches a pattern, both in lower case.
pub fn x11_font_pattern_match(pattern: &str, text: &str) -> (r: bool)
    ensures
        r == matches_pattern(pattern@, text@),
{
    match_pattern(&chars_of(pattern), &chars_of(text))
}

pub fn handle_list_fonts(server: &mut XServer, conn: &ClientConnection, data: &[u8]) -> (r: Result<
    (),
    ServerError,
>)
    ensures
        (final(server)@, r) == list_fonts(old(server)@, *conn, data@),
{
    if data.len() < 8 {
        return Err(ServerError::Protocol);
    }
    let max_names: usize = read_u16(conn, data, 4) as usize;
    let pattern_len: usize = read_u16(conn, data, 6) as usize;
    let given: Option<String> = if data.len() >= 8 + pattern_len {
        from_utf8(copy_range(data, 8, 8 + pattern_len).as_slice())
    } else {
        None
    };
    let pattern: String = match given {
        Some(t) => to_lowercase(t.as_str()),
        None => to_lowercase("*"),
    };
    assert(pattern@ == asked_pattern(conn.byte_order, data@));
    let n: usize = if server.font_names.len() < server.font_names_lower.len() {
        server.font_names.len()
    } else {
        server.font_names_lower.len()
    };
    let mut list: Vec<u8> = Vec::new();
    let mut count: usize = 0;
    let ghost names = strings(server.font_names@);
    let ghost lower = strings(server.font_names_lower@);
    let ghost mut found: Seq<Seq<char>> = Seq::empty();
    assert(list@ =~= counted_all(found));
    for i in 0..n
        invariant
            names == strings(server.font_names@),
            lower == strings(server.font_names_lower@),
            n <= names.len(),
            n <= lower.len(),
            found == matching(names, lower, pattern@, max_names as nat, i as nat),
            count == found.len(),
            count <= i,
            list@ == counted_all(found),
    {
        let name: &String = &server.font_names[i];
        assert(name@ == names[i as int]);
        assert(server.font_names_lower@[i as int]@ == lower[i as int]);
        if count < max_names && x11_font_pattern_match(
            pattern.as_str(),
            server.font_names_lower[i].as_str(),
        ) {
            put_counted(&mut list, name.as_str());
            count = count + 1;
            proof {
                assert(found.push(names[i as int]).drop_last() =~= found);
                found = found.push(names[i as int]);
            }
        }
    }
    let mut reply = start_reply(conn, 0, count_words(list.len()));
    write_u16_to(conn, &mut reply, count as u16);
    put_zeros(&mut reply, 22);
    put_filled(&mut reply, list.as_slice());
    server.reply(conn, reply);
    Ok(())
}

/// ListFonts never names more fonts than it was asked for, and only such as
/// match.
pub proof fn law_listed_fonts_match(
    names: Seq<Seq<char>>,
    lower: Seq<Seq<char>>,
    pattern: Seq<char>,
    most: nat,
    n: nat,
)
    requires
        n <= names.len(),
        n <= lower.len(),
    ensures
        matching(names, lower, pattern, most, n).len() <= most,
        forall|i: int|
            0 <= i < matching(names, lower, pattern, most, n).len() ==> exists|j: int|
                0 <= j < n && names[j] == #[trigger] matching(names, lower, pattern, most, n)[i]
                    && matches_pattern(pattern, #[trigger] lower[j]),
    decreases n,
{
    if n > 0 {
        law_listed_fonts_match(names, lower, pattern, most, (n - 1) as nat);
        let before = matching(names, lower, pattern, most, (n - 1) as nat);
        let all = matching(names, lower, pattern, most, n);
        assert forall|i: int| 0 <= i < all.len() implies exists|j: int|
            0 <= j < n && names[j] == #[trigger] all[i] && matches_pattern(
                pattern,
                #[trigger] lower[j],
            ) by {
            if i < before.len() {
                assert(all[i] == before[i]);
                let j = choose|j: int|
                    0 <= j < n - 1 && names[j] == before[i] && matches_pattern(
                        pattern,
                        #[trigger] lower[j],
                    );
                assert(matches_pattern(pattern, lower[j]));
            } else {
                assert(all[i] == names[n - 1]);
                assert(matches_pattern(pattern, lower[n - 1]));
            }
        }
    }
}

} // verus!
