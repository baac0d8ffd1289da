//! What clients read of text that is typed for them, of fonts, of extensions and of
//! what went wrong.

use vstd::prelude::*;

use super::aim::{first_to_want, lemma_first_to_want, motion_at};
use super::blends::lemma_server_processed;
use super::compose::goes_on;
use super::connection::{reply_head, ClientConnection};
use super::delivery::{button_told, first_selecting, key_sent, pointer_route, pointer_told, Wanted};
use super::dispatch::{clipboard_asked, may_follow, same_block, Followup};
use super::fonts::{char_info, char_infos, font_reply};
use super::ime::{keys_typed, mapping_notify, plain_char, plain_text, TextJob};
use super::input::{clicks_for, wheel_turned, DispatcherModel, Pointing, Spot};
use super::layout::{lemma_four_bytes, lemma_two_bytes};
use super::pasting::{answered, queued};
use super::placement::lemma_window_processed;
use super::properties::asked_name;
use super::readings::{
    law_input_is_read, law_selection_request_is_read, lemma_set8, reads_input,
    reads_selection_request,
};
use super::replies::{error_bytes, extension_named};
use super::requests::{
    counted, counting, font_fits, font_request, kind_of, processing_may_lead_to, server_fits,
    server_request, window_request, Kind, Pending,
};
use super::wire::{
    byte, bytes16, bytes32, i16_at, pattern16, u16_at, u32_at, zeros, ByteOrder,
};
use super::resources::ResourceModel;
use super::{font_in, ActionModel, ServerModel};
use crate::display::{DisplayEvent, DisplayModel};

verus! {

/// Whether an action is a key event for a client, as it reads it.
pub open spec fn is_key(
    s: ServerModel,
    a: ActionModel,
    kind: u8,
    key: (u8, u16),
    time: u32,
    to: (u32, u32, u32),
) -> bool {
    a matches ActionModel::Event { conn, data } && conn == to.0 && reads_input(
        s.connections[to.0].byte_order,
        data,
        kind,
        key.0,
        time,
        s.root(),
        to.1,
        to.2,
        0,
        0,
        0,
        0,
        key.1,
    )
}

proof fn lemma_key_sent(
    s: ServerModel,
    kind: u8,
    key: (u8, u16),
    time: u32,
    to: (u32, u32, u32),
)
    requires
        s.connections.dom().contains(to.0),
    ensures
        ({
            let t = key_sent(s, kind, key.0, key.1, time, to);
            &&& t == ServerModel { outbox: t.outbox, ..s }
            &&& t.outbox.len() == s.outbox.len() + 1
            &&& t.outbox.drop_last() == s.outbox
            &&& is_key(s, t.outbox.last(), kind, key, time, to)
        }),
{
    let t = key_sent(s, kind, key.0, key.1, time, to);
    law_input_is_read(
        s.connections[to.0],
        kind,
        key.0,
        time,
        s.root(),
        to.1,
        to.2,
        0,
        0,
        0,
        0,
        key.1,
        true,
    );
    assert(t.outbox.drop_last() =~= s.outbox);
}

/// Keys that are typed for a client are pressed and released one after the other,
/// each with its modifiers.
pub proof fn law_typed_keys_are_heard(
    s: ServerModel,
    keys: Seq<(u8, u16)>,
    time: u32,
    to: (u32, u32, u32),
)
    requires
        s.connections.dom().contains(to.0),
    ensures
        ({
            let t = keys_typed(s, keys, time, to);
            let n = s.outbox.len();
            &&& t == ServerModel { outbox: t.outbox, ..s }
            &&& t.outbox.len() == n + 2 * keys.len()
            &&& t.outbox.take(n as int) == s.outbox
            &&& forall|i: int| #![trigger keys[i]]
                0 <= i < keys.len() ==> is_key(s, t.outbox[n + 2 * i], 2, keys[i], time, to)
                    && is_key(s, t.outbox[n + 2 * i + 1], 3, keys[i], time, to)
        }),
    decreases keys.len(),
{
    let t = keys_typed(s, keys, time, to);
    let n = s.outbox.len();
    if keys.len() == 0 {
        assert(t.outbox.take(n as int) =~= s.outbox);
    } else {
        let rest = keys.drop_last();
        law_typed_keys_are_heard(s, rest, time, to);
        let before = keys_typed(s, rest, time, to);
        let key = keys.last();
        lemma_key_sent(before, 2, key, time, to);
        let pressed = key_sent(before, 2, key.0, key.1, time, to);
        lemma_key_sent(pressed, 3, key, time, to);
        let k = before.outbox.len() as int;
        assert forall|i: int| 0 <= i < k implies #[trigger] t.outbox[i] == before.outbox[i] by {
            assert(t.outbox.drop_last()[i] == pressed.outbox[i]);
            assert(pressed.outbox.drop_last()[i] == before.outbox[i]);
        }
        assert(t.outbox[k] == pressed.outbox.last()) by {
            assert(t.outbox.drop_last()[k] == pressed.outbox[k]);
        }
        assert(t.outbox.take(n as int) =~= s.outbox) by {
            assert forall|i: int| 0 <= i < n implies t.outbox.take(n as int)[i] == s.outbox[i] by {
                assert(before.outbox.take(n as int)[i] == s.outbox[i]);
            }
        }
        assert forall|i: int| #![trigger keys[i]] 0 <= i < keys.len() implies is_key(
            s,
            t.outbox[n + 2 * i],
            2,
            keys[i],
            time,
            to,
        ) && is_key(s, t.outbox[n + 2 * i + 1], 3, keys[i], time, to) by {
            if i < rest.len() {
                assert(rest[i] == keys[i]);
            } else {
                assert(n + 2 * i == k);
                assert(t.outbox[k + 1] == t.outbox.last());
            }
        }
    }
}

/// Text that is committed while none is being composed is typed, all of it and in
/// its order; nothing is erased. A character of plain ASCII stays what it is.
pub proof fn law_committed_text_is_typed(
    s: ServerModel,
    d: DispatcherModel,
    window: u32,
    text: String,
    due: bool,
    after: ServerModel,
    after_d: DispatcherModel,
    left: Followup,
)
    requires
        may_follow(
            s,
            d,
            DisplayEvent::ImeCommit { window, text },
            due,
            after,
            after_d,
            left,
        ),
        !d.preedit_injected,
    ensures
        after == s,
        left.text matches Some(job) ==> {
            &&& job.chars@.len() == text@.len()
            &&& job.at == 0
            &&& forall|i: int| #![trigger text@[i]]
                0 <= i < text@.len() && (text@[i] as u32) < 0x80 ==> job.chars@[i] == text@[i]
        },
{
}

/// Where what is committed starts with what was composed, only the rest is typed.
pub proof fn law_committed_rest_is_typed(
    s: ServerModel,
    d: DispatcherModel,
    window: u32,
    text: String,
    due: bool,
    after: ServerModel,
    after_d: DispatcherModel,
    left: Followup,
)
    requires
        may_follow(
            s,
            d,
            DisplayEvent::ImeCommit { window, text },
            due,
            after,
            after_d,
            left,
        ),
        d.preedit_injected,
        d.preedit_text.len() > 0,
        d.preedit_text.is_prefix_of(text@),
    ensures
        after == s,
        left.text matches Some(job) ==> {
            &&& d.preedit_text.len() + job.chars@.len() == text@.len()
            &&& job.at == 0
            &&& forall|i: int|
                0 <= i < job.chars@.len() ==> #[trigger] job.chars@[i] == plain_char(
                    text@[d.preedit_text.len() + i],
                )
        },
{
}

/// A notice that keys changed is read as it was built.
pub proof fn law_changed_keys_are_read(first: u8, count: u8)
    ensures
        ({
            let e = mapping_notify(first, count);
            &&& e.len() == 32
            &&& e[0] == 34
            &&& e[4] == 1
            &&& e[5] == first
            &&& e[6] == count
        }),
{
    let o = ByteOrder::LittleEndian;
    let e0 = super::events::set8(zeros(32), 0, 34);
    lemma_set8(o, zeros(32), 0, 34);
    let e1 = super::events::set8(e0, 4, 1);
    lemma_set8(o, e0, 4, 1);
    let e2 = super::events::set8(e1, 5, first);
    lemma_set8(o, e1, 5, first);
    lemma_set8(o, e2, 6, count);
}

/// When the display wants the selection for its clipboard, the owner's client is
/// asked for it, as text, in a property of the root.
pub proof fn law_clipboard_is_asked_for(
    s: ServerModel,
    d: DispatcherModel,
    window: u32,
    due: bool,
    after: ServerModel,
    after_d: DispatcherModel,
    left: Followup,
    someone: u32,
)
    requires
        may_follow(
            s,
            d,
            DisplayEvent::ClipboardCopyRequest { window },
            due,
            after,
            after_d,
            left,
        ),
        s.atoms.wf(),
        s.atoms.next_id < 0xFFFF_FFFE,
        s.selections.dom().contains(1),
        s.connections.dom().contains(someone),
        same_block(s.connections[someone], s.selections[1].0),
    ensures
        after.pending_clipboard_copy,
        exists|who: u32, e: Seq<u8>, target: u32, property: u32| #[trigger]
            queued(s, after, who, e) && s.connections.dom().contains(who) && same_block(
                s.connections[who],
                s.selections[1].0,
            ) && #[trigger] reads_selection_request(
                s.connections[who].byte_order,
                e,
                s.now,
                s.selections[1].0,
                s.root(),
                1,
                target,
                property,
            ) && after.atoms.name_of(target) == Some("UTF8_STRING"@) && after.atoms.name_of(property)
                == Some("_PSLX_CLIP"@),
{
    let owner = s.selections[1].0;
    assert(s.connections.dom().contains(someone));
    let who = choose|who: u32| #[trigger]
        s.connections.dom().contains(who) && same_block(s.connections[who], owner) && after
            == clipboard_asked(s, owner, who);
    let target = s.atoms.interned("UTF8_STRING"@);
    let named = s.interning("UTF8_STRING"@);
    let property = named.atoms.interned("_PSLX_CLIP"@);
    let e = super::dispatch::selection_request(
        s.connections[who],
        s.now,
        owner,
        s.root(),
        1,
        target,
        property,
    );
    law_selection_request_is_read(
        s.connections[who],
        s.now,
        owner,
        s.root(),
        1,
        target,
        property,
    );
    super::atoms::law_name_of_interned(s.atoms, "UTF8_STRING"@);
    super::atoms::law_intern_keeps_wf(s.atoms, "UTF8_STRING"@);
    super::atoms::law_name_of_interned(named.atoms, "_PSLX_CLIP"@);
    super::atoms::law_intern_keeps_others(named.atoms, "_PSLX_CLIP"@, "UTF8_STRING"@);
    assert(queued(s, after, who, e));
    assert(reads_selection_request(
        s.connections[who].byte_order,
        e,
        s.now,
        owner,
        s.root(),
        1,
        target,
        property,
    ));
}

/// An error is read with its code, the number of the request and its opcode.
pub proof fn law_errors_are_read(code: u8, seq: u16, opcode: u8)
    ensures
        ({
            let e = error_bytes(code, seq, opcode);
            &&& e.len() == 32
            &&& e[0] == 0
            &&& e[1] == code
            &&& u16_at(ByteOrder::LittleEndian, e, 2) == seq
            &&& e[10] == opcode
        }),
{
    lemma_two_bytes(ByteOrder::LittleEndian, error_bytes(code, seq, opcode), 2, seq);
}

proof fn lemma_unmap(s: ServerModel, conn: ClientConnection, data: Seq<u8>, window: u32)
    requires
        data.len() >= 8,
        data[0] == 10,
        u32_at(conn.byte_order, data, 4) == window,
    ensures
        window_request(s, conn, data).1 is Ok,
        window_request(s, conn, data).0 == super::windows::unmapped(s, window),
{
    reveal(window_request);
}

/// UnmapWindow leaves the window there and not mapped; a native window that it has
/// is hidden.
pub proof fn law_unmapped_windows_are_hidden(
    s: ServerModel,
    id: u32,
    data: Seq<u8>,
    window: u32,
    after: ServerModel,
    r: Option<Pending>,
)
    requires
        s.connections.dom().contains(id),
        data.len() >= 8,
        data[0] == 10,
        u32_at(s.connections[id].byte_order, data, 4) == window,
        s.window(window) is Some,
        s.focus_window != window,
        processing_may_lead_to(s, id, data, after, r),
    ensures
        after.window(window) == Some(
            (super::resources::WindowModel {
                mapped: false,
                viewable: false,
                ..s.window(window)->0
            }),
        ),
        s.window(window)->0.native_window matches Some(handle) ==> after.outbox == s.outbox.push(
            ActionModel::Display(DisplayModel::HideWindow { handle }),
        ),
{
    lemma_unmap(counted(s, id), counting(s.connections[id]), data, window);
    lemma_window_processed(s, id, data, after, r);
}

/// A request about fonts, once it was processed.
pub proof fn lemma_font_processed(
    s: ServerModel,
    id: u32,
    data: Seq<u8>,
    after: ServerModel,
    r: Option<Pending>,
)
    requires
        s.connections.dom().contains(id),
        data.len() >= 4,
        kind_of(data[0]) == Kind::Font,
        font_fits(data),
        processing_may_lead_to(s, id, data, after, r),
    ensures
        font_request(counted(s, id), counting(s.connections[id]), data).1 is Ok ==> after
            == font_request(counted(s, id), counting(s.connections[id]), data).0,
{
}

/// The measures of one character as a client reads them.
pub open spec fn reads_measures(
    o: ByteOrder,
    e: Seq<u8>,
    at: int,
    width: i16,
    ascent: i16,
) -> bool {
    &&& i16_at(o, e, at) == 0
    &&& i16_at(o, e, at + 2) == width
    &&& i16_at(o, e, at + 4) == width
    &&& i16_at(o, e, at + 6) == ascent
}

proof fn lemma_measures(o: ByteOrder, width: i16, ascent: i16, descent: i16)
    ensures
        char_info(o, width, ascent, descent).len() == 12,
        reads_measures(o, char_info(o, width, ascent, descent), 0, width, ascent),
{
    let e = char_info(o, width, ascent, descent);
    lemma_two_bytes(o, e, 0, pattern16(0));
    lemma_two_bytes(o, e, 2, pattern16(width));
    lemma_two_bytes(o, e, 4, pattern16(width));
    lemma_two_bytes(o, e, 6, pattern16(ascent));
}

/// The answer to QueryFont up to its bounds.
#[verifier::opaque]
spec fn font_start(head: Seq<u8>, info: Seq<u8>, o: ByteOrder) -> Seq<u8> {
    head + info + bytes32(o, 0) + info + bytes32(o, 0)
}

proof fn lemma_font_start(head: Seq<u8>, info: Seq<u8>, o: ByteOrder)
    requires
        head.len() == 8,
        info.len() == 12,
    ensures
        ({
            let e = font_start(head, info, o);
            &&& e.len() == 40
            &&& forall|i: int| 0 <= i < 8 ==> #[trigger] e[i] == head[i]
            &&& forall|i: int| 8 <= i < 20 ==> #[trigger] e[i] == info[i - 8]
            &&& forall|i: int| 24 <= i < 36 ==> #[trigger] e[i] == info[i - 24]
        }),
{
    reveal(font_start);
}

/// It without the characters.
#[verifier::opaque]
spec fn font_middle(
    start: Seq<u8>,
    o: ByteOrder,
    wide: bool,
    default_char: u16,
    ascent: i16,
    descent: i16,
    count: u32,
) -> Seq<u8> {
    start + bytes16(
        o,
        if wide {
            0
        } else {
            32
        },
    ) + bytes16(
        o,
        if wide {
            255
        } else {
            126
        },
    ) + bytes16(o, default_char) + bytes16(o, 0) + byte(0) + byte(0) + byte(
        if wide {
            255
        } else {
            0
        },
    ) + byte(1) + bytes16(o, pattern16(ascent)) + bytes16(o, pattern16(descent)) + bytes32(o, count)
}

proof fn lemma_font_middle(
    start: Seq<u8>,
    o: ByteOrder,
    wide: bool,
    default_char: u16,
    ascent: i16,
    descent: i16,
    count: u32,
)
    requires
        start.len() == 40,
    ensures
        ({
            let e = font_middle(start, o, wide, default_char, ascent, descent, count);
            &&& e.len() == 60
            &&& forall|i: int| 0 <= i < 40 ==> #[trigger] e[i] == start[i]
            &&& u16_at(o, e, 40) == (if wide {
                0u16
            } else {
                32u16
            })
            &&& u16_at(o, e, 42) == (if wide {
                255u16
            } else {
                126u16
            })
            &&& u16_at(o, e, 44) == default_char
            &&& i16_at(o, e, 52) == ascent
            &&& i16_at(o, e, 54) == descent
            &&& u32_at(o, e, 56) == count
        }),
{
    reveal(font_middle);
    let e = font_middle(start, o, wide, default_char, ascent, descent, count);
    lemma_two_bytes(
        o,
        e,
        40,
        if wide {
            0
        } else {
            32
        },
    );
    lemma_two_bytes(
        o,
        e,
        42,
        if wide {
            255
        } else {
            126
        },
    );
    lemma_two_bytes(o, e, 44, default_char);
    lemma_two_bytes(o, e, 52, pattern16(ascent));
    lemma_two_bytes(o, e, 54, pattern16(descent));
    lemma_four_bytes(o, e, 56, count);
}

/// The answer to QueryFont as a client reads it.
pub open spec fn reads_font(
    o: ByteOrder,
    e: Seq<u8>,
    ascent: i16,
    descent: i16,
    width: i16,
    default_char: u16,
    wide: bool,
) -> bool {
    &&& e.len() >= 60
    &&& e[0] == 1
    &&& reads_measures(o, e, 8, width, ascent)
    &&& reads_measures(o, e, 24, width, ascent)
    &&& u16_at(o, e, 40) == (if wide {
        0u16
    } else {
        32u16
    })
    &&& u16_at(o, e, 42) == (if wide {
        255u16
    } else {
        126u16
    })
    &&& u16_at(o, e, 44) == default_char
    &&& i16_at(o, e, 52) == ascent
    &&& i16_at(o, e, 54) == descent
    &&& u32_at(o, e, 56) == (if wide {
        0u32
    } else {
        95u32
    })
}

proof fn lemma_font_reply(
    conn: ClientConnection,
    ascent: i16,
    descent: i16,
    width: i16,
    default_char: u16,
    wide: bool,
)
    ensures
        reads_font(
            conn.byte_order,
            font_reply(conn, (ascent, descent, width, default_char, wide)),
            ascent,
            descent,
            width,
            default_char,
            wide,
        ),
{
    let o = conn.byte_order;
    let e = font_reply(conn, (ascent, descent, width, default_char, wide));
    let count: u32 = if wide {
        0
    } else {
        95
    };
    let head = reply_head(conn, 0, (7 + count * 3) as u32);
    let info = char_info(o, width, ascent, descent);
    let start = font_start(head, info, o);
    let middle = font_middle(start, o, wide, default_char, ascent, descent, count);
    let chars = char_infos(o, width, ascent, descent, count as nat);
    lemma_measures(o, width, ascent, descent);
    lemma_font_start(head, info, o);
    lemma_font_middle(start, o, wide, default_char, ascent, descent, count);
    assert(e == middle + chars) by {
        reveal(font_start);
        reveal(font_middle);
    }
    assert forall|i: int| 0 <= i < 60 implies #[trigger] e[i] == middle[i] by {}
    lemma_font_fields(o, e, head, info, middle, width, ascent);
}

proof fn lemma_font_fields(
    o: ByteOrder,
    e: Seq<u8>,
    head: Seq<u8>,
    info: Seq<u8>,
    middle: Seq<u8>,
    width: i16,
    ascent: i16,
)
    requires
        head.len() == 8,
        info.len() == 12,
        middle.len() == 60,
        e.len() >= 60,
        forall|i: int| 0 <= i < 60 ==> #[trigger] e[i] == middle[i],
        forall|i: int| 0 <= i < 40 ==> #[trigger] middle[i] == font_start(head, info, o)[i],
        reads_measures(o, info, 0, width, ascent),
    ensures
        e[0] == head[0],
        reads_measures(o, e, 8, width, ascent),
        reads_measures(o, e, 24, width, ascent),
{
    let start = font_start(head, info, o);
    lemma_font_start(head, info, o);
    assert forall|i: int| 8 <= i < 20 implies #[trigger] e[i] == info[i - 8] by {
        assert(e[i] == middle[i] && middle[i] == start[i]);
    }
    assert forall|i: int| 24 <= i < 36 implies #[trigger] e[i] == info[i - 24] by {
        assert(e[i] == middle[i] && middle[i] == start[i]);
    }
    assert(e[0] == middle[0] && middle[0] == start[0]);
}

proof fn lemma_query_font(s: ServerModel, conn: ClientConnection, data: Seq<u8>, font: u32)
    requires
        data.len() >= 8,
        data[0] == 47,
        u32_at(conn.byte_order, data, 4) == font,
        font_in(s.resources, font) is Some,
    ensures
        font_request(s, conn, data).1 is Ok,
        ({
            let f = font_in(s.resources, font)->0;
            font_request(s, conn, data).0 == s.replying(
                conn,
                font_reply(
                    conn,
                    (f.ascent, f.descent, f.max_char_width, f.default_char, f.is_2byte),
                ),
            )
        }),
{
    reveal(font_request);
}

/// QueryFont replies with the font's measures, each in its place.
pub proof fn law_fonts_are_replied(
    s: ServerModel,
    id: u32,
    data: Seq<u8>,
    font: u32,
    after: ServerModel,
    r: Option<Pending>,
)
    requires
        s.connections.dom().contains(id),
        data.len() >= 8,
        data[0] == 47,
        u32_at(s.connections[id].byte_order, data, 4) == font,
        font_in(s.resources, font) is Some,
        processing_may_lead_to(s, id, data, after, r),
    ensures
        ({
            let f = font_in(s.resources, font)->0;
            exists|e: Seq<u8>| #[trigger]
                answered(s, after, s.connections[id].id, e) && reads_font(
                    s.connections[id].byte_order,
                    e,
                    f.ascent,
                    f.descent,
                    f.max_char_width,
                    f.default_char,
                    f.is_2byte,
                )
        }),
{
    let conn = counting(s.connections[id]);
    let f = font_in(s.resources, font)->0;
    lemma_query_font(counted(s, id), conn, data, font);
    lemma_font_processed(s, id, data, after, r);
    lemma_font_reply(conn, f.ascent, f.descent, f.max_char_width, f.default_char, f.is_2byte);
    assert(answered(
        s,
        after,
        s.connections[id].id,
        font_reply(conn, (f.ascent, f.descent, f.max_char_width, f.default_char, f.is_2byte)),
    ));
}

proof fn lemma_best_size(s: ServerModel, conn: ClientConnection, data: Seq<u8>) -> (e: Seq<u8>)
    requires
        data.len() >= 12,
        data[0] == 97,
    ensures
        server_fits(s, conn, data),
        server_request(s, conn, data).1 is Ok,
        server_request(s, conn, data).0 == s.replying(conn, e),
        e.len() == 32,
        e[0] == 1,
        u16_at(conn.byte_order, e, 8) == u16_at(conn.byte_order, data, 8),
        u16_at(conn.byte_order, e, 10) == u16_at(conn.byte_order, data, 10),
{
    reveal(server_request);
    let o = conn.byte_order;
    let e = reply_head(conn, 0, 0) + bytes16(o, u16_at(o, data, 8)) + bytes16(
        o,
        u16_at(o, data, 10),
    ) + zeros(20);
    lemma_two_bytes(o, e, 8, u16_at(o, data, 8));
    lemma_two_bytes(o, e, 10, u16_at(o, data, 10));
    e
}

/// QueryBestSize replies with the size that was asked about.
pub proof fn law_best_size_is_the_asked_one(
    s: ServerModel,
    id: u32,
    data: Seq<u8>,
    after: ServerModel,
    r: Option<Pending>,
)
    requires
        s.connections.dom().contains(id),
        data.len() >= 12,
        data[0] == 97,
        processing_may_lead_to(s, id, data, after, r),
    ensures
        ({
            let o = s.connections[id].byte_order;
            exists|e: Seq<u8>| #[trigger]
                answered(s, after, s.connections[id].id, e) && e.len() == 32 && e[0] == 1 && u16_at(
                    o,
                    e,
                    8,
                ) == u16_at(o, data, 8) && u16_at(o, e, 10) == u16_at(o, data, 10)
        }),
{
    let e = lemma_best_size(counted(s, id), counting(s.connections[id]), data);
    lemma_server_processed(s, id, data, after, r);
    assert(answered(s, after, s.connections[id].id, e));
}

proof fn lemma_extension(s: ServerModel, conn: ClientConnection, data: Seq<u8>) -> (e: Seq<u8>)
    requires
        data.len() >= 8,
        data.len() >= 8 + u16_at(conn.byte_order, data, 4),
        data[0] == 98,
    ensures
        server_fits(s, conn, data),
        server_request(s, conn, data).1 is Ok,
        server_request(s, conn, data).0 == s.replying(conn, e),
        e.len() == 32,
        e[0] == 1,
        match extension_named(
            super::extensions::announced(),
            asked_name(conn.byte_order, data),
        ) {
            Some(x) => e[8] == 1 && e[9] == x.major_opcode && e[10] == x.first_event && e[11]
                == x.first_error,
            None => e[8] == 0,
        },
{
    reveal(server_request);
    let head = reply_head(conn, 0, 0);
    match extension_named(super::extensions::announced(), asked_name(conn.byte_order, data)) {
        Some(x) => head + byte(1) + byte(x.major_opcode) + byte(x.first_event) + byte(x.first_error)
            + zeros(20),
        None => head + byte(0) + byte(0) + byte(0) + byte(0) + zeros(20),
    }
}

/// QueryExtension replies whether there is an extension of that name, and with the
/// opcode, the first event and the first error that it announces.
pub proof fn law_extensions_are_replied(
    s: ServerModel,
    id: u32,
    data: Seq<u8>,
    after: ServerModel,
    r: Option<Pending>,
)
    requires
        s.connections.dom().contains(id),
        data.len() >= 8,
        data.len() >= 8 + u16_at(s.connections[id].byte_order, data, 4),
        data[0] == 98,
        processing_may_lead_to(s, id, data, after, r),
    ensures
        exists|e: Seq<u8>| #[trigger]
            answered(s, after, s.connections[id].id, e) && e.len() == 32 && e[0] == 1 && match extension_named(
                super::extensions::announced(),
                asked_name(s.connections[id].byte_order, data),
            ) {
                Some(x) => e[8] == 1 && e[9] == x.major_opcode && e[10] == x.first_event && e[11]
                    == x.first_error,
                None => e[8] == 0,
            },
{
    let e = lemma_extension(counted(s, id), counting(s.connections[id]), data);
    lemma_server_processed(s, id, data, after, r);
    assert(answered(s, after, s.connections[id].id, e));
}

/// Whether an action is a button event for a client, as it reads it.
pub open spec fn is_button(
    s: ServerModel,
    a: ActionModel,
    who: u32,
    kind: u8,
    button: u8,
    spot: Spot,
    p: Pointing,
    state: u16,
) -> bool {
    a matches ActionModel::Event { conn, data } && conn == who && reads_input(
        s.connections[who].byte_order,
        data,
        kind,
        button,
        p.time,
        s.root(),
        spot.window,
        0,
        p.root_x,
        p.root_y,
        spot.x,
        spot.y,
        state,
    )
}

proof fn lemma_button(
    s: ServerModel,
    who: u32,
    kind: u8,
    button: u8,
    spot: Spot,
    p: Pointing,
    state: u16,
)
    requires
        kind == 4 || kind == 5,
        spot.window != 0,
        s.window(spot.window) is Some,
        first_selecting(
            s.window(spot.window)->0.event_selections,
            Wanted::Mask(
                if kind == 4 {
                    4
                } else {
                    8
                },
            ),
        ) == Some(who),
        s.connections.dom().contains(who),
    ensures
        ({
            let t = button_told(
                s,
                kind,
                spot.window,
                button,
                spot.x,
                spot.y,
                p.root_x,
                p.root_y,
                state,
                p.time,
            );
            &&& t == ServerModel { outbox: t.outbox, ..s }
            &&& t.outbox.len() == s.outbox.len() + 1
            &&& t.outbox.drop_last() == s.outbox
            &&& is_button(s, t.outbox.last(), who, kind, button, spot, p, state)
        }),
{
    let t = button_told(
        s,
        kind,
        spot.window,
        button,
        spot.x,
        spot.y,
        p.root_x,
        p.root_y,
        state,
        p.time,
    );
    law_input_is_read(
        s.connections[who],
        kind,
        button,
        p.time,
        s.root(),
        spot.window,
        0,
        p.root_x,
        p.root_y,
        spot.x,
        spot.y,
        state,
        true,
    );
    assert(t.outbox.drop_last() =~= s.outbox);
}

/// A turn of the wheel is told click by click to a client that selected buttons on
/// the window: the wheel's button goes down and comes up at the spot, without the
/// button that is being dragged.
pub proof fn law_wheel_turns_are_heard(
    s: ServerModel,
    button: u8,
    spot: Spot,
    p: Pointing,
    clicks: nat,
    i: int,
)
    requires
        spot.window != 0,
        s.window(spot.window) is Some,
        first_to_want(s.window(spot.window)->0.event_selections, 4, i),
        first_to_want(s.window(spot.window)->0.event_selections, 8, i),
        s.connections.dom().contains(s.window(spot.window)->0.event_selections[i].0),
    ensures
        ({
            let who = s.window(spot.window)->0.event_selections[i].0;
            let t = wheel_turned(s, button, spot, p, clicks);
            let n = s.outbox.len();
            let state = p.state & !0x100u16;
            &&& t == ServerModel { outbox: t.outbox, ..s }
            &&& t.outbox.len() == n + 2 * clicks
            &&& t.outbox.take(n as int) == s.outbox
            &&& forall|k: int| #![trigger t.outbox[n + 2 * k]]
                0 <= k < clicks ==> is_button(
                    s,
                    t.outbox[n + 2 * k],
                    who,
                    4,
                    button,
                    spot,
                    p,
                    state,
                ) && is_button(s, t.outbox[n + 2 * k + 1], who, 5, button, spot, p, state)
        }),
    decreases clicks,
{
    let sels = s.window(spot.window)->0.event_selections;
    let who = sels[i].0;
    let t = wheel_turned(s, button, spot, p, clicks);
    let n = s.outbox.len();
    let state = p.state & !0x100u16;
    if clicks == 0 {
        assert(t.outbox.take(n as int) =~= s.outbox);
    } else {
        let k1 = (clicks - 1) as nat;
        law_wheel_turns_are_heard(s, button, spot, p, k1, i);
        let before = wheel_turned(s, button, spot, p, k1);
        lemma_first_to_want(sels, Wanted::Mask(4), 4, i);
        lemma_first_to_want(sels, Wanted::Mask(8), 8, i);
        lemma_button(before, who, 4, button, spot, p, state);
        let down = button_told(
            before,
            4,
            spot.window,
            button,
            spot.x,
            spot.y,
            p.root_x,
            p.root_y,
            state,
            p.time,
        );
        lemma_button(down, who, 5, button, spot, p, state);
        let m = before.outbox.len() as int;
        assert forall|j: int| 0 <= j < m implies #[trigger] t.outbox[j] == before.outbox[j] by {
            assert(t.outbox.drop_last()[j] == down.outbox[j]);
            assert(down.outbox.drop_last()[j] == before.outbox[j]);
        }
        assert(t.outbox[m] == down.outbox.last()) by {
            assert(t.outbox.drop_last()[m] == down.outbox[m]);
        }
        assert(t.outbox.take(n as int) =~= s.outbox) by {
            assert forall|j: int| 0 <= j < n implies t.outbox.take(n as int)[j] == s.outbox[j] by {
                assert(before.outbox.take(n as int)[j] == s.outbox[j]);
            }
        }
        assert forall|k: int| #![trigger t.outbox[n + 2 * k]] 0 <= k < clicks implies is_button(
            s,
            t.outbox[n + 2 * k],
            who,
            4,
            button,
            spot,
            p,
            state,
        ) && is_button(s, t.outbox[n + 2 * k + 1], who, 5, button, spot, p, state) by {
            if k < k1 {
                assert(before.outbox[n + 2 * k] == t.outbox[n + 2 * k]);
                assert(before.outbox[n + 2 * k + 1] == t.outbox[n + 2 * k + 1]);
            } else {
                assert(n + 2 * k == m);
                assert(t.outbox[m + 1] == t.outbox.last());
            }
        }
    }
}

/// The farther the pointer is outside, the faster the wheel turns, between one and
/// three clicks.
pub proof fn law_farther_scrolls_faster(near: i16, far: i16)
    requires
        0 <= near <= far,
    ensures
        1 <= clicks_for(near) <= clicks_for(far) <= 3,
        clicks_for(far) == if far < 10 {
            1nat
        } else if far < 20 {
            2nat
        } else {
            3nat
        },
{
}

proof fn lemma_open_font(s: ServerModel, conn: ClientConnection, data: Seq<u8>)
    requires
        data.len() >= 12,
        data[0] == 45,
    ensures
        font_request(s, conn, data).1 is Ok,
        ({
            let o = conn.byte_order;
            let id = u32_at(o, data, 4);
            font_request(s, conn, data).0 == s.with_resource(
                id,
                ResourceModel::Font(
                    super::fonts::font_named(id, super::fonts::opened_name(o, data)),
                ),
            )
        }),
{
    reveal(font_request);
}

/// OpenFont makes a font under the identifier and with the name that were sent; its
/// characters are all as wide.
pub proof fn law_fonts_are_opened_as_asked(
    s: ServerModel,
    id: u32,
    data: Seq<u8>,
    font: u32,
    name: Seq<char>,
    after: ServerModel,
    r: Option<Pending>,
)
    requires
        s.connections.dom().contains(id),
        data.len() >= 12,
        data[0] == 45,
        u32_at(s.connections[id].byte_order, data, 4) == font,
        data.len() >= 12 + u16_at(s.connections[id].byte_order, data, 8),
        super::text::utf8_text(
            data.subrange(12, 12 + u16_at(s.connections[id].byte_order, data, 8)),
        ) == Some(name),
        processing_may_lead_to(s, id, data, after, r),
    ensures
        font_in(after.resources, font) is Some,
        ({
            let f = font_in(after.resources, font)->0;
            &&& f.id == font
            &&& f.name == name
            &&& f.ascent == super::fonts::metrics_of(name).0
            &&& f.descent == super::fonts::metrics_of(name).1
            &&& f.max_char_width == super::fonts::metrics_of(name).2
            &&& f.min_char_width == f.max_char_width
        }),
        after.outbox == s.outbox,
{
    lemma_open_font(counted(s, id), counting(s.connections[id]), data);
    lemma_font_processed(s, id, data, after, r);
}

/// What a hexadecimal digit stands for.
pub open spec fn digit_value(c: char) -> int {
    if '0' <= c <= '9' {
        c as int - '0' as int
    } else {
        c as int - 'A' as int + 10
    }
}

proof fn lemma_digit(d: int)
    requires
        0 <= d < 16,
    ensures
        digit_value(super::mapping::hex_digit(d)) == d,
{
}

/// A window without a name is shown under its identifier, in eight hexadecimal
/// digits, the highest first.
pub proof fn law_default_title_names_the_window(id: u32)
    ensures
        ({
            let t = super::mapping::default_title(id);
            let d = t.skip("X11 Window 0x"@.len() as int);
            &&& t.take("X11 Window 0x"@.len() as int) == "X11 Window 0x"@
            &&& d.len() == 8
            &&& digit_value(d[0]) * 0x1000_0000 + digit_value(d[1]) * 0x100_0000 + digit_value(d[2])
                * 0x10_0000 + digit_value(d[3]) * 0x1_0000 + digit_value(d[4]) * 0x1000
                + digit_value(d[5]) * 0x100 + digit_value(d[6]) * 0x10 + digit_value(d[7]) == id
        }),
{
    let h = super::mapping::hex8(id);
    let t = super::mapping::default_title(id);
    let n = "X11 Window 0x"@.len() as int;
    assert(t.skip(n) =~= h);
    assert(t.take(n) =~= "X11 Window 0x"@);
    let v = id as int;
    lemma_digit(v / 0x1000_0000);
    lemma_digit((v / 0x100_0000) % 16);
    lemma_digit((v / 0x10_0000) % 16);
    lemma_digit((v / 0x1_0000) % 16);
    lemma_digit((v / 0x1000) % 16);
    lemma_digit((v / 0x100) % 16);
    lemma_digit((v / 0x10) % 16);
    lemma_digit(v % 16);
    lemma_digits_add_up(v);
}

proof fn lemma_digits_add_up(v: int)
    requires
        0 <= v < 0x1_0000_0000,
    ensures
        (v / 0x1000_0000) * 0x1000_0000 + ((v / 0x100_0000) % 16) * 0x100_0000 + ((v / 0x10_0000)
            % 16) * 0x10_0000 + ((v / 0x1_0000) % 16) * 0x1_0000 + ((v / 0x1000) % 16) * 0x1000 + ((v
            / 0x100) % 16) * 0x100 + ((v / 0x10) % 16) * 0x10 + v % 16 == v,
{
    let v1 = v / 0x10;
    let v2 = v / 0x100;
    let v3 = v / 0x1000;
    let v4 = v / 0x1_0000;
    let v5 = v / 0x10_0000;
    let v6 = v / 0x100_0000;
    assert(v2 == v1 / 16);
    assert(v3 == v2 / 16);
    assert(v4 == v3 / 16);
    assert(v5 == v4 / 16);
    assert(v6 == v5 / 16);
    assert(v / 0x1000_0000 == v6 / 16);
}

proof fn lemma_fake_button(
    s: ServerModel,
    conn: ClientConnection,
    data: Seq<u8>,
    after: ServerModel,
    x: i16,
    y: i16,
)
    requires
        data[4] == 4 || data[4] == 5,
        super::extensions::xtest::fake_may_lead_to(s, conn, data, after),
        s.focus_window > 1,
        s.pointer_x == x,
        s.pointer_y == y,
    ensures
        after == button_told(
            s,
            data[4],
            s.focus_window,
            data[5],
            x,
            y,
            x,
            y,
            0,
            s.now,
        ),
{
    assert(super::wire::wrap16(x as int) == x);
    assert(super::wire::wrap16(y as int) == y);
}

/// A made-up button event reaches a client that selected it on the window that has
/// the focus: it reads the kind and the button that were sent, where the pointer
/// is.
pub proof fn law_made_up_buttons_are_heard(
    s: ServerModel,
    conn: ClientConnection,
    data: Seq<u8>,
    after: ServerModel,
    i: int,
)
    requires
        data.len() >= 36,
        data[4] == 4 || data[4] == 5,
        super::extensions::xtest::fake_may_lead_to(s, conn, data, after),
        s.focus_window > 1,
        s.window(s.focus_window) is Some,
        first_to_want(
            s.window(s.focus_window)->0.event_selections,
            if data[4] == 4 {
                4
            } else {
                8
            },
            i,
        ),
        s.connections.dom().contains(s.window(s.focus_window)->0.event_selections[i].0),
        -0x8000 <= s.pointer_x <= 0x7FFF,
        -0x8000 <= s.pointer_y <= 0x7FFF,
    ensures
        ({
            let who = s.window(s.focus_window)->0.event_selections[i].0;
            &&& after.outbox.len() == s.outbox.len() + 1
            &&& after.outbox.last() matches ActionModel::Event { conn: c, data: e } && c == who
                && reads_input(
                s.connections[who].byte_order,
                e,
                data[4],
                data[5],
                s.now,
                s.root(),
                s.focus_window,
                0,
                s.pointer_x as i16,
                s.pointer_y as i16,
                s.pointer_x as i16,
                s.pointer_y as i16,
                0,
            )
        }),
{
    let sels = s.window(s.focus_window)->0.event_selections;
    let who = sels[i].0;
    let mask = if data[4] == 4 {
        4u32
    } else {
        8u32
    };
    let (x, y) = (s.pointer_x as i16, s.pointer_y as i16);
    lemma_fake_button(s, conn, data, after, x, y);
    lemma_first_to_want(sels, Wanted::Mask(mask), mask, i);
    let spot = Spot { window: s.focus_window, x, y };
    let p = Pointing {
        window: s.focus_window,
        x,
        y,
        root_x: x,
        root_y: y,
        state: 0,
        time: s.now,
    };
    lemma_button(s, who, data[4], data[5], spot, p, 0);
}

proof fn lemma_destroy(s: ServerModel, conn: ClientConnection, data: Seq<u8>, window: u32)
    requires
        data.len() >= 8,
        data[0] == 4,
        u32_at(conn.byte_order, data, 4) == window,
    ensures
        window_request(s, conn, data).1 is Ok,
        window_request(s, conn, data).0 == super::windows::destroyed(
            s,
            window,
            s.resources.dom().len(),
        ),
{
    reveal(window_request);
}

/// DestroyWindow on a window without children takes it away, from its parent's list
/// too, and has the native window that it has destroyed.
pub proof fn law_windows_are_destroyed(
    s: ServerModel,
    id: u32,
    data: Seq<u8>,
    window: u32,
    after: ServerModel,
    r: Option<Pending>,
)
    requires
        s.connections.dom().contains(id),
        data.len() >= 8,
        data[0] == 4,
        u32_at(s.connections[id].byte_order, data, 4) == window,
        s.window(window) is Some,
        s.window(window)->0.children.len() == 0,
        s.window(window)->0.parent != window,
        s.resources.dom().finite(),
        processing_may_lead_to(s, id, data, after, r),
    ensures
        !after.resources.dom().contains(window),
        s.window(window)->0.native_window matches Some(handle) ==> after.outbox == s.outbox.push(
            ActionModel::Display(DisplayModel::DestroyWindow { handle }),
        ),
        s.window(window)->0.native_window is None ==> after.outbox == s.outbox,
{
    assert(s.resources.dom().contains(window));
    assert(s.resources.dom().len() > 0) by {
        vstd::set_lib::lemma_set_empty_equivalency_len(s.resources.dom());
    }
    lemma_destroy(counted(s, id), counting(s.connections[id]), data, window);
    lemma_window_processed(s, id, data, after, r);
}

/// A list of fonts is read with how many there are and their names, each behind its
/// length.
pub proof fn law_font_lists_are_read(conn: ClientConnection, found: Seq<Seq<char>>)
    requires
        found.len() < 0x10000,
    ensures
        ({
            let o = conn.byte_order;
            let e = super::fonts::font_list_reply(conn, found);
            let list = super::fonts::counted_all(found);
            &&& e.len() >= 32 + list.len()
            &&& e[0] == 1
            &&& u16_at(o, e, 8) == found.len()
            &&& e.subrange(32, 32 + list.len() as int) == list
        }),
{
    let o = conn.byte_order;
    let e = super::fonts::font_list_reply(conn, found);
    let list = super::fonts::counted_all(found);
    lemma_two_bytes(o, e, 8, found.len() as u16);
    assert(e.subrange(32, 32 + list.len() as int) =~= list);
}

/// The last name in such a list stands behind its length.
pub proof fn law_font_names_are_counted(found: Seq<Seq<char>>, name: Seq<char>)
    requires
        vstd::utf8::encode_utf8(name).len() < 256,
    ensures
        ({
            let b = vstd::utf8::encode_utf8(name);
            let before = super::fonts::counted_all(found);
            let list = super::fonts::counted_all(found.push(name));
            &&& list.len() == before.len() + 1 + b.len()
            &&& list.take(before.len() as int) == before
            &&& list[before.len() as int] == b.len()
            &&& list.skip(before.len() as int + 1) == b
        }),
{
    let b = vstd::utf8::encode_utf8(name);
    let before = super::fonts::counted_all(found);
    let list = super::fonts::counted_all(found.push(name));
    assert(found.push(name).drop_last() =~= found);
    assert(found.push(name).last() == name);
    assert(list == before + super::fonts::counted(name));
    assert(list.take(before.len() as int) =~= before);
    assert(list.skip(before.len() as int + 1) =~= b);
}

proof fn lemma_select_device(s: ServerModel, conn: ClientConnection, data: Seq<u8>)
    requires
        data.len() >= 20,
        data[0] == 131,
        data[1] == 46,
        u16_at(conn.byte_order, data, 8) == 1,
        u16_at(conn.byte_order, data, 14) == 1,
    ensures
        server_fits(s, conn, data),
        server_request(s, conn, data).1 is Ok,
        server_request(s, conn, data).0 == super::extensions::xinput2::selecting(
            s,
            u32_at(conn.byte_order, data, 4),
            conn.id,
            u16_at(conn.byte_order, data, 12),
            u32_at(ByteOrder::LittleEndian, data, 16),
        ),
{
    reveal(server_request);
    reveal_with_fuel(super::extensions::xinput2::selecting_all, 3);
}

/// A client that selects events of a device on a window has them selected there: the
/// device and the mask are those that it sent.
pub proof fn law_device_events_are_selected(
    s: ServerModel,
    id: u32,
    data: Seq<u8>,
    window: u32,
    after: ServerModel,
    r: Option<Pending>,
)
    requires
        s.connections.dom().contains(id),
        data.len() >= 20,
        data[0] == 131,
        data[1] == 46,
        u32_at(s.connections[id].byte_order, data, 4) == window,
        u16_at(s.connections[id].byte_order, data, 8) == 1,
        u16_at(s.connections[id].byte_order, data, 14) == 1,
        u32_at(ByteOrder::LittleEndian, data, 16) != 0,
        s.window(window) is Some,
        processing_may_lead_to(s, id, data, after, r),
    ensures
        after.window(window) is Some,
        ({
            let w = s.window(window)->0;
            let v = after.window(window)->0;
            &&& v == super::resources::WindowModel {
                xi2_event_selections: v.xi2_event_selections,
                ..w
            }
            &&& v.xi2_event_selections.len() > 0
            &&& v.xi2_event_selections.last() == (
                s.connections[id].id,
                u16_at(s.connections[id].byte_order, data, 12),
                u32_at(ByteOrder::LittleEndian, data, 16),
            )
        }),
{
    lemma_select_device(counted(s, id), counting(s.connections[id]), data);
    lemma_server_processed(s, id, data, after, r);
}

} // verus!
