//! Text from the input method, as key events.
//!
//! ASCII characters are typed on the keys that carry them. Other characters
//! borrow spare keycodes: their keysyms are lent to the keycodes from
//! `VIRTUAL_BASE` on, every client is told that the keyboard changed, and once
//! the client has had time to fetch the new keyboard the keys are sent.

use vstd::prelude::*;

use super::connection::EventData;
use super::delivery::{find_key_destination, key_destination, key_sent, owner_found, send_key};
use super::events::set8;
use super::extensions::xkb::key_symbols;
use super::keyboard::{keycode_keysyms, VIRTUAL_BASE};
use super::protocol::{event_mask, event_type};
use super::search::{deepest_child, find_deepest_child, MAX_DESCENT};
use super::tables;
use super::text::chars_of;
use super::wire::zeros;
use super::{ServerModel, XServer};
use crate::display::Xid;

verus! {

/// How many columns `unicode_width` says a character takes.
pub uninterp spec fn char_width(c: char) -> Option<usize>;

/// `unicode_width::UnicodeWidthChar::width`: the columns a character takes; one
/// for printable ASCII, nothing for control characters and only for those.
#[verifier::external_body]
fn width_of(c: char) -> (r: Option<usize>)
    ensures
        r == char_width(c),
        0x20 <= c as u32 && (c as u32) < 0x7F ==> r == Some(1usize),
        r is None <==> (c as u32) < 0x20 || 0x7F <= c as u32 && (c as u32) < 0xA0,
{
    unicode_width::UnicodeWidthChar::width(c)
}

/// How many columns a text takes; control characters take none.
pub open spec fn columns(text: Seq<char>) -> nat
    decreases text.len(),
{
    if text.len() == 0 {
        0
    } else {
        columns(text.drop_last()) + match char_width(text.last()) {
            Some(n) => n as nat,
            None => 0,
        }
    }
}

/// How many columns a text takes on screen.
pub fn preedit_display_cols(text: &str) -> (r: usize)
    ensures
        r == if columns(text@) <= usize::MAX {
            columns(text@) as int
        } else {
            usize::MAX as int
        },
{
    let chars = chars_of(text);
    let mut r: usize = 0;
    for i in 0..chars.len()
        invariant
            r == if columns(chars@.take(i as int)) <= usize::MAX {
                columns(chars@.take(i as int)) as int
            } else {
                usize::MAX as int
            },
    {
        assert(chars@.take(i + 1).drop_last() =~= chars@.take(i as int));
        let n: usize = match width_of(chars[i]) {
            Some(n) => n,
            None => 0,
        };
        r = r.saturating_add(n);
    }
    assert(chars@.take(chars@.len() as int) =~= chars@);
    r
}

/// Where a character stands on a row, from a place on.
pub open spec fn position_from(row: Seq<char>, c: u32, at: int) -> Option<int>
    decreases row.len() - at,
{
    if at < 0 || at >= row.len() {
        None
    } else if row[at] as u32 == c {
        Some(at)
    } else {
        position_from(row, c, at + 1)
    }
}

/// The key that carries a character, without or with Shift, by its place on a
/// row of the keyboard.
pub open spec fn key_carrying(c: u32, shift: bool) -> Option<int> {
    let top = if shift {
        "!@#$%^&*()_+"@
    } else {
        "1234567890-="@
    };
    let upper = if shift {
        "QWERTYUIOP{}"@
    } else {
        "qwertyuiop[]"@
    };
    let home = if shift {
        "ASDFGHJKL:\"~"@
    } else {
        "asdfghjkl;'`"@
    };
    let lower = if shift {
        "|ZXCVBNM<>?"@
    } else {
        "\\zxcvbnm,./"@
    };
    if let Some(i) = position_from(top, c, 0) {
        Some(2 + i)
    } else if let Some(i) = position_from(upper, c, 0) {
        Some(16 + i)
    } else if let Some(i) = position_from(home, c, 0) {
        Some(30 + i)
    } else if let Some(i) = position_from(lower, c, 0) {
        Some(43 + i)
    } else {
        None
    }
}

/// The key for a character: its own, or the space bar where it has none.
pub open spec fn key_for(c: u32) -> int {
    if c == 0x0D || c == 0x0A {
        28
    } else if c == 0x09 {
        15
    } else if c == 0x08 || c == 0x7F {
        14
    } else if c == 0x1B {
        1
    } else if let Some(k) = key_carrying(c, false) {
        k
    } else if let Some(k) = key_carrying(c, true) {
        k
    } else {
        57
    }
}

/// The keycode for a character.
pub open spec fn keycode_for(c: u32) -> u8 {
    (key_for(c) + 8) as u8
}

fn find_on_row(row: &str, c: u32) -> (r: Option<usize>)
    ensures
        match position_from(row@, c, 0) {
            Some(i) => r is Some && r->0 == i && i < row@.len(),
            None => r is None,
        },
{
    let chars = chars_of(row);
    for i in 0..chars.len()
        invariant
            chars@ == row@,
            position_from(row@, c, 0) == position_from(row@, c, i as int),
    {
        if chars[i] as u32 == c {
            return Some(i);
        }
    }
    None
}

fn find_key(c: u32, shift: bool) -> (r: Option<u8>)
    ensures
        match key_carrying(c, shift) {
            Some(k) => r is Some && r->0 == k && r->0 < 56,
            None => r is None,
        },
{
    proof {
        reveal_strlit("!@#$%^&*()_+");
        reveal_strlit("1234567890-=");
        reveal_strlit("QWERTYUIOP{}");
        reveal_strlit("qwertyuiop[]");
        reveal_strlit("ASDFGHJKL:\"~");
        reveal_strlit("asdfghjkl;'`");
        reveal_strlit("|ZXCVBNM<>?");
        reveal_strlit("\\zxcvbnm,./");
    }
    let (top, upper, home, lower) = if shift {
        ("!@#$%^&*()_+", "QWERTYUIOP{}", "ASDFGHJKL:\"~", "|ZXCVBNM<>?")
    } else {
        ("1234567890-=", "qwertyuiop[]", "asdfghjkl;'`", "\\zxcvbnm,./")
    };
    if let Some(i) = find_on_row(top, c) {
        return Some(2 + i as u8);
    }
    if let Some(i) = find_on_row(upper, c) {
        return Some(16 + i as u8);
    }
    if let Some(i) = find_on_row(home, c) {
        return Some(30 + i as u8);
    }
    if let Some(i) = find_on_row(lower, c) {
        return Some(43 + i as u8);
    }
    None
}

/// The keycode for an ASCII character.
pub fn ascii_to_x11_keycode(ascii: u32) -> (r: u8)
    ensures
        r == keycode_for(ascii),
{
    let key: u8 = match ascii {
        0x0D | 0x0A => 28,
        0x09 => 15,
        0x08 | 0x7F => 14,
        0x1B => 1,
        _ => match find_key(ascii, false) {
            Some(k) => k,
            None => match find_key(ascii, true) {
                Some(k) => k,
                None => 57,
            },
        },
    };
    key + 8
}

/// Whether a character takes the Shift key.
pub open spec fn takes_shift(c: char) -> bool {
    'A' <= c <= 'Z' || c == '!' || c == '@' || c == '#' || c == '$' || c == '%' || c == '^' || c
        == '&' || c == '*' || c == '(' || c == ')' || c == '_' || c == '+' || c == '{' || c == '}'
        || c == '|' || c == ':' || c == '"' || c == '<' || c == '>' || c == '?' || c == '~'
}

/// Whether an ASCII character takes the Shift key.
pub fn needs_shift(ch: char) -> (r: bool)
    ensures
        r == takes_shift(ch),
{
    ('A' <= ch && ch <= 'Z') || ch == '!' || ch == '@' || ch == '#' || ch == '$' || ch == '%' || ch
        == '^' || ch == '&' || ch == '*' || ch == '(' || ch == ')' || ch == '_' || ch == '+' || ch
        == '{' || ch == '}' || ch == '|' || ch == ':' || ch == '"' || ch == '<' || ch == '>' || ch
        == '?' || ch == '~'
}

/// The characters that take Shift are those that some key carries with Shift.
pub proof fn law_shifted_keys(c: char)
    ensures
        takes_shift(c) <==> key_carrying(c as u32, true) is Some,
{
    reveal_strlit("!@#$%^&*()_+");
    reveal_strlit("QWERTYUIOP{}");
    reveal_strlit("ASDFGHJKL:\"~");
    reveal_strlit("|ZXCVBNM<>?");
    reveal_with_fuel(position_from, 14);
}

/// Full-width forms become plain ASCII, the ideographic space a space, and the
/// yen sign a backslash.
pub open spec fn plain_char(c: char) -> char {
    if '\u{FF01}' <= c <= '\u{FF5E}' {
        (c as u32 - 0xFF01 + 0x0021) as char
    } else if c == '\u{3000}' {
        ' '
    } else if c == '\u{00A5}' {
        '\\'
    } else {
        c
    }
}

fn make_plain(c: char) -> (r: char)
    ensures
        r == plain_char(c),
{
    if '\u{FF01}' <= c && c <= '\u{FF5E}' {
        ((c as u32 - 0xFF01 + 0x0021) as u8) as char
    } else if c == '\u{3000}' {
        ' '
    } else if c == '\u{00A5}' {
        '\\'
    } else {
        c
    }
}

/// A text with its characters made plain.
pub open spec fn plain_text(text: Seq<char>) -> Seq<char> {
    Seq::new(text.len(), |i: int| plain_char(text[i]))
}

fn make_plain_text(text: &Vec<char>) -> (r: Vec<char>)
    ensures
        r@ == plain_text(text@),
{
    let mut r: Vec<char> = Vec::with_capacity(text.len());
    for i in 0..text.len()
        invariant
            r@ == plain_text(text@).take(i as int),
    {
        r.push(make_plain(text[i]));
        assert(r@ =~= plain_text(text@).take(i + 1));
    }
    assert(plain_text(text@).take(text@.len() as int) =~= plain_text(text@));
    r
}

/// How many keycodes can be lent at a time.
pub const MAX_VIRTUAL: usize = 56;

/// The keysym of a character beyond ASCII.
pub open spec fn unicode_keysym(c: char) -> u32 {
    (0x0100_0000 + c as u32) as u32
}

fn keysym_of(c: char) -> (r: u32)
    ensures
        r == unicode_keysym(c),
{
    0x0100_0000 + c as u32
}

/// Whether a character is ASCII.
pub open spec fn is_ascii_char(c: char) -> bool {
    (c as u32) < 128
}

/// A run of keys: which keys with which modifiers, the keysyms lent to spare
/// keycodes, and where in the text the run ends.
pub struct BatchModel {
    pub keys: Seq<(u8, u16)>,
    pub keysyms: Seq<u32>,
    pub end: int,
}

/// Where a keysym stands among those already lent, from a place on.
pub open spec fn slot_from(keysyms: Seq<u32>, keysym: u32, at: int) -> Option<int>
    decreases keysyms.len() - at,
{
    if at < 0 || at >= keysyms.len() {
        None
    } else if keysyms[at] == keysym {
        Some(at)
    } else {
        slot_from(keysyms, keysym, at + 1)
    }
}

/// A run of keys continued from a place in a text, until the text ends or no
/// keycode is left to lend.
pub open spec fn batch_from(chars: Seq<char>, b: BatchModel) -> BatchModel
    decreases chars.len() - b.end,
{
    if b.end < 0 || b.end >= chars.len() {
        b
    } else {
        let c = chars[b.end];
        if is_ascii_char(c) {
            let shift = if takes_shift(c) {
                1u16
            } else {
                0u16
            };
            batch_from(
                chars,
                BatchModel {
                    keys: b.keys.push((keycode_for(c as u32), shift)),
                    end: b.end + 1,
                    ..b
                },
            )
        } else {
            match slot_from(b.keysyms, unicode_keysym(c), 0) {
                Some(i) => batch_from(
                    chars,
                    BatchModel {
                        keys: b.keys.push(((VIRTUAL_BASE + i) as u8, 0)),
                        end: b.end + 1,
                        ..b
                    },
                ),
                None => if b.keysyms.len() >= MAX_VIRTUAL {
                    b
                } else {
                    batch_from(
                        chars,
                        BatchModel {
                            keys: b.keys.push(((VIRTUAL_BASE + b.keysyms.len()) as u8, 0)),
                            keysyms: b.keysyms.push(unicode_keysym(c)),
                            end: b.end + 1,
                        },
                    )
                },
            }
        }
    }
}

/// The run of keys that starts at a place in a text.
pub open spec fn batch_at(chars: Seq<char>, at: int) -> BatchModel {
    batch_from(chars, BatchModel { keys: Seq::empty(), keysyms: Seq::empty(), end: at })
}

/// A run of keys.
#[derive(Debug)]
pub struct KeyBatch {
    pub keys: Vec<(u8, u16)>,
    pub keysyms: Vec<u32>,
    pub end: usize,
}

impl View for KeyBatch {
    type V = BatchModel;

    open spec fn view(&self) -> BatchModel {
        BatchModel { keys: self.keys@, keysyms: self.keysyms@, end: self.end as int }
    }
}

fn find_slot(keysyms: &Vec<u32>, keysym: u32) -> (r: Option<usize>)
    ensures
        match slot_from(keysyms@, keysym, 0) {
            Some(i) => r is Some && r->0 == i && i < keysyms@.len(),
            None => r is None,
        },
{
    for i in 0..keysyms.len()
        invariant
            slot_from(keysyms@, keysym, 0) == slot_from(keysyms@, keysym, i as int),
    {
        if keysyms[i] == keysym {
            return Some(i);
        }
    }
    None
}

/// Gathers the run of keys that starts at a place in a text.
pub fn next_batch(chars: &Vec<char>, at: usize) -> (r: KeyBatch)
    requires
        at <= chars@.len(),
    ensures
        r@ == batch_at(chars@, at as int),
        r.keysyms@.len() <= MAX_VIRTUAL,
{
    let len: usize = chars.len();
    let mut b = KeyBatch { keys: Vec::new(), keysyms: Vec::new(), end: at };
    assert(b@ == (BatchModel { keys: Seq::empty(), keysyms: Seq::empty(), end: at as int }));
    let ghost goal = batch_at(chars@, at as int);
    while b.end < len
        invariant
            len == chars@.len(),
            b.end <= len,
            goal == batch_at(chars@, at as int),
            goal == batch_from(chars@, b@),
            b.keysyms@.len() <= MAX_VIRTUAL,
        decreases len - b.end,
    {
        let c: char = chars[b.end];
        if (c as u32) < 128 {
            let keycode: u8 = ascii_to_x11_keycode(c as u32);
            let state: u16 = if needs_shift(c) {
                1
            } else {
                0
            };
            b.keys.push((keycode, state));
        } else {
            let keysym: u32 = keysym_of(c);
            let slot: usize = match find_slot(&b.keysyms, keysym) {
                Some(i) => i,
                None => {
                    if b.keysyms.len() >= MAX_VIRTUAL {
                        return b;
                    }
                    let i: usize = b.keysyms.len();
                    b.keysyms.push(keysym);
                    i
                },
            };
            b.keys.push((VIRTUAL_BASE + slot as u8, 0));
        }
        b.end = b.end + 1;
    }
    b
}

/// A text on its way to a client: where its keys go, its characters, how many
/// have been sent, and the time its keys carry.
#[derive(Debug)]
pub struct TextJob {
    pub conn: u32,
    pub window: Xid,
    pub child: Xid,
    pub chars: Vec<char>,
    pub at: usize,
    pub time: u32,
}

impl TextJob {
    /// Where the keys go.
    pub open spec fn to(self) -> (u32, u32, u32) {
        (self.conn, self.window, self.child)
    }

    /// Progress stays inside the text.
    pub open spec fn wf(self) -> bool {
        self.at <= self.chars@.len()
    }
}

/// The window that input method text is for.
pub open spec fn text_target(s: ServerModel, window: u32) -> u32 {
    deepest_child(
        s.resources,
        if s.focus_window > 1 {
            s.focus_window
        } else {
            window
        },
        MAX_DESCENT as nat,
    )
}

/// Whether a text may be set on its way like this: to where keys typed into its
/// target go, if there is a client there.
pub open spec fn text_may_start(s: ServerModel, window: u32, text: Seq<char>, job: Option<TextJob>) -> bool {
    let target = text_target(s, window);
    exists|owner: Option<u32>| #[trigger]
        owner_found(s.connections, target, owner) && match key_destination(
            s.resources,
            target,
            event_mask::KEY_PRESS,
            owner,
        ) {
            None => job is None,
            Some(to) => if s.connections.dom().contains(to.0) {
                &&& job is Some
                &&& job->0.to() == to
                &&& job->0.chars@ == plain_text(text)
                &&& job->0.at == 0
                &&& job->0.time == s.now
            } else {
                job is None
            },
        }
}

/// Sets a text on its way.
pub fn start_text(server: &XServer, window: Xid, text: &Vec<char>) -> (r: Option<TextJob>)
    ensures
        text_may_start(server@, window, text@, r),
        r is Some ==> r->0.wf(),
{
    let focus: u32 = server.focus_window;
    let target: Xid = find_deepest_child(
        server,
        if focus > 1 {
            focus
        } else {
            window
        },
    );
    let to = find_key_destination(server, target, event_mask::KEY_PRESS);
    let ghost owner = choose|owner: Option<u32>| #[trigger]
        owner_found(server@.connections, target, owner) && to == key_destination(
            server@.resources,
            target,
            event_mask::KEY_PRESS,
            owner,
        );
    assert(owner_found(server@.connections, target, owner));
    match to {
        None => None,
        Some((conn, event_window, child)) => {
            if server.connection(conn).is_none() {
                return None;
            }
            Some(
                TextJob {
                    conn,
                    window: event_window,
                    child,
                    chars: make_plain_text(text),
                    at: 0,
                    time: server.now,
                },
            )
        },
    }
}

/// The event that tells a client that keycodes changed.
pub open spec fn mapping_notify(first: u8, count: u8) -> Seq<u8> {
    set8(set8(set8(set8(zeros(32), 0, event_type::MAPPING_NOTIFY), 4, 1), 5, first), 6, count)
}

fn build_mapping_notify(first: u8, count: u8) -> (r: [u8; 32])
    ensures
        r@ == mapping_notify(first, count),
{
    let mut e: [u8; 32] = [0u8; 32];
    assert(e@ =~= zeros(32));
    e[0] = event_type::MAPPING_NOTIFY;
    e[4] = 1;
    e[5] = first;
    e[6] = count;
    e
}

/// The state after an event was queued for the clients of a list, in order.
pub open spec fn sent_to_all(s: ServerModel, ids: Seq<u32>, event: Seq<u8>) -> ServerModel
    decreases ids.len(),
{
    if ids.len() == 0 {
        s
    } else {
        sent_to_all(s, ids.drop_last(), event).sending(ids.last(), event)
    }
}

/// Whether a list holds every connected client once.
pub open spec fn all_clients(s: ServerModel, ids: Seq<u32>) -> bool {
    ids.no_duplicates() && forall|id: u32| #[trigger]
        s.connections.dom().contains(id) <==> ids.contains(id)
}

/// Whether a state follows when keysyms are lent: they are in place, and every
/// client was told once, in some order.
pub open spec fn keysyms_may_be_lent(s: ServerModel, keysyms: Seq<u32>, after: ServerModel) -> bool {
    let lent = ServerModel { virtual_keysyms: keysyms, ..s };
    exists|ids: Seq<u32>| #[trigger]
        all_clients(s, ids) && after == sent_to_all(
            lent,
            ids,
            mapping_notify(VIRTUAL_BASE, keysyms.len() as u8),
        )
}

fn lend_keysyms(server: &mut XServer, keysyms: Vec<u32>)
    ensures
        keysyms_may_be_lent(old(server)@, keysyms@, final(server)@),
{
    let count: u8 = keysyms.len() as u8;
    let ids = tables::connection_ids(&server.connections);
    let ghost event = mapping_notify(VIRTUAL_BASE, count);
    server.virtual_keysyms = keysyms;
    let ghost lent = server@;
    for i in 0..ids.len()
        invariant
            event == mapping_notify(VIRTUAL_BASE, count),
            server@ == sent_to_all(lent, ids@.take(i as int), event),
    {
        assert(ids@.take(i + 1).drop_last() =~= ids@.take(i as int));
        server.send(ids[i], EventData::Fixed(build_mapping_notify(VIRTUAL_BASE, count)));
    }
    assert(ids@.take(ids@.len() as int) =~= ids@);
    assert(all_clients(old(server)@, ids@));
}

/// Prepares the next run of keys of a text: lends the keysyms it needs, and
/// gives the keys. The second part of the result says whether the client should
/// be given time to fetch the new keyboard before the keys are sent. Nothing is
/// left to send when there are no keys.
pub fn begin_batch(server: &mut XServer, job: &mut TextJob) -> (r: (Vec<(u8, u16)>, bool))
    requires
        old(job).wf(),
    ensures
        ({
            let b = batch_at(old(job).chars@, old(job).at as int);
            &&& r.0@ == b.keys
            &&& r.1 == (b.keysyms.len() > 0)
            &&& (r.1 ==> keysyms_may_be_lent(old(server)@, b.keysyms, final(server)@))
            &&& (!r.1 ==> final(server)@ == old(server)@)
            &&& *final(job) == (TextJob { at: final(job).at, ..*old(job) })
            &&& final(job).at == b.end
        }),
        final(job).wf(),
{
    let b = next_batch(&job.chars, job.at);
    proof {
        law_batch(job.chars@, job.at as int);
    }
    let wait: bool = b.keysyms.len() > 0;
    job.at = b.end;
    if wait {
        lend_keysyms(server, b.keysyms);
    }
    (b.keys, wait)
}

/// The state after keys were pressed and released one after the other.
pub open spec fn keys_typed(s: ServerModel, keys: Seq<(u8, u16)>, time: u32, to: (u32, u32, u32)) -> ServerModel
    decreases keys.len(),
{
    if keys.len() == 0 {
        s
    } else {
        let before = keys_typed(s, keys.drop_last(), time, to);
        let (keycode, state) = keys.last();
        let pressed = key_sent(before, event_type::KEY_PRESS, keycode, state, time, to);
        key_sent(pressed, event_type::KEY_RELEASE, keycode, state, time, to)
    }
}

/// Presses and releases keys one after the other.
pub fn type_keys(server: &mut XServer, keys: &Vec<(u8, u16)>, time: u32, to: (u32, Xid, Xid))
    ensures
        final(server)@ == keys_typed(old(server)@, keys@, time, to),
{
    let ghost start = server@;
    for i in 0..keys.len()
        invariant
            server@ == keys_typed(start, keys@.take(i as int), time, to),
    {
        assert(keys@.take(i + 1).drop_last() =~= keys@.take(i as int));
        let (keycode, state) = keys[i];
        send_key(server, event_type::KEY_PRESS, keycode, state, time, to);
        send_key(server, event_type::KEY_RELEASE, keycode, state, time, to);
    }
    assert(keys@.take(keys@.len() as int) =~= keys@);
}

/// Sends the keys of a run.
pub fn finish_batch(server: &mut XServer, job: &TextJob, keys: &Vec<(u8, u16)>)
    ensures
        final(server)@ == keys_typed(old(server)@, keys@, job.time, job.to()),
{
    type_keys(server, keys, job.time, (job.conn, job.window, job.child));
}

/// What to do while a client has yet to fetch the keysyms it was lent.
#[derive(Debug, Clone, Copy, PartialEq, Eq, Structural)]
pub enum WaitStep {
    /// It has fetched them: go on.
    Done,
    /// It is too late to wait for it: pause once more and go on.
    LastPause,
    /// Pause and look again.
    Pause,
}

/// Decides whether to go on waiting for a client to fetch the keyboard mapping,
/// from how often it had fetched it before it was told and now, and whether the
/// time is up.
pub fn mapping_wait_step(before: Option<u32>, now: Option<u32>, late: bool) -> (r: WaitStep)
    ensures
        r == (if now != before {
            WaitStep::Done
        } else if late {
            WaitStep::LastPause
        } else {
            WaitStep::Pause
        }),
{
    let fetched: bool = match (before, now) {
        (Some(a), Some(b)) => a != b,
        (None, None) => false,
        _ => true,
    };
    if fetched {
        WaitStep::Done
    } else if late {
        WaitStep::LastPause
    } else {
        WaitStep::Pause
    }
}

/// The Backspace key.
pub const BACKSPACE_KEYCODE: u8 = 59;

/// The Backspace key a number of times.
pub open spec fn backspaces(count: nat) -> Seq<(u8, u16)> {
    Seq::new(count, |i: int| (BACKSPACE_KEYCODE, 0u16))
}

/// Whether a state follows when Backspace is typed into a window.
pub open spec fn backspaces_may_lead_to(s: ServerModel, window: u32, count: nat, after: ServerModel) -> bool {
    if count == 0 || s.focus_window == 0 {
        after == s
    } else {
        let target = deepest_child(s.resources, window, MAX_DESCENT as nat);
        exists|owner: Option<u32>| #[trigger]
            owner_found(s.connections, target, owner) && match key_destination(
                s.resources,
                target,
                event_mask::KEY_PRESS,
                owner,
            ) {
                None => after == s,
                Some(to) => after == keys_typed(s, backspaces(count), s.now, to),
            }
    }
}

/// Types Backspace a number of times, to erase text.
pub fn send_backspaces(server: &mut XServer, window: Xid, count: usize)
    ensures
        backspaces_may_lead_to(old(server)@, window, count as nat, final(server)@),
{
    if count == 0 || server.focus_window == 0 {
        return;
    }
    let target: Xid = find_deepest_child(server, window);
    let to = find_key_destination(server, target, event_mask::KEY_PRESS);
    let ghost owner = choose|owner: Option<u32>| #[trigger]
        owner_found(server@.connections, target, owner) && to == key_destination(
            server@.resources,
            target,
            event_mask::KEY_PRESS,
            owner,
        );
    assert(owner_found(old(server)@.connections, target, owner));
    if let Some(to) = to {
        let mut keys: Vec<(u8, u16)> = Vec::with_capacity(count);
        for i in 0..count
            invariant
                keys@ == backspaces(i as nat),
        {
            keys.push((BACKSPACE_KEYCODE, 0));
            assert(keys@ =~= backspaces((i + 1) as nat));
        }
        let time: u32 = server.now;
        type_keys(server, &keys, time, to);
    }
}

/// Whether a key of a run stands for a character: on the key that carries it,
/// or on a spare keycode that was lent its keysym.
pub open spec fn key_stands_for(key: (u8, u16), keysyms: Seq<u32>, c: char) -> bool {
    if is_ascii_char(c) {
        key == (
            keycode_for(c as u32),
            if takes_shift(c) {
                1u16
            } else {
                0u16
            },
        )
    } else {
        &&& VIRTUAL_BASE <= key.0 < VIRTUAL_BASE + keysyms.len()
        &&& keysyms[key.0 - VIRTUAL_BASE] == unicode_keysym(c)
        &&& key.1 == 0
    }
}

proof fn lemma_slot(keysyms: Seq<u32>, keysym: u32, at: int)
    requires
        0 <= at,
    ensures
        match slot_from(keysyms, keysym, at) {
            Some(i) => at <= i < keysyms.len() && keysyms[i] == keysym,
            None => true,
        },
    decreases keysyms.len() - at,
{
    if at < keysyms.len() && keysyms[at] != keysym {
        lemma_slot(keysyms, keysym, at + 1);
    }
}

proof fn lemma_batch(chars: Seq<char>, b: BatchModel, at: int)
    requires
        0 <= at <= b.end <= chars.len(),
        b.keys.len() == b.end - at,
        b.keysyms.len() <= MAX_VIRTUAL,
        forall|i: int|
            0 <= i < b.keys.len() ==> key_stands_for(#[trigger] b.keys[i], b.keysyms, chars[at + i]),
    ensures
        ({
            let r = batch_from(chars, b);
            &&& b.end <= r.end <= chars.len()
            &&& r.keys.len() == r.end - at
            &&& r.keysyms.len() <= MAX_VIRTUAL
            &&& forall|i: int|
                0 <= i < r.keys.len() ==> key_stands_for(
                    #[trigger] r.keys[i],
                    r.keysyms,
                    chars[at + i],
                )
            &&& (b.end < chars.len() && b.keysyms.len() < MAX_VIRTUAL ==> r.end > b.end)
            &&& (r.end < chars.len() ==> r.keysyms.len() == MAX_VIRTUAL)
        }),
    decreases chars.len() - b.end,
{
    if b.end < chars.len() {
        let c = chars[b.end];
        if is_ascii_char(c) {
            let shift = if takes_shift(c) {
                1u16
            } else {
                0u16
            };
            let next = BatchModel {
                keys: b.keys.push((keycode_for(c as u32), shift)),
                end: b.end + 1,
                ..b
            };
            lemma_batch(chars, next, at);
        } else {
            lemma_slot(b.keysyms, unicode_keysym(c), 0);
            match slot_from(b.keysyms, unicode_keysym(c), 0) {
                Some(i) => {
                    let next = BatchModel {
                        keys: b.keys.push(((VIRTUAL_BASE + i) as u8, 0)),
                        end: b.end + 1,
                        ..b
                    };
                    lemma_batch(chars, next, at);
                },
                None => {
                    if b.keysyms.len() < MAX_VIRTUAL {
                        let next = BatchModel {
                            keys: b.keys.push(((VIRTUAL_BASE + b.keysyms.len()) as u8, 0)),
                            keysyms: b.keysyms.push(unicode_keysym(c)),
                            end: b.end + 1,
                        };
                        assert forall|i: int| 0 <= i < next.keys.len() implies key_stands_for(
                            #[trigger] next.keys[i],
                            next.keysyms,
                            chars[at + i],
                        ) by {
                            if i < b.keys.len() {
                                assert(key_stands_for(b.keys[i], b.keysyms, chars[at + i]));
                                assert(next.keys[i] == b.keys[i]);
                            }
                        }
                        lemma_batch(chars, next, at);
                    }
                },
            }
        }
    }
}

/// A run of keys stands for the characters it was made from, one key for each;
/// it never lends more keycodes than there are; it always gets ahead, and it
/// stops before the end of the text only when every spare keycode is lent.
pub proof fn law_batch(chars: Seq<char>, at: int)
    requires
        0 <= at <= chars.len(),
    ensures
        ({
            let r = batch_at(chars, at);
            &&& at <= r.end <= chars.len()
            &&& r.keys.len() == r.end - at
            &&& r.keysyms.len() <= MAX_VIRTUAL
            &&& forall|i: int|
                0 <= i < r.keys.len() ==> key_stands_for(
                    #[trigger] r.keys[i],
                    r.keysyms,
                    chars[at + i],
                )
            &&& (at < chars.len() ==> r.end > at)
            &&& (r.end < chars.len() ==> r.keysyms.len() == MAX_VIRTUAL)
        }),
{
    lemma_batch(chars, BatchModel { keys: Seq::empty(), keysyms: Seq::empty(), end: at }, at);
}

/// A character beyond ASCII reaches the client whichever way it reads the
/// keyboard: while a run's keysyms are lent, the key that stands for the
/// character carries its keysym, both in the core mapping and in the extension's.
pub proof fn law_lent_keys_carry_their_text(s: ServerModel, chars: Seq<char>, at: int, i: int)
    requires
        0 <= at <= chars.len(),
        s.virtual_keysyms == batch_at(chars, at).keysyms,
        0 <= i < batch_at(chars, at).keys.len(),
        !is_ascii_char(chars[at + i]),
    ensures
        ({
            let key = batch_at(chars, at).keys[i].0;
            let keysym = unicode_keysym(chars[at + i]);
            &&& keycode_keysyms(s, key as u32) == (keysym, 0u32)
            &&& key_symbols(s, key as int) == (keysym, keysym)
        }),
{
    law_batch(chars, at);
    assert(key_stands_for(
        batch_at(chars, at).keys[i],
        batch_at(chars, at).keysyms,
        chars[at + i],
    ));
}

/// The key that erases is the one the keyboard has as BackSpace.
pub proof fn law_backspace_erases(s: ServerModel)
    ensures
        keycode_keysyms(s, BACKSPACE_KEYCODE as u32).0 == 0xFF08,
{
    reveal(super::keyboard::us_keysyms);
}

} // verus!
