//! Text for the clients of the input method server.

use vstd::prelude::*;

use super::dispatch::same_block;
use super::properties::{filled, put_filled};
use super::resources::ResourceModel;
use super::tables;
use super::text::chars_of;
use super::wire::put_bytes;
use super::xim::{XimInputContext, XimServer};
use super::xim_protocol::{
    frame_message, le16, le32, put_le16, put_le32, send_xim_message, two, xim_frame, xim_sent,
};
use super::{window_in, ServerModel, XServer};
use crate::display::Xid;

verus! {

pub const XIM_COMMIT: u8 = 63;

pub const XIM_PREEDIT_START: u8 = 73;

pub const XIM_PREEDIT_DRAW: u8 = 75;

pub const XIM_PREEDIT_DONE: u8 = 78;

/// A commit carries characters.
pub const XIM_LOOKUP_CHARS: u16 = 0x0002;

/// How many levels up a window's ancestors are searched.
pub const MAX_LINEAGE: usize = 20;

/// Whether a window is found going up from another, at most `fuel` levels.
pub open spec fn descends_from(m: Map<u32, ResourceModel>, window: u32, ancestor: u32, fuel: nat) -> bool
    decreases fuel,
{
    if fuel == 0 {
        false
    } else {
        match window_in(m, window) {
            None => false,
            Some(w) => if w.parent == ancestor {
                true
            } else if w.parent == 0 || w.parent == 1 {
                false
            } else {
                descends_from(m, w.parent, ancestor, (fuel - 1) as nat)
            },
        }
    }
}

/// Whether a window lies below another.
pub open spec fn descends(m: Map<u32, ResourceModel>, window: u32, ancestor: u32) -> bool {
    window != 0 && ancestor != 0 && window != ancestor && descends_from(
        m,
        window,
        ancestor,
        MAX_LINEAGE as nat,
    )
}

/// Whether a window lies below another.
pub fn window_is_descendant(server: &XServer, window: Xid, ancestor: Xid) -> (r: bool)
    ensures
        r == descends(server@.resources, window, ancestor),
{
    if window == 0 || ancestor == 0 || window == ancestor {
        return false;
    }
    let mut current: Xid = window;
    let mut left: usize = MAX_LINEAGE;
    let ghost m = server@.resources;
    while left > 0
        invariant
            m == server@.resources,
            window != 0 && ancestor != 0 && window != ancestor,
            descends(m, window, ancestor) == descends_from(m, current, ancestor, left as nat),
        decreases left,
    {
        match server.window(current) {
            None => {
                return false;
            },
            Some(w) => {
                if w.parent == ancestor {
                    return true;
                }
                if w.parent == 0 || w.parent == 1 {
                    return false;
                }
                current = w.parent;
            },
        }
        left = left - 1;
    }
    false
}

/// Whether an input context is for a window.
pub open spec fn context_for(s: ServerModel, c: XimInputContext, focus: u32) -> bool {
    c.focus_window == focus || c.client_window == focus || descends(
        s.resources,
        focus,
        c.client_window,
    )
}

fn is_context_for(server: &XServer, c: &XimInputContext, focus: Xid) -> (r: bool)
    ensures
        r == context_for(server@, *c, focus),
{
    c.focus_window == focus || c.client_window == focus || window_is_descendant(
        server,
        focus,
        c.client_window,
    )
}

/// Whether a context of an input method exists and is for a window.
pub open spec fn context_matches(s: ServerModel, focus: u32, p: (u16, u16)) -> bool {
    &&& s.xim.connections.dom().contains(p.0)
    &&& s.xim.connections[p.0].contexts.dom().contains(p.1)
    &&& context_for(s, s.xim.connections[p.0].contexts[p.1], focus)
}

/// Whether a context is for a window and its client is connected.
pub open spec fn context_reachable(s: ServerModel, focus: u32, p: (u16, u16)) -> bool {
    context_matches(s, focus, p) && s.connections.dom().contains(s.xim.connections[p.0].conn_id)
}

proof fn lemma_push_contains<T>(s: Seq<T>, x: T)
    ensures
        forall|y: T| #[trigger] s.push(x).contains(y) <==> s.contains(y) || y == x,
        s.no_duplicates() && !s.contains(x) ==> s.push(x).no_duplicates(),
{
    assert forall|y: T| #[trigger] s.push(x).contains(y) <==> s.contains(y) || y == x by {
        if s.contains(y) {
            let j = choose|j: int| 0 <= j < s.len() && s[j] == y;
            assert(s.push(x)[j] == y);
        }
        if y == x {
            assert(s.push(x)[s.len() as int] == y);
        }
    }
}

proof fn lemma_take_contains<T>(s: Seq<T>, i: int)
    requires
        0 <= i < s.len(),
        s.no_duplicates(),
    ensures
        !s.take(i).contains(s[i]),
        forall|y: T| #[trigger] s.take(i + 1).contains(y) <==> s.take(i).contains(y) || y == s[i],
{
    assert(s.take(i + 1) =~= s.take(i).push(s[i]));
    lemma_push_contains(s.take(i), s[i]);
    if s.take(i).contains(s[i]) {
        let j = choose|j: int| 0 <= j < i && s.take(i)[j] == s[i];
        assert(s[j] == s[i]);
    }
}

fn matching_contexts(server: &XServer, focus: Xid) -> (r: Vec<(u16, u16)>)
    ensures
        r@.no_duplicates(),
        forall|p: (u16, u16)| #[trigger] r@.contains(p) <==> context_reachable(server@, focus, p),
{
    let mut r: Vec<(u16, u16)> = Vec::new();
    let ims = tables::xim_connection_ids(&server.xim.connections);
    let ghost s = server@;
    for i in 0..ims.len()
        invariant
            s == server@,
            ims@.no_duplicates(),
            forall|im: u16| s.xim.connections.dom().contains(im) <==> ims@.contains(im),
            r@.no_duplicates(),
            forall|p: (u16, u16)| #[trigger]
                r@.contains(p) <==> context_reachable(s, focus, p) && ims@.take(i as int).contains(
                    p.0,
                ),
    {
        let im: u16 = ims[i];
        proof {
            lemma_take_contains(ims@, i as int);
            assert(ims@.contains(im));
        }
        if let Some(c) = tables::get_xim_connection(&server.xim.connections, im) {
            let ics = tables::context_ids(&c.contexts);
            let connected: bool = server.connection(c.conn_id).is_some();
            for k in 0..ics.len()
                invariant
                    s == server@,
                    s.xim.connections.dom().contains(im),
                    s.xim.connections[im] == c@,
                    connected == s.connections.dom().contains(c.conn_id),
                    !ims@.take(i as int).contains(im),
                    ics@.no_duplicates(),
                    forall|ic: u16| c@.contexts.dom().contains(ic) <==> ics@.contains(ic),
                    r@.no_duplicates(),
                    forall|p: (u16, u16)| #[trigger]
                        r@.contains(p) <==> context_reachable(s, focus, p) && (ims@.take(
                            i as int,
                        ).contains(p.0) || (p.0 == im && ics@.take(k as int).contains(p.1))),
            {
                let ic: u16 = ics[k];
                let ghost before = r@;
                proof {
                    lemma_take_contains(ics@, k as int);
                    assert(ics@.contains(ic));
                    lemma_push_contains(r@, (im, ic));
                    assert(c@.contexts.dom().contains(ic));
                }
                if let Some(x) = tables::get_context(&c.contexts, ic) {
                    if is_context_for(server, &x, focus) && connected {
                        assert(!before.contains((im, ic)));
                        r.push((im, ic));
                    }
                }
                assert forall|p: (u16, u16)| #[trigger]
                    r@.contains(p) <==> context_reachable(s, focus, p) && (ims@.take(
                        i as int,
                    ).contains(p.0) || (p.0 == im && ics@.take(k + 1).contains(p.1))) by {
                    assert(before.contains(p) <==> context_reachable(s, focus, p) && (ims@.take(
                        i as int,
                    ).contains(p.0) || (p.0 == im && ics@.take(k as int).contains(p.1))));
                    assert(ics@.take(k + 1).contains(p.1) <==> ics@.take(k as int).contains(p.1)
                        || p.1 == ic);
                }
            }
            assert(ics@.take(ics@.len() as int) =~= ics@);
            assert forall|p: (u16, u16)| #[trigger]
                r@.contains(p) <==> context_reachable(s, focus, p) && ims@.take(i + 1).contains(
                    p.0,
                ) by {
                assert(ims@.take(i + 1).contains(p.0) <==> ims@.take(i as int).contains(p.0) || p.0
                    == im);
                if p.0 == im && context_reachable(s, focus, p) {
                    assert(ics@.contains(p.1));
                }
            }
        }
    }
    assert(ims@.take(ims@.len() as int) =~= ims@);
    r
}

/// Something the clients of the input method server are told.
#[derive(Debug)]
pub enum ImNotice {
    Commit { text: Vec<u8> },
    PreeditStart,
    PreeditDraw { text: Vec<u8>, chars: usize, caret: u32 },
    PreeditDone,
}

/// What a notice says.
pub enum ImNoticeModel {
    Commit { text: Seq<u8> },
    PreeditStart,
    PreeditDraw { text: Seq<u8>, chars: nat, caret: u32 },
    PreeditDone,
}

impl View for ImNotice {
    type V = ImNoticeModel;

    open spec fn view(&self) -> ImNoticeModel {
        match *self {
            ImNotice::Commit { text } => ImNoticeModel::Commit { text: text@ },
            ImNotice::PreeditStart => ImNoticeModel::PreeditStart,
            ImNotice::PreeditDraw { text, chars, caret } => ImNoticeModel::PreeditDraw {
                text: text@,
                chars: chars as nat,
                caret,
            },
            ImNotice::PreeditDone => ImNoticeModel::PreeditDone,
        }
    }
}

/// The mark of underlined text, once for each character.
pub open spec fn underlines(n: nat) -> Seq<u8>
    decreases n,
{
    if n == 0 {
        Seq::empty()
    } else {
        underlines((n - 1) as nat) + le32(1)
    }
}

/// The message that carries a notice to a context.
pub open spec fn notice_message(n: ImNoticeModel, im: u16, ic: u16) -> Seq<u8> {
    match n {
        ImNoticeModel::Commit { text } => xim_frame(
            XIM_COMMIT,
            two(im, ic) + le16(XIM_LOOKUP_CHARS) + le16(text.len() as u16) + filled(text),
        ),
        ImNoticeModel::PreeditStart => xim_frame(XIM_PREEDIT_START, two(im, ic)),
        ImNoticeModel::PreeditDraw { text, chars, caret } => xim_frame(
            XIM_PREEDIT_DRAW,
            two(im, ic) + le32(caret) + le32(0) + le32(0) + le32(0) + le16(text.len() as u16)
                + filled(text) + underlines(chars),
        ),
        ImNoticeModel::PreeditDone => xim_frame(XIM_PREEDIT_DONE, two(im, ic)),
    }
}

fn build_notice(n: &ImNotice, im: u16, ic: u16) -> (r: Vec<u8>)
    ensures
        r@ == notice_message(n@, im, ic),
{
    let mut body: Vec<u8> = Vec::new();
    put_le16(&mut body, im);
    put_le16(&mut body, ic);
    assert(body@ =~= two(im, ic));
    match n {
        ImNotice::Commit { text } => {
            put_le16(&mut body, XIM_LOOKUP_CHARS);
            put_le16(&mut body, text.len() as u16);
            put_filled(&mut body, text.as_slice());
            frame_message(XIM_COMMIT, &body)
        },
        ImNotice::PreeditStart => frame_message(XIM_PREEDIT_START, &body),
        ImNotice::PreeditDraw { text, chars, caret } => {
            put_le32(&mut body, *caret);
            put_le32(&mut body, 0);
            put_le32(&mut body, 0);
            put_le32(&mut body, 0);
            put_le16(&mut body, text.len() as u16);
            put_filled(&mut body, text.as_slice());
            let ghost head = body@;
            assert(body@ =~= head + underlines(0));
            for i in 0..*chars
                invariant
                    body@ == head + underlines(i as nat),
            {
                let ghost before = underlines(i as nat);
                put_le32(&mut body, 1);
                assert(body@ =~= head + (before + le32(1)));
            }
            frame_message(XIM_PREEDIT_DRAW, &body)
        },
        ImNotice::PreeditDone => frame_message(XIM_PREEDIT_DONE, &body),
    }
}

/// The state after a notice was sent to the contexts of a list, in order.
pub open spec fn notices_sent(s: ServerModel, list: Seq<(u16, u16)>, n: ImNoticeModel) -> ServerModel
    decreases list.len(),
{
    if list.len() == 0 {
        s
    } else {
        let before = notices_sent(s, list.drop_last(), n);
        let c = s.xim.connections[list.last().0];
        let x = c.contexts[list.last().1];
        xim_sent(before, c.conn_id, c.im_id, notice_message(n, c.im_id, x.ic_id))
    }
}

/// Whether a list holds the reachable contexts for a window, each once.
pub open spec fn all_contexts(s: ServerModel, focus: u32, list: Seq<(u16, u16)>) -> bool {
    list.no_duplicates() && forall|p: (u16, u16)| #[trigger]
        list.contains(p) <==> context_reachable(s, focus, p)
}

/// Whether a state follows when a notice is sent for a window: every reachable
/// context for it gets it once, in some order.
pub open spec fn notice_may_lead_to(s: ServerModel, focus: u32, n: ImNoticeModel, after: ServerModel) -> bool {
    exists|list: Seq<(u16, u16)>| #[trigger]
        all_contexts(s, focus, list) && after == notices_sent(s, list, n)
}

proof fn lemma_notices_keep_xim(s: ServerModel, list: Seq<(u16, u16)>, n: ImNoticeModel)
    ensures
        notices_sent(s, list, n).xim == s.xim,
    decreases list.len(),
{
    if list.len() > 0 {
        let before = notices_sent(s, list.drop_last(), n);
        lemma_notices_keep_xim(s, list.drop_last(), n);
        let c = s.xim.connections[list.last().0];
        let x = c.contexts[list.last().1];
        super::xim_protocol::lemma_sent_keeps_xim(
            before,
            c.conn_id,
            c.im_id,
            notice_message(n, c.im_id, x.ic_id),
        );
    }
}

fn notify_contexts(server: &mut XServer, focus: Xid, n: &ImNotice) -> (r: bool)
    ensures
        notice_may_lead_to(old(server)@, focus, n@, final(server)@),
        r <==> exists|p: (u16, u16)| context_reachable(old(server)@, focus, p),
{
    let list = matching_contexts(server, focus);
    let ghost start = server@;
    assert(all_contexts(start, focus, list@));
    for i in 0..list.len()
        invariant
            all_contexts(start, focus, list@),
            server@ == notices_sent(start, list@.take(i as int), n@),
    {
        let (im, ic) = list[i];
        proof {
            assert(list@.take(i + 1).drop_last() =~= list@.take(i as int));
            lemma_notices_keep_xim(start, list@.take(i as int), n@);
            assert(list@[i as int] == (im, ic));
            assert(list@.contains((im, ic)));
        }
        if let Some(c) = tables::get_xim_connection(&server.xim.connections, im) {
            if let Some(x) = tables::get_context(&c.contexts, ic) {
                let message = build_notice(n, c.im_id, x.ic_id);
                send_xim_message(server, c.conn_id, c.im_id, &message);
            }
        }
    }
    assert(list@.take(list@.len() as int) =~= list@);
    proof {
        if list@.len() > 0 {
            assert(list@.contains(list@[0]));
            assert(context_reachable(start, focus, list@[0]));
        } else {
            assert forall|p: (u16, u16)| !context_reachable(start, focus, p) by {
                assert(!list@.contains(p));
            }
        }
    }
    list.len() > 0
}

/// A text as compound text: UTF-8 between the marks that switch to it and back.
pub open spec fn compound_text(t: Seq<char>) -> Seq<u8> {
    seq![0x1Bu8, 0x25, 0x47] + vstd::utf8::encode_utf8(t) + seq![0x1Bu8, 0x25, 0x40]
}

/// Encodes a text as compound text.
pub fn encode_compound_text(text: &str) -> (r: Vec<u8>)
    ensures
        r@ == compound_text(text@),
{
    let mut r: Vec<u8> = vec![0x1B, 0x25, 0x47];
    put_bytes(&mut r, text.as_bytes());
    r.push(0x1B);
    r.push(0x25);
    r.push(0x40);
    assert(r@ =~= compound_text(text@));
    r
}

/// Whether a window belongs to the client of a connection of the input method.
pub open spec fn belongs_to_user(s: ServerModel, window: u32, im: u16) -> bool {
    &&& s.xim.connections.dom().contains(im)
    &&& s.connections.dom().contains(s.xim.connections[im].conn_id)
    &&& same_block(s.connections[s.xim.connections[im].conn_id], window)
}

impl XimServer {
    /// Sends committed text to the contexts for a window; says whether there are
    /// any.
    pub fn send_commit(server: &mut XServer, focus_window: Xid, text: &str) -> (r: bool)
        ensures
            notice_may_lead_to(
                old(server)@,
                focus_window,
                ImNoticeModel::Commit { text: compound_text(text@) },
                final(server)@,
            ),
            r <==> exists|p: (u16, u16)| context_reachable(old(server)@, focus_window, p),
    {
        let n = ImNotice::Commit { text: encode_compound_text(text) };
        notify_contexts(server, focus_window, &n)
    }

    /// Tells the contexts for a window that text is being composed.
    pub fn send_preedit_start(server: &mut XServer, focus_window: Xid)
        ensures
            notice_may_lead_to(
                old(server)@,
                focus_window,
                ImNoticeModel::PreeditStart,
                final(server)@,
            ),
    {
        notify_contexts(server, focus_window, &ImNotice::PreeditStart);
    }

    /// Shows the contexts for a window the text being composed, underlined.
    pub fn send_preedit_draw(server: &mut XServer, focus_window: Xid, text: &str, caret: u32)
        ensures
            notice_may_lead_to(
                old(server)@,
                focus_window,
                ImNoticeModel::PreeditDraw {
                    text: compound_text(text@),
                    chars: text@.len(),
                    caret,
                },
                final(server)@,
            ),
    {
        let n = ImNotice::PreeditDraw {
            text: encode_compound_text(text),
            chars: chars_of(text).len(),
            caret,
        };
        notify_contexts(server, focus_window, &n);
    }

    /// Tells the contexts for a window that composing is over.
    pub fn send_preedit_done(server: &mut XServer, focus_window: Xid)
        ensures
            notice_may_lead_to(
                old(server)@,
                focus_window,
                ImNoticeModel::PreeditDone,
                final(server)@,
            ),
    {
        notify_contexts(server, focus_window, &ImNotice::PreeditDone);
    }

    /// Whether any context is for a window.
    pub fn has_xim_client(server: &XServer, focus_window: Xid) -> (r: bool)
        ensures
            r <==> exists|p: (u16, u16)| context_matches(server@, focus_window, p),
    {
        let ims = tables::xim_connection_ids(&server.xim.connections);
        let ghost s = server@;
        for i in 0..ims.len()
            invariant
                s == server@,
                forall|im: u16| s.xim.connections.dom().contains(im) <==> ims@.contains(im),
                forall|j: int, ic: u16|
                    0 <= j < i ==> !#[trigger] context_matches(s, focus_window, (ims@[j], ic)),
        {
            let im: u16 = ims[i];
            assert(ims@.contains(im));
            if let Some(c) = tables::get_xim_connection(&server.xim.connections, im) {
                let ics = tables::context_ids(&c.contexts);
                for k in 0..ics.len()
                    invariant
                        s == server@,
                        s.xim.connections.dom().contains(im),
                        s.xim.connections[im] == c@,
                        forall|ic: u16| c@.contexts.dom().contains(ic) <==> ics@.contains(ic),
                        forall|j: int|
                            0 <= j < k ==> !context_matches(
                                s,
                                focus_window,
                                (im, #[trigger] ics@[j]),
                            ),
                {
                    let ic: u16 = ics[k];
                    if let Some(x) = tables::get_context(&c.contexts, ic) {
                        if is_context_for(server, &x, focus_window) {
                            assert(context_matches(s, focus_window, (im, ic)));
                            return true;
                        }
                    }
                    assert(!context_matches(s, focus_window, (im, ics@[k as int])));
                }
                assert forall|ic: u16| !context_matches(s, focus_window, (im, ic)) by {
                    if context_matches(s, focus_window, (im, ic)) {
                        assert(c@.contexts.dom().contains(ic));
                        assert(ics@.contains(ic));
                        let j = choose|j: int| 0 <= j < ics@.len() && ics@[j] == ic;
                        assert(!context_matches(s, focus_window, (im, ics@[j])));
                    }
                }
            }
            assert(forall|ic: u16| !context_matches(s, focus_window, (im, ic)));
        }
        assert forall|p: (u16, u16)| !context_matches(s, focus_window, p) by {
            if context_matches(s, focus_window, p) {
                assert(s.xim.connections.dom().contains(p.0));
                assert(ims@.contains(p.0));
                let j = choose|j: int| 0 <= j < ims@.len() && ims@[j] == p.0;
                assert(!context_matches(s, focus_window, (ims@[j], p.1)));
                assert(p == (ims@[j], p.1));
            }
        }
        false
    }

    /// Whether a window belongs to a client that uses the input method server, even
    /// if it has no context there.
    pub fn has_xim_connection(server: &XServer, window: Xid) -> (r: bool)
        ensures
            r <==> exists|im: u16| #[trigger] belongs_to_user(server@, window, im),
    {
        let ims = tables::xim_connection_ids(&server.xim.connections);
        let ghost s = server@;
        for i in 0..ims.len()
            invariant
                s == server@,
                forall|im: u16| s.xim.connections.dom().contains(im) <==> ims@.contains(im),
                forall|j: int| 0 <= j < i ==> !belongs_to_user(s, window, #[trigger] ims@[j]),
        {
            assert(ims@.contains(ims@[i as int]));
            if let Some(x) = tables::get_xim_connection(&server.xim.connections, ims[i]) {
                if let Some(c) = server.connection(x.conn_id) {
                    if window & !c.resource_id_mask == c.resource_id_base & !c.resource_id_mask {
                        assert(belongs_to_user(s, window, ims@[i as int]));
                        return true;
                    }
                }
            }
        }
        assert forall|im: u16| !#[trigger] belongs_to_user(s, window, im) by {
            if s.xim.connections.dom().contains(im) {
                assert(ims@.contains(im));
                let j = choose|j: int| 0 <= j < ims@.len() && ims@[j] == im;
                assert(ims@[j] == im);
            }
        }
        false
    }

    /// Whether a connection uses the input method server.
    pub fn has_xim_connection_by_conn_id(server: &XServer, conn_id: u32) -> (r: bool)
        ensures
            r <==> exists|im: u16| #[trigger]
                server@.xim.connections.dom().contains(im) && server@.xim.connections[im].conn_id
                    == conn_id,
    {
        let ims = tables::xim_connection_ids(&server.xim.connections);
        let ghost m = server@.xim.connections;
        for i in 0..ims.len()
            invariant
                m == server@.xim.connections,
                forall|im: u16| m.dom().contains(im) <==> ims@.contains(im),
                forall|j: int| 0 <= j < i ==> m[#[trigger] ims@[j]].conn_id != conn_id,
        {
            assert(ims@.contains(ims@[i as int]));
            assert(m.dom().contains(ims@[i as int]));
            if let Some(c) = tables::get_xim_connection(&server.xim.connections, ims[i]) {
                if c.conn_id == conn_id {
                    return true;
                }
            }
        }
        assert forall|im: u16| #[trigger] m.dom().contains(im) implies m[im].conn_id != conn_id by {
            assert(ims@.contains(im));
            let j = choose|j: int| 0 <= j < ims@.len() && ims@[j] == im;
            assert(ims@[j] == im);
        }
        false
    }
}

} // verus!
