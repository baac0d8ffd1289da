//! Text the input method is composing.
//!
//! The text is typed into xterm as it grows. When it changes otherwise, as many
//! characters as were typed are erased and the new text is typed. Other clients
//! get it when it is done.

use vstd::prelude::*;

use super::ime::{
    backspaces_may_lead_to, columns, preedit_display_cols, send_backspaces, start_text,
    text_may_start, TextJob,
};
use super::input::{Dispatcher, DispatcherModel};
use super::search::{is_xterm, window_is_xterm};
use super::text::chars_of;
use super::{ServerModel, XServer};
use crate::display::Xid;

verus! {

/// The window that composed text is typed into.
pub open spec fn compose_target(s: ServerModel, window: u32) -> u32 {
    if s.focus_window > 1 {
        s.focus_window
    } else {
        window
    }
}

/// Whether text is typed into its window while it is being composed. Only xterm
/// gets it so; for other clients the native input method shows it.
pub open spec fn types_inline(s: ServerModel, window: u32) -> bool {
    is_xterm(s.resources, s.root(), compose_target(s, window))
}

/// Whether a text goes on from another that is not empty.
pub open spec fn goes_on(before: Seq<char>, text: Seq<char>) -> bool {
    before.len() > 0 && before.is_prefix_of(text)
}

/// A dispatcher without text being composed.
pub open spec fn composed_nothing(d: DispatcherModel) -> DispatcherModel {
    DispatcherModel {
        preedit_text: Seq::empty(),
        preedit_char_count: 0,
        preedit_col_count: 0,
        preedit_injected: false,
        ..d
    }
}

/// Whether this follows when a number of characters are erased and a text is
/// set on its way.
pub open spec fn replaced(
    s: ServerModel,
    target: u32,
    erase: nat,
    text: Seq<char>,
    after: ServerModel,
    job: Option<TextJob>,
) -> bool {
    backspaces_may_lead_to(s, target, erase, after) && text_may_start(after, target, text, job)
}

/// Whether this follows when only the new end of a text is set on its way.
pub open spec fn continued(
    s: ServerModel,
    target: u32,
    before: Seq<char>,
    text: Seq<char>,
    after: ServerModel,
    job: Option<TextJob>,
) -> bool {
    &&& after == s
    &&& if text.len() > before.len() {
        text_may_start(s, target, text.skip(before.len() as int), job)
    } else {
        job is None
    }
}

/// Whether this follows when the input method commits a text.
pub open spec fn commit_may_lead_to(
    s: ServerModel,
    d: DispatcherModel,
    window: u32,
    text: Seq<char>,
    after: ServerModel,
    job: Option<TextJob>,
) -> bool {
    let target = compose_target(s, window);
    if !d.preedit_injected {
        after == s && text_may_start(s, target, text, job)
    } else if goes_on(d.preedit_text, text) {
        continued(s, target, d.preedit_text, text, after, job)
    } else {
        replaced(s, target, d.preedit_char_count as nat, text, after, job)
    }
}

/// Whether this follows when the text being composed changes.
pub open spec fn draw_may_lead_to(
    s: ServerModel,
    d: DispatcherModel,
    window: u32,
    text: Seq<char>,
    after: ServerModel,
    job: Option<TextJob>,
) -> bool {
    let target = compose_target(s, window);
    if !types_inline(s, window) {
        after == s && job is None
    } else if d.preedit_injected && goes_on(d.preedit_text, text) {
        continued(s, target, d.preedit_text, text, after, job)
    } else if text.len() > 0 {
        replaced(s, target, d.preedit_char_count as nat, text, after, job)
    } else {
        backspaces_may_lead_to(s, target, d.preedit_char_count as nat, after) && job is None
    }
}

/// A dispatcher after the text being composed changed, and was typed or not.
pub open spec fn composing(d: DispatcherModel, text: Seq<char>, inline: bool) -> DispatcherModel {
    DispatcherModel {
        preedit_text: text,
        preedit_char_count: if inline {
            text.len() as usize
        } else {
            0
        },
        preedit_col_count: if columns(text) <= usize::MAX {
            columns(text) as usize
        } else {
            usize::MAX
        },
        preedit_injected: inline,
        ..d
    }
}

fn find_compose_target(server: &XServer, window: Xid) -> (r: Xid)
    ensures
        r == compose_target(server@, window),
{
    if server.focus_window > 1 {
        server.focus_window
    } else {
        window
    }
}

/// Whether a text goes on from another, and with what.
fn new_end(before: &Vec<char>, text: &Vec<char>) -> (r: Option<Vec<char>>)
    ensures
        match r {
            Some(end) => goes_on(before@, text@) && end@ == text@.skip(before@.len() as int),
            None => !goes_on(before@, text@),
        },
{
    let n: usize = before.len();
    let len: usize = text.len();
    if n == 0 || len < n {
        return None;
    }
    for i in 0..n
        invariant
            n == before@.len(),
            len == text@.len(),
            n <= len,
            forall|j: int| 0 <= j < i ==> before@[j] == text@[j],
    {
        if before[i] != text[i] {
            assert(before@[i as int] != text@[i as int]);
            return None;
        }
    }
    let mut end: Vec<char> = Vec::with_capacity(len - n);
    for i in n..len
        invariant
            n <= len,
            len == text@.len(),
            end@ == text@.subrange(n as int, i as int),
    {
        end.push(text[i]);
        assert(end@ =~= text@.subrange(n as int, i + 1));
    }
    assert(end@ =~= text@.skip(n as int));
    Some(end)
}

fn forget(d: &mut Dispatcher)
    ensures
        final(d)@ == composed_nothing(old(d)@),
{
    d.preedit_text = Vec::new();
    assert(d.preedit_text@ =~= Seq::empty());
    d.preedit_char_count = 0;
    d.preedit_col_count = 0;
    d.preedit_injected = false;
}

/// Handles a text that the input method commits.
pub fn on_ime_commit(server: &mut XServer, d: &mut Dispatcher, window: Xid, text: &str) -> (r:
    Option<TextJob>)
    ensures
        commit_may_lead_to(old(server)@, old(d)@, window, text@, final(server)@, r),
        final(d)@ == composed_nothing(old(d)@),
        r is Some ==> r->0.wf(),
{
    let target: Xid = find_compose_target(server, window);
    let chars = chars_of(text);
    let mut job: Option<TextJob> = None;
    if d.preedit_injected {
        match new_end(&d.preedit_text, &chars) {
            Some(end) => {
                if end.len() > 0 {
                    job = start_text(server, target, &end);
                }
            },
            None => {
                send_backspaces(server, target, d.preedit_char_count);
                job = start_text(server, target, &chars);
            },
        }
    } else {
        job = start_text(server, target, &chars);
    }
    forget(d);
    job
}

/// Handles a change of the text being composed.
pub fn on_preedit_draw(server: &mut XServer, d: &mut Dispatcher, window: Xid, text: &str) -> (r:
    Option<TextJob>)
    ensures
        draw_may_lead_to(old(server)@, old(d)@, window, text@, final(server)@, r),
        final(d)@ == composing(old(d)@, text@, types_inline(old(server)@, window)),
        r is Some ==> r->0.wf(),
{
    let target: Xid = find_compose_target(server, window);
    let chars = chars_of(text);
    let mut job: Option<TextJob> = None;
    let inline: bool = window_is_xterm(server, target);
    if inline {
        let end = if d.preedit_injected {
            new_end(&d.preedit_text, &chars)
        } else {
            None
        };
        match end {
            Some(end) => {
                if end.len() > 0 {
                    job = start_text(server, target, &end);
                }
            },
            None => {
                send_backspaces(server, target, d.preedit_char_count);
                if chars.len() > 0 {
                    job = start_text(server, target, &chars);
                }
            },
        }
    }
    d.preedit_char_count = if inline {
        chars.len()
    } else {
        0
    };
    d.preedit_injected = inline;
    d.preedit_col_count = preedit_display_cols(text);
    d.preedit_text = chars;
    job
}

/// Handles the replacement of text that was committed before.
pub fn on_ime_replace(
    server: &mut XServer,
    d: &mut Dispatcher,
    window: Xid,
    erase_chars: usize,
    text: &str,
) -> (r: Option<TextJob>)
    ensures
        replaced(
            old(server)@,
            compose_target(old(server)@, window),
            erase_chars as nat,
            text@,
            final(server)@,
            r,
        ),
        final(d)@ == composed_nothing(old(d)@),
        r is Some ==> r->0.wf(),
{
    let target: Xid = find_compose_target(server, window);
    send_backspaces(server, target, erase_chars);
    let chars = chars_of(text);
    let job = start_text(server, target, &chars);
    forget(d);
    job
}

/// Handles the end of composing without a commit: what was typed is erased.
pub fn on_preedit_done(server: &mut XServer, d: &mut Dispatcher, window: Xid)
    ensures
        backspaces_may_lead_to(
            old(server)@,
            compose_target(old(server)@, window),
            if old(d)@.preedit_injected {
                old(d)@.preedit_char_count as nat
            } else {
                0
            },
            final(server)@,
        ),
        final(d)@ == composed_nothing(old(d)@),
{
    let target: Xid = find_compose_target(server, window);
    if d.preedit_injected {
        send_backspaces(server, target, d.preedit_char_count);
    }
    forget(d);
}

/// As many characters count as typed as the text being composed has, if it was
/// typed, and none otherwise; so erasing that many erases it.
pub open spec fn counts_agree(d: DispatcherModel) -> bool {
    d.preedit_char_count == if d.preedit_injected {
        d.preedit_text.len()
    } else {
        0
    }
}

/// Composing and forgetting keep the count in step with the text.
pub proof fn law_counts_agree(d: DispatcherModel, text: Seq<char>, inline: bool)
    requires
        text.len() <= usize::MAX,
    ensures
        counts_agree(composing(d, text, inline)),
        counts_agree(composed_nothing(d)),
        counts_agree(super::input::fresh_dispatcher()),
{
}

} // verus!
