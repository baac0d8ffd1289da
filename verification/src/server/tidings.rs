//! What clients hear of keys, exposures, moves and the focus.

use vstd::prelude::*;

use super::aim::{
    first_to_want, lemma_first_to_want, lemma_notice_frame, lemma_told_adds, motion_at,
};
use super::connection::ClientConnection;
use super::delivery::{
    first_selecting, key_destination, key_target, key_told, owner_found, pointer_route,
    pointer_told, Wanted,
};
use super::dispatch::{children_resized, exposed_below, exposed_list, may_follow, Followup};
use super::input::{
    crossed, moved, recursored, spot_under, watched, DispatcherModel, Pointing, Spot,
};
use super::notify::{configure_told, expose_told, notice_event, told, told_selected, Notice};
use super::readings::{
    law_crossing_is_read, law_exposure_is_read, law_geometry_is_read, law_input_is_read,
    reads_configured, reads_exposed, reads_input,
};
use super::resources::{ResourceModel, WindowModel};
use super::search::{child_at, deepest_child, first_mapped, MAX_DESCENT};
use super::{window_in, ActionModel, ServerModel};
use crate::display::DisplayEvent;

verus! {

/// Whether an event for a client was queued behind what was queued before.
pub open spec fn heard(
    before: Seq<ActionModel>,
    after: Seq<ActionModel>,
    who: u32,
    e: Seq<u8>,
) -> bool {
    exists|i: int|
        before.len() <= i < after.len() && #[trigger] after[i] == (ActionModel::Event {
            conn: who,
            data: e,
        })
}

pub proof fn lemma_heard_later(
    before: Seq<ActionModel>,
    mid: Seq<ActionModel>,
    after: Seq<ActionModel>,
    who: u32,
    e: Seq<u8>,
)
    requires
        heard(before, mid, who, e),
        mid.len() <= after.len(),
        after.take(mid.len() as int) == mid,
    ensures
        heard(before, after, who, e),
{
    let i = choose|i: int|
        before.len() <= i < mid.len() && #[trigger] mid[i] == (ActionModel::Event {
            conn: who,
            data: e,
        });
    assert(after.take(mid.len() as int)[i] == after[i]);
}

pub proof fn lemma_heard_more(
    first: Seq<ActionModel>,
    before: Seq<ActionModel>,
    after: Seq<ActionModel>,
    who: u32,
    e: Seq<u8>,
)
    requires
        heard(before, after, who, e),
        first.len() <= before.len(),
    ensures
        heard(first, after, who, e),
{
    let i = choose|i: int|
        before.len() <= i < after.len() && #[trigger] after[i] == (ActionModel::Event {
            conn: who,
            data: e,
        });
    assert(after[i] == (ActionModel::Event { conn: who, data: e }));
}

proof fn lemma_told_is_heard(
    s: ServerModel,
    sels: Seq<(u32, u32)>,
    mask: u32,
    n: Notice,
    i: int,
)
    requires
        0 <= i < sels.len(),
        sels[i].1 & mask != 0,
        s.connections.dom().contains(sels[i].0),
    ensures
        heard(
            s.outbox,
            told_selected(s, sels, mask, n).outbox,
            sels[i].0,
            notice_event(s.connections[sels[i].0], s.root(), n),
        ),
    decreases sels.len(),
{
    let rest = sels.drop_last();
    let before = told_selected(s, rest, mask, n);
    let after = told_selected(s, sels, mask, n);
    let e = notice_event(s.connections[sels[i].0], s.root(), n);
    lemma_told_adds(s, rest, mask, n, |a: ActionModel| true);
    if i == sels.len() - 1 {
        assert(sels.last() == sels[i]);
        assert(after.outbox[before.outbox.len() as int] == (ActionModel::Event {
            conn: sels[i].0,
            data: e,
        }));
    } else {
        assert(rest[i] == sels[i]);
        lemma_told_is_heard(s, rest, mask, n, i);
        assert(after.outbox.take(before.outbox.len() as int) =~= before.outbox);
        lemma_heard_later(s.outbox, before.outbox, after.outbox, sels[i].0, e);
    }
}

/// Every client that selected an event on a window gets it, in its own byte order.
pub proof fn law_everyone_who_asked_hears(
    s: ServerModel,
    window: u32,
    mask: u32,
    n: Notice,
    i: int,
)
    requires
        s.window(window) is Some,
        0 <= i < s.window(window)->0.event_selections.len(),
        s.window(window)->0.event_selections[i].1 & mask != 0,
        s.connections.dom().contains(s.window(window)->0.event_selections[i].0),
    ensures
        ({
            let who = s.window(window)->0.event_selections[i].0;
            heard(
                s.outbox,
                told(s, window, mask, n).outbox,
                who,
                notice_event(s.connections[who], s.root(), n),
            )
        }),
{
    lemma_told_is_heard(s, s.window(window)->0.event_selections, mask, n, i);
}

/// Telling of a notice keeps all but the queue, which grows.
proof fn lemma_told_grows(s: ServerModel, window: u32, mask: u32, n: Notice)
    ensures
        ({
            let t = told(s, window, mask, n);
            &&& t == ServerModel { outbox: t.outbox, ..s }
            &&& grows(s.outbox, t.outbox)
        }),
{
    lemma_notice_frame(s, window, mask, n);
    match s.window(window) {
        Some(w) => lemma_told_adds(s, w.event_selections, mask, n, |a: ActionModel| true),
        None => {
            assert(s.outbox.take(s.outbox.len() as int) =~= s.outbox);
        },
    }
}

/// Whether a queue starts with another.
pub open spec fn grows(a: Seq<ActionModel>, b: Seq<ActionModel>) -> bool {
    a.len() <= b.len() && b.take(a.len() as int) == a
}

pub proof fn lemma_grows_on(a: Seq<ActionModel>, b: Seq<ActionModel>, c: Seq<ActionModel>)
    requires
        grows(a, b),
        grows(b, c),
    ensures
        grows(a, c),
{
    assert(c.take(a.len() as int) =~= b.take(a.len() as int)) by {
        assert forall|i: int| 0 <= i < a.len() implies c.take(a.len() as int)[i] == b.take(
            a.len() as int,
        )[i] by {
            assert(c.take(b.len() as int)[i] == b[i]);
        }
    }
}

proof fn lemma_exposed_grows(s: ServerModel, window: u32, fuel: nat)
    ensures
        ({
            let t = exposed_below(s, window, fuel);
            &&& t == ServerModel { outbox: t.outbox, ..s }
            &&& grows(s.outbox, t.outbox)
        }),
    decreases fuel, 0nat,
{
    assert(s.outbox.take(s.outbox.len() as int) =~= s.outbox);
    if fuel > 0 {
        match s.window(window) {
            Some(w) => lemma_exposed_list_grows(s, w.children, (fuel - 1) as nat),
            None => {},
        }
    }
}

proof fn lemma_exposed_list_grows(s: ServerModel, ids: Seq<u32>, fuel: nat)
    ensures
        ({
            let t = exposed_list(s, ids, fuel);
            &&& t == ServerModel { outbox: t.outbox, ..s }
            &&& grows(s.outbox, t.outbox)
        }),
    decreases fuel, ids.len() + 1,
{
    assert(s.outbox.take(s.outbox.len() as int) =~= s.outbox);
    if ids.len() > 0 {
        lemma_exposed_list_grows(s, ids.drop_last(), fuel);
        let before = exposed_list(s, ids.drop_last(), fuel);
        let id = ids.last();
        let own = match before.window(id) {
            Some(w) => if w.mapped && w.width > 0 && w.height > 0 {
                expose_told(before, id, 0, 0, w.width, w.height, 0)
            } else {
                before
            },
            None => before,
        };
        assert(own == ServerModel { outbox: own.outbox, ..s } && grows(s.outbox, own.outbox)) by {
            match before.window(id) {
                Some(w) => {
                    lemma_told_grows(
                        before,
                        id,
                        super::protocol::event_mask::EXPOSURE,
                        Notice::Expose {
                            window: id,
                            x: 0,
                            y: 0,
                            width: w.width,
                            height: w.height,
                            count: 0,
                        },
                    );
                    let t = expose_told(before, id, 0, 0, w.width, w.height, 0);
                    lemma_grows_on(s.outbox, before.outbox, t.outbox);
                },
                None => {},
            }
        }
        lemma_exposed_grows(own, id, fuel);
        lemma_grows_on(s.outbox, own.outbox, exposed_below(own, id, fuel).outbox);
    }
}

/// A client that selected exposures on a window that the display asks to be drawn
/// again reads which part of it that is.
pub proof fn law_exposures_are_heard(
    s: ServerModel,
    d: DispatcherModel,
    window: u32,
    x: u16,
    y: u16,
    width: u16,
    height: u16,
    count: u16,
    due: bool,
    after: ServerModel,
    after_d: DispatcherModel,
    left: Followup,
    i: int,
)
    requires
        may_follow(
            s,
            d,
            DisplayEvent::Expose { window, x, y, width, height, count },
            due,
            after,
            after_d,
            left,
        ),
        s.window(window) is Some,
        0 <= i < s.window(window)->0.event_selections.len(),
        s.window(window)->0.event_selections[i].1 & 0x8000 != 0,
        s.connections.dom().contains(s.window(window)->0.event_selections[i].0),
    ensures
        ({
            let who = s.window(window)->0.event_selections[i].0;
            exists|e: Seq<u8>| #[trigger]
                heard(s.outbox, after.outbox, who, e) && reads_exposed(
                    s.connections[who].byte_order,
                    e,
                    window,
                    x,
                    y,
                    width,
                    height,
                    count,
                )
        }),
        after.resources == s.resources,
{
    let who = s.window(window)->0.event_selections[i].0;
    let n = Notice::Expose { window, x, y, width, height, count };
    let t = expose_told(s, window, x, y, width, height, count);
    let e = notice_event(s.connections[who], s.root(), n);
    law_everyone_who_asked_hears(s, window, 0x8000, n, i);
    lemma_told_grows(s, window, 0x8000, n);
    assert(t == told(s, window, 0x8000, n));
    lemma_exposed_grows(t, window, t.resources.dom().len());
    lemma_heard_later(s.outbox, t.outbox, after.outbox, who, e);
    law_exposure_is_read(s.connections[who], window, x, y, width, height, count);
}

proof fn lemma_children_resized_grows(
    s: ServerModel,
    ids: Seq<u32>,
    width: u16,
    height: u16,
    window: u32,
)
    requires
        !ids.contains(window),
    ensures
        ({
            let t = children_resized(s, ids, width, height);
            &&& t.window(window) == s.window(window)
            &&& grows(s.outbox, t.outbox)
            &&& t.connections == s.connections
        }),
    decreases ids.len(),
{
    assert(s.outbox.take(s.outbox.len() as int) =~= s.outbox);
    if ids.len() > 0 {
        let rest = ids.drop_last();
        assert(!rest.contains(window)) by {
            if rest.contains(window) {
                let k = choose|k: int| 0 <= k < rest.len() && rest[k] == window;
                assert(ids[k] == window);
            }
        }
        lemma_children_resized_grows(s, rest, width, height, window);
        let before = children_resized(s, rest, width, height);
        let id = ids.last();
        assert(id != window) by {
            assert(ids[ids.len() - 1] == id);
        }
        let sized = match before.window(id) {
            Some(w) => before.with_window(id, WindowModel { width, height, ..w }),
            None => before,
        };
        let moved = configure_told(sized, id, 0, 0, width, height);
        assert(moved == ServerModel { outbox: moved.outbox, ..sized } && grows(
            sized.outbox,
            moved.outbox,
        )) by {
            assert(sized.outbox.take(sized.outbox.len() as int) =~= sized.outbox);
            match sized.window(id) {
                Some(w) => lemma_told_grows(
                    sized,
                    id,
                    super::protocol::event_mask::STRUCTURE_NOTIFY,
                    Notice::Configure {
                        window: id,
                        x: 0,
                        y: 0,
                        width,
                        height,
                        border_width: w.border_width,
                        override_redirect: w.override_redirect,
                    },
                ),
                None => {},
            }
        }
        let bared = expose_told(moved, id, 0, 0, width, height, 0);
        lemma_told_grows(
            moved,
            id,
            super::protocol::event_mask::EXPOSURE,
            Notice::Expose { window: id, x: 0, y: 0, width, height, count: 0 },
        );
        lemma_grows_on(s.outbox, before.outbox, moved.outbox);
        lemma_grows_on(s.outbox, moved.outbox, bared.outbox);
    }
}

/// When a native window was moved or given a size, its window follows, and a
/// client that selected such changes reads the new geometry.
pub proof fn law_moves_are_heard(
    s: ServerModel,
    d: DispatcherModel,
    window: u32,
    x: i16,
    y: i16,
    width: u16,
    height: u16,
    due: bool,
    after: ServerModel,
    after_d: DispatcherModel,
    left: Followup,
    i: int,
)
    requires
        may_follow(
            s,
            d,
            DisplayEvent::ConfigureNotify { window, x, y, width, height },
            due,
            after,
            after_d,
            left,
        ),
        s.window(window) is Some,
        !s.window(window)->0.children.contains(window),
        0 <= i < s.window(window)->0.event_selections.len(),
        s.window(window)->0.event_selections[i].1 & 0x20000 != 0,
        s.connections.dom().contains(s.window(window)->0.event_selections[i].0),
    ensures
        after.window(window) == Some(
            (WindowModel { x, y, width, height, ..s.window(window)->0 }),
        ),
        ({
            let who = s.window(window)->0.event_selections[i].0;
            exists|e: Seq<u8>| #[trigger]
                heard(s.outbox, after.outbox, who, e) && reads_configured(
                    s.connections[who].byte_order,
                    e,
                    window,
                    x,
                    y,
                    width,
                    height,
                    s.window(window)->0.border_width,
                )
        }),
{
    let w = s.window(window)->0;
    let who = w.event_selections[i].0;
    let placed = s.with_window(window, WindowModel { x, y, width, height, ..w });
    let n = Notice::Configure {
        window,
        x,
        y,
        width,
        height,
        border_width: w.border_width,
        override_redirect: w.override_redirect,
    };
    let b = Notice::Expose { window, x: 0, y: 0, width, height, count: 0 };
    let e = notice_event(s.connections[who], s.root(), n);
    assert(placed.window(window) == Some((WindowModel { x, y, width, height, ..w })));
    law_everyone_who_asked_hears(placed, window, 0x20000, n, i);
    lemma_told_grows(placed, window, 0x20000, n);
    let t = told(placed, window, 0x20000, n);
    assert(t == configure_told(placed, window, x, y, width, height));
    lemma_told_grows(t, window, 0x8000, b);
    let u = told(t, window, 0x8000, b);
    assert(u == expose_told(t, window, 0, 0, width, height, 0));
    lemma_children_resized_grows(u, w.children, width, height, window);
    lemma_heard_later(s.outbox, t.outbox, u.outbox, who, e);
    lemma_heard_later(s.outbox, u.outbox, after.outbox, who, e);
    law_geometry_is_read(
        s.connections[who],
        window,
        x,
        y,
        width,
        height,
        w.border_width,
        w.override_redirect,
    );
}

/// Whether some windows are each the first mapped child of the one before, from a
/// mapped window down to one without a mapped child.
pub open spec fn first_path(m: Map<u32, ResourceModel>, path: Seq<u32>) -> bool {
    &&& path.len() > 0
    &&& forall|i: int| 0 <= i < path.len() - 1 ==> first_below(m, #[trigger] path[i], path[i + 1])
    &&& bare(m, path.last())
}

/// Whether a window is the first mapped child of a mapped window.
pub open spec fn first_below(m: Map<u32, ResourceModel>, window: u32, child: u32) -> bool {
    window_in(m, window) matches Some(w) && w.mapped && exists|k: int|
        0 <= k < w.children.len() && #[trigger] w.children[k] == child && shows(m, child)
            && forall|j: int| 0 <= j < k ==> !shows(m, #[trigger] w.children[j])
}

/// Whether a window is there and mapped.
pub open spec fn shows(m: Map<u32, ResourceModel>, window: u32) -> bool {
    window_in(m, window) matches Some(w) && w.mapped
}

/// Whether a window has no mapped child.
pub open spec fn bare(m: Map<u32, ResourceModel>, window: u32) -> bool {
    window_in(m, window) matches Some(w) ==> forall|j: int|
        0 <= j < w.children.len() ==> !shows(m, #[trigger] w.children[j])
}

proof fn lemma_first_mapped(m: Map<u32, ResourceModel>, ids: Seq<u32>, k: int)
    requires
        0 <= k < ids.len(),
        shows(m, ids[k]),
        forall|j: int| 0 <= j < k ==> !shows(m, #[trigger] ids[j]),
    ensures
        first_mapped(m, ids) == Some(ids[k]),
    decreases ids.len(),
{
    if k > 0 {
        assert(!shows(m, ids[0]));
        let rest = ids.drop_first();
        assert(rest[k - 1] == ids[k]);
        assert forall|j: int| 0 <= j < k - 1 implies !shows(m, #[trigger] rest[j]) by {
            assert(rest[j] == ids[j + 1]);
        }
        lemma_first_mapped(m, rest, k - 1);
    }
}

proof fn lemma_none_mapped(m: Map<u32, ResourceModel>, ids: Seq<u32>)
    requires
        forall|j: int| 0 <= j < ids.len() ==> !shows(m, #[trigger] ids[j]),
    ensures
        first_mapped(m, ids) is None,
    decreases ids.len(),
{
    if ids.len() > 0 {
        assert(!shows(m, ids[0]));
        let rest = ids.drop_first();
        assert forall|j: int| 0 <= j < rest.len() implies !shows(m, #[trigger] rest[j]) by {
            assert(rest[j] == ids[j + 1]);
        }
        lemma_none_mapped(m, rest);
    }
}

proof fn lemma_deepest(m: Map<u32, ResourceModel>, path: Seq<u32>, fuel: nat)
    requires
        first_path(m, path),
        path.len() <= fuel + 1,
    ensures
        deepest_child(m, path[0], fuel) == path.last(),
    decreases path.len(),
{
    if path.len() == 1 {
        match window_in(m, path[0]) {
            Some(w) => lemma_none_mapped(m, w.children),
            None => {},
        }
    } else {
        assert(first_below(m, path[0], path[0int + 1]));
        let w = window_in(m, path[0])->0;
        let k = choose|k: int|
            0 <= k < w.children.len() && #[trigger] w.children[k] == path[1] && shows(m, path[1])
                && forall|j: int| 0 <= j < k ==> !shows(m, #[trigger] w.children[j]);
        lemma_first_mapped(m, w.children, k);
        let rest = path.drop_first();
        assert forall|i: int| 0 <= i < rest.len() - 1 implies first_below(
            m,
            #[trigger] rest[i],
            rest[i + 1],
        ) by {
            assert(path[i + 1] == rest[i] && path[i + 2] == rest[i + 1]);
            assert(first_below(m, path[i + 1], path[i + 1 + 1]));
        }
        assert(rest.last() == path.last());
        lemma_deepest(m, rest, (fuel - 1) as nat);
    }
}

/// A key goes to the innermost first mapped window below the one that the display
/// reports, where there is a focus: the first client that selected it there reads
/// the key, the modifiers and the time.
pub proof fn law_keys_are_heard(
    s: ServerModel,
    d: DispatcherModel,
    press: bool,
    window: u32,
    keycode: u8,
    state: u16,
    time: u32,
    due: bool,
    after: ServerModel,
    after_d: DispatcherModel,
    left: Followup,
    path: Seq<u32>,
    i: int,
)
    requires
        may_follow(
            s,
            d,
            if press {
                DisplayEvent::KeyPress { window, keycode, state, time }
            } else {
                DisplayEvent::KeyRelease { window, keycode, state, time }
            },
            due,
            after,
            after_d,
            left,
        ),
        s.focus_window > 0,
        first_path(s.resources, path),
        path.len() <= 17,
        path[0] == window,
        path.last() != 0,
        s.window(path.last()) is Some,
        first_to_want(
            s.window(path.last())->0.event_selections,
            if press {
                1
            } else {
                2
            },
            i,
        ),
        s.connections.dom().contains(s.window(path.last())->0.event_selections[i].0),
    ensures
        after.modifier_state == state,
        ({
            let who = s.window(path.last())->0.event_selections[i].0;
            &&& after.outbox.len() == s.outbox.len() + 1
            &&& after.outbox.drop_last() == s.outbox
            &&& after.outbox.last() matches ActionModel::Event { conn, data } && conn == who
                && reads_input(
                s.connections[who].byte_order,
                data,
                if press {
                    2
                } else {
                    3
                },
                keycode,
                time,
                s.root(),
                path.last(),
                0,
                0,
                0,
                0,
                0,
                state,
            )
        }),
{
    let t = path.last();
    let kind = if press {
        2u8
    } else {
        3u8
    };
    let mask = if press {
        1u32
    } else {
        2u32
    };
    lemma_deepest(s.resources, path, MAX_DESCENT as nat);
    let s1 = ServerModel { modifier_state: state, ..s };
    let sels = s.window(t)->0.event_selections;
    let who = sels[i].0;
    lemma_first_to_want(sels, Wanted::Mask(mask), mask, i);
    assert(key_target(s1, window) == Some(t));
    let owner = choose|owner: Option<u32>| #[trigger]
        owner_found(s1.connections, t, owner) && after == key_told(
            s1,
            kind,
            window,
            keycode,
            state,
            time,
            owner,
        );
    assert(key_destination(s1.resources, t, mask, owner) == Some((who, t, 0u32)));
    law_input_is_read(
        s.connections[who],
        kind,
        keycode,
        time,
        s.root(),
        t,
        0,
        0,
        0,
        0,
        0,
        state,
        true,
    );
    assert(after.outbox.drop_last() =~= s.outbox);
}

/// Whether no selection wants any of some events.
pub open spec fn nobody_wants(sels: Seq<(u32, u32)>, mask: u32) -> bool {
    forall|j: int| 0 <= j < sels.len() ==> (#[trigger] sels[j]).1 & mask == 0
}

proof fn lemma_nobody(sels: Seq<(u32, u32)>, mask: u32)
    requires
        nobody_wants(sels, mask),
    ensures
        first_selecting(sels, Wanted::Mask(mask)) is None,
    decreases sels.len(),
{
    if sels.len() > 0 {
        assert(sels[0].1 & mask == 0);
        let rest = sels.drop_first();
        assert forall|j: int| 0 <= j < rest.len() implies (#[trigger] rest[j]).1 & mask == 0 by {
            assert(rest[j] == sels[j + 1]);
        }
        lemma_nobody(rest, mask);
    }
}

/// A button event that nobody selected on a window goes to its parent, in the
/// parent's coordinates, and names the window as the child it came through.
pub proof fn law_unwanted_buttons_go_up(
    s: ServerModel,
    kind: u8,
    button: u8,
    window: u32,
    x: i16,
    y: i16,
    root_x: i16,
    root_y: i16,
    state: u16,
    time: u32,
    mask: u32,
    i: int,
)
    requires
        window != 0,
        s.window(window) is Some,
        s.window(window)->0.parent != 0,
        s.window(s.window(window)->0.parent) is Some,
        nobody_wants(s.window(window)->0.event_selections, mask),
        first_to_want(s.window(s.window(window)->0.parent)->0.event_selections, mask, i),
        s.connections.dom().contains(
            s.window(s.window(window)->0.parent)->0.event_selections[i].0,
        ),
        -0x8000 <= x + s.window(window)->0.x <= 0x7FFF,
        -0x8000 <= y + s.window(window)->0.y <= 0x7FFF,
    ensures
        ({
            let w = s.window(window)->0;
            let who = s.window(w.parent)->0.event_selections[i].0;
            let t = pointer_told(
                s,
                kind,
                button,
                window,
                x,
                y,
                root_x,
                root_y,
                state,
                time,
                Wanted::Mask(mask),
            );
            &&& t.outbox.len() == s.outbox.len() + 1
            &&& t.outbox.last() matches ActionModel::Event { conn, data } && conn == who
                && reads_input(
                s.connections[who].byte_order,
                data,
                kind,
                button,
                time,
                s.root(),
                w.parent,
                window,
                root_x,
                root_y,
                (x + w.x) as i16,
                (y + w.y) as i16,
                state,
            )
        }),
{
    let w = s.window(window)->0;
    let sels = s.window(w.parent)->0.event_selections;
    let who = sels[i].0;
    lemma_nobody(w.event_selections, mask);
    lemma_first_to_want(sels, Wanted::Mask(mask), mask, i);
    reveal_with_fuel(pointer_route, 3);
    law_input_is_read(
        s.connections[who],
        kind,
        button,
        time,
        s.root(),
        w.parent,
        window,
        root_x,
        root_y,
        (x + w.x) as i16,
        (y + w.y) as i16,
        state,
        true,
    );
}

/// When a native window becomes active, the top-level window it belongs to has the
/// focus.
pub proof fn law_activation_moves_the_focus(
    s: ServerModel,
    d: DispatcherModel,
    window: u32,
    due: bool,
    after: ServerModel,
    after_d: DispatcherModel,
    left: Followup,
)
    requires
        may_follow(s, d, DisplayEvent::FocusIn { window }, due, after, after_d, left),
        s.window(window) is Some,
        s.window(window)->0.parent == s.root(),
        window > 1,
        window != s.root(),
    ensures
        after.focus_window == window,
{
    reveal_with_fuel(super::search::toplevel_from, 2);
    let out = super::notify::focus_told(
        s,
        super::protocol::event_type::FOCUS_OUT,
        s.focus_window,
    );
    lemma_told_grows(
        s,
        s.focus_window,
        super::protocol::event_mask::FOCUS_CHANGE,
        Notice::Focus { kind: 10, window: s.focus_window },
    );
    let base = if s.focus_window > 1 {
        out
    } else {
        s
    };
    lemma_told_grows(
        ServerModel { focus_window: window, ..base },
        window,
        super::protocol::event_mask::FOCUS_CHANGE,
        Notice::Focus { kind: 9, window },
    );
}

proof fn lemma_pointer_grows(
    s: ServerModel,
    kind: u8,
    detail: u8,
    window: u32,
    x: i16,
    y: i16,
    p: Pointing,
    wanted: Wanted,
)
    ensures
        ({
            let t = pointer_told(
                s,
                kind,
                detail,
                window,
                x,
                y,
                p.root_x,
                p.root_y,
                p.state,
                p.time,
                wanted,
            );
            &&& t == ServerModel { outbox: t.outbox, ..s }
            &&& grows(s.outbox, t.outbox)
        }),
{
    let t = pointer_told(
        s,
        kind,
        detail,
        window,
        x,
        y,
        p.root_x,
        p.root_y,
        p.state,
        p.time,
        wanted,
    );
    assert(t.outbox.take(s.outbox.len() as int) =~= s.outbox);
}

/// The window that the pointer came to is told where it came in, and the one that
/// it left is told that it went.
proof fn lemma_crossing_is_heard(
    st: (ServerModel, DispatcherModel),
    spot: Spot,
    p: Pointing,
)
    requires
        st.1.entered_window != spot.window,
    ensures
        ({
            let (s, d) = st;
            let (t, e) = crossed(st, spot, p);
            &&& e.entered_window == spot.window
            &&& t == ServerModel { outbox: t.outbox, ..s }
            &&& grows(s.outbox, t.outbox)
            &&& s.window(spot.window) matches Some(w) ==> forall|i: int| #![trigger w.event_selections[i]]
                0 <= i < w.event_selections.len() && w.event_selections[i].1 & 0x10 != 0
                    && s.connections.dom().contains(w.event_selections[i].0) ==> heard(
                    s.outbox,
                    t.outbox,
                    w.event_selections[i].0,
                    entering(s.connections[w.event_selections[i].0], s.root(), spot, p),
                )
            &&& d.entered_window != 0 ==> (s.window(d.entered_window) matches Some(w)
                ==> forall|i: int| #![trigger w.event_selections[i]]
                0 <= i < w.event_selections.len() && w.event_selections[i].1 & 0x20 != 0
                    && s.connections.dom().contains(w.event_selections[i].0) ==> heard(
                    s.outbox,
                    t.outbox,
                    w.event_selections[i].0,
                    leaving(s.connections[w.event_selections[i].0], s.root(), d.entered_window, p),
                ))
        }),
{
    let (s, d) = st;
    let (t, e) = crossed(st, spot, p);
    let old = d.entered_window;
    let leave = Notice::Crossing {
        kind: 8,
        window: old,
        x: 0,
        y: 0,
        root_x: p.root_x,
        root_y: p.root_y,
        state: p.state,
        time: p.time,
    };
    let enter = Notice::Crossing {
        kind: 7,
        window: spot.window,
        x: spot.x,
        y: spot.y,
        root_x: p.root_x,
        root_y: p.root_y,
        state: p.state,
        time: p.time,
    };
    let left = if old != 0 {
        told(s, old, 0x20, leave)
    } else {
        s
    };
    lemma_told_grows(s, old, 0x20, leave);
    assert(s.outbox.take(s.outbox.len() as int) =~= s.outbox);
    lemma_told_grows(left, spot.window, 0x10, enter);
    assert(t == told(left, spot.window, 0x10, enter));
    lemma_grows_on(s.outbox, left.outbox, t.outbox);
    if let Some(w) = s.window(spot.window) {
        assert forall|i: int| #![trigger w.event_selections[i]]
            0 <= i < w.event_selections.len() && w.event_selections[i].1 & 0x10 != 0
                && s.connections.dom().contains(w.event_selections[i].0) implies heard(
            s.outbox,
            t.outbox,
            w.event_selections[i].0,
            entering(s.connections[w.event_selections[i].0], s.root(), spot, p),
        ) by {
            law_everyone_who_asked_hears(left, spot.window, 0x10, enter, i);
            lemma_heard_more(
                s.outbox,
                left.outbox,
                t.outbox,
                w.event_selections[i].0,
                entering(s.connections[w.event_selections[i].0], s.root(), spot, p),
            );
        }
    }
    if old != 0 {
        if let Some(w) = s.window(old) {
            assert forall|i: int| #![trigger w.event_selections[i]]
                0 <= i < w.event_selections.len() && w.event_selections[i].1 & 0x20 != 0
                    && s.connections.dom().contains(w.event_selections[i].0) implies heard(
                s.outbox,
                t.outbox,
                w.event_selections[i].0,
                leaving(s.connections[w.event_selections[i].0], s.root(), old, p),
            ) by {
                law_everyone_who_asked_hears(s, old, 0x20, leave, i);
                lemma_heard_later(
                    s.outbox,
                    left.outbox,
                    t.outbox,
                    w.event_selections[i].0,
                    leaving(s.connections[w.event_selections[i].0], s.root(), old, p),
                );
            }
        }
    }
}

/// The event that tells a client that the pointer came into a window.
spec fn entering(conn: ClientConnection, root: u32, spot: Spot, p: Pointing) -> Seq<u8> {
    super::events::crossing_event(
        conn,
        7,
        p.time,
        root,
        spot.window,
        p.root_x,
        p.root_y,
        spot.x,
        spot.y,
        p.state,
    )
}

/// The event that tells a client that the pointer left a window.
spec fn leaving(conn: ClientConnection, root: u32, window: u32, p: Pointing) -> Seq<u8> {
    super::events::crossing_event(
        conn,
        8,
        p.time,
        root,
        window,
        p.root_x,
        p.root_y,
        0,
        0,
        p.state,
    )
}

proof fn lemma_moved_grows(
    s: ServerModel,
    d: DispatcherModel,
    p: Pointing,
    due: bool,
    after: ServerModel,
    after_d: DispatcherModel,
    left: Followup,
)
    requires
        p.state & 0x1F00 == 0,
        may_follow(s, d, motion_at(p), due, after, after_d, left),
    ensures
        ({
            let s2 = ServerModel {
                pointer_x: p.root_x as i32,
                pointer_y: p.root_y as i32,
                window_pointer: s.window_pointer.insert(p.window, (p.x, p.y)),
                ..s
            };
            let spot = spot_under(s, p);
            let v = watched(d, p.state);
            let (t, e) = crossed((s2, v), spot, p);
            &&& v.entered_window == d.entered_window
            &&& after_d.entered_window == e.entered_window
            &&& grows(t.outbox, after.outbox)
        }),
{
    assert((after, after_d, left.autoscrolled) == moved((s, d), p, due));
    let v = watched(d, p.state);
    let s2 = ServerModel {
        pointer_x: p.root_x as i32,
        pointer_y: p.root_y as i32,
        window_pointer: s.window_pointer.insert(p.window, (p.x, p.y)),
        ..s
    };
    let spot = spot_under(s, p);
    let c = crossed((s2, v), spot, p);
    let r = recursored(c, spot, p.window);
    assert(r.0.outbox.take(c.0.outbox.len() as int) =~= c.0.outbox);
    lemma_pointer_grows(r.0, 6, 0, spot.window, spot.x, spot.y, p, Wanted::Motion(p.state));
    lemma_grows_on(c.0.outbox, r.0.outbox, after.outbox);
}

/// A client that selected it hears that the pointer came into the window that is
/// now under it, with the point in the window's coordinates; one that selected it
/// on the window that the pointer was in hears that it left.
pub proof fn law_crossings_are_heard(
    s: ServerModel,
    d: DispatcherModel,
    p: Pointing,
    due: bool,
    after: ServerModel,
    after_d: DispatcherModel,
    left: Followup,
    i: int,
)
    requires
        p.state & 0x1F00 == 0,
        may_follow(s, d, motion_at(p), due, after, after_d, left),
        ({
            let w = child_at(s.resources, p.window, p.x, p.y, MAX_DESCENT as nat).0;
            w != d.entered_window && s.window(w) is Some
        }),
    ensures
        ({
            let (w, wx, wy) = child_at(s.resources, p.window, p.x, p.y, MAX_DESCENT as nat);
            let sels = s.window(w)->0.event_selections;
            &&& after_d.entered_window == w
            &&& 0 <= i < sels.len() && sels[i].1 & 0x10 != 0 && s.connections.dom().contains(
                sels[i].0,
            ) ==> exists|e: Seq<u8>| #[trigger]
                heard(s.outbox, after.outbox, sels[i].0, e) && reads_input(
                    s.connections[sels[i].0].byte_order,
                    e,
                    7,
                    0,
                    p.time,
                    s.root(),
                    w,
                    0,
                    p.root_x,
                    p.root_y,
                    wx,
                    wy,
                    p.state,
                )
        }),
        d.entered_window != 0 ==> (s.window(d.entered_window) matches Some(v) ==> {
            let sels = v.event_selections;
            0 <= i < sels.len() && sels[i].1 & 0x20 != 0 && s.connections.dom().contains(sels[i].0)
                ==> exists|e: Seq<u8>| #[trigger]
                heard(s.outbox, after.outbox, sels[i].0, e) && reads_input(
                    s.connections[sels[i].0].byte_order,
                    e,
                    8,
                    0,
                    p.time,
                    s.root(),
                    d.entered_window,
                    0,
                    p.root_x,
                    p.root_y,
                    0,
                    0,
                    p.state,
                )
        }),
{
    let spot = spot_under(s, p);
    let v = watched(d, p.state);
    let s2 = ServerModel {
        pointer_x: p.root_x as i32,
        pointer_y: p.root_y as i32,
        window_pointer: s.window_pointer.insert(p.window, (p.x, p.y)),
        ..s
    };
    let t = crossed((s2, v), spot, p).0;
    lemma_moved_grows(s, d, p, due, after, after_d, left);
    lemma_crossing_is_heard((s2, v), spot, p);
    let sels = s.window(spot.window)->0.event_selections;
    if 0 <= i < sels.len() && sels[i].1 & 0x10 != 0 && s.connections.dom().contains(sels[i].0) {
        let who = sels[i].0;
        let e = entering(s.connections[who], s.root(), spot, p);
        assert(heard(s2.outbox, t.outbox, who, e));
        lemma_heard_later(s.outbox, t.outbox, after.outbox, who, e);
        law_crossing_is_read(
            s.connections[who],
            7,
            p.time,
            s.root(),
            spot.window,
            p.root_x,
            p.root_y,
            spot.x,
            spot.y,
            p.state,
        );
    }
    if d.entered_window != 0 && s.window(d.entered_window) is Some {
        let old = s.window(d.entered_window)->0.event_selections;
        if 0 <= i < old.len() && old[i].1 & 0x20 != 0 && s.connections.dom().contains(old[i].0) {
            let who = old[i].0;
            let e = leaving(s.connections[who], s.root(), d.entered_window, p);
            assert(heard(s2.outbox, t.outbox, who, e));
            lemma_heard_later(s.outbox, t.outbox, after.outbox, who, e);
            law_crossing_is_read(
                s.connections[who],
                8,
                p.time,
                s.root(),
                d.entered_window,
                p.root_x,
                p.root_y,
                0,
                0,
                p.state,
            );
        }
    }
}

} // verus!
