//! Where pointer and keyboard input arrives, and in whose coordinates.

use vstd::prelude::*;

use super::delivery::{first_selecting, pointer_route, pointer_told, Wanted};
use super::dispatch::{may_follow, Followup};
use super::input::{
    autoscrolled, crossed, grab_spot, grabbed, moved, recursored, refocused, spot_under, watched,
    DispatcherModel, Pointing, Spot,
};
use super::notify::{crossing_told, focus_told, told, told_selected, Notice};
use super::notify::notice_event;
use super::protocol::event_type;
use super::readings::{law_crossing_is_read, law_focus_is_read, law_input_is_read, reads_input};
use super::resources::ResourceModel;
use super::search::{child_at, child_hit, holds_point, law_child_hit, MAX_ASCENT, MAX_DESCENT};
use super::wire::{i16_at, u16_at, u32_at};
use super::{window_in, ActionModel, ServerModel};
use crate::display::DisplayEvent;

verus! {

/// Whether two numbers are the same in sixteen bits.
pub open spec fn same16(a: int, b: int) -> bool {
    (a - b) % 0x10000 == 0
}

/// The parent of a window.
pub open spec fn parent_of(m: Map<u32, ResourceModel>, window: u32) -> u32 {
    match window_in(m, window) {
        Some(w) => w.parent,
        None => 0,
    }
}

/// Where a window lies in its parent.
pub open spec fn position_of(m: Map<u32, ResourceModel>, window: u32) -> (int, int) {
    match window_in(m, window) {
        Some(w) => (w.x as int, w.y as int),
        None => (0, 0),
    }
}

/// The window a number of levels above another.
pub open spec fn ancestor(m: Map<u32, ResourceModel>, window: u32, n: nat) -> u32
    decreases n,
{
    if n == 0 {
        window
    } else {
        ancestor(m, parent_of(m, window), (n - 1) as nat)
    }
}

/// Where a window lies in the one a number of levels above it: the sum of the
/// positions on the way.
pub open spec fn position_in(m: Map<u32, ResourceModel>, window: u32, n: nat) -> (int, int)
    decreases n,
{
    if n == 0 {
        (0, 0)
    } else {
        let up = position_in(m, parent_of(m, window), (n - 1) as nat);
        (position_of(m, window).0 + up.0, position_of(m, window).1 + up.1)
    }
}

/// Whether a point of one window is a point of another, one of the two being
/// inside the other: the coordinates differ by the positions between them.
pub open spec fn same_point(
    m: Map<u32, ResourceModel>,
    a: u32,
    ax: i16,
    ay: i16,
    b: u32,
    bx: i16,
    by: i16,
) -> bool {
    ||| exists|n: nat| #[trigger] point_above(m, a, ax, ay, b, bx, by, n)
    ||| exists|n: nat| #[trigger] point_above(m, b, bx, by, a, ax, ay, n)
}

/// Whether a point of a window is that point of the window a number of levels
/// above it.
pub open spec fn point_above(
    m: Map<u32, ResourceModel>,
    low: u32,
    lx: i16,
    ly: i16,
    high: u32,
    hx: i16,
    hy: i16,
    n: nat,
) -> bool {
    &&& ancestor(m, low, n) == high
    &&& same16(lx + position_in(m, low, n).0, hx as int)
    &&& same16(ly + position_in(m, low, n).1, hy as int)
}

/// Whether the children that windows list have them as parents.
pub open spec fn linked(m: Map<u32, ResourceModel>) -> bool {
    forall|id: u32, i: int|
        #![trigger window_in(m, window_in(m, id)->0.children[i])]
        window_in(m, id) is Some && 0 <= i < window_in(m, id)->0.children.len() ==> (window_in(
            m,
            window_in(m, id)->0.children[i],
        ) matches Some(c) ==> c.parent == id)
}

proof fn lemma_ancestor_splits(m: Map<u32, ResourceModel>, window: u32, k: nat, n: nat)
    requires
        k <= n,
    ensures
        ancestor(m, ancestor(m, window, k), (n - k) as nat) == ancestor(m, window, n),
        position_in(m, window, n).0 == position_in(m, window, k).0 + position_in(
            m,
            ancestor(m, window, k),
            (n - k) as nat,
        ).0,
        position_in(m, window, n).1 == position_in(m, window, k).1 + position_in(
            m,
            ancestor(m, window, k),
            (n - k) as nat,
        ).1,
    decreases k,
{
    if k > 0 {
        lemma_ancestor_splits(m, parent_of(m, window), (k - 1) as nat, (n - 1) as nat);
    }
}

/// The window found under a point lies a number of levels below, and the point in
/// its coordinates is the same point.
proof fn lemma_descent(m: Map<u32, ResourceModel>, window: u32, x: i16, y: i16, fuel: nat) -> (n: nat)
    requires
        linked(m),
    ensures
        ({
            let (w, wx, wy) = child_at(m, window, x, y, fuel);
            &&& n <= fuel
            &&& point_above(m, w, wx, wy, window, x, y, n)
            &&& n < fuel ==> (window_in(m, w) matches Some(v) ==> child_hit(m, v.children, wx, wy) is None)
        }),
    decreases fuel,
{
    if fuel == 0 {
        0
    } else {
        match window_in(m, window) {
            Some(w) => {
                law_child_hit(m, w.children, x, y);
                match child_hit(m, w.children, x, y) {
                    Some((child, cx, cy)) => {
                        let i = choose|i: int| 0 <= i < w.children.len() && w.children[i] == child;
                        assert(window_in(m, window_in(m, window)->0.children[i]) is Some);
                        let k = lemma_descent(m, child, cx, cy, (fuel - 1) as nat);
                        let (v, vx, vy) = child_at(m, child, cx, cy, (fuel - 1) as nat);
                        lemma_ancestor_splits(m, v, k, k + 1);
                        assert(ancestor(m, child, 1) == window) by {
                            reveal_with_fuel(ancestor, 2);
                        }
                        let c = window_in(m, child)->0;
                        assert(position_in(m, child, 1) == (c.x as int, c.y as int)) by {
                            reveal_with_fuel(position_in, 2);
                        }
                        assert(same16(cx + c.x, x as int));
                        assert(same16(cy + c.y, y as int));
                        k + 1
                    },
                    None => 0,
                }
            },
            None => 0,
        }
    }
}

/// A pointer event goes up a number of levels, and the point moves along.
proof fn lemma_route(
    m: Map<u32, ResourceModel>,
    current: u32,
    child: u32,
    x: i16,
    y: i16,
    wanted: Wanted,
    fuel: nat,
) -> (k: nat)
    requires
        pointer_route(m, current, child, x, y, wanted, fuel) is Some,
    ensures
        ({
            let r = pointer_route(m, current, child, x, y, wanted, fuel)->0;
            &&& point_above(m, current, x, y, r.window, r.x, r.y, k)
            &&& first_selecting(window_in(m, current)->0.event_selections, wanted) is Some ==> k == 0
        }),
    decreases fuel,
{
    let w = window_in(m, current)->0;
    match first_selecting(w.event_selections, wanted) {
        Some(_) => 0,
        None => {
            let (ux, uy) = (x.wrapping_add(w.x), y.wrapping_add(w.y));
            let k = lemma_route(m, w.parent, current, ux, uy, wanted, (fuel - 1) as nat);
            let r = pointer_route(m, w.parent, current, ux, uy, wanted, (fuel - 1) as nat)->0;
            assert(ancestor(m, current, k + 1) == ancestor(m, w.parent, k));
            assert(position_in(m, current, k + 1).0 == w.x + position_in(m, w.parent, k).0);
            assert(position_in(m, current, k + 1).1 == w.y + position_in(m, w.parent, k).1);
            assert(same16(ux as int, x + w.x));
            assert(same16(uy as int, y + w.y));
            k + 1
        },
    }
}

/// Where an event goes from the window under the pointer, the point is still the
/// one that was reported.
proof fn lemma_arrival(
    m: Map<u32, ResourceModel>,
    low: u32,
    lx: i16,
    ly: i16,
    native: u32,
    x: i16,
    y: i16,
    n: nat,
    to: u32,
    tx: i16,
    ty: i16,
    k: nat,
)
    requires
        point_above(m, low, lx, ly, native, x, y, n),
        point_above(m, low, lx, ly, to, tx, ty, k),
    ensures
        same_point(m, to, tx, ty, native, x, y),
{
    if k <= n {
        lemma_ancestor_splits(m, low, k, n);
        let up = position_in(m, to, (n - k) as nat);
        let (pk, pn) = (position_in(m, low, k), position_in(m, low, n));
        assert(same16(tx + up.0, x as int)) by {
            assert(same16(lx + pk.0, tx as int));
            assert(same16(lx + pn.0, x as int));
            assert(pn.0 == pk.0 + up.0);
        }
        assert(same16(ty + up.1, y as int)) by {
            assert(same16(ly + pk.1, ty as int));
            assert(same16(ly + pn.1, y as int));
            assert(pn.1 == pk.1 + up.1);
        }
        assert(point_above(m, to, tx, ty, native, x, y, (n - k) as nat));
    } else {
        lemma_ancestor_splits(m, low, n, k);
        let up = position_in(m, native, (k - n) as nat);
        let (pk, pn) = (position_in(m, low, k), position_in(m, low, n));
        assert(same16(x + up.0, tx as int)) by {
            assert(same16(lx + pk.0, tx as int));
            assert(same16(lx + pn.0, x as int));
            assert(pk.0 == pn.0 + up.0);
        }
        assert(same16(y + up.1, ty as int)) by {
            assert(same16(ly + pk.1, ty as int));
            assert(same16(ly + pn.1, y as int));
            assert(pk.1 == pn.1 + up.1);
        }
        assert(point_above(m, native, x, y, to, tx, ty, (k - n) as nat));
    }
}

/// Whether actions were added to others, each of them of some kind.
pub open spec fn added(
    before: Seq<ActionModel>,
    after: Seq<ActionModel>,
    ok: spec_fn(ActionModel) -> bool,
) -> bool {
    &&& before.len() <= after.len()
    &&& after.take(before.len() as int) == before
    &&& forall|i: int| before.len() <= i < after.len() ==> ok(#[trigger] after[i])
}

pub proof fn lemma_added_none(before: Seq<ActionModel>, ok: spec_fn(ActionModel) -> bool)
    ensures
        added(before, before, ok),
{
    assert(before.take(before.len() as int) =~= before);
}

pub proof fn lemma_added_one(before: Seq<ActionModel>, a: ActionModel, ok: spec_fn(ActionModel) -> bool)
    requires
        ok(a),
    ensures
        added(before, before.push(a), ok),
{
    assert(before.push(a).take(before.len() as int) =~= before);
}

pub proof fn lemma_added_both(
    a: Seq<ActionModel>,
    b: Seq<ActionModel>,
    c: Seq<ActionModel>,
    ok: spec_fn(ActionModel) -> bool,
)
    requires
        added(a, b, ok),
        added(b, c, ok),
    ensures
        added(a, c, ok),
{
    assert(c.take(a.len() as int) =~= b.take(a.len() as int)) by {
        assert(c.take(b.len() as int) == b);
        assert forall|i: int| 0 <= i < a.len() implies c[i] == b[i] by {
            assert(c.take(b.len() as int)[i] == b[i]);
        }
    }
    assert forall|i: int| a.len() <= i < c.len() implies ok(#[trigger] c[i]) by {
        if i < b.len() {
            assert(c.take(b.len() as int)[i] == b[i]);
            assert(ok(b[i]));
        }
    }
}

/// What the notices that clients are sent add.
pub proof fn lemma_told_adds(
    s: ServerModel,
    sels: Seq<(u32, u32)>,
    mask: u32,
    n: Notice,
    ok: spec_fn(ActionModel) -> bool,
)
    requires
        forall|id: u32| #[trigger]
            s.connections.dom().contains(id) ==> ok(
                ActionModel::Event {
                    conn: id,
                    data: notice_event(s.connections[id], s.root(), n),
                },
            ),
    ensures
        added(s.outbox, told_selected(s, sels, mask, n).outbox, ok),
    decreases sels.len(),
{
    if sels.len() == 0 {
        lemma_added_none(s.outbox, ok);
    } else {
        lemma_told_adds(s, sels.drop_last(), mask, n, ok);
        let before = told_selected(s, sels.drop_last(), mask, n);
        let (id, selected) = sels.last();
        if selected & mask != 0 && s.connections.dom().contains(id) {
            let a = ActionModel::Event {
                conn: id,
                data: notice_event(s.connections[id], s.root(), n),
            };
            lemma_added_one(before.outbox, a, ok);
            lemma_added_both(s.outbox, before.outbox, before.outbox.push(a), ok);
        }
    }
}

/// Whether an action, if it is a button, motion or enter event, tells of a point
/// of a native window truly: in the coordinates of the window it names, with the
/// place on the screen, the state and the time.
pub open spec fn tells_truly(s: ServerModel, p: Pointing, a: ActionModel) -> bool {
    a matches ActionModel::Event { conn, data } ==> (s.connections.dom().contains(conn) && ({
        let o = s.connections[conn].byte_order;
        4 <= data[0] <= 7 ==> {
            &&& same_point(
                s.resources,
                u32_at(o, data, 12),
                i16_at(o, data, 24),
                i16_at(o, data, 26),
                p.window,
                p.x,
                p.y,
            )
            &&& u32_at(o, data, 8) == s.root()
            &&& i16_at(o, data, 20) == p.root_x
            &&& i16_at(o, data, 22) == p.root_y
            &&& u16_at(o, data, 28) == p.state
            &&& u32_at(o, data, 4) == p.time
        }
    }))
}

/// The parts of the state that tell where things are.
spec fn same_places(s: ServerModel, t: ServerModel) -> bool {
    s.resources == t.resources && s.connections == t.connections && s.screen == t.screen
}

proof fn lemma_crossed_adds(st: (ServerModel, DispatcherModel), spot: Spot, p: Pointing, n: nat)
    requires
        point_above(st.0.resources, spot.window, spot.x, spot.y, p.window, p.x, p.y, n),
    ensures
        ({
            let s = st.0;
            let t = crossed(st, spot, p).0;
            &&& same_places(s, t)
            &&& t == ServerModel { outbox: t.outbox, ..s }
            &&& added(s.outbox, t.outbox, |a: ActionModel| tells_truly(s, p, a))
        }),
{
    let (s, d) = st;
    let ok = |a: ActionModel| tells_truly(s, p, a);
    lemma_added_none(s.outbox, ok);
    if d.entered_window != spot.window {
        let left = if d.entered_window != 0 {
            crossing_told(
                s,
                event_type::LEAVE_NOTIFY,
                d.entered_window,
                0,
                0,
                p.root_x,
                p.root_y,
                p.state,
                p.time,
            )
        } else {
            s
        };
        lemma_crossing_adds(s, s, 8, d.entered_window, 0, 0, p, ok);
        assert forall|id: u32| #[trigger] s.connections.dom().contains(id) implies ok(
            ActionModel::Event {
                conn: id,
                data: notice_event(
                    s.connections[id],
                    s.root(),
                    Notice::Crossing {
                        kind: 7,
                        window: spot.window,
                        x: spot.x,
                        y: spot.y,
                        root_x: p.root_x,
                        root_y: p.root_y,
                        state: p.state,
                        time: p.time,
                    },
                ),
            },
        ) by {
            law_crossing_is_read(
                s.connections[id],
                7,
                p.time,
                s.root(),
                spot.window,
                p.root_x,
                p.root_y,
                spot.x,
                spot.y,
                p.state,
            );
            assert(point_above(s.resources, spot.window, spot.x, spot.y, p.window, p.x, p.y, n));
        }
        lemma_crossing_adds(s, left, 7, spot.window, spot.x, spot.y, p, ok);
        let entered = crossed(st, spot, p).0;
        lemma_added_both(s.outbox, left.outbox, entered.outbox, ok);
    }
}

proof fn lemma_crossing_adds(
    s: ServerModel,
    t: ServerModel,
    kind: u8,
    window: u32,
    x: i16,
    y: i16,
    p: Pointing,
    ok: spec_fn(ActionModel) -> bool,
)
    requires
        kind == 7 || kind == 8,
        t == (ServerModel { outbox: t.outbox, ..s }),
        ok == (|a: ActionModel| tells_truly(s, p, a)),
        kind == 7 ==> forall|id: u32| #[trigger]
            s.connections.dom().contains(id) ==> ok(
                ActionModel::Event {
                    conn: id,
                    data: notice_event(
                        s.connections[id],
                        s.root(),
                        Notice::Crossing {
                            kind,
                            window,
                            x,
                            y,
                            root_x: p.root_x,
                            root_y: p.root_y,
                            state: p.state,
                            time: p.time,
                        },
                    ),
                },
            ),
    ensures
        ({
            let u = crossing_told(t, kind, window, x, y, p.root_x, p.root_y, p.state, p.time);
            &&& u == ServerModel { outbox: u.outbox, ..s }
            &&& added(t.outbox, u.outbox, ok)
        }),
{
    let notice = Notice::Crossing {
        kind,
        window,
        x,
        y,
        root_x: p.root_x,
        root_y: p.root_y,
        state: p.state,
        time: p.time,
    };
    let mask = if kind == event_type::ENTER_NOTIFY {
        super::protocol::event_mask::ENTER_WINDOW
    } else {
        super::protocol::event_mask::LEAVE_WINDOW
    };
    super::notify::law_telling_queues_events_only(t, window, mask, notice);
    assert forall|id: u32| #[trigger] t.connections.dom().contains(id) implies ok(
        ActionModel::Event { conn: id, data: notice_event(t.connections[id], t.root(), notice) },
    ) by {
        assert(s.connections.dom().contains(id));
        law_crossing_is_read(
            t.connections[id],
            kind,
            p.time,
            t.root(),
            window,
            p.root_x,
            p.root_y,
            x,
            y,
            p.state,
        );
    }
    match t.window(window) {
        Some(w) => lemma_told_adds(t, w.event_selections, mask, notice, ok),
        None => lemma_added_none(t.outbox, ok),
    }
}

/// What the pointer event itself adds.
proof fn lemma_pointer_adds(
    s: ServerModel,
    t: ServerModel,
    kind: u8,
    detail: u8,
    spot: Spot,
    p: Pointing,
    wanted: Wanted,
    n: nat,
)
    requires
        same_places(s, t),
        point_above(s.resources, spot.window, spot.x, spot.y, p.window, p.x, p.y, n),
    ensures
        added(
            t.outbox,
            pointer_told(
                t,
                kind,
                detail,
                spot.window,
                spot.x,
                spot.y,
                p.root_x,
                p.root_y,
                p.state,
                p.time,
                wanted,
            ).outbox,
            |a: ActionModel| tells_truly(s, p, a),
        ),
{
    let ok = |a: ActionModel| tells_truly(s, p, a);
    let m = s.resources;
    lemma_added_none(t.outbox, ok);
    match pointer_route(m, spot.window, 0, spot.x, spot.y, wanted, MAX_ASCENT as nat) {
        None => {},
        Some(r) => {
            let k = lemma_route(m, spot.window, 0, spot.x, spot.y, wanted, MAX_ASCENT as nat);
            lemma_arrival(
                m,
                spot.window,
                spot.x,
                spot.y,
                p.window,
                p.x,
                p.y,
                n,
                r.window,
                r.x,
                r.y,
                k,
            );
            match t.connection(r.conn) {
                None => {},
                Some(c) => {
                    law_input_is_read(
                        c,
                        kind,
                        detail,
                        p.time,
                        t.root(),
                        r.window,
                        r.child,
                        p.root_x,
                        p.root_y,
                        r.x,
                        r.y,
                        p.state,
                        true,
                    );
                    let e = super::events::key_event(
                        c,
                        kind,
                        detail,
                        p.time,
                        t.root(),
                        r.window,
                        r.child,
                        p.root_x,
                        p.root_y,
                        r.x,
                        r.y,
                        p.state,
                        true,
                    );
                    lemma_added_one(t.outbox, ActionModel::Event { conn: r.conn, data: e }, ok);
                },
            }
        },
    }
}

/// Pointer motion without a grab is told truly: whichever window an event names,
/// its coordinates are those of the reported point in that window.
pub proof fn law_motion_is_told_truly(
    s: ServerModel,
    d: DispatcherModel,
    p: Pointing,
    due: bool,
    after: ServerModel,
    after_d: DispatcherModel,
    left: Followup,
)
    requires
        linked(s.resources),
        d.grab_window == 0 || p.state & 0x1F00 == 0,
        may_follow(
            s,
            d,
            DisplayEvent::MotionNotify {
                window: p.window,
                x: p.x,
                y: p.y,
                root_x: p.root_x,
                root_y: p.root_y,
                state: p.state,
                time: p.time,
            },
            due,
            after,
            after_d,
            left,
        ),
    ensures
        added(s.outbox, after.outbox, |a: ActionModel| tells_truly(s, p, a)),
{
    let ok = |a: ActionModel| tells_truly(s, p, a);
    assert((after, after_d, left.autoscrolled) == moved((s, d), p, due));
    let w = watched(d, p.state);
    let s0 = ServerModel { pointer_x: p.root_x as i32, pointer_y: p.root_y as i32, ..s };
    let spot = spot_under(s0, p);
    let n = lemma_descent(s.resources, p.window, p.x, p.y, MAX_DESCENT as nat);
    let s2 = ServerModel {
        window_pointer: s0.window_pointer.insert(p.window, (p.x, p.y)),
        ..s0
    };
    lemma_crossed_adds((s2, w), spot, p, n);
    let c = crossed((s2, w), spot, p);
    lemma_tells_alike(s, s2, p, s2.outbox, c.0.outbox);
    let r = recursored(c, spot, p.window);
    lemma_recursored_adds(s, c, spot, p);
    lemma_pointer_adds(s, r.0, 6, 0, spot, p, Wanted::Motion(p.state), n);
    lemma_added_both(s.outbox, c.0.outbox, r.0.outbox, ok);
    lemma_added_both(s.outbox, r.0.outbox, after.outbox, ok);
}

proof fn lemma_tells_alike(
    s: ServerModel,
    t: ServerModel,
    p: Pointing,
    a: Seq<ActionModel>,
    b: Seq<ActionModel>,
)
    requires
        same_places(s, t),
        added(a, b, |x: ActionModel| tells_truly(t, p, x)),
    ensures
        added(a, b, |x: ActionModel| tells_truly(s, p, x)),
{
    let f = |x: ActionModel| tells_truly(t, p, x);
    let g = |x: ActionModel| tells_truly(s, p, x);
    assert forall|i: int| a.len() <= i < b.len() implies g(#[trigger] b[i]) by {
        assert(f(b[i]));
    }
}

proof fn lemma_recursored_adds(
    s: ServerModel,
    st: (ServerModel, DispatcherModel),
    spot: Spot,
    p: Pointing,
)
    requires
        same_places(s, st.0),
    ensures
        same_places(s, recursored(st, spot, p.window).0),
        added(
            st.0.outbox,
            recursored(st, spot, p.window).0.outbox,
            |a: ActionModel| tells_truly(s, p, a),
        ),
{
    let ok = |a: ActionModel| tells_truly(s, p, a);
    lemma_added_none(st.0.outbox, ok);
    let t = recursored(st, spot, p.window).0;
    if t.outbox.len() > st.0.outbox.len() {
        lemma_added_one(st.0.outbox, t.outbox.last(), ok);
    }
}

/// A button event as the display reports it.
pub open spec fn press_at(p: Pointing, button: u8) -> DisplayEvent {
    DisplayEvent::ButtonPress {
        window: p.window,
        button,
        x: p.x,
        y: p.y,
        root_x: p.root_x,
        root_y: p.root_y,
        state: p.state,
        time: p.time,
    }
}

pub open spec fn release_at(p: Pointing, button: u8) -> DisplayEvent {
    DisplayEvent::ButtonRelease {
        window: p.window,
        button,
        x: p.x,
        y: p.y,
        root_x: p.root_x,
        root_y: p.root_y,
        state: p.state,
        time: p.time,
    }
}

pub open spec fn motion_at(p: Pointing) -> DisplayEvent {
    DisplayEvent::MotionNotify {
        window: p.window,
        x: p.x,
        y: p.y,
        root_x: p.root_x,
        root_y: p.root_y,
        state: p.state,
        time: p.time,
    }
}

proof fn lemma_focus_adds(s: ServerModel, t: ServerModel, kind: u8, window: u32, p: Pointing)
    requires
        kind == 9 || kind == 10,
        same_places(s, t),
    ensures
        same_places(s, focus_told(t, kind, window)),
        focus_told(t, kind, window).focus_window == t.focus_window,
        added(
            t.outbox,
            focus_told(t, kind, window).outbox,
            |a: ActionModel| tells_truly(s, p, a),
        ),
{
    let ok = |a: ActionModel| tells_truly(s, p, a);
    let n = Notice::Focus { kind, window };
    let mask = super::protocol::event_mask::FOCUS_CHANGE;
    super::notify::law_telling_queues_events_only(t, window, mask, n);
    assert forall|id: u32| #[trigger] t.connections.dom().contains(id) implies ok(
        ActionModel::Event { conn: id, data: notice_event(t.connections[id], t.root(), n) },
    ) by {
        law_focus_is_read(t.connections[id], kind, window);
    }
    match t.window(window) {
        Some(w) => lemma_told_adds(t, w.event_selections, mask, n, ok),
        None => lemma_added_none(t.outbox, ok),
    }
}

proof fn lemma_refocused_adds(
    s: ServerModel,
    st: (ServerModel, DispatcherModel),
    window: u32,
    p: Pointing,
)
    requires
        same_places(s, st.0),
    ensures
        same_places(s, refocused(st, window).0),
        added(
            st.0.outbox,
            refocused(st, window).0.outbox,
            |a: ActionModel| tells_truly(s, p, a),
        ),
        ({
            let (t, e) = refocused(st, window);
            let top = super::search::toplevel(s.resources, s.root(), window);
            t.focus_window == top || (t.focus_window == st.0.focus_window && super::search::toplevel(
                s.resources,
                s.root(),
                if st.0.focus_window > 1 {
                    st.0.focus_window
                } else {
                    st.1.focused_window
                },
            ) == top)
        }) || window == 0 || super::search::toplevel(s.resources, s.root(), window) == 0,
{
    let ok = |a: ActionModel| tells_truly(s, p, a);
    let (t, d) = st;
    let focused = if t.focus_window > 1 {
        t.focus_window
    } else {
        d.focused_window
    };
    let top = super::search::toplevel(t.resources, t.root(), window);
    let focused_top = if focused > 1 {
        super::search::toplevel(t.resources, t.root(), focused)
    } else {
        0
    };
    lemma_added_none(t.outbox, ok);
    if focused_top != top {
        let out = if focused > 1 {
            focus_told(t, event_type::FOCUS_OUT, focused)
        } else {
            t
        };
        if focused > 1 {
            lemma_focus_adds(s, t, 10, focused, p);
        }
        lemma_focus_adds(s, out, 9, top, p);
        let told = focus_told(out, event_type::FOCUS_IN, top);
        lemma_added_both(t.outbox, out.outbox, told.outbox, ok);
    }
}

/// A button press that no client has grabbed is told truly.
pub proof fn law_press_is_told_truly(
    s: ServerModel,
    d: DispatcherModel,
    p: Pointing,
    button: u8,
    due: bool,
    after: ServerModel,
    after_d: DispatcherModel,
    left: Followup,
)
    requires
        linked(s.resources),
        s.pointer_grab is None,
        may_follow(s, d, press_at(p, button), due, after, after_d, left),
    ensures
        added(s.outbox, after.outbox, |a: ActionModel| tells_truly(s, p, a)),
{
    let ok = |a: ActionModel| tells_truly(s, p, a);
    let spot = spot_under(s, p);
    let n = lemma_descent(s.resources, p.window, p.x, p.y, MAX_DESCENT as nat);
    lemma_added_none(s.outbox, ok);
    let s1 = if button >= 4 {
        s
    } else {
        let g = (s, grabbed(d, spot, p));
        lemma_crossed_adds(g, spot, p, n);
        let c = crossed(g, spot, p);
        lemma_refocused_adds(s, c, spot.window, p);
        let f = refocused(c, spot.window);
        lemma_recursored_adds(s, f, spot, p);
        let r = recursored(f, spot, p.window);
        lemma_added_both(s.outbox, c.0.outbox, f.0.outbox, ok);
        lemma_added_both(s.outbox, f.0.outbox, r.0.outbox, ok);
        r.0
    };
    lemma_pointer_adds(
        s,
        s1,
        4,
        button,
        spot,
        p,
        Wanted::Mask(super::delivery::button_mask(4)),
        n,
    );
    lemma_added_both(s.outbox, s1.outbox, after.outbox, ok);
}

/// A button release without a grab is told truly.
pub proof fn law_release_is_told_truly(
    s: ServerModel,
    d: DispatcherModel,
    p: Pointing,
    button: u8,
    due: bool,
    after: ServerModel,
    after_d: DispatcherModel,
    left: Followup,
)
    requires
        linked(s.resources),
        d.grab_window == 0 || button >= 4,
        may_follow(s, d, release_at(p, button), due, after, after_d, left),
    ensures
        added(s.outbox, after.outbox, |a: ActionModel| tells_truly(s, p, a)),
{
    let n = lemma_descent(s.resources, p.window, p.x, p.y, MAX_DESCENT as nat);
    lemma_pointer_adds(
        s,
        s,
        5,
        button,
        spot_under(s, p),
        p,
        Wanted::Mask(super::delivery::button_mask(5)),
        n,
    );
}

/// A grab's spot is the reported point less the grab's offset.
proof fn lemma_grab_point(d: DispatcherModel, p: Pointing, gx: i16, gy: i16)
    requires
        same16(gx + d.grab_offset_x, p.x as int),
        same16(gy + d.grab_offset_y, p.y as int),
    ensures
        grab_spot(d, p) == (Spot { window: d.grab_window, x: gx, y: gy }),
{
}

/// A point as seen from the grab window.
spec fn seen_from(spot: Spot, p: Pointing) -> Pointing {
    Pointing { window: spot.window, x: spot.x, y: spot.y, ..p }
}

proof fn lemma_seen_above(m: Map<u32, ResourceModel>, spot: Spot, p: Pointing)
    ensures
        point_above(
            m,
            spot.window,
            spot.x,
            spot.y,
            seen_from(spot, p).window,
            seen_from(spot, p).x,
            seen_from(spot, p).y,
            0,
        ),
{
}

proof fn lemma_grabbed_release(
    s: ServerModel,
    d: DispatcherModel,
    p: Pointing,
    button: u8,
    due: bool,
    after: ServerModel,
    after_d: DispatcherModel,
    left: Followup,
)
    requires
        d.grab_window != 0,
        button < 4,
        may_follow(s, d, release_at(p, button), due, after, after_d, left),
    ensures
        added(
            s.outbox,
            after.outbox,
            |a: ActionModel| tells_truly(s, seen_from(grab_spot(d, p), p), a),
        ),
{
    let spot = grab_spot(d, p);
    lemma_seen_above(s.resources, spot, p);
    lemma_pointer_adds(
        s,
        s,
        5,
        button,
        spot,
        seen_from(spot, p),
        Wanted::Mask(super::delivery::button_mask(5)),
        0,
    );
}

/// Under a grab a button release is told in the coordinates of the grab window:
/// with the grab's offset they are those of the reported point.
pub proof fn law_grabbed_release_is_told_truly(
    s: ServerModel,
    d: DispatcherModel,
    p: Pointing,
    button: u8,
    due: bool,
    gx: i16,
    gy: i16,
    after: ServerModel,
    after_d: DispatcherModel,
    left: Followup,
)
    requires
        d.grab_window != 0,
        button < 4,
        same16(gx + d.grab_offset_x, p.x as int),
        same16(gy + d.grab_offset_y, p.y as int),
        may_follow(s, d, release_at(p, button), due, after, after_d, left),
    ensures
        added(
            s.outbox,
            after.outbox,
            |a: ActionModel|
                tells_truly(s, Pointing { window: d.grab_window, x: gx, y: gy, ..p }, a),
        ),
{
    lemma_grab_point(d, p, gx, gy);
    lemma_grabbed_release(s, d, p, button, due, after, after_d, left);
}

proof fn lemma_grabbed_motion(
    s: ServerModel,
    d: DispatcherModel,
    p: Pointing,
    after: ServerModel,
    after_d: DispatcherModel,
    left: Followup,
)
    requires
        d.grab_window != 0,
        p.state & 0x1F00 != 0,
        may_follow(s, d, motion_at(p), false, after, after_d, left),
    ensures
        added(
            s.outbox,
            after.outbox,
            |a: ActionModel| tells_truly(s, seen_from(grab_spot(d, p), p), a),
        ),
{
    let spot = grab_spot(d, p);
    let q = seen_from(spot, p);
    let ok = |a: ActionModel| tells_truly(s, q, a);
    assert((after, after_d, left.autoscrolled) == moved((s, d), p, false));
    let s0 = ServerModel { pointer_x: p.root_x as i32, pointer_y: p.root_y as i32, ..s };
    let s2 = ServerModel {
        window_pointer: s0.window_pointer.insert(p.window, (p.x, p.y)),
        ..s0
    };
    lemma_seen_above(s.resources, spot, p);
    lemma_crossed_adds((s2, d), spot, q, 0);
    let c = crossed((s2, d), spot, p);
    assert(c == crossed((s2, d), spot, q));
    lemma_tells_alike(s, s2, q, s2.outbox, c.0.outbox);
    let r = recursored(c, spot, p.window);
    lemma_recursored_shows(s, c, spot, p.window, q);
    lemma_pointer_adds(s, r.0, 6, 0, spot, q, Wanted::Motion(p.state), 0);
    lemma_added_both(s.outbox, c.0.outbox, r.0.outbox, ok);
    lemma_added_both(s.outbox, r.0.outbox, after.outbox, ok);
}

/// Under a grab motion is told in the coordinates of the grab window: with the
/// grab's offset they are those of the reported point.
pub proof fn law_grabbed_motion_is_told_truly(
    s: ServerModel,
    d: DispatcherModel,
    p: Pointing,
    gx: i16,
    gy: i16,
    after: ServerModel,
    after_d: DispatcherModel,
    left: Followup,
)
    requires
        d.grab_window != 0,
        p.state & 0x1F00 != 0,
        same16(gx + d.grab_offset_x, p.x as int),
        same16(gy + d.grab_offset_y, p.y as int),
        may_follow(s, d, motion_at(p), false, after, after_d, left),
    ensures
        added(
            s.outbox,
            after.outbox,
            |a: ActionModel|
                tells_truly(s, Pointing { window: d.grab_window, x: gx, y: gy, ..p }, a),
        ),
{
    lemma_grab_point(d, p, gx, gy);
    lemma_grabbed_motion(s, d, p, after, after_d, left);
}

proof fn lemma_recursored_shows(
    s: ServerModel,
    st: (ServerModel, DispatcherModel),
    spot: Spot,
    window: u32,
    q: Pointing,
)
    requires
        same_places(s, st.0),
    ensures
        same_places(s, recursored(st, spot, window).0),
        added(
            st.0.outbox,
            recursored(st, spot, window).0.outbox,
            |a: ActionModel| tells_truly(s, q, a),
        ),
{
    let ok = |a: ActionModel| tells_truly(s, q, a);
    lemma_added_none(st.0.outbox, ok);
    let t = recursored(st, spot, window).0;
    if t.outbox.len() > st.0.outbox.len() {
        lemma_added_one(st.0.outbox, t.outbox.last(), ok);
    }
}

/// The first button that goes down makes the window under the pointer the grab
/// window, and the offset is how the reported point differs from the point in
/// that window.
pub proof fn law_press_starts_the_grab(
    s: ServerModel,
    d: DispatcherModel,
    p: Pointing,
    button: u8,
    due: bool,
    after: ServerModel,
    after_d: DispatcherModel,
    left: Followup,
)
    requires
        linked(s.resources),
        s.pointer_grab is None,
        button < 4,
        d.buttons_pressed == 0,
        may_follow(s, d, press_at(p, button), due, after, after_d, left),
    ensures
        after_d.buttons_pressed == 1,
        after_d.entered_window == after_d.grab_window,
        ({
            let (w, wx, wy) = child_at(s.resources, p.window, p.x, p.y, MAX_DESCENT as nat);
            &&& after_d.grab_window == w
            &&& same16(wx + after_d.grab_offset_x, p.x as int)
            &&& same16(wy + after_d.grab_offset_y, p.y as int)
        }),
{
}

/// The last button that comes up ends the grab, and not before.
pub proof fn law_release_ends_the_grab(
    s: ServerModel,
    d: DispatcherModel,
    p: Pointing,
    button: u8,
    due: bool,
    after: ServerModel,
    after_d: DispatcherModel,
    left: Followup,
)
    requires
        button < 4,
        d.buttons_pressed > 0,
        may_follow(s, d, release_at(p, button), due, after, after_d, left),
    ensures
        after_d.buttons_pressed == d.buttons_pressed - 1,
        after_d.grab_window == if d.buttons_pressed == 1 {
            0
        } else {
            d.grab_window
        },
        after_d.grab_offset_x == d.grab_offset_x,
        after_d.grab_offset_y == d.grab_offset_y,
{
}

/// Whether the first of some selections that wants any of some events is a
/// client's.
pub open spec fn first_to_want(sels: Seq<(u32, u32)>, mask: u32, i: int) -> bool {
    &&& 0 <= i < sels.len()
    &&& sels[i].1 & mask != 0
    &&& forall|j: int| 0 <= j < i ==> (#[trigger] sels[j]).1 & mask == 0
}

pub proof fn lemma_first_to_want(sels: Seq<(u32, u32)>, wanted: Wanted, mask: u32, i: int)
    requires
        first_to_want(sels, mask, i),
        forall|j: int| 0 <= j <= i ==> (super::delivery::covers(#[trigger] sels[j].1, wanted)
            <==> sels[j].1 & mask != 0),
    ensures
        first_selecting(sels, wanted) == Some(sels[i].0),
    decreases sels.len(),
{
    if i > 0 {
        let rest = sels.drop_first();
        assert(sels[0].1 & mask == 0);
        assert(super::delivery::covers(sels[0].1, wanted) <==> sels[0].1 & mask != 0);
        assert forall|j: int| 0 <= j < i - 1 implies (#[trigger] rest[j]).1 & mask == 0 by {
            assert(rest[j] == sels[j + 1]);
        }
        assert forall|j: int| 0 <= j <= i - 1 implies (super::delivery::covers(
            #[trigger] rest[j].1,
            wanted,
        ) <==> rest[j].1 & mask != 0) by {
            assert(rest[j] == sels[j + 1]);
        }
        lemma_first_to_want(rest, wanted, mask, i - 1);
    } else {
        assert(super::delivery::covers(sels[0].1, wanted) <==> sels[0].1 & mask != 0);
    }
}

/// An event at a spot whose window a client selected it on goes to that client
/// and names the window.
proof fn lemma_delivered(
    t: ServerModel,
    kind: u8,
    detail: u8,
    spot: Spot,
    p: Pointing,
    wanted: Wanted,
    c: u32,
)
    requires
        spot.window != 0,
        t.window(spot.window) is Some,
        first_selecting(t.window(spot.window)->0.event_selections, wanted) == Some(c),
        t.connections.dom().contains(c),
    ensures
        ({
            let u = pointer_told(
                t,
                kind,
                detail,
                spot.window,
                spot.x,
                spot.y,
                p.root_x,
                p.root_y,
                p.state,
                p.time,
                wanted,
            );
            &&& u.outbox.len() == t.outbox.len() + 1
            &&& u.outbox.last() matches ActionModel::Event { conn, data } && conn == c && reads_input(
                t.connections[c].byte_order,
                data,
                kind,
                detail,
                p.time,
                t.root(),
                spot.window,
                0,
                p.root_x,
                p.root_y,
                spot.x,
                spot.y,
                p.state,
            )
        }),
{
    law_input_is_read(
        t.connections[c],
        kind,
        detail,
        p.time,
        t.root(),
        spot.window,
        0,
        p.root_x,
        p.root_y,
        spot.x,
        spot.y,
        p.state,
        true,
    );
}

/// Motion with no button down reaches the first client that selected it on the
/// window under the pointer, and names that window.
pub proof fn law_motion_arrives(
    s: ServerModel,
    d: DispatcherModel,
    p: Pointing,
    due: bool,
    after: ServerModel,
    after_d: DispatcherModel,
    left: Followup,
    i: int,
)
    requires
        p.state & 0x1F00 == 0,
        may_follow(s, d, motion_at(p), due, after, after_d, left),
        ({
            let (w, wx, wy) = child_at(s.resources, p.window, p.x, p.y, MAX_DESCENT as nat);
            &&& w != 0
            &&& s.window(w) is Some
            &&& first_to_want(s.window(w)->0.event_selections, 0x40, i)
            &&& s.connections.dom().contains(s.window(w)->0.event_selections[i].0)
        }),
    ensures
        ({
            let (w, wx, wy) = child_at(s.resources, p.window, p.x, p.y, MAX_DESCENT as nat);
            let c = s.window(w)->0.event_selections[i].0;
            &&& after.outbox.len() > s.outbox.len()
            &&& after.outbox.last() matches ActionModel::Event { conn, data } && conn == c && reads_input(
                s.connections[c].byte_order,
                data,
                6,
                0,
                p.time,
                s.root(),
                w,
                0,
                p.root_x,
                p.root_y,
                wx,
                wy,
                p.state,
            )
        }),
{
    assert((after, after_d, left.autoscrolled) == moved((s, d), p, due));
    super::input::law_motion_moves_the_pointer((s, d), p, due);
    let v = watched(d, p.state);
    let s0 = ServerModel { pointer_x: p.root_x as i32, pointer_y: p.root_y as i32, ..s };
    let spot = spot_under(s0, p);
    let s2 = ServerModel {
        window_pointer: s0.window_pointer.insert(p.window, (p.x, p.y)),
        ..s0
    };
    lemma_crossed_frame((s2, v), spot, p);
    let r = recursored(crossed((s2, v), spot, p), spot, p.window);
    let sels = s.window(spot.window)->0.event_selections;
    let st = p.state;
    assert forall|j: int| 0 <= j <= i implies (super::delivery::covers(
        #[trigger] sels[j].1,
        Wanted::Motion(st),
    ) <==> sels[j].1 & 0x40 != 0) by {
        assert(st & 0x1F00 == 0 ==> st & 0x100 == 0 && st & 0x200 == 0 && st & 0x400 == 0 && st
            & 0x800 == 0 && st & 0x1000 == 0) by (bit_vector);
    }
    lemma_first_to_want(sels, Wanted::Motion(st), 0x40, i);
    lemma_delivered(r.0, 6, 0, spot, p, Wanted::Motion(st), sels[i].0);
}

/// Crossings only queue events.
pub proof fn lemma_crossed_frame(st: (ServerModel, DispatcherModel), spot: Spot, p: Pointing)
    ensures
        ({
            let t = crossed(st, spot, p).0;
            &&& t == ServerModel { outbox: t.outbox, ..st.0 }
            &&& t.outbox.len() >= st.0.outbox.len()
        }),
{
    let (s, d) = st;
    let ok = |a: ActionModel| true;
    let leave = Notice::Crossing {
        kind: 8,
        window: d.entered_window,
        x: 0,
        y: 0,
        root_x: p.root_x,
        root_y: p.root_y,
        state: p.state,
        time: p.time,
    };
    let enter = Notice::Crossing {
        kind: 7,
        window: spot.window,
        x: spot.x,
        y: spot.y,
        root_x: p.root_x,
        root_y: p.root_y,
        state: p.state,
        time: p.time,
    };
    let left = if d.entered_window != 0 {
        crossing_told(
            s,
            event_type::LEAVE_NOTIFY,
            d.entered_window,
            0,
            0,
            p.root_x,
            p.root_y,
            p.state,
            p.time,
        )
    } else {
        s
    };
    lemma_notice_frame(s, d.entered_window, super::protocol::event_mask::LEAVE_WINDOW, leave);
    lemma_notice_frame(left, spot.window, super::protocol::event_mask::ENTER_WINDOW, enter);
}

pub proof fn lemma_notice_frame(s: ServerModel, window: u32, mask: u32, n: Notice)
    ensures
        told(s, window, mask, n) == (ServerModel {
            outbox: told(s, window, mask, n).outbox,
            ..s
        }),
        told(s, window, mask, n).outbox.len() >= s.outbox.len(),
{
    super::notify::law_telling_queues_events_only(s, window, mask, n);
    match s.window(window) {
        Some(w) => lemma_told_adds(s, w.event_selections, mask, n, |a: ActionModel| true),
        None => {},
    }
}

/// A button press reaches the first client that selected it on the window under
/// the pointer, with the button and the window's own coordinates.
pub proof fn law_press_arrives(
    s: ServerModel,
    d: DispatcherModel,
    p: Pointing,
    button: u8,
    due: bool,
    after: ServerModel,
    after_d: DispatcherModel,
    left: Followup,
    i: int,
)
    requires
        s.pointer_grab is None,
        may_follow(s, d, press_at(p, button), due, after, after_d, left),
        ({
            let (w, wx, wy) = child_at(s.resources, p.window, p.x, p.y, MAX_DESCENT as nat);
            &&& w != 0
            &&& s.window(w) is Some
            &&& first_to_want(s.window(w)->0.event_selections, 4, i)
            &&& s.connections.dom().contains(s.window(w)->0.event_selections[i].0)
        }),
    ensures
        ({
            let (w, wx, wy) = child_at(s.resources, p.window, p.x, p.y, MAX_DESCENT as nat);
            let c = s.window(w)->0.event_selections[i].0;
            &&& after.outbox.len() > s.outbox.len()
            &&& after.outbox.last() matches ActionModel::Event { conn, data } && conn == c && reads_input(
                s.connections[c].byte_order,
                data,
                4,
                button,
                p.time,
                s.root(),
                w,
                0,
                p.root_x,
                p.root_y,
                wx,
                wy,
                p.state,
            )
        }),
{
    let spot = spot_under(s, p);
    let ok = |a: ActionModel| true;
    let s1 = if button >= 4 {
        s
    } else {
        let g = (s, grabbed(d, spot, p));
        lemma_crossed_frame(g, spot, p);
        let c = crossed(g, spot, p);
        lemma_refocused_adds(s, c, spot.window, p);
        let f = refocused(c, spot.window);
        lemma_recursored_adds(s, f, spot, p);
        recursored(f, spot, p.window).0
    };
    assert(same_places(s, s1));
    assert(s1.outbox.len() >= s.outbox.len());
    let sels = s.window(spot.window)->0.event_selections;
    lemma_first_to_want(sels, Wanted::Mask(4), 4, i);
    lemma_delivered(s1, 4, button, spot, p, Wanted::Mask(4), sels[i].0);
}

/// A button release without a grab reaches the first client that selected it on
/// the window under the pointer.
pub proof fn law_release_arrives(
    s: ServerModel,
    d: DispatcherModel,
    p: Pointing,
    button: u8,
    due: bool,
    after: ServerModel,
    after_d: DispatcherModel,
    left: Followup,
    i: int,
)
    requires
        may_follow(s, d, release_at(p, button), due, after, after_d, left),
        ({
            let w = if button < 4 && d.grab_window != 0 {
                d.grab_window
            } else {
                child_at(s.resources, p.window, p.x, p.y, MAX_DESCENT as nat).0
            };
            &&& w != 0
            &&& s.window(w) is Some
            &&& first_to_want(s.window(w)->0.event_selections, 8, i)
            &&& s.connections.dom().contains(s.window(w)->0.event_selections[i].0)
        }),
    ensures
        ({
            let w = if button < 4 && d.grab_window != 0 {
                d.grab_window
            } else {
                child_at(s.resources, p.window, p.x, p.y, MAX_DESCENT as nat).0
            };
            let c = s.window(w)->0.event_selections[i].0;
            let o = s.connections[c].byte_order;
            &&& after.outbox.len() == s.outbox.len() + 1
            &&& after.outbox.last() matches ActionModel::Event { conn, data } && conn == c
                && data[0] == 5 && data[1] == button && u32_at(o, data, 12) == w
        }),
{
    let spot = if button < 4 && d.grab_window != 0 {
        grab_spot(d, p)
    } else {
        spot_under(s, p)
    };
    let sels = s.window(spot.window)->0.event_selections;
    lemma_first_to_want(sels, Wanted::Mask(8), 8, i);
    lemma_delivered(s, 5, button, spot, p, Wanted::Mask(8), sels[i].0);
}

/// Motion under a grab reaches the first client that selected any motion on the
/// grab window.
pub proof fn law_grabbed_motion_arrives(
    s: ServerModel,
    d: DispatcherModel,
    p: Pointing,
    after: ServerModel,
    after_d: DispatcherModel,
    left: Followup,
    i: int,
)
    requires
        d.grab_window != 0,
        p.state & 0x1F00 != 0,
        s.window(d.grab_window) is Some,
        0 <= i < s.window(d.grab_window)->0.event_selections.len(),
        s.window(d.grab_window)->0.event_selections[i].1 & 0x2000 != 0,
        i == 0,
        s.connections.dom().contains(s.window(d.grab_window)->0.event_selections[i].0),
        may_follow(s, d, motion_at(p), false, after, after_d, left),
    ensures
        ({
            let c = s.window(d.grab_window)->0.event_selections[i].0;
            let o = s.connections[c].byte_order;
            &&& after.outbox.len() > s.outbox.len()
            &&& after.outbox.last() matches ActionModel::Event { conn, data } && conn == c
                && data[0] == 6 && u32_at(o, data, 12) == d.grab_window
        }),
{
    assert((after, after_d, left.autoscrolled) == moved((s, d), p, false));
    let spot = grab_spot(d, p);
    let s0 = ServerModel { pointer_x: p.root_x as i32, pointer_y: p.root_y as i32, ..s };
    let s2 = ServerModel {
        window_pointer: s0.window_pointer.insert(p.window, (p.x, p.y)),
        ..s0
    };
    lemma_crossed_frame((s2, d), spot, p);
    let r = recursored(crossed((s2, d), spot, p), spot, p.window);
    let sels = s.window(spot.window)->0.event_selections;
    assert(super::delivery::covers(sels[0].1, Wanted::Motion(p.state)));
    lemma_delivered(r.0, 6, 0, spot, p, Wanted::Motion(p.state), sels[0].0);
}

/// The window under a point is the deepest one there: the point lies in each
/// window on the way, and in no mapped child of the last.
pub proof fn law_deepest_window_under_a_point(
    m: Map<u32, ResourceModel>,
    window: u32,
    x: i16,
    y: i16,
)
    requires
        linked(m),
    ensures
        ({
            let (w, wx, wy) = child_at(m, window, x, y, MAX_DESCENT as nat);
            exists|n: nat| #[trigger]
                point_above(m, w, wx, wy, window, x, y, n) && (n < MAX_DESCENT ==> (window_in(
                    m,
                    w,
                ) matches Some(v) ==> forall|i: int|
                    0 <= i < v.children.len() ==> (window_in(m, #[trigger] v.children[i]) matches Some(
                        c,
                    ) ==> !lies_in(c, wx as int, wy as int))))
        }),
{
    let (w, wx, wy) = child_at(m, window, x, y, MAX_DESCENT as nat);
    let n = lemma_descent(m, window, x, y, MAX_DESCENT as nat);
    assert(point_above(m, w, wx, wy, window, x, y, n));
    match window_in(m, w) {
        Some(v) => {
            law_child_hit(m, v.children, wx, wy);
        },
        None => {},
    }
}

/// Whether a mapped window holds a point of its parent, and lies within the
/// coordinates there are.
pub open spec fn lies_in(w: super::resources::WindowModel, x: int, y: int) -> bool {
    &&& w.mapped
    &&& w.x + w.width <= 0x7FFF
    &&& w.y + w.height <= 0x7FFF
    &&& w.width <= 0x7FFF
    &&& w.height <= 0x7FFF
    &&& w.x <= x < w.x + w.width
    &&& w.y <= y < w.y + w.height
}

/// A child that takes a point is mapped and holds it, and is the last in the list
/// that does; the point in its coordinates is less by its position.
pub proof fn law_topmost_child_takes_the_point(
    m: Map<u32, ResourceModel>,
    children: Seq<u32>,
    x: i16,
    y: i16,
    i: int,
)
    requires
        0 <= i < children.len(),
        window_in(m, children[i]) is Some,
        lies_in(window_in(m, children[i])->0, x as int, y as int),
        forall|j: int|
            i < j < children.len() ==> (window_in(m, #[trigger] children[j]) matches Some(c)
                ==> !holds_point(c, x, y)),
    ensures
        ({
            let w = window_in(m, children[i])->0;
            child_hit(m, children, x, y) == Some(
                (children[i], (x - w.x) as i16, (y - w.y) as i16),
            )
        }),
    decreases children.len(),
{
    if i < children.len() - 1 {
        let rest = children.drop_last();
        assert(rest[i] == children[i]);
        assert forall|j: int| i < j < rest.len() implies (window_in(m, #[trigger] rest[j]) matches Some(
            c,
        ) ==> !holds_point(c, x, y)) by {
            assert(rest[j] == children[j]);
        }
        law_topmost_child_takes_the_point(m, rest, x, y, i);
        assert(children[children.len() - 1] == children.last());
    }
}

/// A click gives the focus to the top-level window of the window under the pointer,
/// unless that one has it already.
pub proof fn law_clicks_move_the_focus(
    s: ServerModel,
    d: DispatcherModel,
    p: Pointing,
    button: u8,
    due: bool,
    after: ServerModel,
    after_d: DispatcherModel,
    left: Followup,
)
    requires
        s.pointer_grab is None,
        button < 4,
        may_follow(s, d, press_at(p, button), due, after, after_d, left),
        ({
            let w = child_at(s.resources, p.window, p.x, p.y, MAX_DESCENT as nat).0;
            w != 0 && super::search::toplevel(s.resources, s.root(), w) != 0
        }),
    ensures
        ({
            let w = child_at(s.resources, p.window, p.x, p.y, MAX_DESCENT as nat).0;
            let top = super::search::toplevel(s.resources, s.root(), w);
            after.focus_window == top || (after.focus_window == s.focus_window
                && super::search::toplevel(
                s.resources,
                s.root(),
                if s.focus_window > 1 {
                    s.focus_window
                } else {
                    d.focused_window
                },
            ) == top)
        }),
{
    let spot = spot_under(s, p);
    let g = (s, grabbed(d, spot, p));
    lemma_crossed_frame(g, spot, p);
    let c = crossed(g, spot, p);
    lemma_refocused_adds(s, c, spot.window, p);
    let f = refocused(c, spot.window);
    let r = recursored(f, spot, p.window);
    assert(r.0.focus_window == f.0.focus_window);
    assert(after.focus_window == r.0.focus_window);
}

} // verus!
