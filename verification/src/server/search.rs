//! Searches of the window tree.

use vstd::prelude::*;

use super::predefined;
use super::resources::{property_named, ResourceModel, WindowModel};
use super::wire::{signed16, to_signed16};
use super::{cursor_in, window_in, XServer};
use crate::display::{NativeWindowHandle, Xid};

verus! {

/// How many levels down a search goes.
pub const MAX_DESCENT: usize = 16;

/// How many levels up a search goes.
pub const MAX_ASCENT: usize = 32;

/// Whether a point of the parent's coordinates lies in a mapped window.
pub open spec fn holds_point(w: WindowModel, x: i16, y: i16) -> bool {
    &&& w.mapped
    &&& w.x <= x < w.x.wrapping_add(signed16(w.width))
    &&& w.y <= y < w.y.wrapping_add(signed16(w.height))
}

/// The last window of a list that holds a point, with the point in its own
/// coordinates. Later windows lie on top.
pub open spec fn child_hit(m: Map<u32, ResourceModel>, children: Seq<u32>, x: i16, y: i16) -> Option<
    (u32, i16, i16),
>
    decreases children.len(),
{
    if children.len() == 0 {
        None
    } else {
        let rest = child_hit(m, children.drop_last(), x, y);
        match window_in(m, children.last()) {
            Some(w) => if holds_point(w, x, y) {
                Some((children.last(), x.wrapping_sub(w.x), y.wrapping_sub(w.y)))
            } else {
                rest
            },
            None => rest,
        }
    }
}

/// The deepest window under a point, at most `fuel` levels down, with the point
/// in its coordinates.
pub open spec fn child_at(m: Map<u32, ResourceModel>, window: u32, x: i16, y: i16, fuel: nat) -> (
    u32,
    i16,
    i16,
)
    decreases fuel,
{
    if fuel == 0 {
        (window, x, y)
    } else {
        match window_in(m, window) {
            Some(w) => match child_hit(m, w.children, x, y) {
                Some((child, cx, cy)) => child_at(m, child, cx, cy, (fuel - 1) as nat),
                None => (window, x, y),
            },
            None => (window, x, y),
        }
    }
}

fn hit_child(server: &XServer, children: &Vec<Xid>, x: i16, y: i16) -> (r: Option<
    (Xid, i16, i16),
>)
    ensures
        r == child_hit(server@.resources, children@, x, y),
{
    let ghost m = server@.resources;
    let mut i: usize = children.len();
    assert(children@.take(i as int) =~= children@);
    while i > 0
        invariant
            i <= children@.len(),
            m == server@.resources,
            child_hit(m, children@, x, y) == child_hit(m, children@.take(i as int), x, y),
        decreases i,
    {
        i = i - 1;
        let id: Xid = children[i];
        assert(children@.take(i + 1).drop_last() =~= children@.take(i as int));
        if let Some(w) = server.window(id) {
            if w.mapped {
                let right: i16 = w.x.wrapping_add(to_signed16(w.width));
                let bottom: i16 = w.y.wrapping_add(to_signed16(w.height));
                if x >= w.x && x < right && y >= w.y && y < bottom {
                    return Some((id, x.wrapping_sub(w.x), y.wrapping_sub(w.y)));
                }
            }
        }
    }
    None
}

/// Finds the deepest window under a point of a window, with the point in its
/// coordinates.
pub fn find_child_at_point(server: &XServer, window: Xid, x: i16, y: i16) -> (r: (Xid, i16, i16))
    ensures
        r == child_at(server@.resources, window, x, y, MAX_DESCENT as nat),
{
    let mut current: Xid = window;
    let mut cx: i16 = x;
    let mut cy: i16 = y;
    let mut left: usize = MAX_DESCENT;
    let ghost m = server@.resources;
    while left > 0
        invariant
            m == server@.resources,
            child_at(m, window, x, y, MAX_DESCENT as nat) == child_at(
                m,
                current,
                cx,
                cy,
                left as nat,
            ),
        decreases left,
    {
        match server.window(current) {
            None => {
                return (current, cx, cy);
            },
            Some(w) => {
                match hit_child(server, &w.children, cx, cy) {
                    None => {
                        return (current, cx, cy);
                    },
                    Some((child, rx, ry)) => {
                        current = child;
                        cx = rx;
                        cy = ry;
                    },
                }
            },
        }
        left = left - 1;
    }
    (current, cx, cy)
}

/// The first mapped window of a list.
pub open spec fn first_mapped(m: Map<u32, ResourceModel>, ids: Seq<u32>) -> Option<u32>
    decreases ids.len(),
{
    if ids.len() == 0 {
        None
    } else {
        match window_in(m, ids[0]) {
            Some(w) => if w.mapped {
                Some(ids[0])
            } else {
                first_mapped(m, ids.drop_first())
            },
            None => first_mapped(m, ids.drop_first()),
        }
    }
}

/// The window reached by going from a mapped window to its first mapped child,
/// at most `fuel` times.
pub open spec fn deepest_child(m: Map<u32, ResourceModel>, window: u32, fuel: nat) -> u32
    decreases fuel,
{
    if fuel == 0 {
        window
    } else {
        match window_in(m, window) {
            Some(w) => if w.mapped {
                match first_mapped(m, w.children) {
                    Some(child) => deepest_child(m, child, (fuel - 1) as nat),
                    None => window,
                }
            } else {
                window
            },
            None => window,
        }
    }
}

fn find_mapped(server: &XServer, ids: &Vec<Xid>) -> (r: Option<Xid>)
    ensures
        r == first_mapped(server@.resources, ids@),
{
    let ghost m = server@.resources;
    assert(ids@.skip(0) =~= ids@);
    for i in 0..ids.len()
        invariant
            m == server@.resources,
            first_mapped(m, ids@) == first_mapped(m, ids@.skip(i as int)),
    {
        assert(ids@.skip(i as int)[0] == ids@[i as int]);
        assert(ids@.skip(i as int).drop_first() =~= ids@.skip(i + 1));
        if let Some(w) = server.window(ids[i]) {
            if w.mapped {
                return Some(ids[i]);
            }
        }
    }
    assert(ids@.skip(ids@.len() as int) =~= Seq::empty());
    None
}

/// Finds the window that keys typed into a window reach first.
pub fn find_deepest_child(server: &XServer, window: Xid) -> (r: Xid)
    ensures
        r == deepest_child(server@.resources, window, MAX_DESCENT as nat),
{
    let mut current: Xid = window;
    let mut left: usize = MAX_DESCENT;
    let ghost m = server@.resources;
    while left > 0
        invariant
            m == server@.resources,
            deepest_child(m, window, MAX_DESCENT as nat) == deepest_child(m, current, left as nat),
        decreases left,
    {
        match server.window(current) {
            None => {
                return current;
            },
            Some(w) => {
                if !w.mapped {
                    return current;
                }
                match find_mapped(server, &w.children) {
                    None => {
                        return current;
                    },
                    Some(child) => {
                        current = child;
                    },
                }
            },
        }
        left = left - 1;
    }
    current
}

/// The native cursor of the nearest window upwards that sets one, or the arrow.
pub open spec fn effective_cursor(m: Map<u32, ResourceModel>, window: u32, fuel: nat) -> u8
    decreases fuel,
{
    if fuel == 0 {
        0
    } else {
        match window_in(m, window) {
            None => 0,
            Some(w) => if w.cursor != 0 {
                match cursor_in(m, w.cursor) {
                    Some(c) => c.macos_type,
                    None => 0,
                }
            } else if w.parent == 0 {
                0
            } else {
                effective_cursor(m, w.parent, (fuel - 1) as nat)
            },
        }
    }
}

/// The native cursor of a window, inherited from its ancestors where it sets
/// none.
pub fn get_effective_cursor_type(server: &XServer, window_id: Xid) -> (r: u8)
    ensures
        r == effective_cursor(server@.resources, window_id, MAX_ASCENT as nat),
{
    let mut current: Xid = window_id;
    let mut left: usize = MAX_ASCENT;
    let ghost m = server@.resources;
    while left > 0
        invariant
            m == server@.resources,
            effective_cursor(m, window_id, MAX_ASCENT as nat) == effective_cursor(
                m,
                current,
                left as nat,
            ),
        decreases left,
    {
        match server.window(current) {
            None => {
                return 0;
            },
            Some(w) => {
                if w.cursor != 0 {
                    return match server.cursor(w.cursor) {
                        Some(c) => c.macos_type,
                        None => 0,
                    };
                }
                if w.parent == 0 {
                    return 0;
                }
                current = w.parent;
            },
        }
        left = left - 1;
    }
    0
}

/// Edge zone width in pixels for resize cursors.
pub const EDGE_ZONE: i16 = 5;

/// The native cursor for resizing sideways.
pub const RESIZE_SIDEWAYS: u8 = 6;

/// The native cursor for resizing up and down.
pub const RESIZE_UPRIGHT: u8 = 7;

/// The resize cursor of a point near an edge of a window that is large enough,
/// and that has children or lies right below the root.
pub open spec fn edge_cursor(
    m: Map<u32, ResourceModel>,
    root: u32,
    window: u32,
    x: i16,
    y: i16,
) -> Option<u8> {
    match window_in(m, window) {
        None => None,
        Some(w) => {
            let width = signed16(w.width);
            let height = signed16(w.height);
            if w.children.len() == 0 && w.parent != root {
                None
            } else if width < 3 * EDGE_ZONE || height < 3 * EDGE_ZONE {
                None
            } else if x < EDGE_ZONE || x >= width - EDGE_ZONE {
                Some(RESIZE_SIDEWAYS)
            } else if y < EDGE_ZONE || y >= height - EDGE_ZONE {
                Some(RESIZE_UPRIGHT)
            } else {
                None
            }
        },
    }
}

/// The resize cursor of a point near an edge of a window.
pub fn edge_resize_cursor(server: &XServer, window_id: Xid, x: i16, y: i16) -> (r: Option<u8>)
    ensures
        r == edge_cursor(server@.resources, server@.root(), window_id, x, y),
{
    if let Some(w) = server.window(window_id) {
        if w.children.len() == 0 && w.parent != server.root() {
            return None;
        }
        let width: i16 = to_signed16(w.width);
        let height: i16 = to_signed16(w.height);
        if width < EDGE_ZONE * 3 || height < EDGE_ZONE * 3 {
            return None;
        }
        if x < EDGE_ZONE || x >= width - EDGE_ZONE {
            return Some(RESIZE_SIDEWAYS);
        }
        if y < EDGE_ZONE || y >= height - EDGE_ZONE {
            return Some(RESIZE_UPRIGHT);
        }
    }
    None
}

/// The cursor to show over a point of a window: near an edge the one for
/// resizing, else the window's own.
pub open spec fn cursor_at(
    m: Map<u32, ResourceModel>,
    root: u32,
    window: u32,
    x: i16,
    y: i16,
) -> u8 {
    match edge_cursor(m, root, window, x, y) {
        Some(c) => c,
        None => effective_cursor(m, window, MAX_ASCENT as nat),
    }
}

/// The cursor to show over a point of a window.
pub fn determine_cursor(server: &XServer, window_id: Xid, x: i16, y: i16) -> (r: u8)
    ensures
        r == cursor_at(server@.resources, server@.root(), window_id, x, y),
{
    match edge_resize_cursor(server, window_id, x, y) {
        Some(c) => c,
        None => get_effective_cursor_type(server, window_id),
    }
}

/// The native window of a window or of its nearest ancestor that has one.
pub open spec fn native_handle(m: Map<u32, ResourceModel>, window: u32, fuel: nat) -> Option<
    NativeWindowHandle,
>
    decreases fuel,
{
    if fuel == 0 {
        None
    } else {
        match window_in(m, window) {
            None => None,
            Some(w) => match w.native_window {
                Some(h) => Some(h),
                None => if w.parent == 0 {
                    None
                } else {
                    native_handle(m, w.parent, (fuel - 1) as nat)
                },
            },
        }
    }
}

/// The native window that shows a window.
pub fn find_native_handle_for_event(server: &XServer, wid: Xid) -> (r: Option<NativeWindowHandle>)
    ensures
        r == native_handle(server@.resources, wid, MAX_ASCENT as nat),
{
    let mut current: Xid = wid;
    let mut left: usize = MAX_ASCENT;
    let ghost m = server@.resources;
    while left > 0
        invariant
            m == server@.resources,
            native_handle(m, wid, MAX_ASCENT as nat) == native_handle(m, current, left as nat),
        decreases left,
    {
        match server.window(current) {
            None => {
                return None;
            },
            Some(w) => {
                if let Some(h) = w.native_window {
                    return Some(h);
                }
                if w.parent == 0 {
                    return None;
                }
                current = w.parent;
            },
        }
        left = left - 1;
    }
    None
}

/// The ancestor directly below the root, at most `fuel` levels up; where there
/// is none, the window asked about.
pub open spec fn toplevel_from(
    m: Map<u32, ResourceModel>,
    root: u32,
    window: u32,
    current: u32,
    fuel: nat,
) -> u32
    decreases fuel,
{
    if fuel == 0 || current == 0 || current == root {
        window
    } else {
        match window_in(m, current) {
            None => window,
            Some(w) => if w.parent == root {
                current
            } else {
                toplevel_from(m, root, window, w.parent, (fuel - 1) as nat)
            },
        }
    }
}

/// The top-level window a window belongs to.
pub open spec fn toplevel(m: Map<u32, ResourceModel>, root: u32, window: u32) -> u32 {
    toplevel_from(m, root, window, window, MAX_ASCENT as nat)
}

/// Finds the top-level window a window belongs to.
pub fn find_toplevel(server: &XServer, wid: Xid) -> (r: Xid)
    ensures
        r == toplevel(server@.resources, server@.root(), wid),
{
    let root: Xid = server.root();
    let mut current: Xid = wid;
    let mut left: usize = MAX_ASCENT;
    let ghost m = server@.resources;
    while left > 0
        invariant
            m == server@.resources,
            root == server@.root(),
            toplevel(m, root, wid) == toplevel_from(m, root, wid, current, left as nat),
        decreases left,
    {
        if current == 0 || current == root {
            return wid;
        }
        match server.window(current) {
            None => {
                return wid;
            },
            Some(w) => {
                if w.parent == root {
                    return current;
                }
                current = w.parent;
            },
        }
        left = left - 1;
    }
    wid
}

/// A top-level window is its own top-level window, and the answer is either the
/// window asked about or one directly below the root.
pub proof fn law_toplevel(m: Map<u32, ResourceModel>, root: u32, window: u32, current: u32, fuel: nat)
    ensures
        ({
            let t = toplevel_from(m, root, window, current, fuel);
            t == window || (window_in(m, t) matches Some(w) && w.parent == root)
        }),
        (window_in(m, window) matches Some(w) && w.parent == root) ==> toplevel(m, root, window)
            == window,
    decreases fuel,
{
    if fuel > 0 {
        match window_in(m, current) {
            Some(w) => law_toplevel(m, root, window, w.parent, (fuel - 1) as nat),
            None => {},
        }
    }
}

/// A child that is hit is in the list, mapped, and holds the point.
pub proof fn law_child_hit(m: Map<u32, ResourceModel>, children: Seq<u32>, x: i16, y: i16)
    ensures
        match child_hit(m, children, x, y) {
            Some((id, cx, cy)) => {
                &&& children.contains(id)
                &&& window_in(m, id) is Some
                &&& holds_point(window_in(m, id)->0, x, y)
                &&& cx == x.wrapping_sub(window_in(m, id)->0.x)
                &&& cy == y.wrapping_sub(window_in(m, id)->0.y)
            },
            None => forall|i: int|
                0 <= i < children.len() ==> (window_in(m, #[trigger] children[i]) matches Some(w)
                    ==> !holds_point(w, x, y)),
        },
    decreases children.len(),
{
    if children.len() > 0 {
        let rest = children.drop_last();
        law_child_hit(m, rest, x, y);
        match child_hit(m, rest, x, y) {
            Some((id, cx, cy)) => {
                let j = choose|j: int| 0 <= j < rest.len() && rest[j] == id;
                assert(children[j] == id);
            },
            None => {
                assert forall|i: int| 0 <= i < children.len() - 1 implies (window_in(
                    m,
                    #[trigger] children[i],
                ) matches Some(w) ==> !holds_point(w, x, y)) by {
                    assert(children[i] == rest[i]);
                }
            },
        }
        assert(children[children.len() - 1] == children.last());
    }
}

/// What comes before the first zero byte.
pub open spec fn first_word(data: Seq<u8>) -> Seq<u8>
    decreases data.len(),
{
    if data.len() == 0 || data[0] == 0 {
        Seq::empty()
    } else {
        seq![data[0]] + first_word(data.drop_first())
    }
}

/// A byte with an ASCII capital made small.
pub open spec fn small(b: u8) -> u8 {
    if 65 <= b <= 90 {
        (b + 32) as u8
    } else {
        b
    }
}

/// Whether bytes spell "xterm", in any case.
pub open spec fn spells_xterm(b: Seq<u8>) -> bool {
    &&& b.len() == 5
    &&& small(b[0]) == 120
    &&& small(b[1]) == 116
    &&& small(b[2]) == 101
    &&& small(b[3]) == 114
    &&& small(b[4]) == 109
}

/// Whether the top-level window of a window calls itself xterm.
pub open spec fn is_xterm(m: Map<u32, ResourceModel>, root: u32, window: u32) -> bool {
    match window_in(m, toplevel(m, root, window)) {
        Some(w) => match property_named(w.properties, predefined::WM_CLASS) {
            Some(p) => spells_xterm(first_word(p.data)),
            None => false,
        },
        None => false,
    }
}

fn to_small(b: u8) -> (r: u8)
    ensures
        r == small(b),
{
    if 65 <= b && b <= 90 {
        b + 32
    } else {
        b
    }
}

proof fn lemma_first_word(data: Seq<u8>, n: int)
    requires
        0 <= n <= data.len(),
        forall|i: int| 0 <= i < n ==> data[i] != 0,
        n == data.len() || data[n] == 0,
    ensures
        first_word(data) == data.take(n),
    decreases n,
{
    if n == 0 {
        assert(data.take(0) =~= Seq::empty());
    } else {
        let rest = data.drop_first();
        assert forall|i: int| 0 <= i < n - 1 implies rest[i] != 0 by {
            assert(rest[i] == data[i + 1]);
        }
        lemma_first_word(rest, n - 1);
        assert(seq![data[0]] + rest.take(n - 1) =~= data.take(n));
    }
}

/// Whether the top-level window of a window calls itself xterm.
pub fn window_is_xterm(server: &XServer, window: Xid) -> (r: bool)
    ensures
        r == is_xterm(server@.resources, server@.root(), window),
{
    let top: Xid = find_toplevel(server, window);
    if let Some(w) = server.window(top) {
        if let Some(p) = w.get_property(predefined::WM_CLASS) {
            let data: &Vec<u8> = &p.data;
            let len: usize = data.len();
            let mut n: usize = 0;
            while n < len && data[n] != 0
                invariant
                    len == data@.len(),
                    n <= len,
                    forall|i: int| 0 <= i < n ==> data@[i] != 0,
                decreases len - n,
            {
                n = n + 1;
            }
            proof {
                lemma_first_word(data@, n as int);
            }
            return n == 5 && to_small(data[0]) == 120 && to_small(data[1]) == 116 && to_small(
                data[2],
            ) == 101 && to_small(data[3]) == 114 && to_small(data[4]) == 109;
        }
    }
    false
}

} // verus!
