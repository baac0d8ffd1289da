//! What destroying windows leaves: nothing below them, and everything else.

use vstd::prelude::*;

use super::resources::{ResourceModel, WindowModel};
use super::windows::{destroyed, destroyed_all, orphaned, other_than, without_child};
use super::{window_in, ServerModel};

verus! {

/// Whether no path of windows from a window down has more than `n` windows.
pub open spec fn height_within(m: Map<u32, ResourceModel>, id: u32, n: nat) -> bool
    decreases n,
{
    match window_in(m, id) {
        None => true,
        Some(w) => n > 0 && forall|i: int|
            0 <= i < w.children.len() ==> height_within(
                m,
                #[trigger] w.children[i],
                (n - 1) as nat,
            ),
    }
}

/// Whether no window lies below itself, from a window down.
pub open spec fn is_tree(m: Map<u32, ResourceModel>, id: u32) -> bool {
    exists|n: nat| height_within(m, id, n)
}

/// Whether two windows differ at most in their children, and the second has no
/// child that the first has not.
pub open spec fn fewer_children(a: WindowModel, b: WindowModel) -> bool {
    &&& b == (WindowModel { children: b.children, ..a })
    &&& forall|c: u32| b.children.contains(c) ==> a.children.contains(c)
}

/// Whether resources are what is left of others after windows went away: only
/// windows are gone, the others have lost only children that are gone.
pub open spec fn trimmed(before: Map<u32, ResourceModel>, after: Map<u32, ResourceModel>) -> bool {
    &&& forall|x: u32| #[trigger] after.dom().contains(x) ==> before.dom().contains(x)
    &&& forall|x: u32| #[trigger]
        before.dom().contains(x) && !(before[x] is Window) ==> after.dom().contains(x) && after[x]
            == before[x]
    &&& forall|x: u32| #[trigger]
        after.dom().contains(x) && before[x] is Window ==> after[x] is Window && fewer_children(
            before[x]->Window_0,
            after[x]->Window_0,
        )
    &&& forall|x: u32, c: u32| #[trigger]
        after.dom().contains(x) && before[x] is Window && #[trigger]
        before[x]->Window_0.children.contains(c) && !after[x]->Window_0.children.contains(c)
            ==> !after.dom().contains(c)
}

/// Whether every window that is gone took the windows below it along.
pub open spec fn uprooted(before: Map<u32, ResourceModel>, after: Map<u32, ResourceModel>) -> bool {
    forall|y: u32, c: u32|
        window_in(before, y) is Some && !after.dom().contains(y) && #[trigger] window_in(
            before,
            y,
        )->0.children.contains(c) && window_in(before, c) is Some ==> !after.dom().contains(c)
}

/// What is left after two rounds is what is left of the first state.
pub proof fn law_trimming_adds_up(
    a: Map<u32, ResourceModel>,
    b: Map<u32, ResourceModel>,
    c: Map<u32, ResourceModel>,
)
    requires
        trimmed(a, b),
        trimmed(b, c),
    ensures
        trimmed(a, c),
{
    assert forall|x: u32, k: u32| #[trigger]
        c.dom().contains(x) && a[x] is Window && #[trigger] a[x]->Window_0.children.contains(k)
            && !c[x]->Window_0.children.contains(k) implies !c.dom().contains(k) by {
        assert(b.dom().contains(x));
        if b[x]->Window_0.children.contains(k) {
            assert(!c.dom().contains(k));
        } else {
            assert(!b.dom().contains(k));
        }
    }
    assert forall|x: u32| #[trigger] a.dom().contains(x) && !(a[x] is Window) implies c.dom().contains(
        x,
    ) && c[x] == a[x] by {
        assert(b.dom().contains(x));
    }
}

proof fn lemma_uprooted_twice(
    a: Map<u32, ResourceModel>,
    b: Map<u32, ResourceModel>,
    c: Map<u32, ResourceModel>,
)
    requires
        trimmed(a, b),
        trimmed(b, c),
        uprooted(a, b),
        uprooted(b, c),
    ensures
        uprooted(a, c),
{
    assert forall|y: u32, k: u32|
        window_in(a, y) is Some && !c.dom().contains(y) && #[trigger] window_in(
            a,
            y,
        )->0.children.contains(k) && window_in(a, k) is Some implies !c.dom().contains(k) by {
        if b.dom().contains(y) {
            assert(window_in(b, y) is Some);
            if window_in(b, y)->0.children.contains(k) {
                if b.dom().contains(k) {
                    assert(window_in(b, k) is Some);
                }
            } else {
                assert(a[y]->Window_0.children.contains(k));
                assert(!b.dom().contains(k));
            }
        } else {
            assert(!b.dom().contains(k));
        }
    }
}

/// A window that is taken out of its parent's list and removed, if it is there.
proof fn lemma_removal_trims(s: ServerModel, parent: u32, id: u32)
    requires
        s.resources.dom().contains(id) ==> s.window(id) is Some,
    ensures
        trimmed(s.resources, orphaned(s, parent, id).resources.remove(id)),
        trimmed(s.resources, s.resources.remove(id)),
{
    match s.window(parent) {
        Some(p) => {
            let kept = without_child(p.children, id);
            assert forall|c: u32| kept.contains(c) implies p.children.contains(c) by {
                let i = choose|i: int| 0 <= i < kept.len() && kept[i] == c;
                lemma_kept_from(p.children, other_than(id), i);
            }
            assert forall|c: u32| p.children.contains(c) && !kept.contains(c) implies c == id by {
                let i = choose|i: int| 0 <= i < p.children.len() && p.children[i] == c;
                if c != id {
                    assert(other_than(id)(p.children[i]));
                    p.children.lemma_filter_contains(other_than(id), i);
                }
            }
        },
        None => {},
    }
}

/// What a filter keeps was there before.
proof fn lemma_kept_from(s: Seq<u32>, f: spec_fn(u32) -> bool, i: int)
    requires
        0 <= i < s.filter(f).len(),
    ensures
        s.contains(s.filter(f)[i]),
    decreases s.len(),
{
    reveal(Seq::filter);
    let rest = s.drop_last();
    if i < rest.filter(f).len() {
        lemma_kept_from(rest, f, i);
        let j = choose|j: int| 0 <= j < rest.len() && rest[j] == rest.filter(f)[i];
        assert(s[j] == rest[j]);
    } else {
        assert(s[s.len() - 1] == s.last());
    }
}

/// Whether a state differs from another at most in its resources and in the
/// actions that were asked for.
pub open spec fn only_windows_changed(a: ServerModel, b: ServerModel) -> bool {
    b == (ServerModel { resources: b.resources, outbox: b.outbox, ..a })
}

/// Destroying a window takes windows away and nothing else: other resources stay
/// as they are, the windows that stay lose only children that are gone.
pub proof fn law_destroying_trims(s: ServerModel, id: u32, fuel: nat)
    ensures
        trimmed(s.resources, destroyed(s, id, fuel).resources),
        only_windows_changed(s, destroyed(s, id, fuel)),
    decreases fuel, 0nat,
{
    match s.window(id) {
        None => {},
        Some(w) => {
            if fuel > 0 {
                let below = destroyed_all(s, w.children, (fuel - 1) as nat);
                lemma_all_trims(s, w.children, (fuel - 1) as nat);
                lemma_removal_trims(below, w.parent, id);
                law_trimming_adds_up(s.resources, below.resources, destroyed(s, id, fuel).resources);
            }
        },
    }
}

proof fn lemma_all_trims(s: ServerModel, ids: Seq<u32>, fuel: nat)
    ensures
        trimmed(s.resources, destroyed_all(s, ids, fuel).resources),
        only_windows_changed(s, destroyed_all(s, ids, fuel)),
    decreases fuel, ids.len() + 1,
{
    if ids.len() > 0 {
        let before = destroyed_all(s, ids.drop_last(), fuel);
        lemma_all_trims(s, ids.drop_last(), fuel);
        law_destroying_trims(before, ids.last(), fuel);
        law_trimming_adds_up(
            s.resources,
            before.resources,
            destroyed_all(s, ids, fuel).resources,
        );
    }
}

/// A tree that lost windows is no higher.
proof fn lemma_height_trimmed(
    a: Map<u32, ResourceModel>,
    b: Map<u32, ResourceModel>,
    id: u32,
    n: nat,
)
    requires
        trimmed(a, b),
        height_within(a, id, n),
    ensures
        height_within(b, id, n),
    decreases n,
{
    match window_in(b, id) {
        None => {},
        Some(w) => {
            let v = a[id]->Window_0;
            assert(window_in(a, id) == Some(v));
            assert forall|i: int| 0 <= i < w.children.len() implies height_within(
                b,
                #[trigger] w.children[i],
                (n - 1) as nat,
            ) by {
                assert(w.children.contains(w.children[i]));
                let j = choose|j: int| 0 <= j < v.children.len() && v.children[j] == w.children[i];
                assert(height_within(a, v.children[j], (n - 1) as nat));
                lemma_height_trimmed(a, b, w.children[i], (n - 1) as nat);
            }
        },
    }
}

/// Destroying a window with enough levels to go uproots it.
proof fn lemma_destroying_uproots(s: ServerModel, id: u32, n: nat, fuel: nat)
    requires
        height_within(s.resources, id, n),
        n <= fuel,
    ensures
        uprooted(s.resources, destroyed(s, id, fuel).resources),
        s.window(id) is Some ==> !destroyed(s, id, fuel).resources.dom().contains(id),
    decreases n, 0nat,
{
    match s.window(id) {
        None => {},
        Some(w) => {
            let below = destroyed_all(s, w.children, (fuel - 1) as nat);
            let after = destroyed(s, id, fuel);
            lemma_all_uproots(s, w.children, (n - 1) as nat, (fuel - 1) as nat);
            lemma_all_trims(s, w.children, (fuel - 1) as nat);
            law_destroying_trims(s, id, fuel);
            assert(after.resources.dom() =~= below.resources.dom().remove(id)) by {
                match below.window(w.parent) {
                    Some(p) => {
                        assert(below.resources.dom().contains(w.parent));
                        assert(orphaned(below, w.parent, id).resources.dom()
                            =~= below.resources.dom());
                    },
                    None => {},
                }
            }
            assert forall|y: u32, c: u32|
                window_in(s.resources, y) is Some && !after.resources.dom().contains(y)
                    && #[trigger] window_in(s.resources, y)->0.children.contains(c) && window_in(
                    s.resources,
                    c,
                ) is Some implies !after.resources.dom().contains(c) by {
                if y == id {
                    let i = choose|i: int| 0 <= i < w.children.len() && w.children[i] == c;
                    assert(w.children[i] == c);
                }
            }
        },
    }
}

proof fn lemma_all_uproots(s: ServerModel, ids: Seq<u32>, n: nat, fuel: nat)
    requires
        forall|i: int| 0 <= i < ids.len() ==> height_within(s.resources, #[trigger] ids[i], n),
        n <= fuel,
    ensures
        uprooted(s.resources, destroyed_all(s, ids, fuel).resources),
        forall|i: int|
            0 <= i < ids.len() && s.window(#[trigger] ids[i]) is Some ==> !destroyed_all(
                s,
                ids,
                fuel,
            ).resources.dom().contains(ids[i]),
    decreases n, ids.len() + 1,
{
    if ids.len() > 0 {
        let rest = ids.drop_last();
        let before = destroyed_all(s, rest, fuel);
        let id = ids.last();
        assert forall|i: int| 0 <= i < rest.len() implies height_within(
            s.resources,
            #[trigger] rest[i],
            n,
        ) by {
            assert(rest[i] == ids[i]);
        }
        lemma_all_uproots(s, rest, n, fuel);
        lemma_all_trims(s, rest, fuel);
        assert(height_within(s.resources, ids[ids.len() - 1], n));
        lemma_height_trimmed(s.resources, before.resources, id, n);
        lemma_destroying_uproots(before, id, n, fuel);
        law_destroying_trims(before, id, fuel);
        let after = destroyed(before, id, fuel);
        lemma_uprooted_twice(s.resources, before.resources, after.resources);
        assert forall|i: int|
            0 <= i < ids.len() && s.window(#[trigger] ids[i]) is Some implies !after.resources.dom().contains(
            ids[i],
        ) by {
            if i < rest.len() {
                assert(rest[i] == ids[i]);
                assert(!before.resources.dom().contains(rest[i]));
            } else if before.window(id) is None {
                assert(!before.resources.dom().contains(id));
            }
        }
    }
}

proof fn lemma_height_grows(m: Map<u32, ResourceModel>, id: u32, n: nat)
    requires
        height_within(m, id, n),
    ensures
        height_within(m, id, n + 1),
    decreases n,
{
    match window_in(m, id) {
        None => {},
        Some(w) => {
            assert forall|i: int| 0 <= i < w.children.len() implies height_within(
                m,
                #[trigger] w.children[i],
                n,
            ) by {
                lemma_height_grows(m, w.children[i], (n - 1) as nat);
            }
        },
    }
}

proof fn lemma_height_without(m: Map<u32, ResourceModel>, gone: u32, id: u32, n: nat)
    requires
        height_within(m, id, n),
    ensures
        height_within(m.remove(gone), id, n),
    decreases n,
{
    match window_in(m.remove(gone), id) {
        None => {},
        Some(w) => {
            assert(window_in(m, id) == Some(w));
            assert forall|i: int| 0 <= i < w.children.len() implies height_within(
                m.remove(gone),
                #[trigger] w.children[i],
                (n - 1) as nat,
            ) by {
                lemma_height_without(m, gone, w.children[i], (n - 1) as nat);
            }
        },
    }
}

/// A tree that cannot reach a window is as high without it.
proof fn lemma_height_with(m: Map<u32, ResourceModel>, top: u32, id: u32, n: nat, k: nat)
    requires
        height_within(m.remove(top), id, n),
        height_within(m, id, k),
        !height_within(m, top, k),
    ensures
        height_within(m, id, n),
    decreases k,
{
    match window_in(m, id) {
        None => {},
        Some(w) => {
            assert(id != top);
            assert(window_in(m.remove(top), id) == Some(w));
            if height_within(m, top, (k - 1) as nat) {
                lemma_height_grows(m, top, (k - 1) as nat);
            }
            assert forall|i: int| 0 <= i < w.children.len() implies height_within(
                m,
                #[trigger] w.children[i],
                (n - 1) as nat,
            ) by {
                assert(height_within(m.remove(top), w.children[i], (n - 1) as nat));
                assert(height_within(m, w.children[i], (k - 1) as nat));
                lemma_height_with(m, top, w.children[i], (n - 1) as nat, (k - 1) as nat);
            }
        },
    }
}

/// A tree is no higher than there are resources.
pub proof fn law_tree_height(m: Map<u32, ResourceModel>, id: u32, n: nat)
    requires
        m.dom().finite(),
        height_within(m, id, n),
    ensures
        height_within(m, id, m.dom().len()),
    decreases m.dom().len(), n,
{
    match window_in(m, id) {
        None => {},
        Some(w) => {
            if height_within(m, id, (n - 1) as nat) {
                law_tree_height(m, id, (n - 1) as nat);
            } else {
                let rest = m.remove(id);
                assert(rest.dom() =~= m.dom().remove(id));
                assert forall|i: int| 0 <= i < w.children.len() implies height_within(
                    m,
                    #[trigger] w.children[i],
                    (m.dom().len() - 1) as nat,
                ) by {
                    let c = w.children[i];
                    assert(height_within(m, c, (n - 1) as nat));
                    lemma_height_without(m, id, c, (n - 1) as nat);
                    law_tree_height(rest, c, (n - 1) as nat);
                    lemma_height_with(m, id, c, rest.dom().len(), (n - 1) as nat);
                }
            }
        },
    }
}

/// Whether a window can be reached from another in a number of steps down.
pub open spec fn reached(m: Map<u32, ResourceModel>, from: u32, to: u32, steps: nat) -> bool
    decreases steps,
{
    match window_in(m, from) {
        None => false,
        Some(w) => if steps == 0 {
            from == to
        } else {
            exists|i: int|
                0 <= i < w.children.len() && reached(
                    m,
                    #[trigger] w.children[i],
                    to,
                    (steps - 1) as nat,
                )
        },
    }
}

proof fn lemma_uprooted_all_below(
    before: Map<u32, ResourceModel>,
    after: Map<u32, ResourceModel>,
    from: u32,
    to: u32,
    steps: nat,
)
    requires
        uprooted(before, after),
        reached(before, from, to, steps),
        !after.dom().contains(from),
    ensures
        !after.dom().contains(to),
    decreases steps,
{
    if steps > 0 {
        let w = window_in(before, from)->0;
        let i = choose|i: int|
            0 <= i < w.children.len() && reached(
                before,
                #[trigger] w.children[i],
                to,
                (steps - 1) as nat,
            );
        let c = w.children[i];
        assert(w.children.contains(c));
        assert(window_in(before, c) is Some);
        lemma_uprooted_all_below(before, after, c, to, (steps - 1) as nat);
    }
}

/// Destroying a window destroys every window that lies below it, however far.
pub proof fn law_destroying_leaves_nothing_below(s: ServerModel, id: u32, to: u32, steps: nat)
    requires
        s.resources.dom().finite(),
        is_tree(s.resources, id),
        reached(s.resources, id, to, steps),
    ensures
        !destroyed(s, id, s.resources.dom().len()).resources.dom().contains(to),
{
    let n = choose|n: nat| height_within(s.resources, id, n);
    let fuel = s.resources.dom().len();
    law_tree_height(s.resources, id, n);
    lemma_destroying_uproots(s, id, fuel, fuel);
    lemma_uprooted_all_below(s.resources, destroyed(s, id, fuel).resources, id, to, steps);
}

/// A window that was destroyed is no longer among the children of its parent.
pub proof fn law_destroyed_leaves_its_parent(s: ServerModel, id: u32, fuel: nat)
    requires
        s.window(id) is Some,
        s.window(id)->0.parent != 0,
        s.window(id)->0.parent != id,
        fuel > 0,
    ensures
        match destroyed(s, id, fuel).window(s.window(id)->0.parent) {
            Some(p) => !p.children.contains(id),
            None => true,
        },
{
    let w = s.window(id)->0;
    let below = destroyed_all(s, w.children, (fuel - 1) as nat);
    match below.window(w.parent) {
        Some(p) => {
            let kept = without_child(p.children, id);
            if kept.contains(id) {
                let i = choose|i: int| 0 <= i < kept.len() && kept[i] == id;
                p.children.lemma_filter_pred(other_than(id), i);
            }
        },
        None => {},
    }
}

} // verus!
