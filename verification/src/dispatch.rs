//! Event dispatch: propagation paths and the per-frame flush pass.

use vstd::prelude::*;

use crate::cascade::apply_styles;
use crate::entity::Entity;
use crate::events::{Event, Message, Propagation, WindowEvent};
use crate::hierarchy::Hierarchy;
use crate::state::State;

verus! {

/// The entities an event visits, in delivery order: the target alone
/// (direct), the target then its ancestors (up), the reverse (down), or
/// down-then-up with the target visited once in the middle.
pub open spec fn path_ok(h: Hierarchy, t: int, p: Propagation, r: Seq<Entity>) -> bool {
    let d = h.depth_of(t) as int;
    match p {
        Propagation::Direct => r.len() == 1 && r[0] == h.entity_of(t),
        Propagation::Up => r.len() == d + 1 && forall|k: int|
            0 <= k < r.len() ==> #[trigger] r[k] == h.entity_of(h.anc(t, k as nat)),
        Propagation::Down => r.len() == d + 1 && forall|k: int|
            0 <= k < r.len() ==> #[trigger] r[k] == h.entity_of(h.anc(t, (d - k) as nat)),
        Propagation::DownUp => r.len() == 2 * d + 1 && (forall|k: int|
            0 <= k <= d ==> #[trigger] r[k] == h.entity_of(h.anc(t, (d - k) as nat))) && (forall|
            k: int,
        |
            d < k < r.len() ==> #[trigger] r[k] == h.entity_of(h.anc(t, (k - d) as nat))),
    }
}

/// The target and its ancestors, the target first, the root last.
fn ancestor_list(h: &Hierarchy, target: Entity) -> (r: Vec<Entity>)
    requires
        h.wf(),
        h.is_live(target.idx()),
        h.entity_of(target.idx()) == target,
    ensures
        r@.len() == h.depth_of(target.idx()) + 1,
        forall|k: int|
            0 <= k < r@.len() ==> #[trigger] r@[k] == h.entity_of(h.anc(target.idx(), k as nat)),
        forall|k: int| 0 <= k < r@.len() ==> h.is_live((#[trigger] r@[k]).idx()),
    decreases h.depth_of(target.idx()),
{
    let mut r: Vec<Entity> = Vec::new();
    let mut cur = target;
    let ghost k: int = 0;
    loop
        invariant_except_break
            h.wf(),
            h.is_live(cur.idx()),
            h.is_live(target.idx()),
            0 <= k,
            cur.idx() == h.anc(target.idx(), k as nat),
            cur == h.entity_of(cur.idx()),
            k + h.depth_of(cur.idx()) == h.depth_of(target.idx()),
            r@.len() == k,
            forall|m: int|
                0 <= m < k ==> #[trigger] r@[m] == h.entity_of(h.anc(target.idx(), m as nat))
                    && h.is_live(r@[m].idx()),
        ensures
            r@.len() == h.depth_of(target.idx()) + 1,
            forall|m: int|
                0 <= m < r@.len() ==> #[trigger] r@[m] == h.entity_of(
                    h.anc(target.idx(), m as nat),
                ) && h.is_live(r@[m].idx()),
        decreases h.depth_of(cur.idx()),
    {
        proof {
            assert(h.entity_of(cur.idx()).idx() == cur.idx());
        }
        r.push(h.get_entity(cur));
        if cur.index == 0 {
            proof {
                assert(h.depth_of(cur.idx()) == 0);
            }
            break ;
        }
        let parent = match h.get_parent(cur) {
            Some(p) => p,
            None => {
                proof {
                    assert(false);
                }
                cur
            },
        };
        proof {
            assert(h.anc(h.parent_of(cur.idx()), 0) == h.parent_of(cur.idx()));
            assert(h.anc(cur.idx(), 1) == parent.idx());
            h.lemma_anc_add(target.idx(), k as nat, 1);
            assert(h.anc(target.idx(), (k + 1) as nat) == parent.idx());
            k = k + 1;
        }
        cur = parent;
    }
    r
}

/// The delivery path of one event: the entities its propagation mode visits,
/// in order.
pub fn dispatch_path(h: &Hierarchy, target: Entity, p: Propagation) -> (r: Vec<Entity>)
    requires
        h.wf(),
        h.is_live(target.idx()),
        h.entity_of(target.idx()) == target,
    ensures
        path_ok(*h, target.idx(), p, r@),
        forall|k: int| 0 <= k < r@.len() ==> h.is_live((#[trigger] r@[k]).idx()),
{
    let up = ancestor_list(h, target);
    let ghost d = h.depth_of(target.idx()) as int;
    match p {
        Propagation::Direct => {
            let mut r: Vec<Entity> = Vec::new();
            proof {
                assert(h.anc(target.idx(), 0) == target.idx());
            }
            r.push(h.get_entity(target));
            r
        },
        Propagation::Up => up,
        Propagation::Down => {
            let mut r: Vec<Entity> = Vec::new();
            let mut k: usize = up.len();
            while k > 0
                invariant
                    up@.len() == d + 1,
                    k <= up@.len(),
                    r@.len() == up@.len() - k,
                    forall|m: int|
                        0 <= m < r@.len() ==> #[trigger] r@[m] == up@[d - m],
                decreases k,
            {
                r.push(up[k - 1]);
                k = k - 1;
            }
            proof {
                assert forall|m: int| 0 <= m < r@.len() implies #[trigger] r@[m] == h.entity_of(
                    h.anc(target.idx(), (d - m) as nat),
                ) && h.is_live(r@[m].idx()) by {
                    assert(up@[d - m] == h.entity_of(h.anc(target.idx(), (d - m) as nat)));
                }
            }
            r
        },
        Propagation::DownUp => {
            let mut r: Vec<Entity> = Vec::new();
            let mut k: usize = up.len();
            while k > 0
                invariant
                    up@.len() == d + 1,
                    k <= up@.len(),
                    r@.len() == up@.len() - k,
                    forall|m: int|
                        0 <= m < r@.len() ==> #[trigger] r@[m] == up@[d - m],
                decreases k,
            {
                r.push(up[k - 1]);
                k = k - 1;
            }
            let mut k: usize = 1;
            while k < up.len()
                invariant
                    up@.len() == d + 1,
                    1 <= k <= up@.len(),
                    r@.len() == d + k,
                    forall|m: int|
                        0 <= m <= d ==> #[trigger] r@[m] == up@[d - m],
                    forall|m: int|
                        d < m < r@.len() ==> #[trigger] r@[m] == up@[m - d],
                decreases up@.len() - k,
            {
                r.push(up[k]);
                k = k + 1;
            }
            proof {
                assert forall|m: int| 0 <= m <= d implies #[trigger] r@[m] == h.entity_of(
                    h.anc(target.idx(), (d - m) as nat),
                ) by {
                    assert(r@[m] == up@[d - m]);
                }
                assert forall|m: int| d < m < r@.len() implies #[trigger] r@[m] == h.entity_of(
                    h.anc(target.idx(), (m - d) as nat),
                ) by {
                    assert(r@[m] == up@[m - d]);
                }
                assert forall|m: int| 0 <= m < r@.len() implies h.is_live(
                    (#[trigger] r@[m]).idx(),
                ) by {
                    if m <= d {
                        assert(r@[m] == up@[d - m]);
                    } else {
                        assert(r@[m] == up@[m - d]);
                    }
                }
            }
            r
        },
    }
}

/// One flush pass: the queued events are taken, the engine's own scheduling
/// events run their passes (a restyle recomputes the cascade; a redraw
/// marks the frame dirty), and every other event is delivered to each
/// handler along its propagation path. Handler-queued events stay for the
/// next pass, so a settling loop around this pass converges event by event.
pub fn flush_events(state: &mut State)
    requires
        old(state).wf(),
    ensures
        final(state).wf(),
        final(state).hierarchy == old(state).hierarchy,
{
    let mut queue: Vec<Event> = Vec::new();
    core::mem::swap(&mut queue, &mut state.event_queue);
    let mut i: usize = 0;
    while i < queue.len()
        invariant
            state.wf(),
            state.hierarchy == old(state).hierarchy,
            i <= queue@.len(),
        decreases queue@.len() - i,
    {
        let mut ev = queue[i];
        i = i + 1;
        let mut engine_event = false;
        if let Message::Window(w) = ev.message {
            match w {
                WindowEvent::Restyle => {
                    apply_styles(state);
                    engine_event = true;
                },
                WindowEvent::Relayout => {
                    crate::layout::apply_layout(state);
                    engine_event = true;
                },
                WindowEvent::Redraw => {
                    state.needs_redraw = true;
                    engine_event = true;
                },
                _ => {},
            }
        }
        if !engine_event && state.hierarchy.is_entity_live(ev.target) {
            let path = dispatch_path(&state.hierarchy, ev.target, ev.propagation);
            let mut k: usize = 0;
            while k < path.len()
                invariant
                    state.wf(),
                    state.hierarchy == old(state).hierarchy,
                    k <= path@.len(),
                decreases path@.len() - k,
            {
                let en = path[k];
                if !ev.consumed {
                    match state.event_handlers.take(en) {
                        Some(mut h) => {
                            h.handle_event(state, en, &mut ev);
                            state.event_handlers.insert(en, h);
                        },
                        None => {},
                    }
                }
                k = k + 1;
            }
        }
    }
}

} // verus!
