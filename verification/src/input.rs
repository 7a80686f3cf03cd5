//! Input routing: where pointer events go, and Tab focus traversal.

use vstd::prelude::*;

use crate::data::BoundingBox;
use crate::entity::Entity;
use crate::events::{Code, Event, Key, Message, MouseButton, MouseButtonState, Propagation, WindowEvent};
use crate::state::{State, insert_event_spec};
use crate::style::{Display, Visibility};

verus! {

/// Hover/capture exclusivity: while `e` holds capture, every pointer move
/// is delivered directly to `e` and to no one else, whatever the cursor
/// position and whatever entity is hovered; without a capture holder,
/// delivery goes to the hovered entity (or nowhere when only the root is
/// hovered).
pub proof fn lemma_capture_exclusive(q: Seq<Event>, e: Entity, h: Entity, x: i64, y: i64)
    requires
        e != Entity::null_spec(),
    ensures
        cursor_route_spec(q, e, h, x, y) == q.push(
            Event {
                message: Message::Window(WindowEvent::MouseMove(x, y)),
                target: e,
                origin: Entity::null_spec(),
                propagation: Propagation::Direct,
                unique: false,
                consumed: false,
            },
        ),
        forall|m: int|
            q.len() <= m < cursor_route_spec(q, e, h, x, y).len() ==> (#[trigger] cursor_route_spec(
                q,
                e,
                h,
                x,
                y,
            )[m]).target == e,
        h != Entity::root_spec() ==> cursor_route_spec(q, Entity::null_spec(), h, x, y) == q.push(
            Event {
                message: Message::Window(WindowEvent::MouseMove(x, y)),
                target: h,
                origin: Entity::null_spec(),
                propagation: Propagation::Up,
                unique: false,
                consumed: false,
            },
        ),
{
    let r = cursor_route_spec(q, e, h, x, y);
    assert forall|m: int| q.len() <= m < r.len() implies (#[trigger] r[m]).target == e by {
        assert(m == q.len());
    }
}

/// Whether the point `(x, y)` lies in the box at `(bx, by)` of size
/// `(bw, bh)`.
pub open spec fn in_box(bx: int, by: int, bw: int, bh: int, x: int, y: int) -> bool {
    bx <= x < bx + bw && by <= y < by + bh
}

/// Whether entity index `i` is under the pointer: hoverable, visible, not
/// transparent, not hidden, and the point lies in its bounds and in its
/// clip region.
pub open spec fn hover_hit_spec(s: State, i: int, x: int, y: int) -> bool {
    &&& s.data.hoverability.spec_get_or(i, false)
    &&& s.data.visibility.spec_get_or(i, Visibility::Visible) == Visibility::Visible
    &&& s.data.opacity.spec_get_or(i, 100int as i64) != 0
    &&& s.style.display.spec_get_or(i, Display::Flex) != Display::Hidden
    &&& in_box(
        s.data.posx.spec_get_or(i, 0int as i64) as int,
        s.data.posy.spec_get_or(i, 0int as i64) as int,
        s.data.width.spec_get_or(i, 0int as i64) as int,
        s.data.height.spec_get_or(i, 0int as i64) as int,
        x as int,
        y as int,
    )
    &&& in_box(
        s.data.clip_region.spec_get_or(i, BoundingBox { x: 0, y: 0, w: 0, h: 0 }).x as int,
        s.data.clip_region.spec_get_or(i, BoundingBox { x: 0, y: 0, w: 0, h: 0 }).y as int,
        s.data.clip_region.spec_get_or(i, BoundingBox { x: 0, y: 0, w: 0, h: 0 }).w as int,
        s.data.clip_region.spec_get_or(i, BoundingBox { x: 0, y: 0, w: 0, h: 0 }).h as int,
        x as int,
        y as int,
    )
}

fn hover_hit(state: &State, e: Entity, x: i64, y: i64) -> (r: bool)
    requires
        state.wf(),
    ensures
        r == hover_hit_spec(*state, e.idx(), x as int, y as int),
{
    if !state.data.hoverability.get_or(e, false) {
        return false;
    }
    if !matches!(state.data.visibility.get_or(e, Visibility::Visible), Visibility::Visible) {
        return false;
    }
    if state.data.opacity.get_or(e, 100) == 0 {
        return false;
    }
    if matches!(state.style.display.get_or(e, Display::Flex), Display::Hidden) {
        return false;
    }
    let bx = state.data.posx.get_or(e, 0);
    let by = state.data.posy.get_or(e, 0);
    let bw = state.data.width.get_or(e, 0);
    let bh = state.data.height.get_or(e, 0);
    if !(bx <= x && (x as i128) < bx as i128 + bw as i128 && by <= y && (y as i128) < by as i128
        + bh as i128) {
        return false;
    }
    let c = state.data.clip_region.get_or(e, crate::data::BoundingBox { x: 0, y: 0, w: 0, h: 0 });
    c.x <= x && (x as i128) < c.x as i128 + c.w as i128 && c.y <= y && (y as i128) < c.y as i128
        + c.h as i128
}

/// The hover winner over `list[k..]` starting from candidate `best`: a later
/// (deeper, in pre-order) hit wins when its z-order is at least the
/// current winner's.
pub open spec fn hover_pick(s: State, list: Seq<Entity>, k: int, best: Entity) -> Entity
    decreases list.len() - k,
{
    if k < 0 || k >= list.len() {
        best
    } else if hover_hit_spec(s, list[k].idx(), s.mouse.cursorx as int, s.mouse.cursory as int)
        && s.style.z_order.spec_get_or(list[k].idx(), 0int as i64) >= s.style.z_order.spec_get_or(
        best.idx(),
        0int as i64,
    ) {
        hover_pick(s, list, k + 1, list[k])
    } else {
        hover_pick(s, list, k + 1, best)
    }
}

/// The pseudo-class map after setting entity `i`'s `:hover` bit.
pub open spec fn with_hover_bit(
    m: Map<int, crate::style::PseudoClasses>,
    i: int,
    value: bool,
) -> Map<int, crate::style::PseudoClasses> {
    let pc = if m.dom().contains(i) {
        m[i]
    } else {
        crate::style::PseudoClasses::none_spec()
    };
    m.insert(i, crate::style::PseudoClasses { hover: value, ..pc })
}

/// Sets or clears the `:hover` pseudo-class of `e`.
fn set_hover_flag(state: &mut State, e: Entity, value: bool)
    requires
        old(state).wf(),
    ensures
        final(state).wf(),
        final(state).hierarchy == old(state).hierarchy,
        final(state).focused == old(state).focused,
        final(state).captured == old(state).captured,
        final(state).hovered == old(state).hovered,
        final(state).mouse == old(state).mouse,
        final(state).event_queue@ == old(state).event_queue@,
        final(state).style.pseudo_classes@ == with_hover_bit(
            old(state).style.pseudo_classes@,
            e.idx(),
            value,
        ),
        final(state).data == old(state).data,
        final(state).style.z_order@ == old(state).style.z_order@,
        final(state).style.display@ == old(state).style.display@,
{
    let mut pc = match state.style.pseudo_classes.get(e) {
        Some(p) => *p,
        None => crate::style::PseudoClasses::none(),
    };
    pc.hover = value;
    state.style.pseudo_classes.insert(e, pc);
}

/// Recomputes the hovered entity from the pointer position: the deepest
/// visible, hoverable hit (later pre-order positions win at equal or higher
/// z-order), the root when nothing is hit. On a change, the `:hover`
/// pseudo-class moves, the entities are told, and a restyle is queued.
pub fn apply_hover(state: &mut State)
    requires
        old(state).wf(),
    ensures
        final(state).wf(),
        exists|list: Seq<Entity>|
            #[trigger] pre_order_listing(old(state).hierarchy, list) && final(state).hovered
                == hover_pick(*old(state), list, 0, Entity::root_spec()),
        final(state).hovered == old(state).hovered ==> *final(state) == *old(state),
        final(state).hovered != old(state).hovered ==> {
            &&& final(state).style.pseudo_classes@ == with_hover_bit(
                with_hover_bit(
                    old(state).style.pseudo_classes@,
                    old(state).hovered.idx(),
                    false,
                ),
                final(state).hovered.idx(),
                true,
            )
            &&& final(state).event_queue@ == old(state).event_queue@.push(
                Event {
                    message: Message::Window(WindowEvent::MouseOver),
                    target: final(state).hovered,
                    origin: Entity::null_spec(),
                    propagation: Propagation::Up,
                    unique: false,
                    consumed: false,
                },
            ).push(
                Event {
                    message: Message::Window(WindowEvent::MouseOut),
                    target: old(state).hovered,
                    origin: Entity::null_spec(),
                    propagation: Propagation::Up,
                    unique: false,
                    consumed: false,
                },
            ).push(Event::window_to_root_spec(WindowEvent::Restyle))
            &&& final(state).captured == old(state).captured
            &&& final(state).focused == old(state).focused
            &&& final(state).hierarchy == old(state).hierarchy
            &&& final(state).data == old(state).data
            &&& final(state).mouse == old(state).mouse
        },
{
    proof {
        assert(state.hierarchy.is_live(0));
        assert(state.hierarchy.entity_of(0) == Entity::root_spec());
    }
    let list = state.hierarchy.collect_subtree(Entity::root());
    proof {
        assert forall|d: int| state.hierarchy.is_live(d) implies exists|m: int|
            0 <= m < list@.len() && (#[trigger] list@[m]).idx() == d by {
            state.hierarchy.lemma_anc_depth(d, state.hierarchy.depth_of(d));
            assert(state.hierarchy.is_desc(d, 0));
        }
        assert(pre_order_listing(state.hierarchy, list@));
    }
    let x = state.mouse.cursorx;
    let y = state.mouse.cursory;
    let mut best = Entity::root();
    let mut k: usize = 0;
    while k < list.len()
        invariant
            state.wf(),
            *state == *old(state),
            x == state.mouse.cursorx,
            y == state.mouse.cursory,
            k <= list@.len(),
            hover_pick(*state, list@, 0, Entity::root_spec()) == hover_pick(
                *state,
                list@,
                k as int,
                best,
            ),
        decreases list@.len() - k,
    {
        if hover_hit(state, list[k], x, y) && state.style.z_order.get_or(list[k], 0)
            >= state.style.z_order.get_or(best, 0) {
            best = list[k];
        }
        k = k + 1;
    }
    if !(best == state.hovered) {
        let prev = state.hovered;
        set_hover_flag(state, prev, false);
        set_hover_flag(state, best, true);
        state.hovered = best;
        state.insert_event(Event::window(WindowEvent::MouseOver).target(best));
        state.insert_event(Event::window(WindowEvent::MouseOut).target(prev));
        state.insert_event(Event::window(WindowEvent::Restyle).target(Entity::root()));
        proof {
            assert(state.event_queue@ =~= old(state).event_queue@.push(
                Event {
                    message: Message::Window(WindowEvent::MouseOver),
                    target: state.hovered,
                    origin: Entity::null_spec(),
                    propagation: Propagation::Up,
                    unique: false,
                    consumed: false,
                },
            ).push(
                Event {
                    message: Message::Window(WindowEvent::MouseOut),
                    target: prev,
                    origin: Entity::null_spec(),
                    propagation: Propagation::Up,
                    unique: false,
                    consumed: false,
                },
            ).push(Event::window_to_root_spec(WindowEvent::Restyle)));
        }
    }
}

/// The routing of one pointer move once the hovered entity is `h`: direct
/// to the capture holder when one exists; else bubbling from `h` unless the
/// pointer is over nothing but the root (then no event is sent).
pub open spec fn cursor_route_spec(q: Seq<Event>, captured: Entity, h: Entity, x: i64, y: i64) -> Seq<
    Event,
> {
    if captured != Entity::null_spec() {
        q.push(
            Event {
                message: Message::Window(WindowEvent::MouseMove(x, y)),
                target: captured,
                origin: Entity::null_spec(),
                propagation: Propagation::Direct,
                unique: false,
                consumed: false,
            },
        )
    } else if h != Entity::root_spec() {
        q.push(
            Event {
                message: Message::Window(WindowEvent::MouseMove(x, y)),
                target: h,
                origin: Entity::null_spec(),
                propagation: Propagation::Up,
                unique: false,
                consumed: false,
            },
        )
    } else {
        q
    }
}

/// Records the cursor position, recomputes the hovered entity, and routes
/// the pointer move: directly to the capture holder when one exists —
/// whatever the cursor position — else bubbling from the hovered entity,
/// skipping the event when only the root is hovered.
pub fn on_cursor_move(state: &mut State, x: i64, y: i64)
    requires
        old(state).wf(),
    ensures
        final(state).wf(),
        final(state).mouse.cursorx == x,
        final(state).mouse.cursory == y,
        final(state).event_queue@ == cursor_route_spec(
            mid_queue_spec(*old(state), *final(state), x, y),
            old(state).captured,
            final(state).hovered,
            x,
            y,
        ),
        final(state).captured == old(state).captured,
        final(state).focused == old(state).focused,
        final(state).hierarchy == old(state).hierarchy,
        final(state).data == old(state).data,
        // the hovered entity is the hover winner over the live tree
        exists|list: Seq<Entity>|
            #[trigger] pre_order_listing(old(state).hierarchy, list) && final(state).hovered
                == hover_pick(hover_input_spec(*old(state), x, y), list, 0, Entity::root_spec()),
{
    state.mouse.cursorx = x;
    state.mouse.cursory = y;
    let ghost mid0 = *state;
    apply_hover(state);
    let ghost midq = state.event_queue@;
    if !state.captured.is_null() {
        let t = state.captured;
        state.insert_event(
            Event::window(WindowEvent::MouseMove(x, y)).target(t).propagate(Propagation::Direct),
        );
        proof {
            assert(state.event_queue@ =~= midq.push(
                Event {
                    message: Message::Window(WindowEvent::MouseMove(x, y)),
                    target: old(state).captured,
                    origin: Entity::null_spec(),
                    propagation: Propagation::Direct,
                    unique: false,
                    consumed: false,
                },
            ));
        }
    } else if !(state.hovered == Entity::root()) {
        let t = state.hovered;
        state.insert_event(Event::window(WindowEvent::MouseMove(x, y)).target(t));
        proof {
            assert(state.event_queue@ =~= midq.push(
                Event {
                    message: Message::Window(WindowEvent::MouseMove(x, y)),
                    target: state.hovered,
                    origin: Entity::null_spec(),
                    propagation: Propagation::Up,
                    unique: false,
                    consumed: false,
                },
            ));
        }
    }
}

/// The state `apply_hover` judges during a cursor move: the old state with
/// the new cursor position written.
pub open spec fn hover_input_spec(s: State, x: i64, y: i64) -> State {
    State {
        mouse: crate::mouse::MouseState { cursorx: x, cursory: y, ..s.mouse },
        ..s
    }
}

/// The queue after the hover notifications of one cursor move, before the
/// move itself is routed.
pub open spec fn mid_queue_spec(pre: State, post: State, x: i64, y: i64) -> Seq<Event> {
    if post.hovered == pre.hovered {
        pre.event_queue@
    } else {
        pre.event_queue@.push(
            Event {
                message: Message::Window(WindowEvent::MouseOver),
                target: post.hovered,
                origin: Entity::null_spec(),
                propagation: Propagation::Up,
                unique: false,
                consumed: false,
            },
        ).push(
            Event {
                message: Message::Window(WindowEvent::MouseOut),
                target: pre.hovered,
                origin: Entity::null_spec(),
                propagation: Propagation::Up,
                unique: false,
                consumed: false,
            },
        ).push(Event::window_to_root_spec(WindowEvent::Restyle))
    }
}

/// A pre-order enumeration of the live tree: the root first, every node's
/// children after it, exactly the live entities, without repetition.
pub open spec fn pre_order_listing(h: crate::hierarchy::Hierarchy, list: Seq<Entity>) -> bool {
    &&& list.len() >= 1
    &&& list[0].idx() == 0
    &&& forall|m: int|
        0 <= m < list.len() ==> h.is_live((#[trigger] list[m]).idx()) && list[m] == h.entity_of(
            list[m].idx(),
        )
    &&& forall|m1: int, m2: int|
        0 <= m1 < m2 < list.len() ==> (#[trigger] list[m1]).idx() != (#[trigger] list[m2]).idx()
    &&& forall|d: int|
        h.is_live(d) ==> exists|m: int| 0 <= m < list.len() && (#[trigger] list[m]).idx() == d
    &&& crate::hierarchy::children_after(h, list, 0)
}

/// The first position of `e` in `list` at or after `k`, or the length when
/// `e` does not occur.
pub open spec fn find_pos(list: Seq<Entity>, e: Entity, k: int) -> int
    decreases list.len() - k,
{
    if k < 0 || k >= list.len() {
        list.len() as int
    } else if list[k] == e {
        k
    } else {
        find_pos(list, e, k + 1)
    }
}

/// The pseudo-class map after setting entity `i`'s `:focus` bit (an entity
/// with no entry so far starts from the empty pseudo-class set).
pub open spec fn with_focus_bit(
    m: Map<int, crate::style::PseudoClasses>,
    i: int,
    value: bool,
) -> Map<int, crate::style::PseudoClasses> {
    let pc = if m.dom().contains(i) {
        m[i]
    } else {
        crate::style::PseudoClasses::none_spec()
    };
    m.insert(i, crate::style::PseudoClasses { focus: value, ..pc })
}

/// Whether Tab traversal may stop at entity index `i`/// Whether Tab traversal may stop at entity index `i`: focusable, visible,
/// not fully transparent, and not `display:` hidden.
pub open spec fn focus_stop_spec(s: State, i: int) -> bool {
    &&& s.data.focusability.spec_get_or(i, false)
    &&& s.data.visibility.spec_get_or(i, Visibility::Visible) == Visibility::Visible
    &&& s.data.opacity.spec_get_or(i, 100int as i64) != 0
    &&& s.style.display.spec_get_or(i, Display::Flex) != Display::Hidden
}

fn focus_stop(state: &State, e: Entity) -> (r: bool)
    requires
        state.wf(),
    ensures
        r == focus_stop_spec(*state, e.idx()),
{
    state.data.focusability.get_or(e, false) && matches!(
        state.data.visibility.get_or(e, Visibility::Visible),
        Visibility::Visible
    ) && state.data.opacity.get_or(e, 100) != 0 && !matches!(
        state.style.display.get_or(e, Display::Flex),
        Display::Hidden
    )
}

/// The first focus stop in `list[k..]`, or the root when none is left.
pub open spec fn first_focus_stop(s: State, list: Seq<Entity>, k: int) -> Entity
    decreases list.len() - k,
{
    if k < 0 || k >= list.len() {
        Entity::root_spec()
    } else if focus_stop_spec(s, list[k].idx()) {
        list[k]
    } else {
        first_focus_stop(s, list, k + 1)
    }
}

/// The next focus stop at or after position `pos` of the pre-order list,
/// wrapping to the root when the traversal is exhausted.
pub fn focus_next_from(state: &State, list: &Vec<Entity>, pos: usize) -> (r: Entity)
    requires
        state.wf(),
    ensures
        r == first_focus_stop(*state, list@, pos as int),
{
    let mut k: usize = pos;
    if pos > list.len() {
        proof {
            assert(first_focus_stop(*state, list@, pos as int) == Entity::root_spec());
        }
        return Entity::root();
    }
    while k < list.len()
        invariant
            state.wf(),
            pos <= k <= list@.len(),
            first_focus_stop(*state, list@, pos as int) == first_focus_stop(
                *state,
                list@,
                k as int,
            ),
        decreases list@.len() - k,
    {
        if focus_stop(state, list[k]) {
            return list[k];
        }
        k = k + 1;
    }
    Entity::root()
}


/// The explicit `next` focus link of entity `i`, if one is set.
pub open spec fn next_link_spec(s: State, i: int) -> Entity {
    if s.style.focus_order@.dom().contains(i) {
        s.style.focus_order@[i].next
    } else {
        Entity::null_spec()
    }
}

/// Forward Tab: an explicit `next` focus link wins; otherwise the focus
/// moves to the next focus stop in pre-order after the focused entity,
/// wrapping to the root. The old holder loses the `:focus` pseudo-class,
/// the new one gains it, and a restyle is queued.
pub fn focus_forward(state: &mut State) -> (r: Entity)
    requires
        old(state).wf(),
    ensures
        final(state).wf(),
        final(state).focused == r,
        // explicit link case
        next_link_spec(*old(state), old(state).focused.idx()) != Entity::null_spec() ==> r
            == next_link_spec(*old(state), old(state).focused.idx()),
        // fallback: the first focus stop after the focused entity in a
        // pre-order enumeration of the live tree, wrapping to the root
        next_link_spec(*old(state), old(state).focused.idx()) == Entity::null_spec()
            ==> exists|list: Seq<Entity>|
            #[trigger] pre_order_listing(old(state).hierarchy, list) && r == first_focus_stop(
                *old(state),
                list,
                find_pos(list, old(state).focused, 0) + 1,
            ),
        // the focus pseudo-class moves from the old holder to the new one
        final(state).style.pseudo_classes@ == with_focus_bit(
            with_focus_bit(old(state).style.pseudo_classes@, old(state).focused.idx(), false),
            r.idx(),
            true,
        ),
        // a restyle is queued
        final(state).event_queue@ == old(state).event_queue@.push(
            Event::window_to_root_spec(WindowEvent::Restyle),
        ),
        final(state).hierarchy == old(state).hierarchy,
        final(state).captured == old(state).captured,
        final(state).hovered == old(state).hovered,
        final(state).data == old(state).data,
{
    let focused = state.focused;
    let link = match state.style.focus_order.get(focused) {
        Some(fo) => fo.next,
        None => Entity::null(),
    };
    let next = if !link.is_null() {
        link
    } else {
        proof {
            assert(state.hierarchy.is_live(0));
            assert(state.hierarchy.entity_of(0) == Entity::root_spec());
        }
        let list = state.hierarchy.collect_subtree(Entity::root());
        proof {
            assert forall|d: int| state.hierarchy.is_live(d) implies exists|m: int|
                0 <= m < list@.len() && (#[trigger] list@[m]).idx() == d by {
                state.hierarchy.lemma_anc_depth(d, state.hierarchy.depth_of(d));
                assert(state.hierarchy.is_desc(d, 0));
            }
            assert(pre_order_listing(state.hierarchy, list@));
        }
        // find the focused entity's position in pre-order
        let mut pos: usize = 0;
        while pos < list.len() && !(list[pos] == focused)
            invariant
                pos <= list@.len(),
                find_pos(list@, focused, 0) == find_pos(list@, focused, pos as int),
            decreases list@.len() - pos,
        {
            pos = pos + 1;
        }
        proof {
            assert(find_pos(list@, focused, 0) == pos as int);
        }
        if pos >= list.len() {
            proof {
                assert(first_focus_stop(*state, list@, pos as int + 1) == Entity::root_spec());
            }
            let r = focus_next_from(state, &list, pos);
            proof {
                assert(r == Entity::root_spec());
            }
            r
        } else {
            focus_next_from(state, &list, pos + 1)
        }
    };
    set_focus_flag(state, focused, false);
    set_focus_flag(state, next, true);
    state.focused = next;
    state.insert_event(Event::window(WindowEvent::Restyle).target(Entity::root()));
    proof {
        assert(state.event_queue@ =~= old(state).event_queue@.push(
            Event::window_to_root_spec(WindowEvent::Restyle),
        ));
    }
    next
}

/// The explicit `prev` focus link of entity `i`, if one is set.
pub open spec fn prev_link_spec(s: State, i: int) -> Entity {
    if s.style.focus_order@.dom().contains(i) {
        s.style.focus_order@[i].prev
    } else {
        Entity::null_spec()
    }
}

/// Backward Tab honors only an explicit `prev` link; without one the focus
/// stays put (there is no reverse tree traversal). On a jump the `:focus`
/// pseudo-class moves and a restyle is queued.
pub fn focus_backward(state: &mut State) -> (r: Entity)
    requires
        old(state).wf(),
    ensures
        final(state).wf(),
        final(state).focused == r,
        r == if prev_link_spec(*old(state), old(state).focused.idx()) != Entity::null_spec() {
            prev_link_spec(*old(state), old(state).focused.idx())
        } else {
            old(state).focused
        },
        prev_link_spec(*old(state), old(state).focused.idx()) != Entity::null_spec() ==> {
            &&& final(state).style.pseudo_classes@ == with_focus_bit(
                with_focus_bit(old(state).style.pseudo_classes@, old(state).focused.idx(), false),
                r.idx(),
                true,
            )
            &&& final(state).event_queue@ == old(state).event_queue@.push(
                Event::window_to_root_spec(WindowEvent::Restyle),
            )
        },
        prev_link_spec(*old(state), old(state).focused.idx()) == Entity::null_spec()
            ==> *final(state) == *old(state),
        final(state).hierarchy == old(state).hierarchy,
        final(state).captured == old(state).captured,
        final(state).hovered == old(state).hovered,
{
    let focused = state.focused;
    let link = match state.style.focus_order.get(focused) {
        Some(fo) => fo.prev,
        None => Entity::null(),
    };
    if !link.is_null() {
        set_focus_flag(state, focused, false);
        set_focus_flag(state, link, true);
        state.focused = link;
        state.insert_event(Event::window(WindowEvent::Restyle).target(Entity::root()));
        proof {
            assert(state.event_queue@ =~= old(state).event_queue@.push(
                Event::window_to_root_spec(WindowEvent::Restyle),
            ));
        }
        link
    } else {
        focused
    }
}

/// Sets or clears the `:focus` pseudo-class of `e`.
fn set_focus_flag(state: &mut State, e: Entity, value: bool)
    requires
        old(state).wf(),
    ensures
        final(state).wf(),
        final(state).hierarchy == old(state).hierarchy,
        final(state).focused == old(state).focused,
        final(state).captured == old(state).captured,
        final(state).hovered == old(state).hovered,
        final(state).event_queue@ == old(state).event_queue@,
        final(state).style.pseudo_classes@ == with_focus_bit(
            old(state).style.pseudo_classes@,
            e.idx(),
            value,
        ),
        final(state).style.elements@ == old(state).style.elements@,
        final(state).style.ids@ == old(state).style.ids@,
        final(state).style.classes@ == old(state).style.classes@,
        final(state).style.rules@ == old(state).style.rules@,
        final(state).style.focus_order@ == old(state).style.focus_order@,
        final(state).style.display@ == old(state).style.display@,
        final(state).data == old(state).data,
        final(state).mouse == old(state).mouse,
{
    let mut pc = match state.style.pseudo_classes.get(e) {
        Some(p) => *p,
        None => crate::style::PseudoClasses::none(),
    };
    pc.focus = value;
    state.style.pseudo_classes.insert(e, pc);
}


/// One press/release event routed like a pointer event: directly to the
/// capture holder when one exists, else bubbling from the hovered entity.
pub open spec fn button_route_spec(q: Seq<Event>, captured: Entity, hovered: Entity, w: WindowEvent) -> Seq<
    Event,
> {
    if captured != Entity::null_spec() {
        q.push(
            Event {
                message: Message::Window(w),
                target: captured,
                origin: Entity::null_spec(),
                propagation: Propagation::Direct,
                unique: false,
                consumed: false,
            },
        )
    } else {
        q.push(
            Event {
                message: Message::Window(w),
                target: hovered,
                origin: Entity::null_spec(),
                propagation: Propagation::Up,
                unique: false,
                consumed: false,
            },
        )
    }
}

/// Handles one mouse-button transition: the pressed state is recorded, a
/// press makes the hovered entity active (queueing a restyle), a release
/// clears the active entity, and the press/release event is routed to the
/// capture holder or else the hovered entity. The press/release positions
/// and entities are recorded per button (the left slot also tracks the
/// last pressed/released entity for the other buttons, as a shared
/// "last interaction" record).
#[verifier::rlimit(100)]
pub fn on_mouse_button(state: &mut State, button: MouseButton, s: MouseButtonState)
    requires
        old(state).wf(),
    ensures
        final(state).wf(),
        final(state).hierarchy == old(state).hierarchy,
        final(state).style == old(state).style,
        final(state).data == old(state).data,
        final(state).captured == old(state).captured,
        final(state).hovered == old(state).hovered,
        final(state).focused == old(state).focused,
        s == MouseButtonState::Pressed ==> {
            &&& final(state).active == (if old(state).hovered != Entity::null_spec() {
                old(state).hovered
            } else {
                old(state).active
            })
            &&& final(state).event_queue@ == button_route_spec(
                if old(state).hovered != Entity::null_spec() && old(state).active != old(
                    state,
                ).hovered {
                    old(state).event_queue@.push(Event::window_to_root_spec(WindowEvent::Restyle))
                } else {
                    old(state).event_queue@
                },
                old(state).captured,
                old(state).hovered,
                WindowEvent::MouseDown(button),
            )
        },
        s == MouseButtonState::Released ==> {
            &&& final(state).active == Entity::null_spec()
            &&& final(state).needs_restyle
            &&& final(state).event_queue@ == button_route_spec(
                old(state).event_queue@,
                old(state).captured,
                old(state).hovered,
                WindowEvent::MouseUp(button),
            )
        },
{
    match button {
        MouseButton::Left => {
            state.mouse.left.state = s;
        },
        MouseButton::Right => {
            state.mouse.right.state = s;
        },
        MouseButton::Middle => {
            state.mouse.middle.state = s;
        },
        MouseButton::Other(..) => {},
    }
    match s {
        MouseButtonState::Pressed => {
            if !state.hovered.is_null() && !(state.active == state.hovered) {
                state.active = state.hovered;
                state.insert_event(Event::window(WindowEvent::Restyle).target(Entity::root()));
                state.needs_restyle = true;
            } else if !state.hovered.is_null() {
                state.active = state.hovered;
            }
            if !state.captured.is_null() {
                let t = state.captured;
                state.insert_event(
                    Event::window(WindowEvent::MouseDown(button)).target(t).propagate(
                        Propagation::Direct,
                    ),
                );
            } else {
                let t = state.hovered;
                state.insert_event(Event::window(WindowEvent::MouseDown(button)).target(t));
            }
            let cx = state.mouse.cursorx;
            let cy = state.mouse.cursory;
            let h = state.hovered;
            match button {
                MouseButton::Left => {
                    state.mouse.left.pos_down_x = cx;
                    state.mouse.left.pos_down_y = cy;
                    state.mouse.left.pressed = h;
                },
                MouseButton::Middle => {
                    state.mouse.middle.pos_down_x = cx;
                    state.mouse.middle.pos_down_y = cy;
                    state.mouse.left.pressed = h;
                },
                MouseButton::Right => {
                    state.mouse.right.pos_down_x = cx;
                    state.mouse.right.pos_down_y = cy;
                    state.mouse.left.pressed = h;
                },
                MouseButton::Other(..) => {},
            }
        },
        MouseButtonState::Released => {
            state.active = Entity::null();
            state.needs_restyle = true;
            if !state.captured.is_null() {
                let t = state.captured;
                state.insert_event(
                    Event::window(WindowEvent::MouseUp(button)).target(t).propagate(
                        Propagation::Direct,
                    ),
                );
            } else {
                let t = state.hovered;
                state.insert_event(Event::window(WindowEvent::MouseUp(button)).target(t));
            }
            let cx = state.mouse.cursorx;
            let cy = state.mouse.cursory;
            let h = state.hovered;
            match button {
                MouseButton::Left => {
                    state.mouse.left.pos_up_x = cx;
                    state.mouse.left.pos_up_y = cy;
                    state.mouse.left.released = h;
                },
                MouseButton::Middle => {
                    state.mouse.middle.pos_up_x = cx;
                    state.mouse.middle.pos_up_y = cy;
                    state.mouse.left.released = h;
                },
                MouseButton::Right => {
                    state.mouse.right.pos_up_x = cx;
                    state.mouse.right.pos_up_y = cy;
                    state.mouse.left.released = h;
                },
                MouseButton::Other(..) => {},
            }
        },
    }
}

/// The key event one key transition queues: down-then-up propagation to the
/// focused entity, falling back to the hovered one when nothing is focused.
pub open spec fn key_route_spec(
    q: Seq<Event>,
    focused: Entity,
    hovered: Entity,
    w: WindowEvent,
) -> Seq<Event> {
    q.push(
        Event {
            message: Message::Window(w),
            target: if focused != Entity::null_spec() {
                focused
            } else {
                hovered
            },
            origin: Entity::null_spec(),
            propagation: Propagation::DownUp,
            unique: false,
            consumed: false,
        },
    )
}

/// Routes one key transition: a pressed Tab first moves the focus (forward,
/// or backward with shift held), then the key event travels down to and
/// back up from the focused entity (the hovered one when nothing is
/// focused).
pub fn on_keyboard_input(state: &mut State, code: Code, key: Key, s: MouseButtonState)
    requires
        old(state).wf(),
    ensures
        final(state).wf(),
        final(state).hierarchy == old(state).hierarchy,
        final(state).captured == old(state).captured,
        !(code == Code::Tab && s == MouseButtonState::Pressed) ==> {
            &&& final(state).event_queue@ == key_route_spec(
                old(state).event_queue@,
                old(state).focused,
                old(state).hovered,
                if s == MouseButtonState::Pressed {
                    WindowEvent::KeyDown(code, key)
                } else {
                    WindowEvent::KeyUp(code, key)
                },
            )
            &&& final(state).focused == old(state).focused
            &&& final(state).style == old(state).style
            &&& final(state).data == old(state).data
        },
        code == Code::Tab && s == MouseButtonState::Pressed && !old(state).modifiers.shift ==> {
            &&& final(state).event_queue@ == key_route_spec(
                old(state).event_queue@.push(Event::window_to_root_spec(WindowEvent::Restyle)),
                final(state).focused,
                old(state).hovered,
                WindowEvent::KeyDown(code, key),
            )
            &&& (next_link_spec(*old(state), old(state).focused.idx()) != Entity::null_spec()
                ==> final(state).focused == next_link_spec(
                *old(state),
                old(state).focused.idx(),
            ))
        },
{
    if matches!(code, Code::Tab) && matches!(s, MouseButtonState::Pressed) {
        if state.modifiers.shift {
            focus_backward(state);
        } else {
            focus_forward(state);
        }
    }
    let target = if !state.focused.is_null() {
        state.focused
    } else {
        state.hovered
    };
    let w = if matches!(s, MouseButtonState::Pressed) {
        WindowEvent::KeyDown(code, key)
    } else {
        WindowEvent::KeyUp(code, key)
    };
    state.insert_event(Event::new(Message::Window(w)).target(target).propagate(
        Propagation::DownUp,
    ));
    proof {
        if !(code == Code::Tab && s == MouseButtonState::Pressed) {
            assert(state.event_queue@ =~= key_route_spec(
                old(state).event_queue@,
                old(state).focused,
                old(state).hovered,
                w,
            ));
        }
    }
}

} // verus!
