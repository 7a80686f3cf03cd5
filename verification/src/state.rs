//! The application state: entity allocation, the tree, styles, computed
//! data, input pointers and the event queue.

use vstd::prelude::*;

use crate::data::{BoundingBox, Data};
use crate::entity::{Entity, EntityManager};
use crate::events::{Event, Message, Propagation, WindowEvent};
use crate::hierarchy::{Hierarchy, seen_idx};
use crate::mouse::{ModifiersState, MouseState};
use crate::style::{Color, Style};
use crate::widgets::WidgetHandler;
use crate::storage::Storage;

verus! {

/// `q` with every copy of `ev` removed, order kept.
pub open spec fn without(q: Seq<Event>, ev: Event) -> Seq<Event>
    decreases q.len(),
{
    if q.len() == 0 {
        Seq::empty()
    } else if q.last() == ev {
        without(q.drop_last(), ev)
    } else {
        without(q.drop_last(), ev).push(q.last())
    }
}

/// The number of copies of `ev` waiting in `q`.
pub open spec fn occurrences(q: Seq<Event>, ev: Event) -> int
    decreases q.len(),
{
    if q.len() == 0 {
        0
    } else if q.last() == ev {
        occurrences(q.drop_last(), ev) + 1
    } else {
        occurrences(q.drop_last(), ev)
    }
}

/// How `insert_event` extends the queue: a `unique` event first evicts every
/// structurally equal copy, so at most one such copy ever waits.
pub open spec fn insert_event_spec(q: Seq<Event>, ev: Event) -> Seq<Event> {
    if ev.unique {
        without(q, ev).push(ev)
    } else {
        q.push(ev)
    }
}

/// Evicting every copy leaves no copy.
pub proof fn lemma_without_none(q: Seq<Event>, ev: Event)
    ensures
        occurrences(without(q, ev), ev) == 0,
    decreases q.len(),
{
    if q.len() > 0 {
        lemma_without_none(q.drop_last(), ev);
        if q.last() != ev {
            let w = without(q.drop_last(), ev);
            assert(w.push(q.last()).drop_last() =~= w);
        }
    }
}

/// Event uniqueness: after inserting a `unique` event, exactly one copy of it
/// waits in the queue — so inserting two structurally equal unique events
/// back-to-back leaves exactly one entry.
pub proof fn lemma_unique_event_once(q: Seq<Event>, ev: Event)
    requires
        ev.unique,
    ensures
        occurrences(insert_event_spec(q, ev), ev) == 1,
        occurrences(insert_event_spec(insert_event_spec(q, ev), ev), ev) == 1,
{
    lemma_without_none(q, ev);
    let w = without(q, ev);
    assert(w.push(ev).drop_last() =~= w);
    assert(occurrences(insert_event_spec(q, ev), ev) == 1);
    lemma_without_none(insert_event_spec(q, ev), ev);
    let w2 = without(insert_event_spec(q, ev), ev);
    assert(w2.push(ev).drop_last() =~= w2);
}

/// Reversing puts the first element last: `s` reversed is the reversal of
/// its tail with its head appended.
proof fn lemma_reverse_push_entities(s: Seq<crate::entity::Entity>)
    requires
        s.len() >= 1,
    ensures
        s.reverse() =~= s.drop_first().reverse().push(s.first()),
{
    assert forall|i: int| 0 <= i < s.len() implies s.reverse()[i] == s.drop_first().reverse().push(
        s.first(),
    )[i] by {
        if i < s.len() - 1 {
            assert(s.drop_first().reverse()[i] == s.drop_first()[s.len() - 2 - i]);
        }
    }
}

/// One application window's entire retained state.
pub struct State {
    pub entity_manager: EntityManager,
    pub hierarchy: Hierarchy,
    pub style: Style,
    pub data: Data,
    pub mouse: MouseState,
    pub modifiers: ModifiersState,
    pub hovered: Entity,
    pub active: Entity,
    pub captured: Entity,
    pub focused: Entity,
    pub event_handlers: Storage<WidgetHandler>,
    pub removed_entities: Vec<Entity>,
    pub event_queue: Vec<Event>,
    pub needs_restyle: bool,
    pub needs_relayout: bool,
    pub needs_redraw: bool,
}

impl State {
    /// The coupled invariant of all the parts: the allocator, the tree and
    /// the storages agree, and every live slot is an allocated index.
    pub open spec fn wf(self) -> bool {
        &&& self.entity_manager.wf()
        &&& self.hierarchy.wf()
        &&& self.style.wf()
        &&& self.data.wf()
        &&& self.event_handlers.wf()
        &&& self.entity_manager.next_spec() == self.hierarchy.n()
        &&& forall|i: int|
            #[trigger] self.hierarchy.is_live(i) ==> self.entity_manager.allocated(i)
    }

    /// A fresh state: the root entity exists, is hovered and focused, and
    /// carries the default background.
    pub fn new() -> (r: State)
        ensures
            r.wf(),
            r.hovered == Entity::root_spec(),
            r.focused == Entity::root_spec(),
            r.active == Entity::null_spec(),
            r.captured == Entity::null_spec(),
            r.event_queue@.len() == 0,
            forall|i: int| r.hierarchy.is_live(i) <==> i == 0,
            r.hierarchy.n() == 1,
            r.entity_manager.can_create_spec(),
            r.style.clip_widget@ == Map::<int, Entity>::empty().insert(0, Entity::root_spec()),
            r.style.background_color.base@ == Map::<int, Color>::empty().insert(
                0,
                Color { r: 80, g: 80, b: 80, a: 255 },
            ),
            r.style.pseudo_classes@ == Map::<int, crate::style::PseudoClasses>::empty().insert(
                0,
                crate::style::PseudoClasses::none_spec(),
            ),
            r.style.rules@.len() == 0,
            r.style.elements@ == Map::<int, String>::empty(),
            r.style.ids@ == Map::<int, String>::empty(),
            r.data.visibility@ == Map::<int, crate::style::Visibility>::empty().insert(
                0,
                crate::style::Visibility::Visible,
            ),
            r.data.opacity@ == Map::<int, i64>::empty().insert(0, 100int as i64),
            r.data.hoverability@ == Map::<int, bool>::empty().insert(0, true),
            r.data.focusability@ == Map::<int, bool>::empty().insert(0, true),
            r.needs_restyle == false,
            r.needs_relayout == false,
            r.needs_redraw == false,
            r.removed_entities@.len() == 0,
            r.event_handlers@ == Map::<int, WidgetHandler>::empty(),
    {
        let entity_manager = EntityManager::new();
        let hierarchy = Hierarchy::new();
        let mut style = Style::new();
        let mut data = Data::new();
        let root = Entity::root();
        data.add(root);
        style.add(root);
        style.clip_widget.insert(root, root);
        style.background_color.insert(root, Color::rgb(80, 80, 80));
        State {
            entity_manager,
            hierarchy,
            style,
            data,
            mouse: MouseState::new(),
            modifiers: ModifiersState::new(),
            hovered: Entity::root(),
            active: Entity::null(),
            captured: Entity::null(),
            focused: Entity::root(),
            event_handlers: Storage::new(),
            removed_entities: Vec::new(),
            event_queue: Vec::new(),
            needs_restyle: false,
            needs_relayout: false,
            needs_redraw: false,
        }
    }

    /// Everything but the event queue is as in `pre`.
    pub open spec fn same_but_queue(pre: State, post: State) -> bool {
        &&& post.entity_manager == pre.entity_manager
        &&& post.hierarchy == pre.hierarchy
        &&& post.style == pre.style
        &&& post.data == pre.data
        &&& post.mouse == pre.mouse
        &&& post.modifiers == pre.modifiers
        &&& post.hovered == pre.hovered
        &&& post.active == pre.active
        &&& post.captured == pre.captured
        &&& post.focused == pre.focused
        &&& post.event_handlers == pre.event_handlers
        &&& post.removed_entities == pre.removed_entities
        &&& post.needs_restyle == pre.needs_restyle
        &&& post.needs_relayout == pre.needs_relayout
        &&& post.needs_redraw == pre.needs_redraw
    }

    /// Queues an event. A `unique` event first evicts every structurally
    /// equal copy, so at most one pending instance of it exists.
    pub fn insert_event(&mut self, event: Event)
        requires
            old(self).wf(),
        ensures
            final(self).wf(),
            final(self).event_queue@ == insert_event_spec(old(self).event_queue@, event),
            State::same_but_queue(*old(self), *final(self)),
    {
        if event.unique {
            let mut kept: Vec<Event> = Vec::new();
            let mut k: usize = 0;
            while k < self.event_queue.len()
                invariant
                    *self == *old(self),
                    k <= self.event_queue@.len(),
                    kept@ =~= without(self.event_queue@.subrange(0, k as int), event),
                decreases self.event_queue@.len() - k,
            {
                proof {
                    assert(self.event_queue@.subrange(0, k as int + 1).drop_last() =~= self
                        .event_queue@.subrange(0, k as int));
                    assert(self.event_queue@.subrange(0, k as int + 1).last() == self
                        .event_queue@[k as int]);
                }
                let e = self.event_queue[k];
                if !(e == event) {
                    kept.push(e);
                }
                k = k + 1;
            }
            proof {
                assert(self.event_queue@.subrange(0, self.event_queue@.len() as int) =~= self
                    .event_queue@);
            }
            kept.push(event);
            self.event_queue = kept;
        } else {
            self.event_queue.push(event);
        }
    }

    /// Redirects all pointer events to `id` until `release`, notifying the
    /// new and the previous holder. At most one entity holds capture.
    pub fn capture(&mut self, id: Entity)
        requires
            old(self).wf(),
        ensures
            final(self).wf(),
            final(self).captured == id,
            final(self).active == id,
            final(self).event_queue@ == capture_events_spec(
                old(self).event_queue@,
                old(self).captured,
                id,
            ),
            final(self).hierarchy == old(self).hierarchy,
            final(self).style == old(self).style,
            final(self).data == old(self).data,
            final(self).hovered == old(self).hovered,
            final(self).focused == old(self).focused,
    {
        if !id.is_null() && !(self.captured == id) {
            self.insert_event(
                Event::window(WindowEvent::MouseCaptureEvent).target(id).propagate(
                    Propagation::Direct,
                ),
            );
        }
        if !self.captured.is_null() && !(self.captured == id) {
            let prev = self.captured;
            self.insert_event(
                Event::window(WindowEvent::MouseCaptureOutEvent).target(prev).propagate(
                    Propagation::Direct,
                ),
            );
        }
        self.captured = id;
        self.active = id;
    }

    /// Ends `id`'s capture, restoring hover-based routing; a release by any
    /// other entity changes nothing.
    pub fn release(&mut self, id: Entity)
        requires
            old(self).wf(),
        ensures
            final(self).wf(),
            old(self).captured == id ==> {
                &&& final(self).captured == Entity::null_spec()
                &&& final(self).active == Entity::null_spec()
                &&& final(self).event_queue@ == insert_event_spec(
                    old(self).event_queue@,
                    Event {
                        message: Message::Window(WindowEvent::MouseCaptureOutEvent),
                        target: id,
                        origin: Entity::null_spec(),
                        propagation: Propagation::Direct,
                        unique: false,
                        consumed: false,
                    },
                )
            },
            old(self).captured != id ==> *final(self) == *old(self),
            final(self).hierarchy == old(self).hierarchy,
            final(self).style == old(self).style,
            final(self).data == old(self).data,
            final(self).hovered == old(self).hovered,
            final(self).focused == old(self).focused,
    {
        if self.captured == id {
            let prev = self.captured;
            self.insert_event(
                Event::window(WindowEvent::MouseCaptureOutEvent).target(prev).propagate(
                    Propagation::Direct,
                ),
            );
            self.captured = Entity::null();
            self.active = Entity::null();
        }
    }

    /// Adds a style rule; restyle, relayout and redraw are queued so the
    /// cascade picks it up next frame.
    pub fn add_style_rule(&mut self, rule: crate::rules::StyleRule)
        requires
            old(self).wf(),
            rule.selectors@.len() <= 0xffff,
        ensures
            final(self).wf(),
            final(self).style.rules@ == old(self).style.rules@.push(rule),
            final(self).hierarchy == old(self).hierarchy,
            final(self).event_queue@ == old(self).event_queue@ + seq![
                Event::window_to_root_spec(WindowEvent::Restyle),
                Event::window_to_root_spec(WindowEvent::Relayout),
                Event::window_to_root_spec(WindowEvent::Redraw),
            ],
    {
        self.style.add_rule(rule);
        let ghost q0 = self.event_queue@;
        self.insert_event(Event::window(WindowEvent::Restyle).target(Entity::root()));
        self.insert_event(Event::window(WindowEvent::Relayout).target(Entity::root()));
        self.insert_event(Event::window(WindowEvent::Redraw).target(Entity::root()));
        proof {
            assert(self.event_queue@ =~= q0 + seq![
                Event::window_to_root_spec(WindowEvent::Restyle),
                Event::window_to_root_spec(WindowEvent::Relayout),
                Event::window_to_root_spec(WindowEvent::Redraw),
            ]);
        }
    }

    /// Whether another entity can still be created.
    pub fn can_add(&self) -> (r: bool)
        ensures
            r == self.entity_manager.can_create_spec(),
    {
        self.entity_manager.can_create()
    }

    /// Creates a fresh entity as the last child of `parent`, seeds its style
    /// and data, and queues a restyle, relayout and redraw.
    pub fn add(&mut self, parent: Entity) -> (r: Entity)
        requires
            old(self).wf(),
            old(self).hierarchy.is_live(parent.idx()),
            old(self).entity_manager.can_create_spec(),
        ensures
            final(self).wf(),
            final(self).hierarchy.is_live(r.idx()),
            !old(self).hierarchy.is_live(r.idx()),
            r != Entity::null_spec(),
            r.idx() != 0,
            final(self).hierarchy.entity_of(r.idx()) == r,
            final(self).hierarchy.parent_of(r.idx()) == parent.idx(),
            final(self).hierarchy.kids(parent.idx()) == old(self).hierarchy.kids(
                parent.idx(),
            ).push(r.idx()),
            final(self).hierarchy.kids(r.idx()).len() == 0,
            forall|i: int|
                i != r.idx() ==> (final(self).hierarchy.is_live(i) <==> old(
                    self,
                ).hierarchy.is_live(i)),
            forall|i: int|
                old(self).hierarchy.is_live(i) && i != parent.idx() ==> #[trigger] final(self).hierarchy.kids(i) == old(self).hierarchy.kids(i),
            forall|i: int|
                old(self).hierarchy.is_live(i) ==> #[trigger] final(self).hierarchy.entity_of(i)
                    == old(self).hierarchy.entity_of(i),
            forall|i: int|
                old(self).hierarchy.is_live(i) && i != 0 ==> #[trigger] final(self).hierarchy.parent_of(i) == old(self).hierarchy.parent_of(i),
            final(self).event_queue@ == old(self).event_queue@ + seq![
                Event::window_to_root_spec(WindowEvent::Restyle),
                Event::window_to_root_spec(WindowEvent::Relayout),
                Event::window_to_root_spec(WindowEvent::Redraw),
            ],
            final(self).hovered == old(self).hovered,
            final(self).focused == old(self).focused,
            final(self).captured == old(self).captured,
            // the new entity's style and data entries are seeded
            final(self).style.pseudo_classes@ == old(self).style.pseudo_classes@.insert(
                r.idx(),
                crate::style::PseudoClasses::none_spec(),
            ),
            final(self).data.visibility@ == old(self).data.visibility@.insert(
                r.idx(),
                crate::style::Visibility::Visible,
            ),
            final(self).data.opacity@ == old(self).data.opacity@.insert(r.idx(), 100int as i64),
            final(self).data.hoverability@ == old(self).data.hoverability@.insert(r.idx(), true),
            final(self).data.focusability@ == old(self).data.focusability@.insert(r.idx(), true),
            final(self).style.rules@ == old(self).style.rules@,
            final(self).style.elements@ == old(self).style.elements@,
            final(self).style.ids@ == old(self).style.ids@,
            final(self).style.classes@ == old(self).style.classes@,
            Style::props_unchanged(old(self).style, final(self).style),
            final(self).event_handlers@ == old(self).event_handlers@,
    {
        let entity = match self.entity_manager.create_entity() {
            Some(e) => e,
            None => {
                proof {
                    assert(false);
                }
                Entity::null()
            },
        };
        proof {
            if entity.idx() < old(self).hierarchy.n() {
                assert(!old(self).hierarchy.is_live(entity.idx())) by {
                    if old(self).hierarchy.is_live(entity.idx()) {
                        assert(old(self).entity_manager.allocated(entity.idx()));
                    }
                }
            }
        }
        self.hierarchy.add(entity, Some(parent));
        self.data.add(entity);
        self.style.add(entity);
        let ghost q0 = self.event_queue@;
        self.insert_event(Event::window(WindowEvent::Restyle).target(Entity::root()));
        self.insert_event(Event::window(WindowEvent::Relayout).target(Entity::root()));
        self.insert_event(Event::window(WindowEvent::Redraw).target(Entity::root()));
        proof {
            assert(self.event_queue@ =~= q0 + seq![
                Event::window_to_root_spec(WindowEvent::Restyle),
                Event::window_to_root_spec(WindowEvent::Relayout),
                Event::window_to_root_spec(WindowEvent::Redraw),
            ]);
        }
        entity
    }

    /// Removes `entity` with its whole subtree: the subtree is collected in
    /// pre-order, detached, purged from every storage, and destroyed in
    /// reverse pre-order — descendants before ancestors, the subtree root
    /// last — appending the destroyed entities to `removed_entities` in that
    /// order. A restyle, relayout and redraw are queued.
    pub fn remove(&mut self, entity: Entity)
        requires
            old(self).wf(),
            old(self).hierarchy.is_live(entity.idx()),
            old(self).hierarchy.entity_of(entity.idx()) == entity,
            entity.idx() != 0,
        ensures
            final(self).wf(),
            // the removed set is exactly the pre-order closure of `entity`
            forall|i: int|
                final(self).hierarchy.is_live(i) <==> (old(self).hierarchy.is_live(i) && !old(
                    self,
                ).hierarchy.is_desc(i, entity.idx())),
            final(self).removed_entities@.len() > old(self).removed_entities@.len(),
            final(self).removed_entities@.subrange(0, old(self).removed_entities@.len() as int)
                == old(self).removed_entities@,
            // the subtree root is destroyed and reported last
            final(self).removed_entities@.last() == entity,
            forall|m: int|
                old(self).removed_entities@.len() <= m < final(self).removed_entities@.len()
                    ==> old(self).hierarchy.is_desc(
                    (#[trigger] final(self).removed_entities@[m]).idx(),
                    entity.idx(),
                ),
            forall|d: int|
                old(self).hierarchy.is_desc(d, entity.idx()) ==> exists|m: int|
                    old(self).removed_entities@.len() <= m < final(self).removed_entities@.len()
                        && (#[trigger] final(self).removed_entities@[m]).idx() == d,
            // children are destroyed before their parent
            forall|m: int, c: int|
                #![trigger old(self).hierarchy.kids(final(self).removed_entities@[m].idx()).contains(c)]
                old(self).removed_entities@.len() <= m < final(self).removed_entities@.len()
                    && old(self).hierarchy.kids(
                    final(self).removed_entities@[m].idx(),
                ).contains(c) ==> exists|m2: int|
                    old(self).removed_entities@.len() <= m2 < m && (#[trigger] final(self).removed_entities@[m2]).idx() == c,
            // every storage value of every removed entity is purged
            forall|m: int|
                old(self).removed_entities@.len() <= m < final(self).removed_entities@.len()
                    ==> final(self).style.absent(
                    (#[trigger] final(self).removed_entities@[m]).idx(),
                ) && final(self).data.absent(final(self).removed_entities@[m].idx()),
            final(self).event_queue@ == old(self).event_queue@ + seq![
                Event::window_to_root_spec(WindowEvent::Restyle),
                Event::window_to_root_spec(WindowEvent::Relayout),
                Event::window_to_root_spec(WindowEvent::Redraw),
            ],
    {
        let list = self.hierarchy.remove_subtree(entity);
        let ghost h1 = self.hierarchy;
        let ghost base = self.removed_entities@.len() as int;
        let ghost n = list@.len() as int;
        proof {
            assert(self.hierarchy.is_live(0));
            assert forall|mm: int| 0 <= mm < list@.len() implies self.entity_manager.allocated(
                (#[trigger] list@[mm]).idx(),
            ) && 0 < list@[mm].idx() by {
                assert(old(self).hierarchy.is_live(list@[mm].idx()));
                if list@[mm].idx() == 0 {
                    assert(!self.hierarchy.is_live(0));
                }
            }
            assert(list@.subrange(n, n) =~= Seq::<Entity>::empty());
            assert(self.removed_entities@ =~= old(self).removed_entities@ + list@.subrange(
                n,
                n,
            ).reverse());
        }
        let mut k: usize = 0;
        while k < list.len()
            invariant
                self.entity_manager.wf(),
                self.style.wf(),
                self.data.wf(),
                self.event_handlers.wf(),
                self.hierarchy == h1,
                k <= list@.len(),
                n == list@.len(),
                self.entity_manager.next_spec() == old(self).entity_manager.next_spec(),
                forall|m1: int, m2: int|
                    0 <= m1 < m2 < list@.len() ==> (#[trigger] list@[m1]).idx() != (
                    #[trigger] list@[m2]).idx(),
                forall|mm: int|
                    0 <= mm < list@.len() ==> old(self).hierarchy.is_desc(
                        (#[trigger] list@[mm]).idx(),
                        entity.idx(),
                    ) && 0 < list@[mm].idx(),
                forall|i: int|
                    !seen_idx(list@.subrange(n - k, n), i) ==> (self.entity_manager.allocated(i)
                        <==> old(self).entity_manager.allocated(i)),
                forall|mm: int|
                    n - k <= mm < n ==> self.style.absent((#[trigger] list@[mm]).idx())
                        && self.data.absent(list@[mm].idx()),
                forall|mm: int|
                    0 <= mm < n - k ==> self.entity_manager.allocated(
                        (#[trigger] list@[mm]).idx(),
                    ),
                self.removed_entities@ == old(self).removed_entities@ + list@.subrange(
                    n - k,
                    n,
                ).reverse(),
                self.event_queue@ == old(self).event_queue@,
            decreases list@.len() - k,
        {
            let e = list[list.len() - 1 - k];
            let ghost prev_style = self.style;
            let ghost prev_data = self.data;
            self.data.remove(e);
            self.style.remove(e);
            self.removed_entities.push(e);
            self.entity_manager.destroy_entity(e);
            proof {
                let kk = k as int;
                assert(list@.subrange(n - kk - 1, n).drop_first() =~= list@.subrange(n - kk, n));
                assert(list@.subrange(n - kk - 1, n).first() == list@[n - kk - 1]);
                lemma_reverse_push_entities(list@.subrange(n - kk - 1, n));
                assert(self.removed_entities@ =~= old(self).removed_entities@ + list@.subrange(
                    n - kk - 1,
                    n,
                ).reverse());
                assert forall|i: int|
                    !seen_idx(list@.subrange(n - kk - 1, n), i) implies (
                self.entity_manager.allocated(i) <==> old(self).entity_manager.allocated(i)) by {
                    assert(!seen_idx(list@.subrange(n - kk, n), i)) by {
                        if seen_idx(list@.subrange(n - kk, n), i) {
                            let mm = choose|mm: int|
                                0 <= mm < kk && (#[trigger] list@.subrange(n - kk, n)[mm]).idx()
                                    == i;
                            assert(list@.subrange(n - kk - 1, n)[mm + 1].idx() == i);
                        }
                    }
                    assert(i != e.idx()) by {
                        assert(list@.subrange(n - kk - 1, n)[0].idx() == e.idx());
                    }
                }
                assert forall|mm: int| n - kk - 1 <= mm < n implies self.style.absent(
                    (#[trigger] list@[mm]).idx(),
                ) && self.data.absent(list@[mm].idx()) by {
                    if mm == n - kk - 1 {
                    } else {
                        assert(prev_style.absent(list@[mm].idx()));
                        assert(prev_data.absent(list@[mm].idx()));
                        assert(Style::purged(prev_style, self.style, e.idx()));
                    }
                }
                assert forall|mm: int| 0 <= mm < n - kk - 1 implies self.entity_manager.allocated(
                    (#[trigger] list@[mm]).idx(),
                ) by {
                    assert(list@[mm].idx() != e.idx());
                }
            }
            k = k + 1;
        }
        let ghost q0 = self.event_queue@;
        self.insert_event(Event::window(WindowEvent::Restyle).target(Entity::root()));
        self.insert_event(Event::window(WindowEvent::Relayout).target(Entity::root()));
        self.insert_event(Event::window(WindowEvent::Redraw).target(Entity::root()));
        proof {
            assert(self.event_queue@ =~= old(self).event_queue@ + seq![
                Event::window_to_root_spec(WindowEvent::Restyle),
                Event::window_to_root_spec(WindowEvent::Relayout),
                Event::window_to_root_spec(WindowEvent::Redraw),
            ]);
            let rev = list@.reverse();
            assert(list@.subrange(0, n) =~= list@);
            assert(self.removed_entities@ =~= old(self).removed_entities@ + rev);
            assert(self.removed_entities@.subrange(0, base) =~= old(self).removed_entities@);
            assert(rev[n - 1] == list@[0]);
            assert(self.removed_entities@.last() == entity);
            // coupling: survivors are still allocated
            assert forall|i: int| #[trigger] self.hierarchy.is_live(i) implies self
                .entity_manager.allocated(i) by {
                assert(!seen_idx(list@, i)) by {
                    if seen_idx(list@, i) {
                        let mm = choose|mm: int|
                            0 <= mm < list@.len() && (#[trigger] list@[mm]).idx() == i;
                        assert(old(self).hierarchy.is_desc(i, entity.idx()));
                    }
                }
                assert(!seen_idx(list@.subrange(0, n), i));
            }
            assert forall|m2: int| base <= m2 < self.removed_entities@.len() implies old(
                self,
            ).hierarchy.is_desc((#[trigger] self.removed_entities@[m2]).idx(), entity.idx())
                && self.style.absent(self.removed_entities@[m2].idx()) && self.data.absent(
                self.removed_entities@[m2].idx(),
            ) by {
                assert(self.removed_entities@[m2] == rev[m2 - base]);
                assert(rev[m2 - base] == list@[n - 1 - (m2 - base)]);
            }
            assert forall|d: int| old(self).hierarchy.is_desc(d, entity.idx()) implies exists|
                m2: int,
            |
                base <= m2 < self.removed_entities@.len() && (
            #[trigger] self.removed_entities@[m2]).idx() == d by {
                let mm = choose|mm: int| 0 <= mm < list@.len() && (#[trigger] list@[mm]).idx() == d;
                assert(self.removed_entities@[base + (n - 1 - mm)] == rev[n - 1 - mm]);
                assert(rev[n - 1 - mm] == list@[mm]);
            }
            // children destroyed before their parent: reversal of pre-order
            assert forall|m: int, c: int|
                #![trigger old(self).hierarchy.kids(self.removed_entities@[m].idx()).contains(c)]
                base <= m < self.removed_entities@.len() && old(self).hierarchy.kids(
                    self.removed_entities@[m].idx(),
                ).contains(c) implies exists|m2: int|
                base <= m2 < m && (#[trigger] self.removed_entities@[m2]).idx() == c by {
                let mm = n - 1 - (m - base);
                assert(self.removed_entities@[m] == rev[m - base]);
                assert(rev[m - base] == list@[mm]);
                assert(crate::hierarchy::children_after(old(self).hierarchy, list@, 0));
                assert(old(self).hierarchy.kids(list@[mm].idx()).contains(c));
                let mm2 = choose|mm2: int|
                    mm < mm2 < list@.len() && (#[trigger] list@[mm2]).idx() == c;
                let m2 = base + (n - 1 - mm2);
                assert(self.removed_entities@[m2] == rev[n - 1 - mm2]);
                assert(rev[n - 1 - mm2] == list@[mm2]);
                assert(base <= m2 < m);
            }
        }
    }

    /// Advances every running animation of every animatable property to
    /// `now`; returns whether any is still running, which drives the frame
    /// scheduler between waiting and polling.
    pub fn apply_animations(&mut self, now: u64) -> (r: bool)
        requires
            old(self).wf(),
        ensures
            final(self).wf(),
            crate::animation::AnimatableStorage::<crate::style::Color>::animate_rel(
                old(self).style.background_color,
                final(self).style.background_color,
                now,
            ),
            crate::animation::AnimatableStorage::<crate::style::Color>::animate_rel(
                old(self).style.font_color,
                final(self).style.font_color,
                now,
            ),
            crate::animation::AnimatableStorage::<crate::style::Color>::animate_rel(
                old(self).style.border_color,
                final(self).style.border_color,
                now,
            ),
            crate::animation::AnimatableStorage::<crate::style::Units>::animate_rel(
                old(self).style.left,
                final(self).style.left,
                now,
            ),
            crate::animation::AnimatableStorage::<crate::style::Units>::animate_rel(
                old(self).style.right,
                final(self).style.right,
                now,
            ),
            crate::animation::AnimatableStorage::<crate::style::Units>::animate_rel(
                old(self).style.top,
                final(self).style.top,
                now,
            ),
            crate::animation::AnimatableStorage::<crate::style::Units>::animate_rel(
                old(self).style.bottom,
                final(self).style.bottom,
                now,
            ),
            crate::animation::AnimatableStorage::<crate::style::Units>::animate_rel(
                old(self).style.width,
                final(self).style.width,
                now,
            ),
            crate::animation::AnimatableStorage::<crate::style::Units>::animate_rel(
                old(self).style.height,
                final(self).style.height,
                now,
            ),
            crate::animation::AnimatableStorage::<crate::style::Units>::animate_rel(
                old(self).style.min_width,
                final(self).style.min_width,
                now,
            ),
            crate::animation::AnimatableStorage::<crate::style::Units>::animate_rel(
                old(self).style.max_width,
                final(self).style.max_width,
                now,
            ),
            crate::animation::AnimatableStorage::<crate::style::Units>::animate_rel(
                old(self).style.min_height,
                final(self).style.min_height,
                now,
            ),
            crate::animation::AnimatableStorage::<crate::style::Units>::animate_rel(
                old(self).style.max_height,
                final(self).style.max_height,
                now,
            ),
            crate::animation::AnimatableStorage::<crate::style::Units>::animate_rel(
                old(self).style.margin_left,
                final(self).style.margin_left,
                now,
            ),
            crate::animation::AnimatableStorage::<crate::style::Units>::animate_rel(
                old(self).style.margin_right,
                final(self).style.margin_right,
                now,
            ),
            crate::animation::AnimatableStorage::<crate::style::Units>::animate_rel(
                old(self).style.margin_top,
                final(self).style.margin_top,
                now,
            ),
            crate::animation::AnimatableStorage::<crate::style::Units>::animate_rel(
                old(self).style.margin_bottom,
                final(self).style.margin_bottom,
                now,
            ),
            crate::animation::AnimatableStorage::<crate::style::Units>::animate_rel(
                old(self).style.padding_left,
                final(self).style.padding_left,
                now,
            ),
            crate::animation::AnimatableStorage::<crate::style::Units>::animate_rel(
                old(self).style.padding_right,
                final(self).style.padding_right,
                now,
            ),
            crate::animation::AnimatableStorage::<crate::style::Units>::animate_rel(
                old(self).style.padding_top,
                final(self).style.padding_top,
                now,
            ),
            crate::animation::AnimatableStorage::<crate::style::Units>::animate_rel(
                old(self).style.padding_bottom,
                final(self).style.padding_bottom,
                now,
            ),
            crate::animation::AnimatableStorage::<crate::style::Units>::animate_rel(
                old(self).style.border_width,
                final(self).style.border_width,
                now,
            ),
            crate::animation::AnimatableStorage::<crate::style::Units>::animate_rel(
                old(self).style.border_radius_top_left,
                final(self).style.border_radius_top_left,
                now,
            ),
            crate::animation::AnimatableStorage::<crate::style::Units>::animate_rel(
                old(self).style.border_radius_top_right,
                final(self).style.border_radius_top_right,
                now,
            ),
            crate::animation::AnimatableStorage::<crate::style::Units>::animate_rel(
                old(self).style.border_radius_bottom_left,
                final(self).style.border_radius_bottom_left,
                now,
            ),
            crate::animation::AnimatableStorage::<crate::style::Units>::animate_rel(
                old(self).style.border_radius_bottom_right,
                final(self).style.border_radius_bottom_right,
                now,
            ),
            crate::animation::AnimatableStorage::<crate::style::Units>::animate_rel(
                old(self).style.flex_basis,
                final(self).style.flex_basis,
                now,
            ),
            crate::animation::AnimatableStorage::<i64>::animate_rel(
                old(self).style.opacity,
                final(self).style.opacity,
                now,
            ),
            crate::animation::AnimatableStorage::<i64>::animate_rel(
                old(self).style.rotate,
                final(self).style.rotate,
                now,
            ),
            crate::animation::AnimatableStorage::<i64>::animate_rel(
                old(self).style.flex_grow,
                final(self).style.flex_grow,
                now,
            ),
            crate::animation::AnimatableStorage::<i64>::animate_rel(
                old(self).style.flex_shrink,
                final(self).style.flex_shrink,
                now,
            ),
            r == (final(self).style.background_color.active@.len() > 0 || final(self).style.font_color.active@.len() > 0 || final(self).style.border_color.active@.len()
                > 0 || final(self).style.left.active@.len() > 0 || final(self).style.right.active@.len() > 0 || final(self).style.top.active@.len() > 0 || final(self).style.bottom.active@.len() > 0 || final(self).style.width.active@.len() > 0 || final(self).style.height.active@.len() > 0 || final(self).style.opacity.active@.len() > 0
                || final(self).style.rotate.active@.len() > 0 || final(self).style.flex_grow.active@.len() > 0 || final(self).style.flex_shrink.active@.len() > 0
                || final(self).style.flex_basis.active@.len() > 0 || final(self).style.margin_left.active@.len() > 0 || final(self).style.margin_right.active@.len()
                > 0 || final(self).style.margin_top.active@.len() > 0 || final(self).style.margin_bottom.active@.len() > 0 || final(self).style.padding_left.active@.len() > 0 || final(self).style.padding_right.active@.len() > 0 || final(self).style.padding_top.active@.len()
                > 0 || final(self).style.padding_bottom.active@.len() > 0 || final(self).style.border_radius_top_left.active@.len() > 0 || final(self).style.border_radius_top_right.active@.len() > 0 || final(self).style.border_radius_bottom_left.active@.len() > 0 || final(self).style.border_radius_bottom_right.active@.len() > 0 || final(self).style.border_width.active@.len() > 0 || final(self).style.min_width.active@.len() > 0
                || final(self).style.max_width.active@.len() > 0 || final(self).style.min_height.active@.len() > 0 || final(self).style.max_height.active@.len()
                > 0),
    {
        let mut running = self.style.background_color.animate(now);
        running = self.style.font_color.animate(now) || running;
        running = self.style.border_color.animate(now) || running;
        running = self.style.left.animate(now) || running;
        running = self.style.right.animate(now) || running;
        running = self.style.top.animate(now) || running;
        running = self.style.bottom.animate(now) || running;
        running = self.style.width.animate(now) || running;
        running = self.style.height.animate(now) || running;
        running = self.style.opacity.animate(now) || running;
        running = self.style.rotate.animate(now) || running;
        running = self.style.flex_grow.animate(now) || running;
        running = self.style.flex_shrink.animate(now) || running;
        running = self.style.flex_basis.animate(now) || running;
        running = self.style.margin_left.animate(now) || running;
        running = self.style.margin_right.animate(now) || running;
        running = self.style.margin_top.animate(now) || running;
        running = self.style.margin_bottom.animate(now) || running;
        running = self.style.padding_left.animate(now) || running;
        running = self.style.padding_right.animate(now) || running;
        running = self.style.padding_top.animate(now) || running;
        running = self.style.padding_bottom.animate(now) || running;
        running = self.style.border_radius_top_left.animate(now) || running;
        running = self.style.border_radius_top_right.animate(now) || running;
        running = self.style.border_radius_bottom_left.animate(now) || running;
        running = self.style.border_radius_bottom_right.animate(now) || running;
        running = self.style.border_width.animate(now) || running;
        running = self.style.min_width.animate(now) || running;
        running = self.style.max_width.animate(now) || running;
        running = self.style.min_height.animate(now) || running;
        running = self.style.max_height.animate(now) || running;
        running
    }
}

impl Event {
    /// The shape of the engine-scheduling events that target the root.
    pub open spec fn window_to_root_spec(w: WindowEvent) -> Event {
        Event {
            message: Message::Window(w),
            target: Entity::root_spec(),
            origin: Entity::null_spec(),
            propagation: Propagation::Up,
            unique: false,
            consumed: false,
        }
    }
}

/// How `capture(id)` extends the queue: the new holder is told of the
/// capture, the previous holder of its loss, each at most once.
pub open spec fn capture_events_spec(q: Seq<Event>, prev: Entity, id: Entity) -> Seq<Event> {
    let q1 = if id != Entity::null_spec() && prev != id {
        q.push(
            Event {
                message: Message::Window(WindowEvent::MouseCaptureEvent),
                target: id,
                origin: Entity::null_spec(),
                propagation: Propagation::Direct,
                unique: false,
                consumed: false,
            },
        )
    } else {
        q
    };
    if prev != Entity::null_spec() && prev != id {
        q1.push(
            Event {
                message: Message::Window(WindowEvent::MouseCaptureOutEvent),
                target: prev,
                origin: Entity::null_spec(),
                propagation: Propagation::Direct,
                unique: false,
                consumed: false,
            },
        )
    } else {
        q1
    }
}

} // verus!
