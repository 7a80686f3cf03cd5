//! The widget contract and the built-in widgets the core ships with.
//!
//! Widgets are stored per entity as a closed union, [`WidgetHandler`], so
//! event dispatch and cross-widget message inspection need no unchecked
//! downcasts: a handler is examined by matching on its variant.

use vstd::prelude::*;

use crate::entity::Entity;
use crate::events::{
    CheckboxEvent, Event, Message, MouseButton, Propagation, WindowEvent,
};
use crate::state::State;

verus! {

/// The capability set every widget implements: build once, then receive the
/// events whose propagation path includes the widget's entity.
pub trait Widget: Sized {
    /// What `build` hands back; commonly the widget's own entity.
    type Ret;

    /// Runs exactly once at construction to create internal child entities.
    /// It may grow the tree below `entity`, but leaves `entity` alive where
    /// it was, its parent's child list unchanged, and the handler store
    /// untouched.
    fn on_build(&mut self, state: &mut State, entity: Entity) -> (r: Self::Ret)
        requires
            old(state).wf(),
            old(state).hierarchy.is_live(entity.idx()),
            entity.idx() != 0,
        ensures
            final(state).wf(),
            final(state).hierarchy.is_live(entity.idx()),
            final(state).hierarchy.parent_of(entity.idx()) == old(state).hierarchy.parent_of(
                entity.idx(),
            ),
            final(state).hierarchy.kids(old(state).hierarchy.parent_of(entity.idx())) == old(
                state,
            ).hierarchy.kids(old(state).hierarchy.parent_of(entity.idx())),
            final(state).event_handlers@ == old(state).event_handlers@,
    ;

    /// Receives one event whose path includes `entity`.
    fn on_event(&mut self, state: &mut State, entity: Entity, event: &mut Event)
        requires
            old(state).wf(),
        ensures
            final(state).wf(),
    ;

    /// Wraps the finished widget for the per-entity handler store.
    fn into_handler(self) -> WidgetHandler;

    /// Creates an entity under `parent`, builds the widget on it, and stores
    /// the widget as the entity's handler: exactly one fresh entity joins
    /// the tree as `parent`'s last child, survives `on_build`, and ends up
    /// owning a handler; the result is what `on_build` returned for it.
    fn build(self, state: &mut State, parent: Entity) -> (r: Self::Ret)
        requires
            old(state).wf(),
            old(state).hierarchy.is_live(parent.idx()),
            old(state).entity_manager.can_create_spec(),
        ensures
            final(state).wf(),
            exists|e: Entity|
                {
                    &&& !old(state).hierarchy.is_live(e.idx())
                    &&& #[trigger] final(state).hierarchy.is_live(e.idx())
                    &&& final(state).hierarchy.parent_of(e.idx()) == parent.idx()
                    &&& final(state).hierarchy.kids(parent.idx()) == old(state).hierarchy.kids(
                        parent.idx(),
                    ).push(e.idx())
                    &&& final(state).event_handlers@.dom().contains(e.idx())
                },
    {
        let entity = state.add(parent);
        let mut w = self;
        let ret = w.on_build(state, entity);
        state.event_handlers.insert(entity, w.into_handler());
        proof {
            assert(final(state).hierarchy.is_live(entity.idx()));
        }
        ret
    }
}

/// A plain, empty widget: it draws its box and handles nothing.
pub struct Element {
}

impl Element {
    pub fn new() -> (r: Element)
        ensures
            true,
    {
        Element {  }
    }
}

impl Widget for Element {
    type Ret = Entity;

    fn on_build(&mut self, state: &mut State, entity: Entity) -> (r: Entity) {
        entity
    }

    fn on_event(&mut self, state: &mut State, entity: Entity, event: &mut Event) {
    }

    fn into_handler(self) -> WidgetHandler {
        WidgetHandler::Element(self)
    }
}

/// A two-state button: a left press on it flips its checked state, updates
/// the `:checked` pseudo-class, and emits the configured event.
pub struct CheckButton {
    pub checked: bool,
    pub on_checked: Option<Event>,
    pub on_unchecked: Option<Event>,
}

impl CheckButton {
    pub fn new(checked: bool) -> (r: CheckButton)
        ensures
            r.checked == checked,
            r.on_checked is None,
            r.on_unchecked is None,
    {
        CheckButton { checked, on_checked: None, on_unchecked: None }
    }

    /// The event to emit when the button becomes checked.
    pub fn on_checked(self, event: Event) -> (r: CheckButton)
        ensures
            r == (CheckButton { on_checked: Some(event), ..self }),
    {
        CheckButton { on_checked: Some(event), ..self }
    }

    /// The event to emit when the button becomes unchecked.
    pub fn on_unchecked(self, event: Event) -> (r: CheckButton)
        ensures
            r == (CheckButton { on_unchecked: Some(event), ..self }),
    {
        CheckButton { on_unchecked: Some(event), ..self }
    }

    /// Applies one checked-state change: the field and the `:checked`
    /// pseudo-class are written, a restyle is queued, and the configured
    /// notification (if any) is sent with this entity as origin, targeting
    /// this entity when the caller left the target open.
    pub fn set_checked_state(&mut self, state: &mut State, entity: Entity, checked: bool)
        requires
            old(state).wf(),
        ensures
            final(state).wf(),
            final(self).checked == checked,
            final(self).on_checked == old(self).on_checked,
            final(self).on_unchecked == old(self).on_unchecked,
            checked_applied(*old(self), *old(state), *final(state), entity, checked),
    {
        self.checked = checked;
        let mut pc = match state.style.pseudo_classes.get(entity) {
            Some(p) => *p,
            None => crate::style::PseudoClasses::none(),
        };
        pc.checked = checked;
        state.style.pseudo_classes.insert(entity, pc);
        state.insert_event(Event::window(WindowEvent::Restyle).target(Entity::root()));
        let notify = if checked {
            self.on_checked
        } else {
            self.on_unchecked
        };
        if let Some(ev) = notify {
            let mut ev = ev;
            if ev.target.is_null() {
                ev = ev.target(entity);
            }
            ev = ev.origin(entity);
            state.insert_event(ev);
        }
    }
}

/// The pseudo-class map after setting entity `i`'s `:checked` bit.
pub open spec fn with_checked_bit(
    m: Map<int, crate::style::PseudoClasses>,
    i: int,
    value: bool,
) -> Map<int, crate::style::PseudoClasses> {
    let pc = if m.dom().contains(i) {
        m[i]
    } else {
        crate::style::PseudoClasses::none_spec()
    };
    m.insert(i, crate::style::PseudoClasses { checked: value, ..pc })
}

/// The notification a check button sends for a state change: the configured
/// event with this entity as origin, targeting this entity when the caller
/// left the target open.
pub open spec fn cb_notify_spec(w: CheckButton, entity: Entity, checked: bool) -> Option<Event> {
    let n = if checked {
        w.on_checked
    } else {
        w.on_unchecked
    };
    match n {
        Some(ev) => Some(
            Event {
                origin: entity,
                target: if ev.target == Entity::null_spec() {
                    entity
                } else {
                    ev.target
                },
                ..ev
            },
        ),
        None => None,
    }
}

/// How one checked-state change of `entity` transforms the state: the
/// `:checked` pseudo-class is written, a restyle is queued, the configured
/// notification follows, and everything else stands.
pub open spec fn checked_applied(
    w: CheckButton,
    pre: State,
    post: State,
    entity: Entity,
    checked: bool,
) -> bool {
    &&& post.style.pseudo_classes@ == with_checked_bit(
        pre.style.pseudo_classes@,
        entity.idx(),
        checked,
    )
    &&& post.event_queue@ == (match cb_notify_spec(w, entity, checked) {
        Some(ev) => crate::state::insert_event_spec(
            pre.event_queue@.push(Event::window_to_root_spec(WindowEvent::Restyle)),
            ev,
        ),
        None => pre.event_queue@.push(Event::window_to_root_spec(WindowEvent::Restyle)),
    })
    &&& post.hierarchy == pre.hierarchy
    &&& post.data == pre.data
    &&& post.event_handlers == pre.event_handlers
    &&& post.hovered == pre.hovered
    &&& post.focused == pre.focused
    &&& post.captured == pre.captured
    &&& post.style.elements@ == pre.style.elements@
    &&& post.style.ids@ == pre.style.ids@
    &&& post.style.classes@ == pre.style.classes@
    &&& post.style.rules@ == pre.style.rules@
}

/// Which new checked value one event demands of a check button at `entity`,
/// if any: explicit check/uncheck/switch messages, or a left press on the
/// entity itself.
pub open spec fn cb_response(ev: Event, entity: Entity, checked: bool) -> Option<bool> {
    if ev.target != entity {
        None
    } else {
        match ev.message {
            Message::Checkbox(CheckboxEvent::Check) => if !checked {
                Some(true)
            } else {
                None
            },
            Message::Checkbox(CheckboxEvent::Uncheck) => if checked {
                Some(false)
            } else {
                None
            },
            Message::Checkbox(CheckboxEvent::Switch) => Some(!checked),
            Message::Window(WindowEvent::MouseDown(MouseButton::Left)) => Some(!checked),
            _ => None,
        }
    }
}

/// How a check button answers one event: it applies the demanded checked
/// state, or stands still when the event does not concern it.
pub open spec fn check_button_step(
    pre_w: CheckButton,
    post_w: CheckButton,
    pre: State,
    post: State,
    entity: Entity,
    ev: Event,
) -> bool {
    match cb_response(ev, entity, pre_w.checked) {
        Some(v) => post_w == (CheckButton { checked: v, ..pre_w }) && checked_applied(
            pre_w,
            pre,
            post,
            entity,
            v,
        ),
        None => post_w == pre_w && post == pre,
    }
}

impl Widget for CheckButton {
    type Ret = Entity;

    fn on_build(&mut self, state: &mut State, entity: Entity) -> (r: Entity) {
        let checked = self.checked;
        self.set_checked_state(state, entity, checked);
        state.style.insert_element(entity, string_check_button());
        entity
    }

    fn on_event(&mut self, state: &mut State, entity: Entity, event: &mut Event) {
        self.handle(state, entity, event);
    }

    fn into_handler(self) -> WidgetHandler {
        WidgetHandler::CheckButton(self)
    }
}

impl CheckButton {
    /// Answers one event exactly per [`check_button_step`]: a check,
    /// uncheck, switch or left press targeting this entity flips the state
    /// and notifies; everything else leaves button and state untouched.
    pub fn handle(&mut self, state: &mut State, entity: Entity, event: &Event)
        requires
            old(state).wf(),
        ensures
            final(state).wf(),
            check_button_step(*old(self), *final(self), *old(state), *final(state), entity, *event),
    {
        let target = event.target;
        match event.message {
            Message::Checkbox(CheckboxEvent::Check) => {
                if target == entity && !self.checked {
                    self.set_checked_state(state, entity, true);
                }
            },
            Message::Checkbox(CheckboxEvent::Uncheck) => {
                if target == entity && self.checked {
                    self.set_checked_state(state, entity, false);
                }
            },
            Message::Checkbox(CheckboxEvent::Switch) => {
                if target == entity {
                    let next = !self.checked;
                    self.set_checked_state(state, entity, next);
                }
            },
            Message::Window(WindowEvent::MouseDown(MouseButton::Left)) => {
                if target == entity {
                    let next = !self.checked;
                    self.set_checked_state(state, entity, next);
                }
            },
            _ => {},
        }
    }
}

fn string_check_button() -> String {
    "check_button".to_owned()
}

fn string_radio() -> String {
    "radio".to_owned()
}

fn string_marker() -> String {
    "marker".to_owned()
}

/// A radio button: a check button with a marker child element.
pub struct Radio {
    pub marker: Entity,
    pub check: CheckButton,
}

impl Radio {
    pub fn new() -> (r: Radio)
        ensures
            r.marker == Entity::null_spec(),
            r.check.checked == false,
            r.check.on_checked is None,
            r.check.on_unchecked is None,
    {
        Radio { marker: Entity::null(), check: CheckButton::new(false) }
    }

    /// The event to emit when the radio becomes checked.
    pub fn on_checked(self, event: Event) -> (r: Radio)
        ensures
            r.marker == self.marker,
            r.check == (CheckButton { on_checked: Some(event), ..self.check }),
    {
        Radio { marker: self.marker, check: self.check.on_checked(event) }
    }

    /// The event to emit when the radio becomes unchecked.
    pub fn on_unchecked(self, event: Event) -> (r: Radio)
        ensures
            r.marker == self.marker,
            r.check == (CheckButton { on_unchecked: Some(event), ..self.check }),
    {
        Radio { marker: self.marker, check: self.check.on_unchecked(event) }
    }
}

impl Widget for Radio {
    type Ret = Entity;

    fn on_build(&mut self, state: &mut State, entity: Entity) -> (r: Entity) {
        if state.can_add() {
            let marker = state.add(entity);
            state.data.set_hoverability(marker, false);
            state.style.insert_class(marker, string_marker());
            self.marker = marker;
        }
        state.style.insert_element(entity, string_radio());
        entity
    }

    fn on_event(&mut self, state: &mut State, entity: Entity, event: &mut Event) {
        self.check.on_event(state, entity, event);
    }

    fn into_handler(self) -> WidgetHandler {
        WidgetHandler::Radio(self)
    }
}

/// Shared per-widget hooks the basic widgets build on.
pub struct BaseWidget {
    pub on_hover: Option<Event>,
}

impl BaseWidget {
    pub fn new() -> (r: BaseWidget)
        ensures
            r.on_hover is None,
    {
        BaseWidget { on_hover: None }
    }

    /// The event to emit when the widget is hovered.
    pub fn on_hover(&mut self, event: Event)
        ensures
            final(self).on_hover == Some(event),
    {
        self.on_hover = Some(event);
    }
}

/// The hook surface of widgets built around a [`BaseWidget`].
pub trait BasicWidget: Sized {
    fn get_base_widget(&mut self) -> &mut BaseWidget;

    fn on_hover(self, event: Event) -> Self {
        let mut s = self;
        s.get_base_widget().on_hover(event);
        s
    }

    fn on_active(self, event: Event) -> Self {
        self
    }
}

/// The handler of the root entity: the window itself.
pub struct WindowWidget {
}

impl WindowWidget {
    pub fn new() -> (r: WindowWidget)
        ensures
            true,
    {
        WindowWidget {  }
    }

    /// Installs the window widget as the root entity's handler.
    pub fn build_window(self, state: &mut State)
        requires
            old(state).wf(),
        ensures
            final(state).wf(),
            final(state).event_handlers@ == old(state).event_handlers@.insert(
                0,
                WidgetHandler::Window(WindowWidget {  }),
            ),
    {
        state.event_handlers.insert(Entity::root(), WidgetHandler::Window(self));
    }
}

impl Widget for WindowWidget {
    type Ret = Entity;

    fn on_build(&mut self, state: &mut State, entity: Entity) -> (r: Entity) {
        entity
    }

    fn on_event(&mut self, state: &mut State, entity: Entity, event: &mut Event) {
    }

    fn into_handler(self) -> WidgetHandler {
        WidgetHandler::Window(self)
    }
}

/// The closed union of widget kinds the per-entity handler store holds.
pub enum WidgetHandler {
    Element(Element),
    CheckButton(CheckButton),
    Radio(Radio),
    Window(WindowWidget),
}

impl WidgetHandler {
    /// Dispatches one event to the wrapped widget: the handler keeps its
    /// kind, a check button or radio answers exactly per
    /// [`check_button_step`], and the inert widgets change nothing.
    pub fn handle_event(&mut self, state: &mut State, entity: Entity, event: &mut Event)
        requires
            old(state).wf(),
        ensures
            final(state).wf(),
            *final(event) == *old(event),
            (*old(self)) is Element ==> *final(self) == *old(self) && *final(state) == *old(state),
            (*old(self)) is Window ==> *final(self) == *old(self) && *final(state) == *old(state),
            (*old(self)) is CheckButton ==> (*final(self)) is CheckButton && check_button_step(
                (*old(self))->CheckButton_0,
                (*final(self))->CheckButton_0,
                *old(state),
                *final(state),
                entity,
                *old(event),
            ),
            (*old(self)) is Radio ==> (*final(self)) is Radio && (*final(self))->Radio_0.marker == (
            *old(self))->Radio_0.marker && check_button_step(
                (*old(self))->Radio_0.check,
                (*final(self))->Radio_0.check,
                *old(state),
                *final(state),
                entity,
                *old(event),
            ),
    {
        match self {
            WidgetHandler::Element(..) => {},
            WidgetHandler::CheckButton(w) => w.handle(state, entity, event),
            WidgetHandler::Radio(w) => w.check.handle(state, entity, event),
            WidgetHandler::Window(..) => {},
        }
    }

    /// Capability-checked access to a radio handler.
    pub fn as_radio(&self) -> (r: Option<&Radio>)
        ensures
            match r {
                Some(w) => self is Radio && *w == self->Radio_0,
                None => !(self is Radio),
            },
    {
        match self {
            WidgetHandler::Radio(w) => Some(w),
            _ => None,
        }
    }

    /// Capability-checked access to a check-button handler.
    pub fn as_check_button(&self) -> (r: Option<&CheckButton>)
        ensures
            match r {
                Some(w) => self is CheckButton && *w == self->CheckButton_0,
                None => !(self is CheckButton),
            },
    {
        match self {
            WidgetHandler::CheckButton(w) => Some(w),
            _ => None,
        }
    }
}

} // verus!
