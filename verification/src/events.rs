//! Events: the message envelope and its propagation modes.

use vstd::prelude::*;

use crate::entity::Entity;
use crate::style::Color;

verus! {

/// Along which path an event travels.
#[derive(Clone, Copy, PartialEq, Eq, Structural, Debug)]
pub enum Propagation {
    /// Only the named target.
    Direct,
    /// The target, then its ancestors up to the root.
    Up,
    /// The root, then down to the target.
    Down,
    /// Down to the target, then back up to the root.
    DownUp,
}

/// A mouse button.
#[derive(Clone, Copy, PartialEq, Eq, Structural, Debug)]
pub enum MouseButton {
    Left,
    Right,
    Middle,
    Other(u16),
}

/// Whether a button or key went down or up.
#[derive(Clone, Copy, PartialEq, Eq, Structural, Debug)]
pub enum MouseButtonState {
    Pressed,
    Released,
}

/// A physical key position, independent of layout.
#[derive(Clone, Copy, PartialEq, Eq, Structural, Debug)]
pub enum Code {
    Tab,
    Enter,
    Escape,
    Space,
    ArrowUp,
    ArrowDown,
    ArrowLeft,
    ArrowRight,
    ShiftLeft,
    ShiftRight,
    F5,
    Unidentified,
    Other(u32),
}

/// A logical key after layout translation.
#[derive(Clone, Copy, PartialEq, Eq, Structural, Debug)]
pub enum Key {
    Character(char),
    Shift,
    Enter,
    Tab,
    Escape,
    Unidentified,
}

/// The window-level event vocabulary the core routes to widgets.
#[derive(Clone, Copy, PartialEq, Eq, Structural, Debug)]
pub enum WindowEvent {
    WindowClose,
    Restyle,
    Relayout,
    Redraw,
    MouseMove(i64, i64),
    MouseDown(MouseButton),
    MouseUp(MouseButton),
    MouseScroll(i64, i64),
    MouseOver,
    MouseOut,
    MouseCaptureEvent,
    MouseCaptureOutEvent,
    KeyDown(Code, Key),
    KeyUp(Code, Key),
    CharInput(char),
    WindowResize(i64, i64),
}

/// Messages a check button emits or accepts.
#[derive(Clone, Copy, PartialEq, Eq, Structural, Debug)]
pub enum CheckboxEvent {
    Check,
    Uncheck,
    Switch,
}

/// Messages a slider-like widget emits or accepts (values in thousandths).
#[derive(Clone, Copy, PartialEq, Eq, Structural, Debug)]
pub enum SliderEvent {
    SetValue(i64),
    ValueChanged(i64),
}

/// The typed payload of an event: a closed union, so handlers can inspect
/// messages of other widgets without unchecked casts.
#[derive(Clone, Copy, PartialEq, Eq, Structural, Debug)]
pub enum Message {
    Window(WindowEvent),
    Checkbox(CheckboxEvent),
    Slider(SliderEvent),
    ColorChanged(Color),
    User(i64),
}

/// A queued event: a payload, a target, where it came from, how it travels,
/// and whether at most one structurally equal copy may wait in the queue.
#[derive(Clone, Copy, PartialEq, Eq, Structural, Debug)]
pub struct Event {
    pub message: Message,
    pub target: Entity,
    pub origin: Entity,
    pub propagation: Propagation,
    pub unique: bool,
    pub consumed: bool,
}

impl Event {
    /// A new event, targeting nothing yet, travelling up by default.
    pub fn new(message: Message) -> (r: Event)
        ensures
            r == (Event {
                message,
                target: Entity::null_spec(),
                origin: Entity::null_spec(),
                propagation: Propagation::Up,
                unique: false,
                consumed: false,
            }),
    {
        Event {
            message,
            target: Entity::null(),
            origin: Entity::null(),
            propagation: Propagation::Up,
            unique: false,
            consumed: false,
        }
    }

    /// A window event, which most senders build directly.
    pub fn window(w: WindowEvent) -> (r: Event)
        ensures
            r == (Event {
                message: Message::Window(w),
                target: Entity::null_spec(),
                origin: Entity::null_spec(),
                propagation: Propagation::Up,
                unique: false,
                consumed: false,
            }),
    {
        Event::new(Message::Window(w))
    }

    pub fn target(self, target: Entity) -> (r: Event)
        ensures
            r == (Event { target, ..self }),
    {
        Event { target, ..self }
    }

    pub fn origin(self, origin: Entity) -> (r: Event)
        ensures
            r == (Event { origin, ..self }),
    {
        Event { origin, ..self }
    }

    pub fn propagate(self, propagation: Propagation) -> (r: Event)
        ensures
            r == (Event { propagation, ..self }),
    {
        Event { propagation, ..self }
    }

    pub fn unique(self) -> (r: Event)
        ensures
            r == (Event { unique: true, ..self }),
    {
        Event { unique: true, ..self }
    }

    /// Marks the event consumed, halting further propagation.
    pub fn consume(&mut self)
        ensures
            *final(self) == (Event { consumed: true, ..*old(self) }),
    {
        self.consumed = true;
    }
}

} // verus!
