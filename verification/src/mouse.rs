//! Pointer and modifier state as last reported by the window system.

use vstd::prelude::*;

use crate::entity::Entity;
use crate::events::MouseButtonState;

verus! {

/// Per-button press bookkeeping.
#[derive(Clone, Copy, PartialEq, Eq, Structural, Debug)]
pub struct MouseButtonData {
    pub state: MouseButtonState,
    pub pos_down_x: i64,
    pub pos_down_y: i64,
    pub pos_up_x: i64,
    pub pos_up_y: i64,
    pub pressed: Entity,
    pub released: Entity,
}

impl MouseButtonData {
    pub fn new() -> (r: MouseButtonData)
        ensures
            r == MouseButtonData::new_spec(),
    {
        MouseButtonData {
            state: MouseButtonState::Released,
            pos_down_x: 0,
            pos_down_y: 0,
            pos_up_x: 0,
            pos_up_y: 0,
            pressed: Entity::null(),
            released: Entity::null(),
        }
    }

    pub open spec fn new_spec() -> MouseButtonData {
        MouseButtonData {
            state: MouseButtonState::Released,
            pos_down_x: 0,
            pos_down_y: 0,
            pos_up_x: 0,
            pos_up_y: 0,
            pressed: Entity::null_spec(),
            released: Entity::null_spec(),
        }
    }
}

/// Cursor position and the three standard buttons.
#[derive(Clone, Copy, PartialEq, Eq, Structural, Debug)]
pub struct MouseState {
    pub cursorx: i64,
    pub cursory: i64,
    pub left: MouseButtonData,
    pub right: MouseButtonData,
    pub middle: MouseButtonData,
}

impl MouseState {
    pub fn new() -> (r: MouseState)
        ensures
            r == MouseState::new_spec(),
    {
        MouseState {
            cursorx: 0,
            cursory: 0,
            left: MouseButtonData::new(),
            right: MouseButtonData::new(),
            middle: MouseButtonData::new(),
        }
    }

    pub open spec fn new_spec() -> MouseState {
        MouseState {
            cursorx: 0,
            cursory: 0,
            left: MouseButtonData::new_spec(),
            right: MouseButtonData::new_spec(),
            middle: MouseButtonData::new_spec(),
        }
    }
}

/// Keyboard modifier state.
#[derive(Clone, Copy, PartialEq, Eq, Structural, Debug)]
pub struct ModifiersState {
    pub shift: bool,
    pub ctrl: bool,
    pub alt: bool,
    pub logo: bool,
}

impl ModifiersState {
    pub fn new() -> (r: ModifiersState)
        ensures
            r == (ModifiersState { shift: false, ctrl: false, alt: false, logo: false }),
    {
        ModifiersState { shift: false, ctrl: false, alt: false, logo: false }
    }
}

} // verus!
