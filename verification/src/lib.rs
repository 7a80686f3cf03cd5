//! A retained-mode GUI core: a persistent tree of widget entities with
//! cascading styles, flex-like layout, input routing with capture/bubble
//! semantics, focus management and property animation.
//!
//! The crate owns the widget tree and all per-entity state; a thin unverified
//! shell is expected to translate window-system events into the plain values
//! these functions consume, and to hand the produced paint commands to a
//! vector-graphics backend.


pub mod animation;
pub mod cascade;
pub mod data;
pub mod dispatch;
pub mod entity;
pub mod events;
pub mod hierarchy;
pub mod input;
pub mod layout;
pub mod mouse;
pub mod rules;
pub mod storage;
pub mod state;
pub mod style;
pub mod widgets;
