//! Style property values and the per-entity style state.
//!
//! The value types mirror a small CSS: units, colors, flex and alignment
//! enums, and the pseudo-class set used by selectors. [`Style`] owns one
//! storage per property, the ordered rule list, and the selector-matching
//! metadata (element name, id, classes, pseudo-classes) of every entity.

use vstd::prelude::*;

use crate::animation::{AnimatableStorage, Lerp, lerp_int, lemma_lerp_int_bounds};
use crate::entity::Entity;
use crate::rules::StyleRule;
use crate::storage::Storage;

verus! {

/// A geometric property value: absolute pixels, a percentage of the parent's
/// content size, a weight of the remaining free space, or automatic.
#[derive(Clone, Copy, PartialEq, Eq, Structural, Debug)]
pub enum Units {
    Pixels(i64),
    Percentage(i64),
    Stretch(i64),
    Auto,
}

/// An RGBA color with 8-bit components.
#[derive(Clone, Copy, PartialEq, Eq, Structural, Debug)]
pub struct Color {
    pub r: u8,
    pub g: u8,
    pub b: u8,
    pub a: u8,
}

impl Color {
    pub fn rgb(r: u8, g: u8, b: u8) -> (c: Color)
        ensures
            c == (Color { r, g, b, a: 255 }),
    {
        Color { r, g, b, a: 255 }
    }

    pub fn rgba(r: u8, g: u8, b: u8, a: u8) -> (c: Color)
        ensures
            c == (Color { r, g, b, a }),
    {
        Color { r, g, b, a }
    }
}

/// Componentwise color interpolation.
pub open spec fn lerp_u8(a: u8, b: u8, num: int, den: int) -> u8 {
    lerp_int(a as int, b as int, num, den) as u8
}

fn lerp_u8_exec(a: u8, b: u8, num: u64, den: u64) -> (r: u8)
    requires
        0 < den <= crate::animation::FRAC_ONE,
        num <= den,
    ensures
        r == lerp_u8(a, b, num as int, den as int),
{
    proof {
        lemma_lerp_int_bounds(a as int, b as int, num as int, den as int);
    }
    let r64 = <i64 as Lerp>::lerp(a as i64, b as i64, num, den);
    r64 as u8
}

impl Lerp for Color {
    open spec fn lerp_spec(a: Color, b: Color, num: int, den: int) -> Color {
        Color {
            r: lerp_u8(a.r, b.r, num, den),
            g: lerp_u8(a.g, b.g, num, den),
            b: lerp_u8(a.b, b.b, num, den),
            a: lerp_u8(a.a, b.a, num, den),
        }
    }

    fn lerp(a: Color, b: Color, num: u64, den: u64) -> (r: Color) {
        Color {
            r: lerp_u8_exec(a.r, b.r, num, den),
            g: lerp_u8_exec(a.g, b.g, num, den),
            b: lerp_u8_exec(a.b, b.b, num, den),
            a: lerp_u8_exec(a.a, b.a, num, den),
        }
    }
}

impl Lerp for Units {
    /// Matching unit kinds interpolate their magnitude; mismatched kinds snap
    /// to the nearer endpoint.
    open spec fn lerp_spec(a: Units, b: Units, num: int, den: int) -> Units {
        match (a, b) {
            (Units::Pixels(x), Units::Pixels(y)) => Units::Pixels(
                <i64 as Lerp>::lerp_spec(x, y, num, den),
            ),
            (Units::Percentage(x), Units::Percentage(y)) => Units::Percentage(
                <i64 as Lerp>::lerp_spec(x, y, num, den),
            ),
            (Units::Stretch(x), Units::Stretch(y)) => Units::Stretch(
                <i64 as Lerp>::lerp_spec(x, y, num, den),
            ),
            _ => {
                if 2 * num >= den {
                    b
                } else {
                    a
                }
            },
        }
    }

    fn lerp(a: Units, b: Units, num: u64, den: u64) -> (r: Units) {
        match (a, b) {
            (Units::Pixels(x), Units::Pixels(y)) => Units::Pixels(
                <i64 as Lerp>::lerp(x, y, num, den),
            ),
            (Units::Percentage(x), Units::Percentage(y)) => Units::Percentage(
                <i64 as Lerp>::lerp(x, y, num, den),
            ),
            (Units::Stretch(x), Units::Stretch(y)) => Units::Stretch(
                <i64 as Lerp>::lerp(x, y, num, den),
            ),
            _ => {
                if 2 * (num as u128) >= den as u128 {
                    b
                } else {
                    a
                }
            },
        }
    }
}

#[derive(Clone, Copy, PartialEq, Eq, Structural, Debug)]
pub enum Visibility {
    Visible,
    Invisible,
}

#[derive(Clone, Copy, PartialEq, Eq, Structural, Debug)]
pub enum Display {
    Flex,
    Hidden,
}

#[derive(Clone, Copy, PartialEq, Eq, Structural, Debug)]
pub enum Overflow {
    Visible,
    Hidden,
}

#[derive(Clone, Copy, PartialEq, Eq, Structural, Debug)]
pub enum Position {
    Relative,
    Absolute,
}

#[derive(Clone, Copy, PartialEq, Eq, Structural, Debug)]
pub enum FlexDirection {
    Row,
    Column,
}

#[derive(Clone, Copy, PartialEq, Eq, Structural, Debug)]
pub enum JustifyContent {
    FlexStart,
    Center,
    FlexEnd,
    SpaceBetween,
}

#[derive(Clone, Copy, PartialEq, Eq, Structural, Debug)]
pub enum AlignContent {
    FlexStart,
    Center,
    FlexEnd,
}

#[derive(Clone, Copy, PartialEq, Eq, Structural, Debug)]
pub enum AlignItems {
    FlexStart,
    Center,
    FlexEnd,
    Stretch,
}

#[derive(Clone, Copy, PartialEq, Eq, Structural, Debug)]
pub enum AlignSelf {
    Auto,
    FlexStart,
    Center,
    FlexEnd,
    Stretch,
}

#[derive(Clone, Copy, PartialEq, Eq, Structural, Debug)]
pub enum Align {
    Start,
    Center,
    End,
}

#[derive(Clone, Copy, PartialEq, Eq, Structural, Debug)]
pub enum Justify {
    Start,
    Center,
    End,
}

/// The boolean interaction states a selector can test.
#[derive(Clone, Copy, PartialEq, Eq, Structural, Debug)]
pub struct PseudoClasses {
    pub hover: bool,
    pub active: bool,
    pub checked: bool,
    pub focus: bool,
    pub enabled: bool,
    pub disabled: bool,
    pub over: bool,
}

impl PseudoClasses {
    pub fn none() -> (r: PseudoClasses)
        ensures
            r == PseudoClasses::none_spec(),
    {
        PseudoClasses {
            hover: false,
            active: false,
            checked: false,
            focus: false,
            enabled: false,
            disabled: false,
            over: false,
        }
    }

    pub open spec fn none_spec() -> PseudoClasses {
        PseudoClasses {
            hover: false,
            active: false,
            checked: false,
            focus: false,
            enabled: false,
            disabled: false,
            over: false,
        }
    }
}

/// Explicit focus-order links used by Tab navigation.
#[derive(Clone, Copy, PartialEq, Eq, Structural, Debug)]
pub struct FocusOrder {
    pub next: Entity,
    pub prev: Entity,
}

/// A widget's text content and font name.
#[derive(Clone, PartialEq, Eq, Debug)]
pub struct Text {
    pub text: String,
    pub font: String,
}

/// All per-entity style state: selector metadata, the rule list, and one
/// storage per property (animatable properties carry their animation state).
pub struct Style {
    pub rules: Vec<StyleRule>,
    pub left: AnimatableStorage<Units>,
    pub right: AnimatableStorage<Units>,
    pub top: AnimatableStorage<Units>,
    pub bottom: AnimatableStorage<Units>,
    pub width: AnimatableStorage<Units>,
    pub height: AnimatableStorage<Units>,
    pub min_width: AnimatableStorage<Units>,
    pub max_width: AnimatableStorage<Units>,
    pub min_height: AnimatableStorage<Units>,
    pub max_height: AnimatableStorage<Units>,
    pub margin_left: AnimatableStorage<Units>,
    pub margin_right: AnimatableStorage<Units>,
    pub margin_top: AnimatableStorage<Units>,
    pub margin_bottom: AnimatableStorage<Units>,
    pub padding_left: AnimatableStorage<Units>,
    pub padding_right: AnimatableStorage<Units>,
    pub padding_top: AnimatableStorage<Units>,
    pub padding_bottom: AnimatableStorage<Units>,
    pub border_width: AnimatableStorage<Units>,
    pub border_radius_top_left: AnimatableStorage<Units>,
    pub border_radius_top_right: AnimatableStorage<Units>,
    pub border_radius_bottom_left: AnimatableStorage<Units>,
    pub border_radius_bottom_right: AnimatableStorage<Units>,
    pub flex_basis: AnimatableStorage<Units>,
    pub opacity: AnimatableStorage<i64>,
    pub rotate: AnimatableStorage<i64>,
    pub flex_grow: AnimatableStorage<i64>,
    pub flex_shrink: AnimatableStorage<i64>,
    pub background_color: AnimatableStorage<Color>,
    pub font_color: AnimatableStorage<Color>,
    pub border_color: AnimatableStorage<Color>,
    pub elements: Storage<String>,
    pub ids: Storage<String>,
    pub tooltip: Storage<String>,
    pub classes: Storage<Vec<String>>,
    pub pseudo_classes: Storage<PseudoClasses>,
    pub focus_order: Storage<FocusOrder>,
    pub z_order: Storage<i64>,
    pub font_size: Storage<i64>,
    pub display: Storage<Display>,
    pub visibility: Storage<Visibility>,
    pub overflow: Storage<Overflow>,
    pub position: Storage<Position>,
    pub flex_direction: Storage<FlexDirection>,
    pub justify_content: Storage<JustifyContent>,
    pub align_content: Storage<AlignContent>,
    pub align_items: Storage<AlignItems>,
    pub align_self: Storage<AlignSelf>,
    pub text_align: Storage<Align>,
    pub text_justify: Storage<Justify>,
    pub text: Storage<Text>,
    pub clip_widget: Storage<Entity>,
    pub main_before_first: Storage<Units>,
    pub main_between: Storage<Units>,
    pub main_after_last: Storage<Units>,
    pub cross_before_first: Storage<Units>,
    pub cross_between: Storage<Units>,
    pub cross_after_last: Storage<Units>,
}

impl Style {
    pub open spec fn wf(self) -> bool {
        &&& forall|k: int|
            0 <= k < self.rules@.len() ==> (#[trigger] self.rules@[k]).selectors@.len() <= 0xffff
        &&& self.left.wf()
        &&& self.right.wf()
        &&& self.top.wf()
        &&& self.bottom.wf()
        &&& self.width.wf()
        &&& self.height.wf()
        &&& self.min_width.wf()
        &&& self.max_width.wf()
        &&& self.min_height.wf()
        &&& self.max_height.wf()
        &&& self.margin_left.wf()
        &&& self.margin_right.wf()
        &&& self.margin_top.wf()
        &&& self.margin_bottom.wf()
        &&& self.padding_left.wf()
        &&& self.padding_right.wf()
        &&& self.padding_top.wf()
        &&& self.padding_bottom.wf()
        &&& self.border_width.wf()
        &&& self.border_radius_top_left.wf()
        &&& self.border_radius_top_right.wf()
        &&& self.border_radius_bottom_left.wf()
        &&& self.border_radius_bottom_right.wf()
        &&& self.flex_basis.wf()
        &&& self.opacity.wf()
        &&& self.rotate.wf()
        &&& self.flex_grow.wf()
        &&& self.flex_shrink.wf()
        &&& self.background_color.wf()
        &&& self.font_color.wf()
        &&& self.border_color.wf()
        &&& self.elements.wf()
        &&& self.ids.wf()
        &&& self.tooltip.wf()
        &&& self.classes.wf()
        &&& self.pseudo_classes.wf()
        &&& self.focus_order.wf()
        &&& self.z_order.wf()
        &&& self.font_size.wf()
        &&& self.display.wf()
        &&& self.visibility.wf()
        &&& self.overflow.wf()
        &&& self.position.wf()
        &&& self.flex_direction.wf()
        &&& self.justify_content.wf()
        &&& self.align_content.wf()
        &&& self.align_items.wf()
        &&& self.align_self.wf()
        &&& self.text_align.wf()
        &&& self.text_justify.wf()
        &&& self.text.wf()
        &&& self.clip_widget.wf()
        &&& self.main_before_first.wf()
        &&& self.main_between.wf()
        &&& self.main_after_last.wf()
        &&& self.cross_before_first.wf()
        &&& self.cross_between.wf()
        &&& self.cross_after_last.wf()
    }

    pub fn new() -> (r: Style)
        ensures
            r.wf(),
            r.rules@.len() == 0,
            r.left.base@ == Map::<int, Units>::empty() && r.left.current@ == Map::<int, Units>::empty() && r.left.active@.len() == 0 && r.left.descs@.len() == 0,
            r.right.base@ == Map::<int, Units>::empty() && r.right.current@ == Map::<int, Units>::empty() && r.right.active@.len() == 0 && r.right.descs@.len() == 0,
            r.top.base@ == Map::<int, Units>::empty() && r.top.current@ == Map::<int, Units>::empty() && r.top.active@.len() == 0 && r.top.descs@.len() == 0,
            r.bottom.base@ == Map::<int, Units>::empty() && r.bottom.current@ == Map::<int, Units>::empty() && r.bottom.active@.len() == 0 && r.bottom.descs@.len() == 0,
            r.width.base@ == Map::<int, Units>::empty() && r.width.current@ == Map::<int, Units>::empty() && r.width.active@.len() == 0 && r.width.descs@.len() == 0,
            r.height.base@ == Map::<int, Units>::empty() && r.height.current@ == Map::<int, Units>::empty() && r.height.active@.len() == 0 && r.height.descs@.len() == 0,
            r.min_width.base@ == Map::<int, Units>::empty() && r.min_width.current@ == Map::<int, Units>::empty() && r.min_width.active@.len() == 0 && r.min_width.descs@.len() == 0,
            r.max_width.base@ == Map::<int, Units>::empty() && r.max_width.current@ == Map::<int, Units>::empty() && r.max_width.active@.len() == 0 && r.max_width.descs@.len() == 0,
            r.min_height.base@ == Map::<int, Units>::empty() && r.min_height.current@ == Map::<int, Units>::empty() && r.min_height.active@.len() == 0 && r.min_height.descs@.len() == 0,
            r.max_height.base@ == Map::<int, Units>::empty() && r.max_height.current@ == Map::<int, Units>::empty() && r.max_height.active@.len() == 0 && r.max_height.descs@.len() == 0,
            r.margin_left.base@ == Map::<int, Units>::empty() && r.margin_left.current@ == Map::<int, Units>::empty() && r.margin_left.active@.len() == 0 && r.margin_left.descs@.len() == 0,
            r.margin_right.base@ == Map::<int, Units>::empty() && r.margin_right.current@ == Map::<int, Units>::empty() && r.margin_right.active@.len() == 0 && r.margin_right.descs@.len() == 0,
            r.margin_top.base@ == Map::<int, Units>::empty() && r.margin_top.current@ == Map::<int, Units>::empty() && r.margin_top.active@.len() == 0 && r.margin_top.descs@.len() == 0,
            r.margin_bottom.base@ == Map::<int, Units>::empty() && r.margin_bottom.current@ == Map::<int, Units>::empty() && r.margin_bottom.active@.len() == 0 && r.margin_bottom.descs@.len() == 0,
            r.padding_left.base@ == Map::<int, Units>::empty() && r.padding_left.current@ == Map::<int, Units>::empty() && r.padding_left.active@.len() == 0 && r.padding_left.descs@.len() == 0,
            r.padding_right.base@ == Map::<int, Units>::empty() && r.padding_right.current@ == Map::<int, Units>::empty() && r.padding_right.active@.len() == 0 && r.padding_right.descs@.len() == 0,
            r.padding_top.base@ == Map::<int, Units>::empty() && r.padding_top.current@ == Map::<int, Units>::empty() && r.padding_top.active@.len() == 0 && r.padding_top.descs@.len() == 0,
            r.padding_bottom.base@ == Map::<int, Units>::empty() && r.padding_bottom.current@ == Map::<int, Units>::empty() && r.padding_bottom.active@.len() == 0 && r.padding_bottom.descs@.len() == 0,
            r.border_width.base@ == Map::<int, Units>::empty() && r.border_width.current@ == Map::<int, Units>::empty() && r.border_width.active@.len() == 0 && r.border_width.descs@.len() == 0,
            r.border_radius_top_left.base@ == Map::<int, Units>::empty() && r.border_radius_top_left.current@ == Map::<int, Units>::empty() && r.border_radius_top_left.active@.len() == 0 && r.border_radius_top_left.descs@.len() == 0,
            r.border_radius_top_right.base@ == Map::<int, Units>::empty() && r.border_radius_top_right.current@ == Map::<int, Units>::empty() && r.border_radius_top_right.active@.len() == 0 && r.border_radius_top_right.descs@.len() == 0,
            r.border_radius_bottom_left.base@ == Map::<int, Units>::empty() && r.border_radius_bottom_left.current@ == Map::<int, Units>::empty() && r.border_radius_bottom_left.active@.len() == 0 && r.border_radius_bottom_left.descs@.len() == 0,
            r.border_radius_bottom_right.base@ == Map::<int, Units>::empty() && r.border_radius_bottom_right.current@ == Map::<int, Units>::empty() && r.border_radius_bottom_right.active@.len() == 0 && r.border_radius_bottom_right.descs@.len() == 0,
            r.flex_basis.base@ == Map::<int, Units>::empty() && r.flex_basis.current@ == Map::<int, Units>::empty() && r.flex_basis.active@.len() == 0 && r.flex_basis.descs@.len() == 0,
            r.opacity.base@ == Map::<int, i64>::empty() && r.opacity.current@ == Map::<int, i64>::empty() && r.opacity.active@.len() == 0 && r.opacity.descs@.len() == 0,
            r.rotate.base@ == Map::<int, i64>::empty() && r.rotate.current@ == Map::<int, i64>::empty() && r.rotate.active@.len() == 0 && r.rotate.descs@.len() == 0,
            r.flex_grow.base@ == Map::<int, i64>::empty() && r.flex_grow.current@ == Map::<int, i64>::empty() && r.flex_grow.active@.len() == 0 && r.flex_grow.descs@.len() == 0,
            r.flex_shrink.base@ == Map::<int, i64>::empty() && r.flex_shrink.current@ == Map::<int, i64>::empty() && r.flex_shrink.active@.len() == 0 && r.flex_shrink.descs@.len() == 0,
            r.background_color.base@ == Map::<int, Color>::empty() && r.background_color.current@ == Map::<int, Color>::empty() && r.background_color.active@.len() == 0 && r.background_color.descs@.len() == 0,
            r.font_color.base@ == Map::<int, Color>::empty() && r.font_color.current@ == Map::<int, Color>::empty() && r.font_color.active@.len() == 0 && r.font_color.descs@.len() == 0,
            r.border_color.base@ == Map::<int, Color>::empty() && r.border_color.current@ == Map::<int, Color>::empty() && r.border_color.active@.len() == 0 && r.border_color.descs@.len() == 0,
            r.elements@ == Map::<int, String>::empty(),
            r.ids@ == Map::<int, String>::empty(),
            r.tooltip@ == Map::<int, String>::empty(),
            r.classes@ == Map::<int, Vec<String>>::empty(),
            r.pseudo_classes@ == Map::<int, PseudoClasses>::empty(),
            r.focus_order@ == Map::<int, FocusOrder>::empty(),
            r.z_order@ == Map::<int, i64>::empty(),
            r.font_size@ == Map::<int, i64>::empty(),
            r.display@ == Map::<int, Display>::empty(),
            r.visibility@ == Map::<int, Visibility>::empty(),
            r.overflow@ == Map::<int, Overflow>::empty(),
            r.position@ == Map::<int, Position>::empty(),
            r.flex_direction@ == Map::<int, FlexDirection>::empty(),
            r.justify_content@ == Map::<int, JustifyContent>::empty(),
            r.align_content@ == Map::<int, AlignContent>::empty(),
            r.align_items@ == Map::<int, AlignItems>::empty(),
            r.align_self@ == Map::<int, AlignSelf>::empty(),
            r.text_align@ == Map::<int, Align>::empty(),
            r.text_justify@ == Map::<int, Justify>::empty(),
            r.text@ == Map::<int, Text>::empty(),
            r.clip_widget@ == Map::<int, Entity>::empty(),
            r.main_before_first@ == Map::<int, Units>::empty(),
            r.main_between@ == Map::<int, Units>::empty(),
            r.main_after_last@ == Map::<int, Units>::empty(),
            r.cross_before_first@ == Map::<int, Units>::empty(),
            r.cross_between@ == Map::<int, Units>::empty(),
            r.cross_after_last@ == Map::<int, Units>::empty(),
    {
        Style {
            rules: Vec::new(),
            left: AnimatableStorage::new(),
            right: AnimatableStorage::new(),
            top: AnimatableStorage::new(),
            bottom: AnimatableStorage::new(),
            width: AnimatableStorage::new(),
            height: AnimatableStorage::new(),
            min_width: AnimatableStorage::new(),
            max_width: AnimatableStorage::new(),
            min_height: AnimatableStorage::new(),
            max_height: AnimatableStorage::new(),
            margin_left: AnimatableStorage::new(),
            margin_right: AnimatableStorage::new(),
            margin_top: AnimatableStorage::new(),
            margin_bottom: AnimatableStorage::new(),
            padding_left: AnimatableStorage::new(),
            padding_right: AnimatableStorage::new(),
            padding_top: AnimatableStorage::new(),
            padding_bottom: AnimatableStorage::new(),
            border_width: AnimatableStorage::new(),
            border_radius_top_left: AnimatableStorage::new(),
            border_radius_top_right: AnimatableStorage::new(),
            border_radius_bottom_left: AnimatableStorage::new(),
            border_radius_bottom_right: AnimatableStorage::new(),
            flex_basis: AnimatableStorage::new(),
            opacity: AnimatableStorage::new(),
            rotate: AnimatableStorage::new(),
            flex_grow: AnimatableStorage::new(),
            flex_shrink: AnimatableStorage::new(),
            background_color: AnimatableStorage::new(),
            font_color: AnimatableStorage::new(),
            border_color: AnimatableStorage::new(),
            elements: Storage::new(),
            ids: Storage::new(),
            tooltip: Storage::new(),
            classes: Storage::new(),
            pseudo_classes: Storage::new(),
            focus_order: Storage::new(),
            z_order: Storage::new(),
            font_size: Storage::new(),
            display: Storage::new(),
            visibility: Storage::new(),
            overflow: Storage::new(),
            position: Storage::new(),
            flex_direction: Storage::new(),
            justify_content: Storage::new(),
            align_content: Storage::new(),
            align_items: Storage::new(),
            align_self: Storage::new(),
            text_align: Storage::new(),
            text_justify: Storage::new(),
            text: Storage::new(),
            clip_widget: Storage::new(),
            main_before_first: Storage::new(),
            main_between: Storage::new(),
            main_after_last: Storage::new(),
            cross_before_first: Storage::new(),
            cross_between: Storage::new(),
            cross_after_last: Storage::new(),
        }
    }

    /// Seeds the metadata a fresh entity needs for selector matching.
    pub fn add(&mut self, e: Entity)
        requires
            old(self).wf(),
        ensures
            final(self).wf(),
            final(self).pseudo_classes@ == old(self).pseudo_classes@.insert(
                e.idx(),
                PseudoClasses::none_spec(),
            ),
            final(self).rules@ == old(self).rules@,
            final(self).elements@ == old(self).elements@,
            final(self).ids@ == old(self).ids@,
            final(self).classes@ == old(self).classes@,
            Style::props_unchanged(*old(self), *final(self)),
    {
        self.pseudo_classes.insert(e, PseudoClasses::none());
    }

    /// Purges every property value of `e`, in every storage.
    pub fn remove(&mut self, e: Entity)
        requires
            old(self).wf(),
        ensures
            final(self).wf(),
            Style::purged(*old(self), *final(self), e.idx()),
            final(self).rules@ == old(self).rules@,
    {
        self.left.remove(e);
        self.right.remove(e);
        self.top.remove(e);
        self.bottom.remove(e);
        self.width.remove(e);
        self.height.remove(e);
        self.min_width.remove(e);
        self.max_width.remove(e);
        self.min_height.remove(e);
        self.max_height.remove(e);
        self.margin_left.remove(e);
        self.margin_right.remove(e);
        self.margin_top.remove(e);
        self.margin_bottom.remove(e);
        self.padding_left.remove(e);
        self.padding_right.remove(e);
        self.padding_top.remove(e);
        self.padding_bottom.remove(e);
        self.border_width.remove(e);
        self.border_radius_top_left.remove(e);
        self.border_radius_top_right.remove(e);
        self.border_radius_bottom_left.remove(e);
        self.border_radius_bottom_right.remove(e);
        self.flex_basis.remove(e);
        self.opacity.remove(e);
        self.rotate.remove(e);
        self.flex_grow.remove(e);
        self.flex_shrink.remove(e);
        self.background_color.remove(e);
        self.font_color.remove(e);
        self.border_color.remove(e);
        self.elements.remove(e);
        self.ids.remove(e);
        self.tooltip.remove(e);
        self.classes.remove(e);
        self.pseudo_classes.remove(e);
        self.focus_order.remove(e);
        self.z_order.remove(e);
        self.font_size.remove(e);
        self.display.remove(e);
        self.visibility.remove(e);
        self.overflow.remove(e);
        self.position.remove(e);
        self.flex_direction.remove(e);
        self.justify_content.remove(e);
        self.align_content.remove(e);
        self.align_items.remove(e);
        self.align_self.remove(e);
        self.text_align.remove(e);
        self.text_justify.remove(e);
        self.text.remove(e);
        self.clip_widget.remove(e);
        self.main_before_first.remove(e);
        self.main_between.remove(e);
        self.main_after_last.remove(e);
        self.cross_before_first.remove(e);
        self.cross_between.remove(e);
        self.cross_after_last.remove(e);
    }

    /// Appends a rule; later rules win ties of specificity.
    pub fn add_rule(&mut self, rule: StyleRule)
        requires
            old(self).wf(),
            rule.selectors@.len() <= 0xffff,
        ensures
            final(self).wf(),
            final(self).rules@ == old(self).rules@.push(rule),
            Style::same_maps(*old(self), *final(self)),
    {
        self.rules.push(rule);
    }

    /// Drops every rule, keeping the per-entity values.
    pub fn clear_rules(&mut self)
        requires
            old(self).wf(),
        ensures
            final(self).wf(),
            final(self).rules@.len() == 0,
            Style::same_maps(*old(self), *final(self)),
    {
        self.rules.clear();
    }

    /// Sets the element name of `e` used by selectors.
    pub fn insert_element(&mut self, e: Entity, element: String)
        requires
            old(self).wf(),
        ensures
            final(self).wf(),
            final(self).elements@ == old(self).elements@.insert(e.idx(), element),
            final(self).rules@ == old(self).rules@,
            final(self).ids@ == old(self).ids@,
            final(self).classes@ == old(self).classes@,
            final(self).pseudo_classes@ == old(self).pseudo_classes@,
            Style::props_unchanged(*old(self), *final(self)),
    {
        self.elements.insert(e, element);
    }

    /// Sets the id of `e` used by `#id` selectors.
    pub fn insert_id(&mut self, e: Entity, id: String)
        requires
            old(self).wf(),
        ensures
            final(self).wf(),
            final(self).ids@ == old(self).ids@.insert(e.idx(), id),
            final(self).rules@ == old(self).rules@,
            final(self).elements@ == old(self).elements@,
            final(self).classes@ == old(self).classes@,
            final(self).pseudo_classes@ == old(self).pseudo_classes@,
            Style::props_unchanged(*old(self), *final(self)),
    {
        self.ids.insert(e, id);
    }

    /// Adds a class name to `e`'s class set.
    pub fn insert_class(&mut self, e: Entity, class: String)
        requires
            old(self).wf(),
        ensures
            final(self).wf(),
            final(self).classes@.dom().contains(e.idx()),
            final(self).classes@[e.idx()]@ == if old(self).classes@.dom().contains(e.idx()) {
                old(self).classes@[e.idx()]@.push(class)
            } else {
                seq![class]
            },
            forall|i: int|
                i != e.idx() ==> (final(self).classes@.dom().contains(i) <==> old(
                    self,
                ).classes@.dom().contains(i)) && (old(self).classes@.dom().contains(i)
                    ==> final(self).classes@[i] == old(self).classes@[i]),
            final(self).rules@ == old(self).rules@,
            final(self).elements@ == old(self).elements@,
            final(self).ids@ == old(self).ids@,
            final(self).pseudo_classes@ == old(self).pseudo_classes@,
            Style::props_unchanged(*old(self), *final(self)),
    {
        let cur = self.classes.get(e);
        let mut list: Vec<String> = match cur {
            Some(v) => v.clone(),
            None => Vec::new(),
        };
        list.push(class);
        self.classes.insert(e, list);
        proof {
            if old(self).classes@.dom().contains(e.idx()) {
                assert(list@ =~= old(self).classes@[e.idx()]@.push(class));
            } else {
                assert(list@ =~= seq![class]);
            }
        }
    }


    /// Every property map of `post` (everything but the four selector-metadata
    /// maps) equals the same map of `pre`.
    pub open spec fn props_unchanged(pre: Style, post: Style) -> bool {
        &&& post.left.base@ == pre.left.base@ && post.left.current@ == pre.left.current@ && post.left.active@ == pre.left.active@ && post.left.descs@ == pre.left.descs@
        &&& post.right.base@ == pre.right.base@ && post.right.current@ == pre.right.current@ && post.right.active@ == pre.right.active@ && post.right.descs@ == pre.right.descs@
        &&& post.top.base@ == pre.top.base@ && post.top.current@ == pre.top.current@ && post.top.active@ == pre.top.active@ && post.top.descs@ == pre.top.descs@
        &&& post.bottom.base@ == pre.bottom.base@ && post.bottom.current@ == pre.bottom.current@ && post.bottom.active@ == pre.bottom.active@ && post.bottom.descs@ == pre.bottom.descs@
        &&& post.width.base@ == pre.width.base@ && post.width.current@ == pre.width.current@ && post.width.active@ == pre.width.active@ && post.width.descs@ == pre.width.descs@
        &&& post.height.base@ == pre.height.base@ && post.height.current@ == pre.height.current@ && post.height.active@ == pre.height.active@ && post.height.descs@ == pre.height.descs@
        &&& post.min_width.base@ == pre.min_width.base@ && post.min_width.current@ == pre.min_width.current@ && post.min_width.active@ == pre.min_width.active@ && post.min_width.descs@ == pre.min_width.descs@
        &&& post.max_width.base@ == pre.max_width.base@ && post.max_width.current@ == pre.max_width.current@ && post.max_width.active@ == pre.max_width.active@ && post.max_width.descs@ == pre.max_width.descs@
        &&& post.min_height.base@ == pre.min_height.base@ && post.min_height.current@ == pre.min_height.current@ && post.min_height.active@ == pre.min_height.active@ && post.min_height.descs@ == pre.min_height.descs@
        &&& post.max_height.base@ == pre.max_height.base@ && post.max_height.current@ == pre.max_height.current@ && post.max_height.active@ == pre.max_height.active@ && post.max_height.descs@ == pre.max_height.descs@
        &&& post.margin_left.base@ == pre.margin_left.base@ && post.margin_left.current@ == pre.margin_left.current@ && post.margin_left.active@ == pre.margin_left.active@ && post.margin_left.descs@ == pre.margin_left.descs@
        &&& post.margin_right.base@ == pre.margin_right.base@ && post.margin_right.current@ == pre.margin_right.current@ && post.margin_right.active@ == pre.margin_right.active@ && post.margin_right.descs@ == pre.margin_right.descs@
        &&& post.margin_top.base@ == pre.margin_top.base@ && post.margin_top.current@ == pre.margin_top.current@ && post.margin_top.active@ == pre.margin_top.active@ && post.margin_top.descs@ == pre.margin_top.descs@
        &&& post.margin_bottom.base@ == pre.margin_bottom.base@ && post.margin_bottom.current@ == pre.margin_bottom.current@ && post.margin_bottom.active@ == pre.margin_bottom.active@ && post.margin_bottom.descs@ == pre.margin_bottom.descs@
        &&& post.padding_left.base@ == pre.padding_left.base@ && post.padding_left.current@ == pre.padding_left.current@ && post.padding_left.active@ == pre.padding_left.active@ && post.padding_left.descs@ == pre.padding_left.descs@
        &&& post.padding_right.base@ == pre.padding_right.base@ && post.padding_right.current@ == pre.padding_right.current@ && post.padding_right.active@ == pre.padding_right.active@ && post.padding_right.descs@ == pre.padding_right.descs@
        &&& post.padding_top.base@ == pre.padding_top.base@ && post.padding_top.current@ == pre.padding_top.current@ && post.padding_top.active@ == pre.padding_top.active@ && post.padding_top.descs@ == pre.padding_top.descs@
        &&& post.padding_bottom.base@ == pre.padding_bottom.base@ && post.padding_bottom.current@ == pre.padding_bottom.current@ && post.padding_bottom.active@ == pre.padding_bottom.active@ && post.padding_bottom.descs@ == pre.padding_bottom.descs@
        &&& post.border_width.base@ == pre.border_width.base@ && post.border_width.current@ == pre.border_width.current@ && post.border_width.active@ == pre.border_width.active@ && post.border_width.descs@ == pre.border_width.descs@
        &&& post.border_radius_top_left.base@ == pre.border_radius_top_left.base@ && post.border_radius_top_left.current@ == pre.border_radius_top_left.current@ && post.border_radius_top_left.active@ == pre.border_radius_top_left.active@ && post.border_radius_top_left.descs@ == pre.border_radius_top_left.descs@
        &&& post.border_radius_top_right.base@ == pre.border_radius_top_right.base@ && post.border_radius_top_right.current@ == pre.border_radius_top_right.current@ && post.border_radius_top_right.active@ == pre.border_radius_top_right.active@ && post.border_radius_top_right.descs@ == pre.border_radius_top_right.descs@
        &&& post.border_radius_bottom_left.base@ == pre.border_radius_bottom_left.base@ && post.border_radius_bottom_left.current@ == pre.border_radius_bottom_left.current@ && post.border_radius_bottom_left.active@ == pre.border_radius_bottom_left.active@ && post.border_radius_bottom_left.descs@ == pre.border_radius_bottom_left.descs@
        &&& post.border_radius_bottom_right.base@ == pre.border_radius_bottom_right.base@ && post.border_radius_bottom_right.current@ == pre.border_radius_bottom_right.current@ && post.border_radius_bottom_right.active@ == pre.border_radius_bottom_right.active@ && post.border_radius_bottom_right.descs@ == pre.border_radius_bottom_right.descs@
        &&& post.flex_basis.base@ == pre.flex_basis.base@ && post.flex_basis.current@ == pre.flex_basis.current@ && post.flex_basis.active@ == pre.flex_basis.active@ && post.flex_basis.descs@ == pre.flex_basis.descs@
        &&& post.opacity.base@ == pre.opacity.base@ && post.opacity.current@ == pre.opacity.current@ && post.opacity.active@ == pre.opacity.active@ && post.opacity.descs@ == pre.opacity.descs@
        &&& post.rotate.base@ == pre.rotate.base@ && post.rotate.current@ == pre.rotate.current@ && post.rotate.active@ == pre.rotate.active@ && post.rotate.descs@ == pre.rotate.descs@
        &&& post.flex_grow.base@ == pre.flex_grow.base@ && post.flex_grow.current@ == pre.flex_grow.current@ && post.flex_grow.active@ == pre.flex_grow.active@ && post.flex_grow.descs@ == pre.flex_grow.descs@
        &&& post.flex_shrink.base@ == pre.flex_shrink.base@ && post.flex_shrink.current@ == pre.flex_shrink.current@ && post.flex_shrink.active@ == pre.flex_shrink.active@ && post.flex_shrink.descs@ == pre.flex_shrink.descs@
        &&& post.background_color.base@ == pre.background_color.base@ && post.background_color.current@ == pre.background_color.current@ && post.background_color.active@ == pre.background_color.active@ && post.background_color.descs@ == pre.background_color.descs@
        &&& post.font_color.base@ == pre.font_color.base@ && post.font_color.current@ == pre.font_color.current@ && post.font_color.active@ == pre.font_color.active@ && post.font_color.descs@ == pre.font_color.descs@
        &&& post.border_color.base@ == pre.border_color.base@ && post.border_color.current@ == pre.border_color.current@ && post.border_color.active@ == pre.border_color.active@ && post.border_color.descs@ == pre.border_color.descs@
        &&& post.tooltip@ == pre.tooltip@
        &&& post.focus_order@ == pre.focus_order@
        &&& post.z_order@ == pre.z_order@
        &&& post.font_size@ == pre.font_size@
        &&& post.display@ == pre.display@
        &&& post.visibility@ == pre.visibility@
        &&& post.overflow@ == pre.overflow@
        &&& post.position@ == pre.position@
        &&& post.flex_direction@ == pre.flex_direction@
        &&& post.justify_content@ == pre.justify_content@
        &&& post.align_content@ == pre.align_content@
        &&& post.align_items@ == pre.align_items@
        &&& post.align_self@ == pre.align_self@
        &&& post.text_align@ == pre.text_align@
        &&& post.text_justify@ == pre.text_justify@
        &&& post.text@ == pre.text@
        &&& post.clip_widget@ == pre.clip_widget@
        &&& post.main_before_first@ == pre.main_before_first@
        &&& post.main_between@ == pre.main_between@
        &&& post.main_after_last@ == pre.main_after_last@
        &&& post.cross_before_first@ == pre.cross_before_first@
        &&& post.cross_between@ == pre.cross_between@
        &&& post.cross_after_last@ == pre.cross_after_last@
    }

    /// The four selector-metadata maps of `post` equal those of `pre`.
    pub open spec fn same_meta_maps(pre: Style, post: Style) -> bool {
        &&& post.elements@ == pre.elements@
        &&& post.ids@ == pre.ids@
        &&& post.classes@ == pre.classes@
        &&& post.pseudo_classes@ == pre.pseudo_classes@
    }

    /// Every per-entity map of `post` equals the same map of `pre`.
    pub open spec fn same_maps(pre: Style, post: Style) -> bool {
        &&& post.left.base@ == pre.left.base@ && post.left.current@ == pre.left.current@ && post.left.active@ == pre.left.active@ && post.left.descs@ == pre.left.descs@
        &&& post.right.base@ == pre.right.base@ && post.right.current@ == pre.right.current@ && post.right.active@ == pre.right.active@ && post.right.descs@ == pre.right.descs@
        &&& post.top.base@ == pre.top.base@ && post.top.current@ == pre.top.current@ && post.top.active@ == pre.top.active@ && post.top.descs@ == pre.top.descs@
        &&& post.bottom.base@ == pre.bottom.base@ && post.bottom.current@ == pre.bottom.current@ && post.bottom.active@ == pre.bottom.active@ && post.bottom.descs@ == pre.bottom.descs@
        &&& post.width.base@ == pre.width.base@ && post.width.current@ == pre.width.current@ && post.width.active@ == pre.width.active@ && post.width.descs@ == pre.width.descs@
        &&& post.height.base@ == pre.height.base@ && post.height.current@ == pre.height.current@ && post.height.active@ == pre.height.active@ && post.height.descs@ == pre.height.descs@
        &&& post.min_width.base@ == pre.min_width.base@ && post.min_width.current@ == pre.min_width.current@ && post.min_width.active@ == pre.min_width.active@ && post.min_width.descs@ == pre.min_width.descs@
        &&& post.max_width.base@ == pre.max_width.base@ && post.max_width.current@ == pre.max_width.current@ && post.max_width.active@ == pre.max_width.active@ && post.max_width.descs@ == pre.max_width.descs@
        &&& post.min_height.base@ == pre.min_height.base@ && post.min_height.current@ == pre.min_height.current@ && post.min_height.active@ == pre.min_height.active@ && post.min_height.descs@ == pre.min_height.descs@
        &&& post.max_height.base@ == pre.max_height.base@ && post.max_height.current@ == pre.max_height.current@ && post.max_height.active@ == pre.max_height.active@ && post.max_height.descs@ == pre.max_height.descs@
        &&& post.margin_left.base@ == pre.margin_left.base@ && post.margin_left.current@ == pre.margin_left.current@ && post.margin_left.active@ == pre.margin_left.active@ && post.margin_left.descs@ == pre.margin_left.descs@
        &&& post.margin_right.base@ == pre.margin_right.base@ && post.margin_right.current@ == pre.margin_right.current@ && post.margin_right.active@ == pre.margin_right.active@ && post.margin_right.descs@ == pre.margin_right.descs@
        &&& post.margin_top.base@ == pre.margin_top.base@ && post.margin_top.current@ == pre.margin_top.current@ && post.margin_top.active@ == pre.margin_top.active@ && post.margin_top.descs@ == pre.margin_top.descs@
        &&& post.margin_bottom.base@ == pre.margin_bottom.base@ && post.margin_bottom.current@ == pre.margin_bottom.current@ && post.margin_bottom.active@ == pre.margin_bottom.active@ && post.margin_bottom.descs@ == pre.margin_bottom.descs@
        &&& post.padding_left.base@ == pre.padding_left.base@ && post.padding_left.current@ == pre.padding_left.current@ && post.padding_left.active@ == pre.padding_left.active@ && post.padding_left.descs@ == pre.padding_left.descs@
        &&& post.padding_right.base@ == pre.padding_right.base@ && post.padding_right.current@ == pre.padding_right.current@ && post.padding_right.active@ == pre.padding_right.active@ && post.padding_right.descs@ == pre.padding_right.descs@
        &&& post.padding_top.base@ == pre.padding_top.base@ && post.padding_top.current@ == pre.padding_top.current@ && post.padding_top.active@ == pre.padding_top.active@ && post.padding_top.descs@ == pre.padding_top.descs@
        &&& post.padding_bottom.base@ == pre.padding_bottom.base@ && post.padding_bottom.current@ == pre.padding_bottom.current@ && post.padding_bottom.active@ == pre.padding_bottom.active@ && post.padding_bottom.descs@ == pre.padding_bottom.descs@
        &&& post.border_width.base@ == pre.border_width.base@ && post.border_width.current@ == pre.border_width.current@ && post.border_width.active@ == pre.border_width.active@ && post.border_width.descs@ == pre.border_width.descs@
        &&& post.border_radius_top_left.base@ == pre.border_radius_top_left.base@ && post.border_radius_top_left.current@ == pre.border_radius_top_left.current@ && post.border_radius_top_left.active@ == pre.border_radius_top_left.active@ && post.border_radius_top_left.descs@ == pre.border_radius_top_left.descs@
        &&& post.border_radius_top_right.base@ == pre.border_radius_top_right.base@ && post.border_radius_top_right.current@ == pre.border_radius_top_right.current@ && post.border_radius_top_right.active@ == pre.border_radius_top_right.active@ && post.border_radius_top_right.descs@ == pre.border_radius_top_right.descs@
        &&& post.border_radius_bottom_left.base@ == pre.border_radius_bottom_left.base@ && post.border_radius_bottom_left.current@ == pre.border_radius_bottom_left.current@ && post.border_radius_bottom_left.active@ == pre.border_radius_bottom_left.active@ && post.border_radius_bottom_left.descs@ == pre.border_radius_bottom_left.descs@
        &&& post.border_radius_bottom_right.base@ == pre.border_radius_bottom_right.base@ && post.border_radius_bottom_right.current@ == pre.border_radius_bottom_right.current@ && post.border_radius_bottom_right.active@ == pre.border_radius_bottom_right.active@ && post.border_radius_bottom_right.descs@ == pre.border_radius_bottom_right.descs@
        &&& post.flex_basis.base@ == pre.flex_basis.base@ && post.flex_basis.current@ == pre.flex_basis.current@ && post.flex_basis.active@ == pre.flex_basis.active@ && post.flex_basis.descs@ == pre.flex_basis.descs@
        &&& post.opacity.base@ == pre.opacity.base@ && post.opacity.current@ == pre.opacity.current@ && post.opacity.active@ == pre.opacity.active@ && post.opacity.descs@ == pre.opacity.descs@
        &&& post.rotate.base@ == pre.rotate.base@ && post.rotate.current@ == pre.rotate.current@ && post.rotate.active@ == pre.rotate.active@ && post.rotate.descs@ == pre.rotate.descs@
        &&& post.flex_grow.base@ == pre.flex_grow.base@ && post.flex_grow.current@ == pre.flex_grow.current@ && post.flex_grow.active@ == pre.flex_grow.active@ && post.flex_grow.descs@ == pre.flex_grow.descs@
        &&& post.flex_shrink.base@ == pre.flex_shrink.base@ && post.flex_shrink.current@ == pre.flex_shrink.current@ && post.flex_shrink.active@ == pre.flex_shrink.active@ && post.flex_shrink.descs@ == pre.flex_shrink.descs@
        &&& post.background_color.base@ == pre.background_color.base@ && post.background_color.current@ == pre.background_color.current@ && post.background_color.active@ == pre.background_color.active@ && post.background_color.descs@ == pre.background_color.descs@
        &&& post.font_color.base@ == pre.font_color.base@ && post.font_color.current@ == pre.font_color.current@ && post.font_color.active@ == pre.font_color.active@ && post.font_color.descs@ == pre.font_color.descs@
        &&& post.border_color.base@ == pre.border_color.base@ && post.border_color.current@ == pre.border_color.current@ && post.border_color.active@ == pre.border_color.active@ && post.border_color.descs@ == pre.border_color.descs@
        &&& post.elements@ == pre.elements@
        &&& post.ids@ == pre.ids@
        &&& post.tooltip@ == pre.tooltip@
        &&& post.classes@ == pre.classes@
        &&& post.pseudo_classes@ == pre.pseudo_classes@
        &&& post.focus_order@ == pre.focus_order@
        &&& post.z_order@ == pre.z_order@
        &&& post.font_size@ == pre.font_size@
        &&& post.display@ == pre.display@
        &&& post.visibility@ == pre.visibility@
        &&& post.overflow@ == pre.overflow@
        &&& post.position@ == pre.position@
        &&& post.flex_direction@ == pre.flex_direction@
        &&& post.justify_content@ == pre.justify_content@
        &&& post.align_content@ == pre.align_content@
        &&& post.align_items@ == pre.align_items@
        &&& post.align_self@ == pre.align_self@
        &&& post.text_align@ == pre.text_align@
        &&& post.text_justify@ == pre.text_justify@
        &&& post.text@ == pre.text@
        &&& post.clip_widget@ == pre.clip_widget@
        &&& post.main_before_first@ == pre.main_before_first@
        &&& post.main_between@ == pre.main_between@
        &&& post.main_after_last@ == pre.main_after_last@
        &&& post.cross_before_first@ == pre.cross_before_first@
        &&& post.cross_between@ == pre.cross_between@
        &&& post.cross_after_last@ == pre.cross_after_last@
    }


    /// No storage holds a value for entity index `i`.
    pub open spec fn absent(self, i: int) -> bool {
        &&& !self.left.base@.dom().contains(i) && !self.left.current@.dom().contains(i)
        &&& !self.right.base@.dom().contains(i) && !self.right.current@.dom().contains(i)
        &&& !self.top.base@.dom().contains(i) && !self.top.current@.dom().contains(i)
        &&& !self.bottom.base@.dom().contains(i) && !self.bottom.current@.dom().contains(i)
        &&& !self.width.base@.dom().contains(i) && !self.width.current@.dom().contains(i)
        &&& !self.height.base@.dom().contains(i) && !self.height.current@.dom().contains(i)
        &&& !self.min_width.base@.dom().contains(i) && !self.min_width.current@.dom().contains(i)
        &&& !self.max_width.base@.dom().contains(i) && !self.max_width.current@.dom().contains(i)
        &&& !self.min_height.base@.dom().contains(i) && !self.min_height.current@.dom().contains(i)
        &&& !self.max_height.base@.dom().contains(i) && !self.max_height.current@.dom().contains(i)
        &&& !self.margin_left.base@.dom().contains(i) && !self.margin_left.current@.dom().contains(i)
        &&& !self.margin_right.base@.dom().contains(i) && !self.margin_right.current@.dom().contains(i)
        &&& !self.margin_top.base@.dom().contains(i) && !self.margin_top.current@.dom().contains(i)
        &&& !self.margin_bottom.base@.dom().contains(i) && !self.margin_bottom.current@.dom().contains(i)
        &&& !self.padding_left.base@.dom().contains(i) && !self.padding_left.current@.dom().contains(i)
        &&& !self.padding_right.base@.dom().contains(i) && !self.padding_right.current@.dom().contains(i)
        &&& !self.padding_top.base@.dom().contains(i) && !self.padding_top.current@.dom().contains(i)
        &&& !self.padding_bottom.base@.dom().contains(i) && !self.padding_bottom.current@.dom().contains(i)
        &&& !self.border_width.base@.dom().contains(i) && !self.border_width.current@.dom().contains(i)
        &&& !self.border_radius_top_left.base@.dom().contains(i) && !self.border_radius_top_left.current@.dom().contains(i)
        &&& !self.border_radius_top_right.base@.dom().contains(i) && !self.border_radius_top_right.current@.dom().contains(i)
        &&& !self.border_radius_bottom_left.base@.dom().contains(i) && !self.border_radius_bottom_left.current@.dom().contains(i)
        &&& !self.border_radius_bottom_right.base@.dom().contains(i) && !self.border_radius_bottom_right.current@.dom().contains(i)
        &&& !self.flex_basis.base@.dom().contains(i) && !self.flex_basis.current@.dom().contains(i)
        &&& !self.opacity.base@.dom().contains(i) && !self.opacity.current@.dom().contains(i)
        &&& !self.rotate.base@.dom().contains(i) && !self.rotate.current@.dom().contains(i)
        &&& !self.flex_grow.base@.dom().contains(i) && !self.flex_grow.current@.dom().contains(i)
        &&& !self.flex_shrink.base@.dom().contains(i) && !self.flex_shrink.current@.dom().contains(i)
        &&& !self.background_color.base@.dom().contains(i) && !self.background_color.current@.dom().contains(i)
        &&& !self.font_color.base@.dom().contains(i) && !self.font_color.current@.dom().contains(i)
        &&& !self.border_color.base@.dom().contains(i) && !self.border_color.current@.dom().contains(i)
        &&& !self.elements@.dom().contains(i)
        &&& !self.ids@.dom().contains(i)
        &&& !self.tooltip@.dom().contains(i)
        &&& !self.classes@.dom().contains(i)
        &&& !self.pseudo_classes@.dom().contains(i)
        &&& !self.focus_order@.dom().contains(i)
        &&& !self.z_order@.dom().contains(i)
        &&& !self.font_size@.dom().contains(i)
        &&& !self.display@.dom().contains(i)
        &&& !self.visibility@.dom().contains(i)
        &&& !self.overflow@.dom().contains(i)
        &&& !self.position@.dom().contains(i)
        &&& !self.flex_direction@.dom().contains(i)
        &&& !self.justify_content@.dom().contains(i)
        &&& !self.align_content@.dom().contains(i)
        &&& !self.align_items@.dom().contains(i)
        &&& !self.align_self@.dom().contains(i)
        &&& !self.text_align@.dom().contains(i)
        &&& !self.text_justify@.dom().contains(i)
        &&& !self.text@.dom().contains(i)
        &&& !self.clip_widget@.dom().contains(i)
        &&& !self.main_before_first@.dom().contains(i)
        &&& !self.main_between@.dom().contains(i)
        &&& !self.main_after_last@.dom().contains(i)
        &&& !self.cross_before_first@.dom().contains(i)
        &&& !self.cross_between@.dom().contains(i)
        &&& !self.cross_after_last@.dom().contains(i)
    }

    /// Every per-entity map of `post` is the same map of `pre` with `i`
    /// removed.
    pub open spec fn purged(pre: Style, post: Style, i: int) -> bool {
        &&& post.left.base@ == pre.left.base@.remove(i)
        &&& post.left.current@ == pre.left.current@.remove(i)
        &&& !post.left.animating(i)
        &&& post.left.descs@ == pre.left.descs@
        &&& post.right.base@ == pre.right.base@.remove(i)
        &&& post.right.current@ == pre.right.current@.remove(i)
        &&& !post.right.animating(i)
        &&& post.right.descs@ == pre.right.descs@
        &&& post.top.base@ == pre.top.base@.remove(i)
        &&& post.top.current@ == pre.top.current@.remove(i)
        &&& !post.top.animating(i)
        &&& post.top.descs@ == pre.top.descs@
        &&& post.bottom.base@ == pre.bottom.base@.remove(i)
        &&& post.bottom.current@ == pre.bottom.current@.remove(i)
        &&& !post.bottom.animating(i)
        &&& post.bottom.descs@ == pre.bottom.descs@
        &&& post.width.base@ == pre.width.base@.remove(i)
        &&& post.width.current@ == pre.width.current@.remove(i)
        &&& !post.width.animating(i)
        &&& post.width.descs@ == pre.width.descs@
        &&& post.height.base@ == pre.height.base@.remove(i)
        &&& post.height.current@ == pre.height.current@.remove(i)
        &&& !post.height.animating(i)
        &&& post.height.descs@ == pre.height.descs@
        &&& post.min_width.base@ == pre.min_width.base@.remove(i)
        &&& post.min_width.current@ == pre.min_width.current@.remove(i)
        &&& !post.min_width.animating(i)
        &&& post.min_width.descs@ == pre.min_width.descs@
        &&& post.max_width.base@ == pre.max_width.base@.remove(i)
        &&& post.max_width.current@ == pre.max_width.current@.remove(i)
        &&& !post.max_width.animating(i)
        &&& post.max_width.descs@ == pre.max_width.descs@
        &&& post.min_height.base@ == pre.min_height.base@.remove(i)
        &&& post.min_height.current@ == pre.min_height.current@.remove(i)
        &&& !post.min_height.animating(i)
        &&& post.min_height.descs@ == pre.min_height.descs@
        &&& post.max_height.base@ == pre.max_height.base@.remove(i)
        &&& post.max_height.current@ == pre.max_height.current@.remove(i)
        &&& !post.max_height.animating(i)
        &&& post.max_height.descs@ == pre.max_height.descs@
        &&& post.margin_left.base@ == pre.margin_left.base@.remove(i)
        &&& post.margin_left.current@ == pre.margin_left.current@.remove(i)
        &&& !post.margin_left.animating(i)
        &&& post.margin_left.descs@ == pre.margin_left.descs@
        &&& post.margin_right.base@ == pre.margin_right.base@.remove(i)
        &&& post.margin_right.current@ == pre.margin_right.current@.remove(i)
        &&& !post.margin_right.animating(i)
        &&& post.margin_right.descs@ == pre.margin_right.descs@
        &&& post.margin_top.base@ == pre.margin_top.base@.remove(i)
        &&& post.margin_top.current@ == pre.margin_top.current@.remove(i)
        &&& !post.margin_top.animating(i)
        &&& post.margin_top.descs@ == pre.margin_top.descs@
        &&& post.margin_bottom.base@ == pre.margin_bottom.base@.remove(i)
        &&& post.margin_bottom.current@ == pre.margin_bottom.current@.remove(i)
        &&& !post.margin_bottom.animating(i)
        &&& post.margin_bottom.descs@ == pre.margin_bottom.descs@
        &&& post.padding_left.base@ == pre.padding_left.base@.remove(i)
        &&& post.padding_left.current@ == pre.padding_left.current@.remove(i)
        &&& !post.padding_left.animating(i)
        &&& post.padding_left.descs@ == pre.padding_left.descs@
        &&& post.padding_right.base@ == pre.padding_right.base@.remove(i)
        &&& post.padding_right.current@ == pre.padding_right.current@.remove(i)
        &&& !post.padding_right.animating(i)
        &&& post.padding_right.descs@ == pre.padding_right.descs@
        &&& post.padding_top.base@ == pre.padding_top.base@.remove(i)
        &&& post.padding_top.current@ == pre.padding_top.current@.remove(i)
        &&& !post.padding_top.animating(i)
        &&& post.padding_top.descs@ == pre.padding_top.descs@
        &&& post.padding_bottom.base@ == pre.padding_bottom.base@.remove(i)
        &&& post.padding_bottom.current@ == pre.padding_bottom.current@.remove(i)
        &&& !post.padding_bottom.animating(i)
        &&& post.padding_bottom.descs@ == pre.padding_bottom.descs@
        &&& post.border_width.base@ == pre.border_width.base@.remove(i)
        &&& post.border_width.current@ == pre.border_width.current@.remove(i)
        &&& !post.border_width.animating(i)
        &&& post.border_width.descs@ == pre.border_width.descs@
        &&& post.border_radius_top_left.base@ == pre.border_radius_top_left.base@.remove(i)
        &&& post.border_radius_top_left.current@ == pre.border_radius_top_left.current@.remove(i)
        &&& !post.border_radius_top_left.animating(i)
        &&& post.border_radius_top_left.descs@ == pre.border_radius_top_left.descs@
        &&& post.border_radius_top_right.base@ == pre.border_radius_top_right.base@.remove(i)
        &&& post.border_radius_top_right.current@ == pre.border_radius_top_right.current@.remove(i)
        &&& !post.border_radius_top_right.animating(i)
        &&& post.border_radius_top_right.descs@ == pre.border_radius_top_right.descs@
        &&& post.border_radius_bottom_left.base@ == pre.border_radius_bottom_left.base@.remove(i)
        &&& post.border_radius_bottom_left.current@ == pre.border_radius_bottom_left.current@.remove(i)
        &&& !post.border_radius_bottom_left.animating(i)
        &&& post.border_radius_bottom_left.descs@ == pre.border_radius_bottom_left.descs@
        &&& post.border_radius_bottom_right.base@ == pre.border_radius_bottom_right.base@.remove(i)
        &&& post.border_radius_bottom_right.current@ == pre.border_radius_bottom_right.current@.remove(i)
        &&& !post.border_radius_bottom_right.animating(i)
        &&& post.border_radius_bottom_right.descs@ == pre.border_radius_bottom_right.descs@
        &&& post.flex_basis.base@ == pre.flex_basis.base@.remove(i)
        &&& post.flex_basis.current@ == pre.flex_basis.current@.remove(i)
        &&& !post.flex_basis.animating(i)
        &&& post.flex_basis.descs@ == pre.flex_basis.descs@
        &&& post.opacity.base@ == pre.opacity.base@.remove(i)
        &&& post.opacity.current@ == pre.opacity.current@.remove(i)
        &&& !post.opacity.animating(i)
        &&& post.opacity.descs@ == pre.opacity.descs@
        &&& post.rotate.base@ == pre.rotate.base@.remove(i)
        &&& post.rotate.current@ == pre.rotate.current@.remove(i)
        &&& !post.rotate.animating(i)
        &&& post.rotate.descs@ == pre.rotate.descs@
        &&& post.flex_grow.base@ == pre.flex_grow.base@.remove(i)
        &&& post.flex_grow.current@ == pre.flex_grow.current@.remove(i)
        &&& !post.flex_grow.animating(i)
        &&& post.flex_grow.descs@ == pre.flex_grow.descs@
        &&& post.flex_shrink.base@ == pre.flex_shrink.base@.remove(i)
        &&& post.flex_shrink.current@ == pre.flex_shrink.current@.remove(i)
        &&& !post.flex_shrink.animating(i)
        &&& post.flex_shrink.descs@ == pre.flex_shrink.descs@
        &&& post.background_color.base@ == pre.background_color.base@.remove(i)
        &&& post.background_color.current@ == pre.background_color.current@.remove(i)
        &&& !post.background_color.animating(i)
        &&& post.background_color.descs@ == pre.background_color.descs@
        &&& post.font_color.base@ == pre.font_color.base@.remove(i)
        &&& post.font_color.current@ == pre.font_color.current@.remove(i)
        &&& !post.font_color.animating(i)
        &&& post.font_color.descs@ == pre.font_color.descs@
        &&& post.border_color.base@ == pre.border_color.base@.remove(i)
        &&& post.border_color.current@ == pre.border_color.current@.remove(i)
        &&& !post.border_color.animating(i)
        &&& post.border_color.descs@ == pre.border_color.descs@
        &&& post.elements@ == pre.elements@.remove(i)
        &&& post.ids@ == pre.ids@.remove(i)
        &&& post.tooltip@ == pre.tooltip@.remove(i)
        &&& post.classes@ == pre.classes@.remove(i)
        &&& post.pseudo_classes@ == pre.pseudo_classes@.remove(i)
        &&& post.focus_order@ == pre.focus_order@.remove(i)
        &&& post.z_order@ == pre.z_order@.remove(i)
        &&& post.font_size@ == pre.font_size@.remove(i)
        &&& post.display@ == pre.display@.remove(i)
        &&& post.visibility@ == pre.visibility@.remove(i)
        &&& post.overflow@ == pre.overflow@.remove(i)
        &&& post.position@ == pre.position@.remove(i)
        &&& post.flex_direction@ == pre.flex_direction@.remove(i)
        &&& post.justify_content@ == pre.justify_content@.remove(i)
        &&& post.align_content@ == pre.align_content@.remove(i)
        &&& post.align_items@ == pre.align_items@.remove(i)
        &&& post.align_self@ == pre.align_self@.remove(i)
        &&& post.text_align@ == pre.text_align@.remove(i)
        &&& post.text_justify@ == pre.text_justify@.remove(i)
        &&& post.text@ == pre.text@.remove(i)
        &&& post.clip_widget@ == pre.clip_widget@.remove(i)
        &&& post.main_before_first@ == pre.main_before_first@.remove(i)
        &&& post.main_between@ == pre.main_between@.remove(i)
        &&& post.main_after_last@ == pre.main_after_last@.remove(i)
        &&& post.cross_before_first@ == pre.cross_before_first@.remove(i)
        &&& post.cross_between@ == pre.cross_between@.remove(i)
        &&& post.cross_after_last@ == pre.cross_after_last@.remove(i)
    }
}

} // verus!
