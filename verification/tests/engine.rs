use tuix_core::animation::{AnimationDesc, Keyframe};
use tuix_core::entity::Entity;
use tuix_core::events::{Event, Message, Propagation, WindowEvent};
use tuix_core::input::{focus_forward, on_cursor_move};
use tuix_core::layout::{compute_main_sizes, ChildInput};
use tuix_core::rules::{winning_value, Property, PropKind, Selector, StyleRule};
use tuix_core::state::State;
use tuix_core::style::{Color, Units, Visibility};
use tuix_core::widgets::{Radio, Widget};

fn child(grow: i64) -> ChildInput {
    ChildInput {
        basis_unit: Units::Auto,
        main_unit: Units::Auto,
        cross_unit: Units::Auto,
        grow,
        shrink: 1,
        margin_main_before: 0,
        margin_main_after: 0,
        margin_cross_before: 0,
        stretch_cross: false,
    }
}

#[test]
fn tree_add_and_remove_subtree() {
    let mut state = State::new();
    let root = Entity::root();
    let a = state.add(root);
    let b = state.add(a);
    let c = state.add(b);
    let d = state.add(root);
    assert!(state.hierarchy.is_entity_live(a));
    assert!(state.hierarchy.is_entity_live(c));
    let before = state.removed_entities.len();
    state.remove(a);
    let removed: Vec<Entity> = state.removed_entities[before..].to_vec();
    // the removed set is exactly the subtree of `a`, reported in reverse
    // pre-order: descendants first, the subtree root last
    assert_eq!(removed.len(), 3);
    assert_eq!(*removed.last().unwrap(), a);
    assert!(removed.contains(&b) && removed.contains(&c));
    let pos_b = removed.iter().position(|e| *e == b).unwrap();
    let pos_c = removed.iter().position(|e| *e == c).unwrap();
    assert!(pos_c < pos_b);
    assert!(!state.hierarchy.is_entity_live(a));
    assert!(!state.hierarchy.is_entity_live(b));
    assert!(!state.hierarchy.is_entity_live(c));
    assert!(state.hierarchy.is_entity_live(d));
    assert!(state.hierarchy.is_entity_live(root));
}

#[test]
fn entity_generation_prevents_stale_reuse() {
    let mut state = State::new();
    let root = Entity::root();
    let a = state.add(root);
    state.remove(a);
    let b = state.add(root);
    // the slot is recycled under a fresh generation
    assert_eq!(a.index, b.index);
    assert_ne!(a.generation, b.generation);
    assert!(!state.hierarchy.is_entity_live(a));
    assert!(state.hierarchy.is_entity_live(b));
}

#[test]
fn specificity_id_beats_class() {
    // .a { color: red }  then  #x { color: blue }  — blue wins on <e id=x class=a>
    let red = Color::rgb(255, 0, 0);
    let blue = Color::rgb(0, 0, 255);
    let mut class_sel = Selector::new();
    class_sel.classes.push("a".to_owned());
    let class_rule = StyleRule {
        selectors: vec![class_sel],
        properties: vec![Property::FontColor(red)],
    };
    let mut id_sel = Selector::new();
    id_sel.id = Some("x".to_owned());
    let id_rule = StyleRule {
        selectors: vec![id_sel],
        properties: vec![Property::FontColor(blue)],
    };
    let rules = vec![class_rule.clone(), id_rule.clone()];
    let meta = tuix_core::rules::EntityMeta {
        element: None,
        id: Some("x".to_owned()),
        classes: vec!["a".to_owned()],
        pseudo: tuix_core::style::PseudoClasses::none(),
    };
    let chain = vec![meta];
    let won = winning_value(&rules, &chain, PropKind::FontColor);
    assert_eq!(won, Some(Property::FontColor(blue)));
    // id beats class regardless of source order
    let rules_rev = vec![id_rule, class_rule];
    let won_rev = winning_value(&rules_rev, &chain, PropKind::FontColor);
    assert_eq!(won_rev, Some(Property::FontColor(blue)));
}

#[test]
fn equal_specificity_later_rule_wins() {
    let red = Color::rgb(255, 0, 0);
    let green = Color::rgb(0, 255, 0);
    let mut s1 = Selector::new();
    s1.classes.push("a".to_owned());
    let mut s2 = Selector::new();
    s2.classes.push("a".to_owned());
    let rules = vec![
        StyleRule { selectors: vec![s1], properties: vec![Property::FontColor(red)] },
        StyleRule { selectors: vec![s2], properties: vec![Property::FontColor(green)] },
    ];
    let meta = tuix_core::rules::EntityMeta {
        element: None,
        id: None,
        classes: vec!["a".to_owned()],
        pseudo: tuix_core::style::PseudoClasses::none(),
    };
    let won = winning_value(&rules, &vec![meta], PropKind::FontColor);
    assert_eq!(won, Some(Property::FontColor(green)));
}

#[test]
fn flex_distribution_one_one_two_in_400() {
    let cs = vec![child(1), child(1), child(2)];
    let sizes = compute_main_sizes(&cs, 400);
    assert_eq!(sizes, vec![100, 100, 200]);
    assert_eq!(sizes.iter().sum::<i64>(), 400);
}

#[test]
fn animation_completion_persistent_and_not() {
    let mut state = State::new();
    let root = Entity::root();
    let e = state.add(root);
    state.style.width.insert(e, Units::Pixels(10));
    let desc = AnimationDesc {
        keyframes: vec![
            Keyframe { time: 0, value: Units::Pixels(0) },
            Keyframe { time: 1000, value: Units::Pixels(100) },
        ],
        duration_ms: 100,
        persistent: false,
    };
    let anim = state.style.width.add_animation(desc);
    state.style.width.play_animation(e, anim, 0);
    // halfway: the interpolated value shows
    state.apply_animations(50);
    assert_eq!(state.style.width.get_current_or(e, Units::Auto), Units::Pixels(50));
    // completed, non-persistent: the exact pre-animation base value returns
    let running = state.apply_animations(100);
    assert!(!running);
    assert_eq!(state.style.width.get_current_or(e, Units::Auto), Units::Pixels(10));
    // persistent: the final keyframe value replaces the base
    let pdesc = AnimationDesc {
        keyframes: vec![
            Keyframe { time: 0, value: Units::Pixels(0) },
            Keyframe { time: 1000, value: Units::Pixels(77) },
        ],
        duration_ms: 100,
        persistent: true,
    };
    let p = state.style.width.add_animation(pdesc);
    state.style.width.play_animation(e, p, 200);
    state.apply_animations(350);
    assert_eq!(state.style.width.get_current_or(e, Units::Auto), Units::Pixels(77));
    assert_eq!(*state.style.width.get(e).unwrap(), Units::Pixels(77));
}

#[test]
fn focus_traversal_visits_all_then_root() {
    let mut state = State::new();
    let root = Entity::root();
    let mut kids = Vec::new();
    for _ in 0..5 {
        kids.push(state.add(root));
    }
    // the root is not a focus stop here; only the five children are
    state.data.set_focusability(root, false);
    state.focused = kids[0];
    let mut visited = vec![kids[0]];
    for _ in 0..4 {
        visited.push(focus_forward(&mut state));
    }
    assert_eq!(visited, kids);
    // exhausted: wraps to the root
    assert_eq!(focus_forward(&mut state), root);
}

#[test]
fn focus_traversal_skips_invisible() {
    let mut state = State::new();
    let root = Entity::root();
    let a = state.add(root);
    let b = state.add(root);
    let c = state.add(root);
    state.data.set_focusability(root, false);
    state.data.set_visibility(b, Visibility::Invisible);
    state.focused = a;
    assert_eq!(focus_forward(&mut state), c);
}

#[test]
fn unique_event_queued_at_most_once() {
    let mut state = State::new();
    let ev = Event::window(WindowEvent::Relayout).target(Entity::root()).unique();
    state.insert_event(ev);
    state.insert_event(ev);
    let copies = state.event_queue.iter().filter(|e| **e == ev).count();
    assert_eq!(copies, 1);
    // a non-unique event stacks up
    let plain = Event::window(WindowEvent::Redraw).target(Entity::root());
    state.insert_event(plain);
    state.insert_event(plain);
    let copies = state.event_queue.iter().filter(|e| **e == plain).count();
    assert_eq!(copies, 2);
}

#[test]
fn capture_routes_pointer_moves_until_release() {
    let mut state = State::new();
    let root = Entity::root();
    let a = state.add(root);
    let b = state.add(root);
    state.hovered = b;
    state.capture(a);
    state.event_queue.clear();
    on_cursor_move(&mut state, 10, 20);
    let ev = *state.event_queue.last().unwrap();
    assert_eq!(ev.target, a);
    assert_eq!(ev.propagation, Propagation::Direct);
    assert!(matches!(ev.message, Message::Window(WindowEvent::MouseMove(10, 20))));
    // a release by another entity changes nothing
    state.release(b);
    assert_eq!(state.captured, a);
    // the holder's release restores hover routing: give `b` geometry so the
    // hover pass resolves it under the cursor
    state.release(a);
    state.data.set_posx(b, 0);
    state.data.set_posy(b, 0);
    state.data.set_width(b, 100);
    state.data.set_height(b, 100);
    state.data.set_clip_region(
        b,
        tuix_core::data::BoundingBox { x: 0, y: 0, w: 100, h: 100 },
    );
    state.event_queue.clear();
    on_cursor_move(&mut state, 30, 40);
    let ev = *state.event_queue.last().unwrap();
    assert_eq!(ev.target, b);
    assert_eq!(ev.propagation, Propagation::Up);
}

#[test]
fn radio_builds_marker_and_toggles() {
    let mut state = State::new();
    let root = Entity::root();
    let radio = Radio::new()
        .on_checked(Event::new(Message::User(1)))
        .on_unchecked(Event::new(Message::User(2)));
    let e = radio.build(&mut state, root);
    assert!(state.hierarchy.is_entity_live(e));
    // the marker child exists under the radio
    let children = state.hierarchy.get_children(e);
    assert_eq!(children.len(), 1);
    // a left press checks it and emits the configured event
    let mut press = Event::window(WindowEvent::MouseDown(
        tuix_core::events::MouseButton::Left,
    ))
    .target(e);
    let mut handler = state.event_handlers.take(e).unwrap();
    handler.handle_event(&mut state, e, &mut press);
    assert!(state
        .event_queue
        .iter()
        .any(|ev| ev.message == Message::User(1) && ev.target == e));
}

#[test]
fn cascade_applies_winner_to_entity() {
    let mut state = State::new();
    let root = Entity::root();
    let e = state.add(root);
    state.style.insert_element(e, "button".to_owned());
    let rule = StyleRule::new(Selector::element("button".to_owned()))
        .property(Property::Width(Units::Pixels(120)))
        .property(Property::FlexGrow(3));
    state.add_style_rule(rule);
    tuix_core::cascade::apply_styles(&mut state);
    assert_eq!(*state.style.width.get(e).unwrap(), Units::Pixels(120));
    assert_eq!(*state.style.flex_grow.get(e).unwrap(), 3);
    // recomputing from the same inputs changes nothing (pure function)
    tuix_core::cascade::apply_styles(&mut state);
    assert_eq!(*state.style.width.get(e).unwrap(), Units::Pixels(120));
    assert_eq!(*state.style.flex_grow.get(e).unwrap(), 3);
}

#[test]
fn percentage_resolves_against_parent() {
    assert_eq!(
        tuix_core::layout::resolve_unit_exec(Units::Percentage(50), 400, 0),
        200
    );
    assert_eq!(tuix_core::layout::resolve_unit_exec(Units::Pixels(33), 400, 7), 33);
    assert_eq!(tuix_core::layout::resolve_unit_exec(Units::Auto, 400, 7), 7);
}

#[test]
fn shrink_floors_at_zero() {
    // two children of basis 300 in a 400 container: each shrinks by 100
    let mk = |shrink: i64| ChildInput {
        basis_unit: Units::Pixels(300),
        main_unit: Units::Auto,
        cross_unit: Units::Auto,
        grow: 0,
        shrink,
        margin_main_before: 0,
        margin_main_after: 0,
        margin_cross_before: 0,
        stretch_cross: false,
    };
    let sizes = compute_main_sizes(&vec![mk(1), mk(1)], 400);
    assert_eq!(sizes, vec![200, 200]);
}
