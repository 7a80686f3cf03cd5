//! The restyle pass: resolving every entity's computed style from the rule
//! set and the entity's ancestor metadata.

use vstd::prelude::*;

use crate::entity::Entity;
use crate::hierarchy::Hierarchy;
use crate::rules::{EntityMeta, PropKind, Property, winner};
use crate::state::State;
use crate::style::Style;

verus! {

/// `meta` is entity `i`'s selector metadata as stored in `style`.
pub open spec fn meta_ok(style: Style, i: int, meta: EntityMeta) -> bool {
    &&& (match meta.element {
        Some(el) => style.elements@.dom().contains(i) && el@ == style.elements@[i]@,
        None => !style.elements@.dom().contains(i),
    })
    &&& (match meta.id {
        Some(id) => style.ids@.dom().contains(i) && id@ == style.ids@[i]@,
        None => !style.ids@.dom().contains(i),
    })
    &&& (if style.classes@.dom().contains(i) {
        meta.classes@ == style.classes@[i]@
    } else {
        meta.classes@.len() == 0
    })
    &&& meta.pseudo == (if style.pseudo_classes@.dom().contains(i) {
        style.pseudo_classes@[i]
    } else {
        crate::style::PseudoClasses::none_spec()
    })
}

/// `ch` is the metadata of `i` and its ancestors, the entity first, ending
/// at the root.
pub open spec fn chain_ok(h: Hierarchy, style: Style, i: int, ch: Seq<EntityMeta>) -> bool {
    &&& ch.len() == h.depth_of(i) + 1
    &&& forall|k: int| 0 <= k < ch.len() ==> meta_ok(style, h.anc(i, k as nat), #[trigger] ch[k])
}

/// The metadata of `e` as currently stored.
pub fn read_meta(style: &Style, e: Entity) -> (r: EntityMeta)
    requires
        style.wf(),
    ensures
        meta_ok(*style, e.idx(), r),
{
    let element = match style.elements.get(e) {
        Some(s) => Some(s.clone()),
        None => None,
    };
    let id = match style.ids.get(e) {
        Some(s) => Some(s.clone()),
        None => None,
    };
    let classes = match style.classes.get(e) {
        Some(v) => v.clone(),
        None => Vec::new(),
    };
    let pseudo = match style.pseudo_classes.get(e) {
        Some(p) => *p,
        None => crate::style::PseudoClasses::none(),
    };
    EntityMeta { element, id, classes, pseudo }
}

/// The metadata chain of `e`: itself first, then each ancestor up to the
/// root.
pub fn build_chain(h: &Hierarchy, style: &Style, e: Entity) -> (r: Vec<EntityMeta>)
    requires
        h.wf(),
        style.wf(),
        h.is_live(e.idx()),
    ensures
        chain_ok(*h, *style, e.idx(), r@),
{
    let mut r: Vec<EntityMeta> = Vec::new();
    let mut cur = e;
    let ghost k: int = 0;
    loop
        invariant_except_break
            h.wf(),
            style.wf(),
            h.is_live(cur.idx()),
            0 <= k,
            cur.idx() == h.anc(e.idx(), k as nat),
            k + h.depth_of(cur.idx()) == h.depth_of(e.idx()),
            r@.len() == k,
            forall|m: int|
                0 <= m < k ==> meta_ok(*style, h.anc(e.idx(), m as nat), #[trigger] r@[m]),
            h.is_live(e.idx()),
        ensures
            chain_ok(*h, *style, e.idx(), r@),
        decreases h.depth_of(cur.idx()),
    {
        r.push(read_meta(style, cur));
        if cur.index == 0 {
            proof {
                assert(h.depth_of(cur.idx()) == 0);
                assert(r@[k] == r@.last());
                assert(meta_ok(*style, h.anc(e.idx(), k as nat), r@[k]));
            }
            break ;
        }
        let parent = self_parent(h, cur);
        proof {
            assert(h.anc(h.parent_of(cur.idx()), 0) == h.parent_of(cur.idx()));
            assert(h.anc(cur.idx(), 1) == parent.idx());
            h.lemma_anc_add(e.idx(), k as nat, 1);
            assert(h.anc(e.idx(), (k + 1) as nat) == parent.idx());
            k = k + 1;
        }
        cur = parent;
    }
    r
}

/// The parent entity of a live non-root entity.
fn self_parent(h: &Hierarchy, e: Entity) -> (r: Entity)
    requires
        h.wf(),
        h.is_live(e.idx()),
        e.idx() != 0,
    ensures
        r == h.entity_of(h.parent_of(e.idx())),
        r.idx() == h.parent_of(e.idx()),
        h.is_live(r.idx()),
        h.depth_of(r.idx()) + 1 == h.depth_of(e.idx()),
    {
    match h.get_parent(e) {
        Some(p) => p,
        None => {
            proof {
                assert(false);
            }
            e
        },
    }
}

/// The per-entity outcome of one restyle: for each cascaded property kind,
/// the entity's computed value is the cascade winner's declaration, and it is
/// untouched where no matching rule declares the kind.
pub open spec fn styled_with(pre: Style, post: Style, i: int, ch: Seq<EntityMeta>) -> bool {
    &&& (match winner(pre.rules@, ch, PropKind::Display) {
        Some((s, p)) => p matches Property::Display(v) && post.display@.dom().contains(i)
            && post.display@[i] == v,
        None => post.display@.dom().contains(i) == pre.display@.dom().contains(i) && (
        pre.display@.dom().contains(i) ==> post.display@[i] == pre.display@[i]),
    })
    &&& (match winner(pre.rules@, ch, PropKind::Visibility) {
        Some((s, p)) => p matches Property::Visibility(v) && post.visibility@.dom().contains(i)
            && post.visibility@[i] == v,
        None => post.visibility@.dom().contains(i) == pre.visibility@.dom().contains(i) && (
        pre.visibility@.dom().contains(i) ==> post.visibility@[i] == pre.visibility@[i]),
    })
    &&& (match winner(pre.rules@, ch, PropKind::Width) {
        Some((s, p)) => p matches Property::Width(v) && post.width.base@.dom().contains(i)
            && post.width.base@[i] == v,
        None => post.width.base@.dom().contains(i) == pre.width.base@.dom().contains(i) && (
        pre.width.base@.dom().contains(i) ==> post.width.base@[i] == pre.width.base@[i]),
    })
    &&& (match winner(pre.rules@, ch, PropKind::Height) {
        Some((s, p)) => p matches Property::Height(v) && post.height.base@.dom().contains(i)
            && post.height.base@[i] == v,
        None => post.height.base@.dom().contains(i) == pre.height.base@.dom().contains(i) && (
        pre.height.base@.dom().contains(i) ==> post.height.base@[i] == pre.height.base@[i]),
    })
    &&& (match winner(pre.rules@, ch, PropKind::FlexGrow) {
        Some((s, p)) => p matches Property::FlexGrow(v) && post.flex_grow.base@.dom().contains(i)
            && post.flex_grow.base@[i] == v,
        None => post.flex_grow.base@.dom().contains(i) == pre.flex_grow.base@.dom().contains(i)
            && (pre.flex_grow.base@.dom().contains(i) ==> post.flex_grow.base@[i]
            == pre.flex_grow.base@[i]),
    })
    &&& (match winner(pre.rules@, ch, PropKind::BackgroundColor) {
        Some((s, p)) => p matches Property::BackgroundColor(v) && post
            .background_color.base@.dom().contains(i) && post.background_color.base@[i] == v,
        None => post.background_color.base@.dom().contains(i) == pre
            .background_color.base@.dom().contains(i) && (pre.background_color.base@.dom().contains(
            i,
        ) ==> post.background_color.base@[i] == pre.background_color.base@[i]),
    })
    &&& (match winner(pre.rules@, ch, PropKind::FontColor) {
        Some((s, p)) => p matches Property::FontColor(v) && post.font_color.base@.dom().contains(i)
            && post.font_color.base@[i] == v,
        None => post.font_color.base@.dom().contains(i) == pre.font_color.base@.dom().contains(i)
            && (pre.font_color.base@.dom().contains(i) ==> post.font_color.base@[i]
            == pre.font_color.base@[i]),
    })
    &&& (match winner(pre.rules@, ch, PropKind::Opacity) {
        Some((s, p)) => p matches Property::Opacity(v) && post.opacity.base@.dom().contains(i)
            && post.opacity.base@[i] == v,
        None => post.opacity.base@.dom().contains(i) == pre.opacity.base@.dom().contains(i) && (
        pre.opacity.base@.dom().contains(i) ==> post.opacity.base@[i] == pre.opacity.base@[i]),
    })
}

/// Cascade correctness, per entity: the computed style came from the rules
/// and the entity's own metadata chain alone.
pub open spec fn styled_from(pre: Style, post: Style, h: Hierarchy, i: int) -> bool {
    exists|ch: Seq<EntityMeta>|
        #[trigger] chain_ok(h, pre, i, ch) && styled_with(pre, post, i, ch)
}

/// Two metadata chains of the same entity against the same style agree in
/// content.
pub proof fn lemma_chain_ok_view_eq(
    h: Hierarchy,
    style: Style,
    i: int,
    ch1: Seq<EntityMeta>,
    ch2: Seq<EntityMeta>,
)
    requires
        chain_ok(h, style, i, ch1),
        chain_ok(h, style, i, ch2),
    ensures
        crate::rules::chain_view_eq(ch1, ch2),
{
    assert forall|k: int| 0 <= k < ch1.len() implies crate::rules::meta_view_eq(
        #[trigger] ch1[k],
        ch2[k],
    ) by {
        assert(meta_ok(style, h.anc(i, k as nat), ch1[k]));
        assert(meta_ok(style, h.anc(i, k as nat), ch2[k]));
    }
}

/// Cascade determinism at the restyle level: two restyles of the same entity
/// from the same rules and metadata compute the same style, whatever chains
/// they walked.
pub proof fn lemma_restyle_deterministic(
    pre: Style,
    post1: Style,
    post2: Style,
    h: Hierarchy,
    i: int,
)
    requires
        styled_from(pre, post1, h, i),
        styled_from(pre, post2, h, i),
    ensures
        post1.display@.dom().contains(i) == post2.display@.dom().contains(i),
        post1.display@.dom().contains(i) ==> post1.display@[i] == post2.display@[i],
        post1.visibility@.dom().contains(i) == post2.visibility@.dom().contains(i),
        post1.visibility@.dom().contains(i) ==> post1.visibility@[i] == post2.visibility@[i],
        post1.width.base@.dom().contains(i) == post2.width.base@.dom().contains(i),
        post1.width.base@.dom().contains(i) ==> post1.width.base@[i] == post2.width.base@[i],
        post1.height.base@.dom().contains(i) == post2.height.base@.dom().contains(i),
        post1.height.base@.dom().contains(i) ==> post1.height.base@[i] == post2.height.base@[i],
        post1.flex_grow.base@.dom().contains(i) == post2.flex_grow.base@.dom().contains(i),
        post1.flex_grow.base@.dom().contains(i) ==> post1.flex_grow.base@[i]
            == post2.flex_grow.base@[i],
        post1.background_color.base@.dom().contains(i) == post2
            .background_color.base@.dom().contains(i),
        post1.background_color.base@.dom().contains(i) ==> post1.background_color.base@[i]
            == post2.background_color.base@[i],
        post1.font_color.base@.dom().contains(i) == post2.font_color.base@.dom().contains(i),
        post1.font_color.base@.dom().contains(i) ==> post1.font_color.base@[i]
            == post2.font_color.base@[i],
        post1.opacity.base@.dom().contains(i) == post2.opacity.base@.dom().contains(i),
        post1.opacity.base@.dom().contains(i) ==> post1.opacity.base@[i] == post2.opacity.base@[i],
{
    let ch1 = choose|ch: Seq<EntityMeta>|
        #[trigger] chain_ok(h, pre, i, ch) && styled_with(pre, post1, i, ch);
    let ch2 = choose|ch: Seq<EntityMeta>|
        #[trigger] chain_ok(h, pre, i, ch) && styled_with(pre, post2, i, ch);
    lemma_chain_ok_view_eq(h, pre, i, ch1, ch2);
    crate::rules::lemma_cascade_deterministic(pre.rules@, ch1, ch2, PropKind::Display);
    crate::rules::lemma_cascade_deterministic(pre.rules@, ch1, ch2, PropKind::Visibility);
    crate::rules::lemma_cascade_deterministic(pre.rules@, ch1, ch2, PropKind::Width);
    crate::rules::lemma_cascade_deterministic(pre.rules@, ch1, ch2, PropKind::Height);
    crate::rules::lemma_cascade_deterministic(pre.rules@, ch1, ch2, PropKind::FlexGrow);
    crate::rules::lemma_cascade_deterministic(pre.rules@, ch1, ch2, PropKind::BackgroundColor);
    crate::rules::lemma_cascade_deterministic(pre.rules@, ch1, ch2, PropKind::FontColor);
    crate::rules::lemma_cascade_deterministic(pre.rules@, ch1, ch2, PropKind::Opacity);
}

/// The winner's declaration always has the kind it was asked for.
pub proof fn lemma_winner_kind(
    rules: Seq<crate::rules::StyleRule>,
    ch: Seq<EntityMeta>,
    kind: PropKind,
)
    ensures
        winner(rules, ch, kind) matches Some((s, p)) ==> crate::rules::kind_of(p) == kind,
    decreases rules.len(),
{
    if rules.len() > 0 {
        lemma_winner_kind(rules.drop_last(), ch, kind);
        lemma_decl_kind(rules.last().properties@, kind);
    }
}

pub proof fn lemma_decl_kind(props: Seq<Property>, kind: PropKind)
    ensures
        crate::rules::decl_of(props, kind) matches Some(p) ==> crate::rules::kind_of(p) == kind,
    decreases props.len(),
{
    if props.len() > 0 {
        lemma_decl_kind(props.drop_last(), kind);
    }
}

/// The cascaded maps of `post` agree with `pre` at index `j`.
pub open spec fn same_at(pre: Style, post: Style, j: int) -> bool {
    &&& post.display@.dom().contains(j) == pre.display@.dom().contains(j)
    &&& (pre.display@.dom().contains(j) ==> post.display@[j] == pre.display@[j])
    &&& post.visibility@.dom().contains(j) == pre.visibility@.dom().contains(j)
    &&& (pre.visibility@.dom().contains(j) ==> post.visibility@[j] == pre.visibility@[j])
    &&& post.width.base@.dom().contains(j) == pre.width.base@.dom().contains(j)
    &&& (pre.width.base@.dom().contains(j) ==> post.width.base@[j] == pre.width.base@[j])
    &&& post.height.base@.dom().contains(j) == pre.height.base@.dom().contains(j)
    &&& (pre.height.base@.dom().contains(j) ==> post.height.base@[j] == pre.height.base@[j])
    &&& post.flex_grow.base@.dom().contains(j) == pre.flex_grow.base@.dom().contains(j)
    &&& (pre.flex_grow.base@.dom().contains(j) ==> post.flex_grow.base@[j]
        == pre.flex_grow.base@[j])
    &&& post.background_color.base@.dom().contains(j) == pre
        .background_color.base@.dom().contains(j)
    &&& (pre.background_color.base@.dom().contains(j) ==> post.background_color.base@[j]
        == pre.background_color.base@[j])
    &&& post.font_color.base@.dom().contains(j) == pre.font_color.base@.dom().contains(j)
    &&& (pre.font_color.base@.dom().contains(j) ==> post.font_color.base@[j]
        == pre.font_color.base@[j])
    &&& post.opacity.base@.dom().contains(j) == pre.opacity.base@.dom().contains(j)
    &&& (pre.opacity.base@.dom().contains(j) ==> post.opacity.base@[j] == pre.opacity.base@[j])
}

/// Every cascaded map of `post` agrees with `pre` at every index but `i`.
pub open spec fn same_at_others(pre: Style, post: Style, i: int) -> bool {
    forall|j: int| j != i ==> #[trigger] same_at(pre, post, j)
}

/// The selector metadata and the rule list of `post` are those of `pre`.
pub open spec fn same_meta(pre: Style, post: Style) -> bool {
    &&& post.rules@ == pre.rules@
    &&& post.elements@ == pre.elements@
    &&& post.ids@ == pre.ids@
    &&& post.classes@ == pre.classes@
    &&& post.pseudo_classes@ == pre.pseudo_classes@
}

/// Writes the cascade winners of every kind into `e`'s computed style.
#[verifier::rlimit(100)]
fn apply_entity_style(style: &mut Style, chain: &Vec<EntityMeta>, e: Entity)
    requires
        old(style).wf(),
    ensures
        final(style).wf(),
        styled_with(*old(style), *final(style), e.idx(), chain@),
        same_at_others(*old(style), *final(style), e.idx()),
        same_meta(*old(style), *final(style)),
{

    proof {
        lemma_winner_kind(style.rules@, chain@, PropKind::Display);
        lemma_winner_kind(style.rules@, chain@, PropKind::Visibility);
        lemma_winner_kind(style.rules@, chain@, PropKind::Width);
        lemma_winner_kind(style.rules@, chain@, PropKind::Height);
        lemma_winner_kind(style.rules@, chain@, PropKind::FlexGrow);
        lemma_winner_kind(style.rules@, chain@, PropKind::BackgroundColor);
        lemma_winner_kind(style.rules@, chain@, PropKind::FontColor);
        lemma_winner_kind(style.rules@, chain@, PropKind::Opacity);
    }
    match crate::rules::winning_value(&style.rules, chain, PropKind::Display) {
        Some(Property::Display(v)) => style.display.insert(e, v),
        Some(_) => proof {
            assert(false);
        },
        None => {},
    }
    match crate::rules::winning_value(&style.rules, chain, PropKind::Visibility) {
        Some(Property::Visibility(v)) => style.visibility.insert(e, v),
        Some(_) => proof {
            assert(false);
        },
        None => {},
    }
    match crate::rules::winning_value(&style.rules, chain, PropKind::Width) {
        Some(Property::Width(v)) => style.width.insert(e, v),
        Some(_) => proof {
            assert(false);
        },
        None => {},
    }
    match crate::rules::winning_value(&style.rules, chain, PropKind::Height) {
        Some(Property::Height(v)) => style.height.insert(e, v),
        Some(_) => proof {
            assert(false);
        },
        None => {},
    }
    match crate::rules::winning_value(&style.rules, chain, PropKind::FlexGrow) {
        Some(Property::FlexGrow(v)) => style.flex_grow.insert(e, v),
        Some(_) => proof {
            assert(false);
        },
        None => {},
    }
    match crate::rules::winning_value(&style.rules, chain, PropKind::BackgroundColor) {
        Some(Property::BackgroundColor(v)) => style.background_color.insert(e, v),
        Some(_) => proof {
            assert(false);
        },
        None => {},
    }
    match crate::rules::winning_value(&style.rules, chain, PropKind::FontColor) {
        Some(Property::FontColor(v)) => style.font_color.insert(e, v),
        Some(_) => proof {
            assert(false);
        },
        None => {},
    }
    match crate::rules::winning_value(&style.rules, chain, PropKind::Opacity) {
        Some(Property::Opacity(v)) => style.opacity.insert(e, v),
        Some(_) => proof {
            assert(false);
        },
        None => {},
    }
}

/// Recomputes the whole tree's computed style from the rule set and each
/// entity's ancestor metadata — the full restyle the engine runs whenever
/// anything style-affecting changed.
pub fn apply_styles(state: &mut State)
    requires
        old(state).wf(),
    ensures
        final(state).wf(),
        forall|i: int|
            old(state).hierarchy.is_live(i) ==> styled_from(
                old(state).style,
                final(state).style,
                old(state).hierarchy,
                i,
            ),
        same_meta(old(state).style, final(state).style),
        final(state).hierarchy == old(state).hierarchy,
        final(state).data == old(state).data,
        final(state).event_queue@ == old(state).event_queue@,
        final(state).hovered == old(state).hovered,
        final(state).focused == old(state).focused,
        final(state).captured == old(state).captured,
{
    proof {
        assert(old(state).hierarchy.is_live(0));
        assert(old(state).hierarchy.entity_of(0) == Entity::root_spec());
    }
    let list = state.hierarchy.collect_subtree(Entity::root());
    let ghost pre = *state;
    proof {
        assert forall|d: int| pre.hierarchy.is_live(d) implies exists|mm: int|
            0 <= mm < list@.len() && (#[trigger] list@[mm]).idx() == d by {
            pre.hierarchy.lemma_anc_depth(d, pre.hierarchy.depth_of(d));
            assert(pre.hierarchy.is_desc(d, 0));
        }
        assert(list@.subrange(0, 0) =~= Seq::<Entity>::empty());
    }
    let mut m: usize = 0;
    while m < list.len()
        invariant
            state.wf(),
            *old(state) == pre,
            pre.wf(),
            state.hierarchy == pre.hierarchy,
            state.data == pre.data,
            state.event_queue@ == pre.event_queue@,
            state.hovered == pre.hovered,
            state.focused == pre.focused,
            state.captured == pre.captured,
            state.mouse == pre.mouse,
            state.modifiers == pre.modifiers,
            state.entity_manager == pre.entity_manager,
            state.event_handlers == pre.event_handlers,
            state.removed_entities == pre.removed_entities,
            state.needs_restyle == pre.needs_restyle,
            state.needs_relayout == pre.needs_relayout,
            state.needs_redraw == pre.needs_redraw,
            m <= list@.len(),
            same_meta(pre.style, state.style),
            forall|mm: int|
                0 <= mm < list@.len() ==> pre.hierarchy.is_live((#[trigger] list@[mm]).idx()),
            forall|m1: int, m2: int|
                0 <= m1 < m2 < list@.len() ==> (#[trigger] list@[m1]).idx() != (
                #[trigger] list@[m2]).idx(),
            forall|mm: int|
                0 <= mm < m ==> styled_from(
                    pre.style,
                    state.style,
                    pre.hierarchy,
                    (#[trigger] list@[mm]).idx(),
                ),
            forall|i: int|
                !crate::hierarchy::seen_idx(list@.subrange(0, m as int), i) ==> #[trigger] untouched(
                    pre.style,
                    state.style,
                    i,
                ),
            forall|d: int|
                pre.hierarchy.is_live(d) ==> exists|mm: int|
                    0 <= mm < list@.len() && (#[trigger] list@[mm]).idx() == d,
        decreases list@.len() - m,
    {
        let e = list[m];
        let chain = build_chain(&state.hierarchy, &state.style, e);
        let ghost mid = state.style;
        proof {
            assert(chain_ok(pre.hierarchy, pre.style, e.idx(), chain@)) by {
                assert forall|k: int| 0 <= k < chain@.len() implies meta_ok(
                    pre.style,
                    pre.hierarchy.anc(e.idx(), k as nat),
                    #[trigger] chain@[k],
                ) by {
                    assert(meta_ok(state.style, pre.hierarchy.anc(e.idx(), k as nat), chain@[k]));
                }
            }
        }
        apply_entity_style(&mut state.style, &chain, e);
        proof {
            let ii = e.idx();
            assert(same_at_others(mid, state.style, ii));
            assert(styled_with(mid, state.style, ii, chain@));
            // relative to the original style: untouched before, so equal maps at ii
            assert(untouched(pre.style, mid, ii)) by {
                assert(!crate::hierarchy::seen_idx(list@.subrange(0, m as int), ii)) by {
                    if crate::hierarchy::seen_idx(list@.subrange(0, m as int), ii) {
                        let mm = choose|mm: int|
                            0 <= mm < m && (#[trigger] list@.subrange(0, m as int)[mm]).idx() == ii;
                        assert(list@[mm].idx() == ii);
                    }
                }
            }
            assert(styled_with(pre.style, state.style, ii, chain@)) by {
                assert(pre.style.rules@ == mid.rules@);
            }
            assert(styled_from(pre.style, state.style, pre.hierarchy, ii));
            assert(list@.subrange(0, m as int + 1).drop_last() =~= list@.subrange(0, m as int));
            assert forall|mm: int| 0 <= mm < m + 1 implies styled_from(
                pre.style,
                state.style,
                pre.hierarchy,
                (#[trigger] list@[mm]).idx(),
            ) by {
                if mm < m {
                    let jj = list@[mm].idx();
                    if jj == ii {
                    } else {
                        let ch2 = choose|ch2: Seq<EntityMeta>|
                            #[trigger] chain_ok(pre.hierarchy, pre.style, jj, ch2) && styled_with(
                                pre.style,
                                mid,
                                jj,
                                ch2,
                            );
                        assert(same_at(mid, state.style, jj));
                        assert(styled_with(pre.style, state.style, jj, ch2));
                        assert(styled_from(pre.style, state.style, pre.hierarchy, jj));
                    }
                }
            }
            assert forall|i: int|
                !crate::hierarchy::seen_idx(list@.subrange(0, m as int + 1), i) implies untouched(
                pre.style,
                state.style,
                i,
            ) by {
                assert(!crate::hierarchy::seen_idx(list@.subrange(0, m as int), i)) by {
                    if crate::hierarchy::seen_idx(list@.subrange(0, m as int), i) {
                        let mm = choose|mm: int|
                            0 <= mm < m && (#[trigger] list@.subrange(0, m as int)[mm]).idx() == i;
                        assert(list@.subrange(0, m as int + 1)[mm].idx() == i);
                    }
                }
                assert(i != ii) by {
                    assert(list@.subrange(0, m as int + 1)[m as int].idx() == ii);
                }
                assert(untouched(pre.style, mid, i));
                assert(same_at(mid, state.style, i));
            }
        }
        m = m + 1;
    }
    proof {
        assert forall|i: int| pre.hierarchy.is_live(i) implies styled_from(
            pre.style,
            state.style,
            pre.hierarchy,
            i,
        ) by {
            let mm = choose|mm: int| 0 <= mm < list@.len() && (#[trigger] list@[mm]).idx() == i;
        }
    }
}

/// The cascaded maps of `post` agree with `pre` at index `i`.
pub open spec fn untouched(pre: Style, post: Style, i: int) -> bool {
    &&& post.display@.dom().contains(i) == pre.display@.dom().contains(i)
    &&& (pre.display@.dom().contains(i) ==> post.display@[i] == pre.display@[i])
    &&& post.visibility@.dom().contains(i) == pre.visibility@.dom().contains(i)
    &&& (pre.visibility@.dom().contains(i) ==> post.visibility@[i] == pre.visibility@[i])
    &&& post.width.base@.dom().contains(i) == pre.width.base@.dom().contains(i)
    &&& (pre.width.base@.dom().contains(i) ==> post.width.base@[i] == pre.width.base@[i])
    &&& post.height.base@.dom().contains(i) == pre.height.base@.dom().contains(i)
    &&& (pre.height.base@.dom().contains(i) ==> post.height.base@[i] == pre.height.base@[i])
    &&& post.flex_grow.base@.dom().contains(i) == pre.flex_grow.base@.dom().contains(i)
    &&& (pre.flex_grow.base@.dom().contains(i) ==> post.flex_grow.base@[i]
        == pre.flex_grow.base@[i])
    &&& post.background_color.base@.dom().contains(i) == pre
        .background_color.base@.dom().contains(i)
    &&& (pre.background_color.base@.dom().contains(i) ==> post.background_color.base@[i]
        == pre.background_color.base@[i])
    &&& post.font_color.base@.dom().contains(i) == pre.font_color.base@.dom().contains(i)
    &&& (pre.font_color.base@.dom().contains(i) ==> post.font_color.base@[i]
        == pre.font_color.base@[i])
    &&& post.opacity.base@.dom().contains(i) == pre.opacity.base@.dom().contains(i)
    &&& (pre.opacity.base@.dom().contains(i) ==> post.opacity.base@[i] == pre.opacity.base@[i])
}

} // verus!
