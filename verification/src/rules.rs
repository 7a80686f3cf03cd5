//! Style rules: selectors, specificity, matching, and the cascade's winner.
//!
//! A rule is a selector chain and a list of property declarations. For one
//! entity, the winning declaration of a property kind comes from the matching
//! rule of highest specificity, with source order breaking ties in favour of
//! the later rule — the usual cascade.

use vstd::prelude::*;

use crate::style::{
    Align, AlignItems, AlignSelf, Color, Display, FlexDirection, Justify, JustifyContent,
    PseudoClasses, Units, Visibility,
};

verus! {

/// How a selector relates to the next (right) component of its chain.
#[derive(Clone, Copy, PartialEq, Eq, Structural, Debug)]
pub enum Relation {
    /// Rightmost component; no combinator.
    Rightmost,
    /// Descendant combinator (whitespace): any ancestor matches.
    Ancestor,
    /// Child combinator (`>`): the immediate parent must match.
    Parent,
}

/// One component of a selector chain.
#[derive(Clone, PartialEq, Eq, Debug)]
pub struct Selector {
    pub asterisk: bool,
    pub element: Option<String>,
    pub id: Option<String>,
    pub classes: Vec<String>,
    pub pseudo: PseudoClasses,
    pub relation: Relation,
}

impl Selector {
    pub fn new() -> (r: Selector)
        ensures
            r.asterisk == false,
            r.element is None,
            r.id is None,
            r.classes@.len() == 0,
            r.pseudo == PseudoClasses::none_spec(),
            r.relation == Relation::Rightmost,
    {
        Selector {
            asterisk: false,
            element: None,
            id: None,
            classes: Vec::new(),
            pseudo: PseudoClasses::none(),
            relation: Relation::Rightmost,
        }
    }

    pub fn element(name: String) -> (r: Selector)
        ensures
            r.element == Some(name),
            r.id is None,
            r.classes@.len() == 0,
            r.pseudo == PseudoClasses::none_spec(),
            r.relation == Relation::Rightmost,
    {
        Selector {
            asterisk: false,
            element: Some(name),
            id: None,
            classes: Vec::new(),
            pseudo: PseudoClasses::none(),
            relation: Relation::Rightmost,
        }
    }

    /// This component's share of the chain's specificity:
    /// ids above classes and pseudo-classes, those above element names.
    pub open spec fn specificity_spec(self) -> int {
        (if self.id is Some {
            0x10000int
        } else {
            0int
        }) + 0x100 * self.class_like_count() + (if self.element is Some {
            1int
        } else {
            0int
        })
    }

    pub open spec fn pseudo_count(self) -> int {
        (if self.pseudo.hover {
            1int
        } else {
            0int
        }) + (if self.pseudo.active {
            1int
        } else {
            0int
        }) + (if self.pseudo.checked {
            1int
        } else {
            0int
        }) + (if self.pseudo.focus {
            1int
        } else {
            0int
        }) + (if self.pseudo.enabled {
            1int
        } else {
            0int
        }) + (if self.pseudo.disabled {
            1int
        } else {
            0int
        }) + (if self.pseudo.over {
            1int
        } else {
            0int
        })
    }

    /// Classes and pseudo-classes count alike, capped so one component's
    /// classes can never outweigh an id.
    pub open spec fn class_like_count(self) -> int {
        let n = self.classes@.len() + self.pseudo_count();
        if n > 0xff {
            0xff
        } else {
            n as int
        }
    }

    fn specificity(&self) -> (r: u64)
        ensures
            r == self.specificity_spec(),
            r <= 0x1ffff,
    {
        let mut class_like: u64 = 0;
        if self.classes.len() >= 0xff {
            class_like = 0xff;
        } else {
            class_like = self.classes.len() as u64;
            let p = &self.pseudo;
            if p.hover {
                class_like = class_like + 1;
            }
            if p.active {
                class_like = class_like + 1;
            }
            if p.checked {
                class_like = class_like + 1;
            }
            if p.focus {
                class_like = class_like + 1;
            }
            if p.enabled {
                class_like = class_like + 1;
            }
            if p.disabled {
                class_like = class_like + 1;
            }
            if p.over {
                class_like = class_like + 1;
            }
            if class_like > 0xff {
                class_like = 0xff;
            }
        }
        let mut r: u64 = 0x100 * class_like;
        if self.id.is_some() {
            r = r + 0x10000;
        }
        if self.element.is_some() {
            r = r + 1;
        }
        r
    }
}

/// The selector-matching metadata of one entity.
#[derive(Clone, PartialEq, Eq, Debug)]
pub struct EntityMeta {
    pub element: Option<String>,
    pub id: Option<String>,
    pub classes: Vec<String>,
    pub pseudo: PseudoClasses,
}

/// Whether `c` occurs among `classes`.
pub open spec fn has_class(classes: Seq<String>, c: Seq<char>) -> bool {
    exists|m: int| 0 <= m < classes.len() && (#[trigger] classes[m])@ == c
}

/// Whether one selector component matches one entity's metadata.
pub open spec fn sel_matches_meta(sel: Selector, meta: EntityMeta) -> bool {
    &&& (sel.element matches Some(el) ==> meta.element matches Some(me) && me@ == el@)
    &&& (sel.id matches Some(id) ==> meta.id matches Some(mi) && mi@ == id@)
    &&& forall|k: int|
        0 <= k < sel.classes@.len() ==> has_class(meta.classes@, (#[trigger] sel.classes@[k])@)
    &&& (sel.pseudo.hover ==> meta.pseudo.hover)
    &&& (sel.pseudo.active ==> meta.pseudo.active)
    &&& (sel.pseudo.checked ==> meta.pseudo.checked)
    &&& (sel.pseudo.focus ==> meta.pseudo.focus)
    &&& (sel.pseudo.enabled ==> meta.pseudo.enabled)
    &&& (sel.pseudo.disabled ==> meta.pseudo.disabled)
    &&& (sel.pseudo.over ==> meta.pseudo.over)
}

fn option_string_matches(sel: &Option<String>, meta: &Option<String>) -> (r: bool)
    ensures
        r == (sel matches Some(el) ==> meta matches Some(me) && me@ == el@),
{
    match sel {
        None => true,
        Some(el) => match meta {
            None => false,
            Some(me) => me.eq(el),
        },
    }
}

fn exec_sel_matches_meta(sel: &Selector, meta: &EntityMeta) -> (r: bool)
    ensures
        r == sel_matches_meta(*sel, *meta),
{
    if !option_string_matches(&sel.element, &meta.element) {
        return false;
    }
    if !option_string_matches(&sel.id, &meta.id) {
        return false;
    }
    let mut k: usize = 0;
    while k < sel.classes.len()
        invariant
            k <= sel.classes@.len(),
            forall|j: int|
                0 <= j < k ==> has_class(meta.classes@, (#[trigger] sel.classes@[j])@),
        decreases sel.classes@.len() - k,
    {
        let mut m: usize = 0;
        let mut found = false;
        while m < meta.classes.len()
            invariant
                m <= meta.classes@.len(),
                k < sel.classes@.len(),
                found ==> has_class(meta.classes@, sel.classes@[k as int]@),
                !found ==> forall|j: int|
                    0 <= j < m ==> (#[trigger] meta.classes@[j])@ != sel.classes@[k as int]@,
            decreases meta.classes@.len() - m,
        {
            if meta.classes[m].eq(&sel.classes[k]) {
                found = true;
            }
            m = m + 1;
        }
        if !found {
            proof {
                if has_class(meta.classes@, sel.classes@[k as int]@) {
                    let j = choose|j: int|
                        0 <= j < meta.classes@.len() && (#[trigger] meta.classes@[j])@
                            == sel.classes@[k as int]@;
                }
            }
            return false;
        }
        k = k + 1;
    }
    let p = &sel.pseudo;
    let q = &meta.pseudo;
    if p.hover && !q.hover {
        return false;
    }
    if p.active && !q.active {
        return false;
    }
    if p.checked && !q.checked {
        return false;
    }
    if p.focus && !q.focus {
        return false;
    }
    if p.enabled && !q.enabled {
        return false;
    }
    if p.disabled && !q.disabled {
        return false;
    }
    if p.over && !q.over {
        return false;
    }
    true
}

/// Greedy bottom-up matching of the chain prefix `sels[0..=k]` against the
/// ancestor metadata `chain[c..]` (`chain[0]` is the entity itself).
pub open spec fn match_up(sels: Seq<Selector>, k: int, chain: Seq<EntityMeta>, c: int) -> bool
    decreases k + 1, chain.len() - c,
{
    if k < 0 {
        true
    } else if c < 0 || c >= chain.len() {
        false
    } else if sels[k].relation == Relation::Parent {
        sel_matches_meta(sels[k], chain[c]) && match_up(sels, k - 1, chain, c + 1)
    } else {
        if sel_matches_meta(sels[k], chain[c]) {
            match_up(sels, k - 1, chain, c + 1)
        } else {
            match_up(sels, k, chain, c + 1)
        }
    }
}

/// Whether a selector chain matches the entity whose ancestor metadata
/// (itself first, root last) is `chain`: the rightmost component must match
/// the entity itself, and the rest match up the ancestor line per their
/// combinators.
pub open spec fn chain_matches(sels: Seq<Selector>, chain: Seq<EntityMeta>) -> bool {
    &&& sels.len() >= 1
    &&& chain.len() >= 1
    &&& sel_matches_meta(sels[sels.len() - 1], chain[0])
    &&& match_up(sels, sels.len() - 2, chain, 1)
}

fn exec_match_up(sels: &Vec<Selector>, k: usize, chain: &Vec<EntityMeta>, c: usize) -> (r: bool)
    requires
        k < sels@.len(),
    ensures
        r == match_up(sels@, k as int, chain@, c as int),
    decreases k + 1, chain@.len() - c,
{
    if c >= chain.len() {
        return false;
    }
    let local = exec_sel_matches_meta(&sels[k], &chain[c]);
    if matches!(sels[k].relation, Relation::Parent) {
        if !local {
            false
        } else if k == 0 {
            proof {
                assert(match_up(sels@, -1, chain@, c as int + 1));
            }
            true
        } else {
            exec_match_up(sels, k - 1, chain, c + 1)
        }
    } else {
        if local {
            if k == 0 {
                proof {
                    assert(match_up(sels@, -1, chain@, c as int + 1));
                }
                true
            } else {
                exec_match_up(sels, k - 1, chain, c + 1)
            }
        } else {
            exec_match_up(sels, k, chain, c + 1)
        }
    }
}

/// Whether the rule's selector chain matches the entity with metadata chain
/// `chain` (the entity's own metadata first, the root's last).
pub fn exec_chain_matches(sels: &Vec<Selector>, chain: &Vec<EntityMeta>) -> (r: bool)
    ensures
        r == chain_matches(sels@, chain@),
{
    if sels.len() == 0 || chain.len() == 0 {
        return false;
    }
    let last = sels.len() - 1;
    if !exec_sel_matches_meta(&sels[last], &chain[0]) {
        return false;
    }
    if last == 0 {
        proof {
            assert(match_up(sels@, -1, chain@, 1));
        }
        return true;
    }
    exec_match_up(sels, last - 1, chain, 1)
}

/// One property declaration.
#[derive(Clone, Copy, PartialEq, Eq, Structural, Debug)]
pub enum Property {
    Display(Display),
    Visibility(Visibility),
    Width(Units),
    Height(Units),
    Left(Units),
    Top(Units),
    FlexGrow(i64),
    FlexShrink(i64),
    FlexBasis(Units),
    FlexDirection(FlexDirection),
    JustifyContent(JustifyContent),
    AlignItems(AlignItems),
    AlignSelf(AlignSelf),
    BackgroundColor(Color),
    FontColor(Color),
    BorderColor(Color),
    BorderWidth(Units),
    BorderRadius(Units),
    Opacity(i64),
    FontSize(i64),
    TextAlign(Align),
    TextJustify(Justify),
}

/// The kind of a declaration, used to pair declarations with storages.
#[derive(Clone, Copy, PartialEq, Eq, Structural, Debug)]
pub enum PropKind {
    Display,
    Visibility,
    Width,
    Height,
    Left,
    Top,
    FlexGrow,
    FlexShrink,
    FlexBasis,
    FlexDirection,
    JustifyContent,
    AlignItems,
    AlignSelf,
    BackgroundColor,
    FontColor,
    BorderColor,
    BorderWidth,
    BorderRadius,
    Opacity,
    FontSize,
    TextAlign,
    TextJustify,
}

pub open spec fn kind_of(p: Property) -> PropKind {
    match p {
        Property::Display(..) => PropKind::Display,
        Property::Visibility(..) => PropKind::Visibility,
        Property::Width(..) => PropKind::Width,
        Property::Height(..) => PropKind::Height,
        Property::Left(..) => PropKind::Left,
        Property::Top(..) => PropKind::Top,
        Property::FlexGrow(..) => PropKind::FlexGrow,
        Property::FlexShrink(..) => PropKind::FlexShrink,
        Property::FlexBasis(..) => PropKind::FlexBasis,
        Property::FlexDirection(..) => PropKind::FlexDirection,
        Property::JustifyContent(..) => PropKind::JustifyContent,
        Property::AlignItems(..) => PropKind::AlignItems,
        Property::AlignSelf(..) => PropKind::AlignSelf,
        Property::BackgroundColor(..) => PropKind::BackgroundColor,
        Property::FontColor(..) => PropKind::FontColor,
        Property::BorderColor(..) => PropKind::BorderColor,
        Property::BorderWidth(..) => PropKind::BorderWidth,
        Property::BorderRadius(..) => PropKind::BorderRadius,
        Property::Opacity(..) => PropKind::Opacity,
        Property::FontSize(..) => PropKind::FontSize,
        Property::TextAlign(..) => PropKind::TextAlign,
        Property::TextJustify(..) => PropKind::TextJustify,
    }
}

pub fn exec_kind_of(p: &Property) -> (r: PropKind)
    ensures
        r == kind_of(*p),
{
    match p {
        Property::Display(..) => PropKind::Display,
        Property::Visibility(..) => PropKind::Visibility,
        Property::Width(..) => PropKind::Width,
        Property::Height(..) => PropKind::Height,
        Property::Left(..) => PropKind::Left,
        Property::Top(..) => PropKind::Top,
        Property::FlexGrow(..) => PropKind::FlexGrow,
        Property::FlexShrink(..) => PropKind::FlexShrink,
        Property::FlexBasis(..) => PropKind::FlexBasis,
        Property::FlexDirection(..) => PropKind::FlexDirection,
        Property::JustifyContent(..) => PropKind::JustifyContent,
        Property::AlignItems(..) => PropKind::AlignItems,
        Property::AlignSelf(..) => PropKind::AlignSelf,
        Property::BackgroundColor(..) => PropKind::BackgroundColor,
        Property::FontColor(..) => PropKind::FontColor,
        Property::BorderColor(..) => PropKind::BorderColor,
        Property::BorderWidth(..) => PropKind::BorderWidth,
        Property::BorderRadius(..) => PropKind::BorderRadius,
        Property::Opacity(..) => PropKind::Opacity,
        Property::FontSize(..) => PropKind::FontSize,
        Property::TextAlign(..) => PropKind::TextAlign,
        Property::TextJustify(..) => PropKind::TextJustify,
    }
}

/// One rule: a selector chain (leftmost ancestor first) and declarations.
#[derive(Clone, PartialEq, Eq, Debug)]
pub struct StyleRule {
    pub selectors: Vec<Selector>,
    pub properties: Vec<Property>,
}

impl StyleRule {
    pub fn new(selector: Selector) -> (r: StyleRule)
        ensures
            r.selectors@ == seq![selector],
            r.properties@.len() == 0,
    {
        let mut selectors: Vec<Selector> = Vec::new();
        selectors.push(selector);
        proof {
            assert(selectors@ =~= seq![selector]);
        }
        StyleRule { selectors, properties: Vec::new() }
    }

    pub fn property(self, p: Property) -> (r: StyleRule)
        ensures
            r.selectors@ == self.selectors@,
            r.properties@ == self.properties@.push(p),
    {
        let mut s = self;
        s.properties.push(p);
        s
    }

    /// The chain's specificity: the sum of its components' shares.
    pub open spec fn specificity_spec(self) -> int {
        spec_sum(self.selectors@)
    }

    pub fn specificity(&self) -> (r: u64)
        requires
            self.selectors@.len() <= 0xffff,
        ensures
            r == self.specificity_spec(),
    {
        let mut r: u64 = 0;
        let mut k: usize = 0;
        while k < self.selectors.len()
            invariant
                k <= self.selectors@.len(),
                self.selectors@.len() <= 0xffff,
                r == spec_sum(self.selectors@.subrange(0, k as int)),
                r <= k * 0x1ffff,
            decreases self.selectors@.len() - k,
        {
            proof {
                assert(self.selectors@.subrange(0, k as int + 1).drop_last() =~= self
                    .selectors@.subrange(0, k as int));
                assert(self.selectors@.subrange(0, k as int + 1).last() == self.selectors@[k as int]);
            }
            r = r + self.selectors[k].specificity();
            k = k + 1;
        }
        proof {
            assert(self.selectors@.subrange(0, self.selectors@.len() as int) =~= self.selectors@);
        }
        r
    }
}

/// The sum of the components' specificity shares.
pub open spec fn spec_sum(sels: Seq<Selector>) -> int
    decreases sels.len(),
{
    if sels.len() == 0 {
        0
    } else {
        spec_sum(sels.drop_last()) + sels.last().specificity_spec()
    }
}

/// Each component's share is small, so sums stay small.
pub proof fn lemma_spec_sum_bound(sels: Seq<Selector>)
    ensures
        0 <= spec_sum(sels) <= sels.len() * 0x1ffff,
    decreases sels.len(),
{
    if sels.len() > 0 {
        lemma_spec_sum_bound(sels.drop_last());
        assert((sels.len() - 1) * 0x1ffff + 0x1ffff == sels.len() * 0x1ffff) by (nonlinear_arith);
    }
}

/// The last declaration of kind `kind` in `props`, if any: within one rule,
/// a later declaration of the same property wins.
pub open spec fn decl_of(props: Seq<Property>, kind: PropKind) -> Option<Property>
    decreases props.len(),
{
    if props.len() == 0 {
        None
    } else if kind_of(props.last()) == kind {
        Some(props.last())
    } else {
        decl_of(props.drop_last(), kind)
    }
}

pub fn exec_decl_of(props: &Vec<Property>, kind: PropKind) -> (r: Option<Property>)
    ensures
        r == decl_of(props@, kind),
{
    let mut k: usize = props.len();
    proof {
        assert(props@.subrange(0, props@.len() as int) =~= props@);
    }
    while k > 0
        invariant
            k <= props@.len(),
            decl_of(props@, kind) == decl_of(props@.subrange(0, k as int), kind),
        decreases k,
    {
        proof {
            assert(props@.subrange(0, k as int).last() == props@[k - 1]);
            assert(props@.subrange(0, k as int).drop_last() =~= props@.subrange(0, k as int - 1));
        }
        if exec_kind_of(&props[k - 1]) == kind {
            return Some(props[k - 1]);
        }
        k = k - 1;
    }
    proof {
        assert(props@.subrange(0, 0) =~= Seq::<Property>::empty());
    }
    None
}

/// The cascade's winner for `kind` among `rules`, matched against `chain`:
/// the declaration of the matching rule with the highest specificity, later
/// rules winning ties. `None` when no matching rule declares `kind`.
pub open spec fn winner(rules: Seq<StyleRule>, chain: Seq<EntityMeta>, kind: PropKind) -> Option<
    (int, Property),
>
    decreases rules.len(),
{
    if rules.len() == 0 {
        None
    } else {
        let w = winner(rules.drop_last(), chain, kind);
        let r = rules.last();
        if chain_matches(r.selectors@, chain) && decl_of(r.properties@, kind) is Some {
            let s = r.specificity_spec();
            match w {
                None => Some((s, decl_of(r.properties@, kind)->0)),
                Some((ws, wp)) => {
                    if s >= ws {
                        Some((s, decl_of(r.properties@, kind)->0))
                    } else {
                        Some((ws, wp))
                    }
                },
            }
        } else {
            w
        }
    }
}

/// Computes the cascade's winner for one property kind.
pub fn winning_value(rules: &Vec<StyleRule>, chain: &Vec<EntityMeta>, kind: PropKind) -> (r: Option<
    Property,
>)
    requires
        forall|k: int| 0 <= k < rules@.len() ==> (#[trigger] rules@[k]).selectors@.len() <= 0xffff,
    ensures
        r is Some <==> winner(rules@, chain@, kind) is Some,
        r matches Some(p) ==> winner(rules@, chain@, kind) matches Some(w) && w.1 == p,
{
    let mut best: Option<(u64, Property)> = None;
    let mut k: usize = 0;
    while k < rules.len()
        invariant
            k <= rules@.len(),
            forall|j: int|
                0 <= j < rules@.len() ==> (#[trigger] rules@[j]).selectors@.len() <= 0xffff,
            match best {
                None => winner(rules@.subrange(0, k as int), chain@, kind) is None,
                Some((bs, bp)) => winner(rules@.subrange(0, k as int), chain@, kind) == Some(
                    (bs as int, bp),
                ),
            },
        decreases rules@.len() - k,
    {
        proof {
            assert(rules@.subrange(0, k as int + 1).drop_last() =~= rules@.subrange(0, k as int));
            assert(rules@.subrange(0, k as int + 1).last() == rules@[k as int]);
        }
        let matched = exec_chain_matches(&rules[k].selectors, chain);
        if matched {
            let decl = exec_decl_of(&rules[k].properties, kind);
            if let Some(p) = decl {
                let s = rules[k].specificity();
                match best {
                    None => {
                        best = Some((s, p));
                    },
                    Some((bs, _)) => {
                        if s >= bs {
                            best = Some((s, p));
                        }
                    },
                }
            }
        }
        k = k + 1;
    }
    proof {
        assert(rules@.subrange(0, rules@.len() as int) =~= rules@);
    }
    match best {
        None => None,
        Some((_, p)) => Some(p),
    }
}

/// Two metadata records that agree in content (string views, class lists,
/// pseudo-classes) — whatever their allocations.
pub open spec fn meta_view_eq(m1: EntityMeta, m2: EntityMeta) -> bool {
    &&& (match (m1.element, m2.element) {
        (Some(a), Some(b)) => a@ == b@,
        (None, None) => true,
        _ => false,
    })
    &&& (match (m1.id, m2.id) {
        (Some(a), Some(b)) => a@ == b@,
        (None, None) => true,
        _ => false,
    })
    &&& m1.classes@.len() == m2.classes@.len()
    &&& forall|k: int|
        0 <= k < m1.classes@.len() ==> (#[trigger] m1.classes@[k])@ == m2.classes@[k]@
    &&& m1.pseudo == m2.pseudo
}

/// Pointwise content equality of two metadata chains.
pub open spec fn chain_view_eq(c1: Seq<EntityMeta>, c2: Seq<EntityMeta>) -> bool {
    c1.len() == c2.len() && forall|k: int|
        0 <= k < c1.len() ==> meta_view_eq(#[trigger] c1[k], c2[k])
}

/// Selector matching reads only the metadata's content.
pub proof fn lemma_sel_matches_view(sel: Selector, m1: EntityMeta, m2: EntityMeta)
    requires
        meta_view_eq(m1, m2),
    ensures
        sel_matches_meta(sel, m1) == sel_matches_meta(sel, m2),
{
    assert forall|k: int|
        0 <= k < sel.classes@.len() && has_class(m1.classes@, (#[trigger] sel.classes@[k])@)
        implies has_class(m2.classes@, sel.classes@[k]@) by {
        let j = choose|j: int|
            0 <= j < m1.classes@.len() && (#[trigger] m1.classes@[j])@ == sel.classes@[k]@;
        assert(m2.classes@[j]@ == sel.classes@[k]@);
    }
    assert forall|k: int|
        0 <= k < sel.classes@.len() && has_class(m2.classes@, (#[trigger] sel.classes@[k])@)
        implies has_class(m1.classes@, sel.classes@[k]@) by {
        let j = choose|j: int|
            0 <= j < m2.classes@.len() && (#[trigger] m2.classes@[j])@ == sel.classes@[k]@;
        assert(m1.classes@[j]@ == sel.classes@[k]@);
    }
}

proof fn lemma_match_up_view(sels: Seq<Selector>, k: int, c1: Seq<EntityMeta>, c2: Seq<EntityMeta>, c: int)
    requires
        chain_view_eq(c1, c2),
    ensures
        match_up(sels, k, c1, c) == match_up(sels, k, c2, c),
    decreases k + 1, c1.len() - c,
{
    if k < 0 || c < 0 || c >= c1.len() {
    } else {
        lemma_sel_matches_view(sels[k], c1[c], c2[c]);
        if sels[k].relation == Relation::Parent {
            lemma_match_up_view(sels, k - 1, c1, c2, c + 1);
        } else {
            lemma_match_up_view(sels, k - 1, c1, c2, c + 1);
            lemma_match_up_view(sels, k, c1, c2, c + 1);
        }
    }
}

/// Chain matching reads only the chains' content.
pub proof fn lemma_chain_matches_view(sels: Seq<Selector>, c1: Seq<EntityMeta>, c2: Seq<EntityMeta>)
    requires
        chain_view_eq(c1, c2),
    ensures
        chain_matches(sels, c1) == chain_matches(sels, c2),
{
    if sels.len() >= 1 && c1.len() >= 1 {
        lemma_sel_matches_view(sels[sels.len() - 1], c1[0], c2[0]);
        lemma_match_up_view(sels, sels.len() - 2, c1, c2, 1);
    }
}

/// Cascade determinism: the winner is a pure function of the rule set and
/// the entities' metadata content — recomputing the cascade from the same
/// rules against content-equal metadata chains gives the same result, with
/// no hidden state.
pub proof fn lemma_cascade_deterministic(
    rules: Seq<StyleRule>,
    c1: Seq<EntityMeta>,
    c2: Seq<EntityMeta>,
    kind: PropKind,
)
    requires
        chain_view_eq(c1, c2),
    ensures
        winner(rules, c1, kind) == winner(rules, c2, kind),
    decreases rules.len(),
{
    if rules.len() > 0 {
        lemma_cascade_deterministic(rules.drop_last(), c1, c2, kind);
        lemma_chain_matches_view(rules.last().selectors@, c1, c2);
    }
}

/// Specificity ordering: between two rules that both match and both declare
/// the kind, the one of higher specificity wins; at equal specificity the
/// later one wins.
pub proof fn lemma_specificity_wins(
    r1: StyleRule,
    r2: StyleRule,
    chain: Seq<EntityMeta>,
    kind: PropKind,
)
    requires
        chain_matches(r1.selectors@, chain),
        chain_matches(r2.selectors@, chain),
        decl_of(r1.properties@, kind) is Some,
        decl_of(r2.properties@, kind) is Some,
    ensures
        r1.specificity_spec() > r2.specificity_spec() ==> winner(seq![r1, r2], chain, kind)
            == Some((r1.specificity_spec(), decl_of(r1.properties@, kind)->0)),
        r2.specificity_spec() >= r1.specificity_spec() ==> winner(seq![r1, r2], chain, kind)
            == Some((r2.specificity_spec(), decl_of(r2.properties@, kind)->0)),
{
    let s = seq![r1, r2];
    assert(s.drop_last() =~= seq![r1]);
    assert(seq![r1].drop_last() =~= Seq::<StyleRule>::empty());
    assert(winner(Seq::<StyleRule>::empty(), chain, kind) is None);
    assert(seq![r1].last() == r1);
    assert(winner(seq![r1], chain, kind) == Some(
        (r1.specificity_spec(), decl_of(r1.properties@, kind)->0),
    ));
    assert(s.last() == r2);
}

} // verus!
