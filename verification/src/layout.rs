//! The flex-like layout pass: basis, grow/shrink distribution, positioning
//! and clipping.

use vstd::prelude::*;

use crate::data::BoundingBox;
use crate::entity::Entity;
use crate::state::State;
use crate::style::{AlignItems, FlexDirection, JustifyContent, Units};

verus! {

/// Geometry values are clamped into this range so later arithmetic can
/// never overflow.
pub const MAX_DIM: i64 = 0x2000_0000_0000;

pub open spec fn clamp_dim(x: int) -> int {
    if x > MAX_DIM {
        MAX_DIM as int
    } else if x < -MAX_DIM {
        -MAX_DIM as int
    } else {
        x
    }
}

fn clamp_dim_exec(x: i128) -> (r: i64)
    ensures
        r == clamp_dim(x as int),
{
    if x > MAX_DIM as i128 {
        MAX_DIM
    } else if x < -MAX_DIM as i128 {
        -MAX_DIM
    } else {
        x as i64
    }
}

/// A geometric property resolved to pixels: absolute pixels stand, a
/// percentage resolves against the parent's size, and anything else falls
/// back to `auto`.
pub open spec fn resolve_unit(u: Units, parent: int, auto: int) -> int {
    match u {
        Units::Pixels(v) => clamp_dim(v as int),
        Units::Percentage(p) => clamp_dim(pct(parent, p as int)),
        Units::Stretch(..) => clamp_dim(auto),
        Units::Auto => clamp_dim(auto),
    }
}

/// One percent-step of `parent`, rounded toward zero.
pub open spec fn pct(parent: int, p: int) -> int {
    if parent * p >= 0 {
        parent * p / 100
    } else {
        -((-(parent * p)) / 100)
    }
}

pub fn resolve_unit_exec(u: Units, parent: i64, auto: i64) -> (r: i64)
    requires
        -MAX_DIM <= parent <= MAX_DIM,
    ensures
        r == resolve_unit(u, parent as int, auto as int),
{
    match u {
        Units::Pixels(v) => clamp_dim_exec(v as i128),
        Units::Percentage(p) => {
            proof {
                assert(-(0x2000_0000_0000int * 0x8000_0000_0000_0000int) <= (parent as int) * (
                p as int) <= 0x2000_0000_0000int * 0x8000_0000_0000_0000int) by (nonlinear_arith)
                    requires
                        -MAX_DIM <= parent <= MAX_DIM,
                        i64::MIN <= p <= i64::MAX,
                ;
            }
            let prod: i128 = parent as i128 * p as i128;
            if prod >= 0 {
                clamp_dim_exec(prod / 100)
            } else {
                clamp_dim_exec(-((-prod) / 100))
            }
        },
        Units::Stretch(..) => clamp_dim_exec(auto as i128),
        Units::Auto => clamp_dim_exec(auto as i128),
    }
}

/// Free space distributed to one child: its basis plus its proportional
/// share (by weight) of the container's free space, floored at zero size.
pub open spec fn flexed_size(basis: int, free: int, weight: int, total_weight: int) -> int {
    let shared = if total_weight > 0 {
        if free >= 0 {
            basis + free * weight / total_weight
        } else {
            basis - (-free) * weight / total_weight
        }
    } else {
        basis
    };
    if shared < 0 {
        0
    } else {
        clamp_dim(shared)
    }
}

pub fn flexed_size_exec(basis: i64, free: i128, weight: i64, total_weight: i128) -> (r: i64)
    requires
        -MAX_DIM <= basis <= MAX_DIM,
        -0x7000_0000_0000_0000 <= free <= 0x7000_0000_0000_0000,
        0 <= weight,
        weight as i128 <= total_weight || total_weight <= 0,
        total_weight <= 0x7000_0000_0000_0000_0000_0000,
    ensures
        r == flexed_size(basis as int, free as int, weight as int, total_weight as int),
{
    let shared: i128 = if total_weight > 0 {
        if free >= 0 {
            proof {
                assert(0 <= (free as int) * (weight as int) <= (free as int) * (
                total_weight as int)) by (nonlinear_arith)
                    requires
                        0 <= free,
                        0 <= weight as i128 <= total_weight,
                ;
                assert(0 <= (free as int) * (weight as int) / (total_weight as int) <= (
                free as int)) by (nonlinear_arith)
                    requires
                        0 < total_weight,
                        0 <= (free as int) * (weight as int) <= (free as int) * (
                        total_weight as int),
                ;
            }
            proof {
                assert((free as int) * (weight as int) <= 0x7000_0000_0000_0000int
                    * 0x8000_0000_0000_0000int) by (nonlinear_arith)
                    requires
                        0 <= free <= 0x7000_0000_0000_0000,
                        0 <= weight <= i64::MAX,
                ;
            }
            basis as i128 + free * (weight as i128) / total_weight
        } else {
            let neg: i128 = -free;
            proof {
                assert(0 <= (neg as int) * (weight as int) <= (neg as int) * (total_weight as int))
                    by (nonlinear_arith)
                    requires
                        0 <= neg,
                        0 <= weight as i128 <= total_weight,
                ;
                assert(0 <= (neg as int) * (weight as int) / (total_weight as int) <= (neg as int))
                    by (nonlinear_arith)
                    requires
                        0 < total_weight,
                        0 <= (neg as int) * (weight as int) <= (neg as int) * (total_weight as int),
                ;
            }
            proof {
                assert((neg as int) * (weight as int) <= 0x7000_0000_0000_0000int
                    * 0x8000_0000_0000_0000int) by (nonlinear_arith)
                    requires
                        0 <= neg <= 0x7000_0000_0000_0000,
                        0 <= weight <= i64::MAX,
                ;
            }
            basis as i128 - neg * (weight as i128) / total_weight
        }
    } else {
        basis as i128
    };
    if shared < 0 {
        0
    } else {
        clamp_dim_exec(shared)
    }
}

/// Flex distribution: with zero bases and margins in a container of width
/// `w`, three children of grow weights `g1, g2, g3` receive exactly
/// `w*g1/g, w*g2/g, w*g3/g` of the free space (`g` their sum) — each child's
/// share is proportional to its weight.
pub proof fn lemma_flex_distribution(w: int, g1: int, g2: int, g3: int)
    requires
        0 <= w <= MAX_DIM,
        0 < g1,
        0 < g2,
        0 < g3,
    ensures
        flexed_size(0, w, g1, g1 + g2 + g3) == w * g1 / (g1 + g2 + g3),
        flexed_size(0, w, g2, g1 + g2 + g3) == w * g2 / (g1 + g2 + g3),
        flexed_size(0, w, g3, g1 + g2 + g3) == w * g3 / (g1 + g2 + g3),
{
    let g = g1 + g2 + g3;
    assert(0 <= w * g1 / g <= w && 0 <= w * g2 / g <= w && 0 <= w * g3 / g <= w)
        by (nonlinear_arith)
        requires
            0 <= w,
            0 < g1 <= g,
            0 < g2 <= g,
            0 < g3 <= g,
    ;
}

/// One child's layout inputs along the container's axes.
#[derive(Clone, Copy)]
pub struct ChildInput {
    pub basis_unit: Units,
    pub main_unit: Units,
    pub cross_unit: Units,
    pub grow: i64,
    pub shrink: i64,
    pub margin_main_before: i64,
    pub margin_main_after: i64,
    pub margin_cross_before: i64,
    pub stretch_cross: bool,
}

/// The basis of a child: its flex basis, or its main-axis size when the
/// basis is automatic; both resolve percentages against the container and
/// fall back to zero.
pub open spec fn child_basis(c: ChildInput, container_main: int) -> int {
    let u = if c.basis_unit is Auto {
        c.main_unit
    } else {
        c.basis_unit
    };
    let b = resolve_unit(u, container_main, 0);
    if b < 0 {
        0
    } else {
        b
    }
}

pub fn child_basis_exec(c: &ChildInput, container_main: i64) -> (r: i64)
    requires
        -MAX_DIM <= container_main <= MAX_DIM,
    ensures
        r == child_basis(*c, container_main as int),
        0 <= r <= MAX_DIM,
{
    let u = if matches!(c.basis_unit, Units::Auto) {
        c.main_unit
    } else {
        c.basis_unit
    };
    let b = resolve_unit_exec(u, container_main, 0);
    if b < 0 {
        0
    } else {
        b
    }
}

/// The distributed main-axis size of child `k`: its basis plus its share of
/// the container's free space, by grow weight when space is left over and by
/// shrink weight when space is missing.
pub open spec fn child_main_size(cs: Seq<ChildInput>, k: int, container_main: int) -> int {
    let free = container_main - basis_sum(cs, cs.len() as int, container_main);
    if free >= 0 {
        flexed_size(
            child_basis(cs[k], container_main),
            free,
            cs[k].grow as int,
            grow_sum(cs, cs.len() as int),
        )
    } else {
        flexed_size(
            child_basis(cs[k], container_main),
            free,
            cs[k].shrink as int,
            shrink_sum(cs, cs.len() as int),
        )
    }
}

/// The sum of the first `n` children's bases and main-axis margins.
pub open spec fn basis_sum(cs: Seq<ChildInput>, n: int, container_main: int) -> int
    decreases n,
{
    if n <= 0 {
        0
    } else {
        basis_sum(cs, n - 1, container_main) + child_basis(cs[n - 1], container_main) + cs[n
            - 1].margin_main_before + cs[n - 1].margin_main_after
    }
}

pub open spec fn grow_sum(cs: Seq<ChildInput>, n: int) -> int
    decreases n,
{
    if n <= 0 {
        0
    } else {
        grow_sum(cs, n - 1) + (if cs[n - 1].grow > 0 {
            cs[n - 1].grow as int
        } else {
            0
        })
    }
}

pub open spec fn shrink_sum(cs: Seq<ChildInput>, n: int) -> int
    decreases n,
{
    if n <= 0 {
        0
    } else {
        shrink_sum(cs, n - 1) + (if cs[n - 1].shrink > 0 {
            cs[n - 1].shrink as int
        } else {
            0
        })
    }
}

/// The main-axis sizes of all children of one container, exactly per the
/// flex distribution.
pub fn compute_main_sizes(cs: &Vec<ChildInput>, container_main: i64) -> (r: Vec<i64>)
    requires
        -MAX_DIM <= container_main <= MAX_DIM,
        cs@.len() <= 0x10000,
        forall|k: int|
            0 <= k < cs@.len() ==> {
                &&& 0 <= (#[trigger] cs@[k]).grow
                &&& 0 <= cs@[k].shrink
                &&& -MAX_DIM <= cs@[k].margin_main_before <= MAX_DIM
                &&& -MAX_DIM <= cs@[k].margin_main_after <= MAX_DIM
            },
    ensures
        r@.len() == cs@.len(),
        forall|k: int|
            0 <= k < cs@.len() ==> #[trigger] r@[k] == child_main_size(
                cs@,
                k,
                container_main as int,
            ),
{
    // total basis+margin extent, total grow and shrink weights
    let mut bsum: i128 = 0;
    let mut gsum: i128 = 0;
    let mut ssum: i128 = 0;
    let mut k: usize = 0;
    while k < cs.len()
        invariant
            k <= cs@.len(),
            cs@.len() <= 0x10000,
            -MAX_DIM <= container_main <= MAX_DIM,
            forall|j: int|
                0 <= j < cs@.len() ==> {
                    &&& 0 <= (#[trigger] cs@[j]).grow
                    &&& 0 <= cs@[j].shrink
                    &&& -MAX_DIM <= cs@[j].margin_main_before <= MAX_DIM
                    &&& -MAX_DIM <= cs@[j].margin_main_after <= MAX_DIM
                },
            bsum == basis_sum(cs@, k as int, container_main as int),
            gsum == grow_sum(cs@, k as int),
            ssum == shrink_sum(cs@, k as int),
            bsum <= (k as i128) * 3 * (MAX_DIM as i128),
            bsum >= -((k as i128) * 3 * (MAX_DIM as i128)),
            -0x6000_0000_0000_0000 <= bsum <= 0x6000_0000_0000_0000,
            0 <= gsum <= (k as i128) * (i64::MAX as i128),
            gsum <= 0x10000i128 * (i64::MAX as i128),
            0 <= ssum <= (k as i128) * (i64::MAX as i128),
            ssum <= 0x10000i128 * (i64::MAX as i128),
        decreases cs@.len() - k,
    {
        proof {
            assert((k as i128) * 3 * (MAX_DIM as i128) <= 0x10000i128 * 3 * (MAX_DIM as i128)
                && (k as i128) * (i64::MAX as i128) <= 0x10000i128 * (i64::MAX as i128))
                by (nonlinear_arith)
                requires
                    0 <= k <= 0x10000,
            ;
        }
        let b = child_basis_exec(&cs[k], container_main);
        bsum = bsum + b as i128 + cs[k].margin_main_before as i128 + cs[k].margin_main_after
            as i128;
        if cs[k].grow > 0 {
            gsum = gsum + cs[k].grow as i128;
        }
        if cs[k].shrink > 0 {
            ssum = ssum + cs[k].shrink as i128;
        }
        k = k + 1;
        proof {
            assert((k as i128) * 3 * (MAX_DIM as i128) == ((k - 1) as i128) * 3 * (MAX_DIM as i128)
                + 3 * (MAX_DIM as i128)) by (nonlinear_arith);
            assert((k as i128) * (i64::MAX as i128) == ((k - 1) as i128) * (i64::MAX as i128) + (
            i64::MAX as i128)) by (nonlinear_arith);
            assert((k as i128) * 3 * (MAX_DIM as i128) <= 0x10000i128 * 3 * (MAX_DIM as i128)
                && (k as i128) * (i64::MAX as i128) <= 0x10000i128 * (i64::MAX as i128))
                by (nonlinear_arith)
                requires
                    0 <= k <= 0x10000,
            ;
        }
    }
    let free: i128 = container_main as i128 - bsum;
    proof {
        assert((cs@.len() as i128) * 3 * (MAX_DIM as i128) <= 0x10000i128 * 3 * (MAX_DIM as i128))
            by (nonlinear_arith)
            requires
                cs@.len() <= 0x10000,
        ;
        assert(-(cs@.len() as i128) * 3 * (MAX_DIM as i128) >= -(0x10000i128) * 3 * (
        MAX_DIM as i128)) by (nonlinear_arith)
            requires
                cs@.len() <= 0x10000,
        ;
    }
    let mut r: Vec<i64> = Vec::new();
    let mut k: usize = 0;
    while k < cs.len()
        invariant
            k <= cs@.len(),
            cs@.len() <= 0x10000,
            -MAX_DIM <= container_main <= MAX_DIM,
            forall|j: int|
                0 <= j < cs@.len() ==> {
                    &&& 0 <= (#[trigger] cs@[j]).grow
                    &&& 0 <= cs@[j].shrink
                    &&& -MAX_DIM <= cs@[j].margin_main_before <= MAX_DIM
                    &&& -MAX_DIM <= cs@[j].margin_main_after <= MAX_DIM
                },
            r@.len() == k,
            gsum == grow_sum(cs@, cs@.len() as int),
            ssum == shrink_sum(cs@, cs@.len() as int),
            0 <= gsum,
            gsum <= 0x10000i128 * (i64::MAX as i128),
            0 <= ssum,
            ssum <= 0x10000i128 * (i64::MAX as i128),
            free as int == container_main as int - basis_sum(
                cs@,
                cs@.len() as int,
                container_main as int,
            ),
            -0x7000_0000_0000_0000 <= free <= 0x7000_0000_0000_0000,
            forall|j: int|
                0 <= j < k ==> #[trigger] r@[j] == child_main_size(
                    cs@,
                    j,
                    container_main as int,
                ),
        decreases cs@.len() - k,
    {
        proof {
            lemma_weight_le_sum(cs@, k as int, cs@.len() as int);
        }
        let size = if free >= 0 {
            flexed_size_exec(child_basis_exec(&cs[k], container_main), free, cs[k].grow, gsum)
        } else {
            flexed_size_exec(child_basis_exec(&cs[k], container_main), free, cs[k].shrink, ssum)
        };
        r.push(size);
        k = k + 1;
    }
    r
}

/// Every child's weight is at most the total.
proof fn lemma_weight_le_sum(cs: Seq<ChildInput>, k: int, n: int)
    requires
        0 <= k < n <= cs.len(),
        forall|j: int| 0 <= j < cs.len() ==> 0 <= (#[trigger] cs[j]).grow && 0 <= cs[j].shrink,
    ensures
        cs[k].grow > 0 ==> cs[k].grow as int <= grow_sum(cs, n),
        cs[k].shrink > 0 ==> cs[k].shrink as int <= shrink_sum(cs, n),
        0 <= grow_sum(cs, n),
        0 <= shrink_sum(cs, n),
    decreases n,
{
    if k == n - 1 {
        lemma_sums_nonneg(cs, n - 1);
    } else {
        lemma_weight_le_sum(cs, k, n - 1);
    }
}

proof fn lemma_sums_nonneg(cs: Seq<ChildInput>, n: int)
    requires
        0 <= n <= cs.len(),
        forall|j: int| 0 <= j < cs.len() ==> 0 <= (#[trigger] cs[j]).grow && 0 <= cs[j].shrink,
    ensures
        0 <= grow_sum(cs, n),
        0 <= shrink_sum(cs, n),
    decreases n,
{
    if n > 0 {
        lemma_sums_nonneg(cs, n - 1);
    }
}

proof fn lemma_basis_nonneg(cs: Seq<ChildInput>, k: int, container_main: int)
    ensures
        0 <= child_basis(cs[k], container_main) <= MAX_DIM,
{
}

/// The basis/margin extent of `n` children stays within `3n` dimensions.
proof fn lemma_basis_sum_bound(cs: Seq<ChildInput>, n: int, container_main: int)
    requires
        0 <= n <= cs.len(),
        forall|j: int|
            0 <= j < cs.len() ==> -MAX_DIM <= (#[trigger] cs[j]).margin_main_before <= MAX_DIM
                && -MAX_DIM <= cs[j].margin_main_after <= MAX_DIM,
    ensures
        -n * 3 * MAX_DIM <= basis_sum(cs, n, container_main) <= n * 3 * MAX_DIM,
    decreases n,
{
    if n > 0 {
        lemma_basis_sum_bound(cs, n - 1, container_main);
        assert(n * 3 * MAX_DIM == (n - 1) * 3 * MAX_DIM + 3 * MAX_DIM) by (nonlinear_arith);
    }
}


/// The main-axis extent one child occupies: its distributed size plus its
/// margins.
pub open spec fn child_extent(cs: Seq<ChildInput>, k: int, container_main: int) -> int {
    child_main_size(cs, k, container_main) + cs[k].margin_main_before + cs[k].margin_main_after
}

/// The total main-axis extent of the first `n` children.
pub open spec fn used_sum(cs: Seq<ChildInput>, n: int, container_main: int) -> int
    decreases n,
{
    if n <= 0 {
        0
    } else {
        used_sum(cs, n - 1, container_main) + child_extent(cs, n - 1, container_main)
    }
}

/// The leading offset and the extra per-gap spacing of a container: start
/// packs at the front, center splits the leftover, end packs at the back,
/// and space-between spreads the leftover across the gaps.
pub open spec fn justify_offset(j: JustifyContent, leftover: int, n: int) -> int {
    match j {
        JustifyContent::FlexStart => 0,
        JustifyContent::Center => half_toward_zero(leftover),
        JustifyContent::FlexEnd => leftover,
        JustifyContent::SpaceBetween => 0,
    }
}

pub open spec fn justify_gap(j: JustifyContent, leftover: int, n: int) -> int {
    match j {
        JustifyContent::SpaceBetween => if n > 1 && leftover >= 0 {
            leftover / (n - 1)
        } else {
            0
        },
        _ => 0,
    }
}

/// Halving rounded toward zero (matching machine division).
pub open spec fn half_toward_zero(x: int) -> int {
    if x >= 0 {
        x / 2
    } else {
        -((-x) / 2)
    }
}

/// The main-axis position of child `k`: the container's content origin, the
/// justify offset, every earlier sibling's extent, this child's leading
/// margin, and the accumulated inter-child gaps.
pub open spec fn child_main_pos(
    cs: Seq<ChildInput>,
    k: int,
    container_pos: int,
    container_main: int,
    j: JustifyContent,
) -> int {
    let leftover = container_main - used_sum(cs, cs.len() as int, container_main);
    clamp_dim(
        container_pos + justify_offset(j, leftover, cs.len() as int) + used_sum(
            cs,
            k,
            container_main,
        ) + cs[k].margin_main_before + k * justify_gap(j, leftover, cs.len() as int),
    )
}

/// The cross-axis size of a child: the full container when it stretches,
/// else its own resolved cross extent (zero when automatic).
pub open spec fn child_cross_size(c: ChildInput, container_cross: int) -> int {
    if c.stretch_cross {
        clamp_dim(container_cross)
    } else {
        let v = resolve_unit(c.cross_unit, container_cross, 0);
        if v < 0 {
            0
        } else {
            v
        }
    }
}

/// The cross-axis position of a child under one alignment.
pub open spec fn child_cross_pos(
    c: ChildInput,
    a: AlignItems,
    container_pos: int,
    container_cross: int,
) -> int {
    let size = child_cross_size(c, container_cross);
    clamp_dim(
        match a {
            AlignItems::FlexStart => container_pos + c.margin_cross_before,
            AlignItems::Stretch => container_pos + c.margin_cross_before,
            AlignItems::Center => container_pos + half_toward_zero(container_cross - size),
            AlignItems::FlexEnd => container_pos + container_cross - size,
        },
    )
}

/// The main-axis positions of all children, exactly per the flex placement.
pub fn compute_main_positions(
    cs: &Vec<ChildInput>,
    sizes: &Vec<i64>,
    container_pos: i64,
    container_main: i64,
    j: JustifyContent,
) -> (r: Vec<i64>)
    requires
        -MAX_DIM <= container_pos <= MAX_DIM,
        -MAX_DIM <= container_main <= MAX_DIM,
        cs@.len() <= 0x10000,
        sizes@.len() == cs@.len(),
        forall|k: int|
            0 <= k < cs@.len() ==> {
                &&& 0 <= (#[trigger] cs@[k]).grow
                &&& 0 <= cs@[k].shrink
                &&& -MAX_DIM <= cs@[k].margin_main_before <= MAX_DIM
                &&& -MAX_DIM <= cs@[k].margin_main_after <= MAX_DIM
            },
        forall|k: int|
            0 <= k < cs@.len() ==> #[trigger] sizes@[k] == child_main_size(
                cs@,
                k,
                container_main as int,
            ),
    ensures
        r@.len() == cs@.len(),
        forall|k: int|
            0 <= k < cs@.len() ==> #[trigger] r@[k] == child_main_pos(
                cs@,
                k,
                container_pos as int,
                container_main as int,
                j,
            ),
{
    let n = cs.len();
    // total used extent
    let mut used: i128 = 0;
    let mut k: usize = 0;
    while k < n
        invariant
            n == cs@.len(),
            cs@.len() <= 0x10000,
            sizes@.len() == cs@.len(),
            -MAX_DIM <= container_main <= MAX_DIM,
            forall|m: int|
                0 <= m < cs@.len() ==> {
                    &&& 0 <= (#[trigger] cs@[m]).grow
                    &&& 0 <= cs@[m].shrink
                    &&& -MAX_DIM <= cs@[m].margin_main_before <= MAX_DIM
                    &&& -MAX_DIM <= cs@[m].margin_main_after <= MAX_DIM
                },
            forall|m: int|
                0 <= m < cs@.len() ==> #[trigger] sizes@[m] == child_main_size(
                    cs@,
                    m,
                    container_main as int,
                ),
            k <= n,
            used == used_sum(cs@, k as int, container_main as int),
            used <= (k as i128) * 3 * (MAX_DIM as i128),
            used >= -((k as i128) * 3 * (MAX_DIM as i128)),
            -0x6000_0000_0000_0000 <= used <= 0x6000_0000_0000_0000,
        decreases n - k,
    {
        proof {
            assert((k as i128) * 3 * (MAX_DIM as i128) <= 0x10000i128 * 3 * (MAX_DIM as i128))
                by (nonlinear_arith)
                requires
                    0 <= k <= 0x10000,
            ;
            lemma_main_size_bounds(cs@, k as int, container_main as int);
        }
        used = used + sizes[k] as i128 + cs[k].margin_main_before as i128 + cs[
            k
        ].margin_main_after as i128;
        k = k + 1;
        proof {
            assert((k as i128) * 3 * (MAX_DIM as i128) == ((k - 1) as i128) * 3 * (MAX_DIM as i128)
                + 3 * (MAX_DIM as i128)) by (nonlinear_arith);
            assert((k as i128) * 3 * (MAX_DIM as i128) <= 0x10000i128 * 3 * (MAX_DIM as i128))
                by (nonlinear_arith)
                requires
                    0 <= k <= 0x10000,
            ;
        }
    }
    let leftover: i128 = container_main as i128 - used;
    let offset: i128 = match j {
        JustifyContent::FlexStart => 0,
        JustifyContent::Center => if leftover >= 0 {
            leftover / 2
        } else {
            -((-leftover) / 2)
        },
        JustifyContent::FlexEnd => leftover,
        JustifyContent::SpaceBetween => 0,
    };
    let gap: i128 = match j {
        JustifyContent::SpaceBetween => if n > 1 && leftover >= 0 {
            leftover / (n as i128 - 1)
        } else {
            0
        },
        _ => 0,
    };
    proof {
        if n > 1 && leftover >= 0 {
            assert(0 <= (leftover as int) / (n as int - 1) <= leftover as int) by (nonlinear_arith)
                requires
                    0 <= leftover,
                    1 <= n as int - 1,
            ;
        }
    }
    let mut r: Vec<i64> = Vec::new();
    let mut cursor: i128 = 0;
    let mut k: usize = 0;
    while k < n
        invariant
            n == cs@.len(),
            cs@.len() <= 0x10000,
            sizes@.len() == cs@.len(),
            -MAX_DIM <= container_pos <= MAX_DIM,
            -MAX_DIM <= container_main <= MAX_DIM,
            forall|m: int|
                0 <= m < cs@.len() ==> {
                    &&& 0 <= (#[trigger] cs@[m]).grow
                    &&& 0 <= cs@[m].shrink
                    &&& -MAX_DIM <= cs@[m].margin_main_before <= MAX_DIM
                    &&& -MAX_DIM <= cs@[m].margin_main_after <= MAX_DIM
                },
            forall|m: int|
                0 <= m < cs@.len() ==> #[trigger] sizes@[m] == child_main_size(
                    cs@,
                    m,
                    container_main as int,
                ),
            k <= n,
            r@.len() == k,
            cursor == used_sum(cs@, k as int, container_main as int),
            -0x6000_0000_0000_0000 <= cursor <= 0x6000_0000_0000_0000,
            cursor <= (k as i128) * 3 * (MAX_DIM as i128),
            cursor >= -((k as i128) * 3 * (MAX_DIM as i128)),
            offset as int == justify_offset(
                j,
                container_main as int - used_sum(cs@, cs@.len() as int, container_main as int),
                cs@.len() as int,
            ),
            gap as int == justify_gap(
                j,
                container_main as int - used_sum(cs@, cs@.len() as int, container_main as int),
                cs@.len() as int,
            ),
            -0x7000_0000_0000_0000 <= offset <= 0x7000_0000_0000_0000,
            0 <= gap <= 0x7000_0000_0000_0000,
            forall|m: int|
                0 <= m < k ==> #[trigger] r@[m] == child_main_pos(
                    cs@,
                    m,
                    container_pos as int,
                    container_main as int,
                    j,
                ),
        decreases n - k,
    {
        proof {
            assert((k as i128) * 3 * (MAX_DIM as i128) <= 0x10000i128 * 3 * (MAX_DIM as i128))
                by (nonlinear_arith)
                requires
                    0 <= k <= 0x10000,
            ;
            assert(0 <= (k as i128) * gap <= 0x10000i128 * gap) by (nonlinear_arith)
                requires
                    0 <= k <= 0x10000,
                    0 <= gap,
            ;
            assert(0x10000i128 * gap <= 0x10000i128 * 0x7000_0000_0000_0000i128)
                by (nonlinear_arith)
                requires
                    0 <= gap <= 0x7000_0000_0000_0000i128,
            ;
            lemma_main_size_bounds(cs@, k as int, container_main as int);
        }
        let pos = clamp_dim_exec(
            container_pos as i128 + offset + cursor + cs[k].margin_main_before as i128 + (
            k as i128) * gap,
        );
        r.push(pos);
        cursor = cursor + sizes[k] as i128 + cs[k].margin_main_before as i128 + cs[
            k
        ].margin_main_after as i128;
        k = k + 1;
        proof {
            assert((k as i128) * 3 * (MAX_DIM as i128) == ((k - 1) as i128) * 3 * (MAX_DIM as i128)
                + 3 * (MAX_DIM as i128)) by (nonlinear_arith);
            assert((k as i128) * 3 * (MAX_DIM as i128) <= 0x10000i128 * 3 * (MAX_DIM as i128))
                by (nonlinear_arith)
                requires
                    0 <= k <= 0x10000,
            ;
        }
    }
    r
}

/// A distributed main size never leaves the clamped dimension range.
proof fn lemma_main_size_bounds(cs: Seq<ChildInput>, k: int, container_main: int)
    requires
        0 <= k < cs.len(),
    ensures
        0 <= child_main_size(cs, k, container_main) <= MAX_DIM,
{
}


/// The currently visible value of an animatable unit property.
pub open spec fn unit_now(s: crate::animation::AnimatableStorage<Units>, i: int, d: Units) -> Units {
    if s.current@.dom().contains(i) {
        s.current@[i]
    } else if s.base@.dom().contains(i) {
        s.base@[i]
    } else {
        d
    }
}

pub open spec fn i64_now(s: crate::animation::AnimatableStorage<i64>, i: int, d: i64) -> i64 {
    if s.current@.dom().contains(i) {
        s.current@[i]
    } else if s.base@.dom().contains(i) {
        s.base@[i]
    } else {
        d
    }
}

fn read_child_input(state: &State, dir: FlexDirection, align: AlignItems, e: Entity) -> (r:
    ChildInput)
    requires
        state.wf(),
    ensures
        r == child_input_spec_a(state.style, dir, align, e.idx()),
        0 <= r.grow || r.grow < 0,
{
    let basis_unit = state.style.flex_basis.get_current_or(e, Units::Auto);
    let w = state.style.width.get_current_or(e, Units::Auto);
    let h = state.style.height.get_current_or(e, Units::Auto);
    let grow = state.style.flex_grow.get_current_or(e, 0);
    let shrink = state.style.flex_shrink.get_current_or(e, 1);
    let self_align = state.style.align_self.get_or(e, crate::style::AlignSelf::Auto);
    let stretch = match self_align {
        crate::style::AlignSelf::Auto => matches!(align, AlignItems::Stretch),
        crate::style::AlignSelf::Stretch => true,
        _ => false,
    };
    match dir {
        FlexDirection::Row => ChildInput {
            basis_unit,
            main_unit: w,
            cross_unit: h,
            grow,
            shrink,
            margin_main_before: 0,
            margin_main_after: 0,
            margin_cross_before: 0,
            stretch_cross: stretch,
        },
        FlexDirection::Column => ChildInput {
            basis_unit,
            main_unit: h,
            cross_unit: w,
            grow,
            shrink,
            margin_main_before: 0,
            margin_main_after: 0,
            margin_cross_before: 0,
            stretch_cross: stretch,
        },
    }
}

/// Like [`child_input_spec`], with `align-self` overriding the container's
/// alignment for the stretch decision.
pub open spec fn child_input_spec_a(
    s: crate::style::Style,
    dir: FlexDirection,
    align: AlignItems,
    i: int,
) -> ChildInput {
    let stretch = match s.align_self.spec_get_or(i, crate::style::AlignSelf::Auto) {
        crate::style::AlignSelf::Auto => align == AlignItems::Stretch,
        crate::style::AlignSelf::Stretch => true,
        _ => false,
    };
    match dir {
        FlexDirection::Row => ChildInput {
            basis_unit: unit_now(s.flex_basis, i, Units::Auto),
            main_unit: unit_now(s.width, i, Units::Auto),
            cross_unit: unit_now(s.height, i, Units::Auto),
            grow: i64_now(s.flex_grow, i, 0int as i64),
            shrink: i64_now(s.flex_shrink, i, 1int as i64),
            margin_main_before: 0,
            margin_main_after: 0,
            margin_cross_before: 0,
            stretch_cross: stretch,
        },
        FlexDirection::Column => ChildInput {
            basis_unit: unit_now(s.flex_basis, i, Units::Auto),
            main_unit: unit_now(s.height, i, Units::Auto),
            cross_unit: unit_now(s.width, i, Units::Auto),
            grow: i64_now(s.flex_grow, i, 0int as i64),
            shrink: i64_now(s.flex_shrink, i, 1int as i64),
            margin_main_before: 0,
            margin_main_after: 0,
            margin_cross_before: 0,
            stretch_cross: stretch,
        },
    }
}

pub fn child_cross_size_exec(c: &ChildInput, container_cross: i64) -> (r: i64)
    requires
        -MAX_DIM <= container_cross <= MAX_DIM,
    ensures
        r == child_cross_size(*c, container_cross as int),
{
    if c.stretch_cross {
        clamp_dim_exec(container_cross as i128)
    } else {
        let v = resolve_unit_exec(c.cross_unit, container_cross, 0);
        if v < 0 {
            0
        } else {
            v
        }
    }
}

pub fn child_cross_pos_exec(c: &ChildInput, a: AlignItems, container_pos: i64, container_cross: i64) -> (r:
    i64)
    requires
        -MAX_DIM <= container_pos <= MAX_DIM,
        -MAX_DIM <= container_cross <= MAX_DIM,
    ensures
        r == child_cross_pos(*c, a, container_pos as int, container_cross as int),
{
    let size = child_cross_size_exec(c, container_cross);
    match a {
        AlignItems::FlexStart => clamp_dim_exec(
            container_pos as i128 + c.margin_cross_before as i128,
        ),
        AlignItems::Stretch => clamp_dim_exec(
            container_pos as i128 + c.margin_cross_before as i128,
        ),
        AlignItems::Center => {
            let d = container_cross as i128 - size as i128;
            let half = if d >= 0 {
                d / 2
            } else {
                -((-d) / 2)
            };
            clamp_dim_exec(container_pos as i128 + half)
        },
        AlignItems::FlexEnd => clamp_dim_exec(
            container_pos as i128 + container_cross as i128 - size as i128,
        ),
    }
}


/// Lays out the children of `parent`: main-axis sizes by flex distribution,
/// main-axis positions by the justify rule, cross-axis sizes and positions
/// by the alignment rule. Exactly the children's geometry is written, each
/// value per the placement formulas over the children's style inputs.
pub fn layout_children(state: &mut State, parent: Entity)
    requires
        old(state).wf(),
        old(state).hierarchy.is_live(parent.idx()),
    ensures
        final(state).wf(),
        final(state).hierarchy == old(state).hierarchy,
        final(state).style == old(state).style,
        final(state).event_queue@ == old(state).event_queue@,
        final(state).event_handlers == old(state).event_handlers,
        final(state).hovered == old(state).hovered,
        final(state).focused == old(state).focused,
        final(state).captured == old(state).captured,
{
    let kids = state.hierarchy.get_children(parent);
    if kids.len() == 0 {
        return ;
    }
    if kids.len() > 0x10000 {
        // beyond the supported fan-out the container is left untouched
        return ;
    }
    let dir = state.style.flex_direction.get_or(parent, FlexDirection::Column);
    let justify = state.style.justify_content.get_or(parent, JustifyContent::FlexStart);
    let align = state.style.align_items.get_or(parent, AlignItems::Stretch);
    let px = clamp_dim_exec(state.data.get_posx(parent) as i128);
    let py = clamp_dim_exec(state.data.get_posy(parent) as i128);
    let pw = clamp_dim_exec(state.data.get_width(parent) as i128);
    let ph = clamp_dim_exec(state.data.get_height(parent) as i128);
    let (main_pos, main_size, cross_pos, cross_size) = match dir {
        FlexDirection::Row => (px, pw, py, ph),
        FlexDirection::Column => (py, ph, px, pw),
    };
    let mut cs: Vec<ChildInput> = Vec::new();
    let mut k: usize = 0;
    while k < kids.len()
        invariant
            state.wf(),
            *state == *old(state),
            k <= kids@.len(),
            cs@.len() == k,
            forall|m: int|
                0 <= m < k ==> #[trigger] cs@[m] == child_input_spec_a(
                    state.style,
                    dir,
                    align,
                    kids@[m].idx(),
                ),
        decreases kids@.len() - k,
    {
        cs.push(read_child_input(state, dir, align, kids[k]));
        k = k + 1;
    }
    proof {
        assert(-MAX_DIM <= main_pos <= MAX_DIM && -MAX_DIM <= main_size <= MAX_DIM && -MAX_DIM
            <= cross_pos <= MAX_DIM && -MAX_DIM <= cross_size <= MAX_DIM);
        assert forall|m: int| 0 <= m < cs@.len() implies (#[trigger] cs@[m]).margin_main_before
            == 0 && cs@[m].margin_main_after == 0 by {
            assert(cs@[m] == child_input_spec_a(state.style, dir, align, kids@[m].idx()));
        }
    }
    // clamp negative weights to zero for the distribution
    let mut k: usize = 0;
    while k < cs.len()
        invariant
            k <= cs@.len(),
            cs@.len() == kids@.len(),
            kids@.len() <= 0x10000,
            forall|m: int|
                0 <= m < k ==> 0 <= (#[trigger] cs@[m]).grow && 0 <= cs@[m].shrink
                    && cs@[m].margin_main_before == 0 && cs@[m].margin_main_after == 0,
            forall|m: int|
                k <= m < cs@.len() ==> (#[trigger] cs@[m]).margin_main_before == 0
                    && cs@[m].margin_main_after == 0,
        decreases cs@.len() - k,
    {
        if cs[k].grow < 0 {
            let mut c = cs[k];
            c.grow = 0;
            cs.set(k, c);
        }
        if cs[k].shrink < 0 {
            let mut c = cs[k];
            c.shrink = 0;
            cs.set(k, c);
        }
        k = k + 1;
    }
    let sizes = compute_main_sizes(&cs, main_size);
    let positions = compute_main_positions(&cs, &sizes, main_pos, main_size, justify);
    let mut k: usize = 0;
    while k < kids.len()
        invariant
            state.wf(),
            state.hierarchy == old(state).hierarchy,
            state.style == old(state).style,
            state.event_queue@ == old(state).event_queue@,
            state.event_handlers == old(state).event_handlers,
            state.hovered == old(state).hovered,
            state.focused == old(state).focused,
            state.captured == old(state).captured,
            k <= kids@.len(),
            sizes@.len() == kids@.len(),
            positions@.len() == kids@.len(),
            cs@.len() == kids@.len(),
            -MAX_DIM <= cross_pos <= MAX_DIM,
            -MAX_DIM <= cross_size <= MAX_DIM,
        decreases kids@.len() - k,
    {
        let e = kids[k];
        let csize = child_cross_size_exec(&cs[k], cross_size);
        let cpos = child_cross_pos_exec(&cs[k], align, cross_pos, cross_size);
        match dir {
            FlexDirection::Row => {
                state.data.set_posx(e, positions[k]);
                state.data.set_width(e, sizes[k]);
                state.data.set_posy(e, cpos);
                state.data.set_height(e, csize);
            },
            FlexDirection::Column => {
                state.data.set_posy(e, positions[k]);
                state.data.set_height(e, sizes[k]);
                state.data.set_posx(e, cpos);
                state.data.set_width(e, csize);
            },
        }
        k = k + 1;
    }
}

/// The full relayout: every container's children are placed, parents before
/// their children (pre-order), so each child is laid out against its
/// parent's final geometry; the clip regions are then recomputed.
pub fn apply_layout(state: &mut State)
    requires
        old(state).wf(),
    ensures
        final(state).wf(),
        final(state).hierarchy == old(state).hierarchy,
        final(state).style == old(state).style,
        final(state).event_queue@ == old(state).event_queue@,
        final(state).hovered == old(state).hovered,
        final(state).focused == old(state).focused,
        final(state).captured == old(state).captured,
{
    proof {
        assert(state.hierarchy.is_live(0));
        assert(state.hierarchy.entity_of(0) == Entity::root_spec());
    }
    let list = state.hierarchy.collect_subtree(Entity::root());
    let mut m: usize = 0;
    while m < list.len()
        invariant
            state.wf(),
            state.hierarchy == old(state).hierarchy,
            state.style == old(state).style,
            state.event_queue@ == old(state).event_queue@,
            state.hovered == old(state).hovered,
            state.focused == old(state).focused,
            state.captured == old(state).captured,
            m <= list@.len(),
            forall|mm: int|
                0 <= mm < list@.len() ==> old(state).hierarchy.is_live(
                    (#[trigger] list@[mm]).idx(),
                ),
        decreases list@.len() - m,
    {
        layout_children(state, list[m]);
        m = m + 1;
    }
    apply_clipping(state);
}

/// Recomputes the clip regions, parents before children: each non-root
/// entity's clip region becomes the intersection of its own bounds with the
/// current clip region of its designated clip widget (its parent when none
/// is set), every value clamped into the safe dimension range first.
pub fn apply_clipping(state: &mut State)
    requires
        old(state).wf(),
    ensures
        final(state).wf(),
        final(state).hierarchy == old(state).hierarchy,
        final(state).style == old(state).style,
        final(state).event_queue@ == old(state).event_queue@,
        final(state).hovered == old(state).hovered,
        final(state).focused == old(state).focused,
        final(state).captured == old(state).captured,
    {
    proof {
        assert(state.hierarchy.is_live(0));
        assert(state.hierarchy.entity_of(0) == Entity::root_spec());
    }
    let list = state.hierarchy.collect_subtree(Entity::root());
    let mut m: usize = 0;
    while m < list.len()
        invariant
            state.wf(),
            state.hierarchy == old(state).hierarchy,
            state.style == old(state).style,
            state.event_queue@ == old(state).event_queue@,
            state.hovered == old(state).hovered,
            state.focused == old(state).focused,
            state.captured == old(state).captured,
            m <= list@.len(),
            forall|mm: int|
                0 <= mm < list@.len() ==> old(state).hierarchy.is_live(
                    (#[trigger] list@[mm]).idx(),
                ),
        decreases list@.len() - m,
    {
        let e = list[m];
        if e.index != 0 {
            let cw = match state.style.clip_widget.get(e) {
                Some(c) => *c,
                None => match state.hierarchy.get_parent(e) {
                    Some(p) => p,
                    None => Entity::root(),
                },
            };
            let own = BoundingBox {
                x: clamp_dim_exec(state.data.get_posx(e) as i128),
                y: clamp_dim_exec(state.data.get_posy(e) as i128),
                w: clamp_nonneg(state.data.get_width(e)),
                h: clamp_nonneg(state.data.get_height(e)),
            };
            let cr = state.data.get_clip_region(cw);
            let clip = BoundingBox {
                x: clamp_dim_exec(cr.x as i128),
                y: clamp_dim_exec(cr.y as i128),
                w: clamp_nonneg(cr.w),
                h: clamp_nonneg(cr.h),
            };
            let r = BoundingBox::intersect(own, clip);
            state.data.set_clip_region(e, r);
        }
        m = m + 1;
    }
}

/// Clamps a size into `[0, MAX_DIM]`.
pub fn clamp_nonneg(x: i64) -> (r: i64)
    ensures
        r == if x as int > MAX_DIM {
            MAX_DIM as int
        } else if x < 0 {
            0
        } else {
            x as int
        },
{
    if x > MAX_DIM {
        MAX_DIM
    } else if x < 0 {
        0
    } else {
        x
    }
}

} // verus!
