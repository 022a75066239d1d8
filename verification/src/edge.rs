//! Edge strategies: what a convolution reads when a kernel cell falls
//! outside the image.

use vstd::prelude::*;
use vstd::arithmetic::div_mod::lemma_fundamental_div_mod;
use vstd::arithmetic::div_mod::lemma_fundamental_div_mod_converse;
use vstd::arithmetic::div_mod::lemma_small_mod;

verus! {

/// Used to determine the strategy when a kernel processes the edge of an image.
#[derive(Debug, Clone, Copy, PartialEq, Eq, Structural)]
pub enum EdgeStrategy {
    /// The coordinate is passed through unmapped; whoever reads the image
    /// supplies a constant border value where it is not a valid index.
    Constant,
    /// The coordinate is clamped to the nearest valid index.
    Extend,
    /// The coordinate wraps around to the opposite side.
    Wrap,
    /// The coordinate is reflected at the border.
    Mirror,
}

/// The machine index that stands for the mathematical coordinate `i`: `i`
/// itself where it is not negative, and its two's-complement image where it is.
pub open spec fn as_index(i: int) -> int {
    if i >= 0 {
        i
    } else {
        i + usize::MAX + 1
    }
}

impl EdgeStrategy {
    /// The coordinate that `value` is mapped to along an axis whose largest
    /// valid index is `max`, as a mathematical integer.
    pub open spec fn remap(self, value: int, max: int) -> int {
        match self {
            EdgeStrategy::Constant => value,
            EdgeStrategy::Extend => if value < 0 {
                0
            } else if value > max {
                max
            } else {
                value
            },
            EdgeStrategy::Wrap => value % (max + 1),
            EdgeStrategy::Mirror => if value < 0 {
                -value
            } else if value > max {
                max - (value % (max + 1)) - 1
            } else {
                value
            },
        }
    }

    /// Whether `value` is mapped to a valid index of an axis whose largest
    /// valid index is `max`.
    pub open spec fn lands_inside(self, value: int, max: int) -> bool {
        0 <= self.remap(value, max) <= max
    }

    /// Maps a coordinate along one axis.  The result is `remap(value, max)`;
    /// where that is negative (possible only for `Constant` and, for one
    /// residue, `Mirror`), its two's-complement image is returned, which is
    /// never a valid index.
    pub fn map_dimension(&self, value: isize, max: isize) -> (index: usize)
        requires
            max >= 0,
        ensures
            index as int == as_index(self.remap(value as int, max as int)),
            0 <= value <= max ==> index == value,
            self.lands_inside(value as int, max as int) <==> index <= max,
    {
        let span: usize = max as usize + 1;
        // For a negative `value`, `below` is `-(value + 1)`.
        let below: usize = if value < 0 {
            (-(value + 1)) as usize
        } else {
            0
        };
        proof {
            lemma_remap_facts(value as int, max as int);
        }
        match self {
            EdgeStrategy::Constant => {
                if value < 0 {
                    usize::MAX - below
                } else {
                    value as usize
                }
            },
            EdgeStrategy::Extend => {
                if value < 0 {
                    0
                } else if value > max {
                    max as usize
                } else {
                    value as usize
                }
            },
            EdgeStrategy::Wrap => {
                if value < 0 {
                    span - 1 - below % span
                } else {
                    value as usize % span
                }
            },
            EdgeStrategy::Mirror => {
                if value < 0 {
                    below + 1
                } else if value > max {
                    let rest: usize = value as usize % span;
                    if rest == max as usize {
                        usize::MAX
                    } else {
                        max as usize - rest - 1
                    }
                } else {
                    value as usize
                }
            },
        }
    }

    /// Maps a coordinate along one axis and says whether it landed inside:
    /// `Some` with the index where `remap(value, max)` is a valid index,
    /// `None` where it is not, in which case the reader of the image uses its
    /// border value.
    pub fn resolve(&self, value: isize, max: isize) -> (index: Option<usize>)
        requires
            max >= 0,
        ensures
            index.is_some() <==> self.lands_inside(value as int, max as int),
            index.is_some() ==> index.unwrap() as int == self.remap(value as int, max as int),
    {
        let mapped: usize = self.map_dimension(value, max);
        if mapped <= max as usize {
            Some(mapped)
        } else {
            None
        }
    }
}

/// A coordinate that is already a valid index is left where it is, whatever
/// the strategy.
pub proof fn lemma_valid_index_is_kept(strategy: EdgeStrategy, value: int, max: int)
    requires
        max >= 0,
        0 <= value <= max,
    ensures
        strategy.remap(value, max) == value,
        strategy.lands_inside(value, max),
{
    lemma_remap_facts(value, max);
}

/// `Extend` clamps: everything below the axis goes to index 0, everything
/// beyond it to the largest valid index.
pub proof fn lemma_extend_clamps(value: int, max: int)
    requires
        max >= 0,
    ensures
        value < 0 ==> EdgeStrategy::Extend.remap(value, max) == 0,
        value > max ==> EdgeStrategy::Extend.remap(value, max) == max,
        EdgeStrategy::Extend.lands_inside(value, max),
{
}

/// `Wrap` always lands inside, on the index that differs from `value` by a
/// multiple of the axis length; one step below the axis is its last index and
/// one step beyond it is index 0.
pub proof fn lemma_wrap_is_periodic(value: int, max: int)
    requires
        max >= 0,
    ensures
        EdgeStrategy::Wrap.lands_inside(value, max),
        EdgeStrategy::Wrap.remap(value + max + 1, max) == EdgeStrategy::Wrap.remap(value, max),
        -(max + 1) <= value < 0 ==> EdgeStrategy::Wrap.remap(value, max) == max + value + 1,
        max < value <= 2 * max + 1 ==> EdgeStrategy::Wrap.remap(value, max) == value - max - 1,
{
    let n: int = max + 1;
    lemma_remap_facts(value, max);
    lemma_fundamental_div_mod(value, n);
    let q: int = value / n;
    let r: int = value % n;
    assert(value + n == (q + 1) * n + r) by (nonlinear_arith)
        requires
            value == n * q + r,
    ;
    lemma_fundamental_div_mod_converse(value + n, n, q + 1, r);
    if -n <= value < 0 {
        assert(value == (-1) * n + (value + n));
        lemma_fundamental_div_mod_converse(value, n, -1, value + n);
    }
    if max < value <= 2 * max + 1 {
        assert(value == 1 * n + (value - n));
        lemma_fundamental_div_mod_converse(value, n, 1, value - n);
    }
}

/// `Mirror` reflects: a coordinate up to one axis length below the axis is
/// mapped to its negation, one up to `max` steps beyond the axis to
/// `2 * max - value`, and both land inside.
pub proof fn lemma_mirror_reflects(value: int, max: int)
    requires
        max >= 0,
        -max <= value <= 2 * max,
    ensures
        value < 0 ==> EdgeStrategy::Mirror.remap(value, max) == -value,
        value > max ==> EdgeStrategy::Mirror.remap(value, max) == 2 * max - value,
        EdgeStrategy::Mirror.lands_inside(value, max),
{
    let n: int = max + 1;
    if value > max {
        assert(value == 1 * n + (value - n));
        lemma_fundamental_div_mod_converse(value, n, 1, value - n);
    }
}

/// What the executable mapping needs of Euclidean remainders: the remainder
/// of a negative `value` seen from `-(value + 1)`, and the range of a
/// remainder.
proof fn lemma_remap_facts(value: int, max: int)
    requires
        max >= 0,
    ensures
        0 <= value % (max + 1) <= max,
        value < 0 ==> value % (max + 1) == max - (-(value + 1)) % (max + 1),
        0 <= value <= max ==> value % (max + 1) == value,
{
    let n: int = max + 1;
    lemma_fundamental_div_mod(value, n);
    if value < 0 {
        let a: int = -(value + 1);
        let q: int = a / n;
        let s: int = a % n;
        lemma_fundamental_div_mod(a, n);
        assert(value == (-q - 1) * n + (n - 1 - s)) by (nonlinear_arith)
            requires
                a == n * q + s,
                value == -a - 1,
        ;
        lemma_fundamental_div_mod_converse(value, n, -q - 1, n - 1 - s);
    }
    if 0 <= value <= max {
        lemma_small_mod(value as nat, n as nat);
    }
}

} // verus!
