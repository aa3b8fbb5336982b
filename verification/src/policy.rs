//! Transform policy: which adjustment a projectile category calls for.
use vstd::prelude::*;

verus! {

/// Index, in a translation triple, of the axis along which projectiles are
/// shifted. It is the same for every category.
pub const SHIFT_AXIS: usize = 1;

/// A single-precision scalar, carried as its IEEE 754 bit pattern.
///
/// The library never interprets the bits; it only hands them on.
#[derive(Clone, Copy, Debug, PartialEq, Eq, Hash)]
pub struct Scalar {
    pub bits: u32,
}

/// The projectile categories that the engine knows how to adjust.
#[derive(Clone, Copy, Debug, PartialEq, Eq, Hash)]
pub enum Category {
    Arrow,
    Bolt,
    Thrown,
}

/// Caller-supplied configuration. All four values are required.
#[derive(Clone, Copy, Debug, PartialEq, Eq)]
pub struct TransformConfig {
    pub arrow_offset: Scalar,
    pub arrow_scale: Scalar,
    pub bolt_offset: Scalar,
    pub bolt_scale: Scalar,
}

/// A change to the local transform of an av-object.
#[derive(Clone, Copy, Debug, PartialEq, Eq)]
pub enum Adjustment {
    /// Add `offset` to the translation along [`SHIFT_AXIS`], and multiply the
    /// scale by `factor`.
    Shift { offset: Scalar, factor: Scalar },
    /// Multiply the scale by exactly minus one. The translation stays.
    Flip,
}

/// The adjustment that `category` calls for under `config`.
pub open spec fn adjustment_of(category: Category, config: TransformConfig) -> Adjustment {
    match category {
        Category::Arrow => Adjustment::Shift {
            offset: config.arrow_offset,
            factor: config.arrow_scale,
        },
        Category::Bolt => Adjustment::Shift {
            offset: config.bolt_offset,
            factor: config.bolt_scale,
        },
        Category::Thrown => Adjustment::Flip,
    }
}

/// The adjustment for `category`. Arrows and bolts are shifted and scaled
/// as the configuration says, each by its own pair of values; throwables are
/// flipped, whatever the configuration.
pub fn adjustment_for(category: Category, config: &TransformConfig) -> (adjustment: Adjustment)
    ensures
        adjustment == adjustment_of(category, *config),
        category == Category::Thrown ==> adjustment == Adjustment::Flip,
{
    match category {
        Category::Arrow => Adjustment::Shift {
            offset: config.arrow_offset,
            factor: config.arrow_scale,
        },
        Category::Bolt => Adjustment::Shift { offset: config.bolt_offset, factor: config.bolt_scale },
        Category::Thrown => Adjustment::Flip,
    }
}

} // verus!
