//! How many scalars one vector register of the target holds.

use vstd::prelude::*;

verus! {

/// The vector extensions that a target may enable, one flag for each.
#[derive(Debug, Clone, Copy)]
pub struct TargetFeatures {
    pub avx512f: bool,
    pub avx: bool,
    pub avx2: bool,
    pub sse4_1: bool,
    pub ssse3: bool,
    pub sse3: bool,
    pub sse2: bool,
    pub sse: bool,
    pub neon: bool,
    pub simd128: bool,
}

/// The width of the widest vector register that a target offers.
#[derive(Debug, Clone, Copy, PartialEq, Eq, Structural)]
pub enum RegisterWidth {
    /// No vector extension: one scalar at a time.
    Scalar,
    /// 128-bit registers.
    Bits128,
    /// 256-bit registers.
    Bits256,
    /// 512-bit registers.
    Bits512,
}

/// The width of one element.
#[derive(Debug, Clone, Copy, PartialEq, Eq, Structural)]
pub enum ElementWidth {
    /// A 32-bit scalar.
    Bits32,
    /// A 64-bit scalar.
    Bits64,
}

impl TargetFeatures {
    /// Whether one of the 256-bit extensions is enabled.
    pub open spec fn has_256(self) -> bool {
        self.avx || self.avx2
    }

    /// Whether one of the 128-bit extensions is enabled.
    pub open spec fn has_128(self) -> bool {
        self.sse4_1 || self.ssse3 || self.sse3 || self.sse2 || self.sse || self.neon
            || self.simd128
    }

    /// The widest register among the enabled extensions.
    pub open spec fn width(self) -> RegisterWidth {
        if self.avx512f {
            RegisterWidth::Bits512
        } else if self.has_256() {
            RegisterWidth::Bits256
        } else if self.has_128() {
            RegisterWidth::Bits128
        } else {
            RegisterWidth::Scalar
        }
    }
}

/// The lane count of a register of `width` that holds elements of `element`.
pub open spec fn lane_count_spec(width: RegisterWidth, element: ElementWidth) -> usize {
    match (width, element) {
        (RegisterWidth::Bits512, ElementWidth::Bits32) => 16,
        (RegisterWidth::Bits512, ElementWidth::Bits64) => 8,
        (RegisterWidth::Bits256, ElementWidth::Bits32) => 8,
        (RegisterWidth::Bits256, ElementWidth::Bits64) => 4,
        (RegisterWidth::Bits128, ElementWidth::Bits32) => 4,
        (RegisterWidth::Bits128, ElementWidth::Bits64) => 2,
        (RegisterWidth::Scalar, _) => 1,
    }
}

/// Picks the register width of a target, trying the widest extension first.
/// A target that enables none of the known extensions is a scalar target.
pub fn register_width(features: &TargetFeatures) -> (r: RegisterWidth)
    ensures
        r == features.width(),
{
    if features.avx512f {
        RegisterWidth::Bits512
    } else if features.avx || features.avx2 {
        RegisterWidth::Bits256
    } else if features.sse4_1 || features.ssse3 || features.sse3 || features.sse2 || features.sse
        || features.neon || features.simd128 {
        RegisterWidth::Bits128
    } else {
        RegisterWidth::Scalar
    }
}

/// The number of elements of `element` that one register of `width` holds.
pub fn lane_count(width: RegisterWidth, element: ElementWidth) -> (r: usize)
    ensures
        r == lane_count_spec(width, element),
        is_supported(r),
{
    match width {
        RegisterWidth::Bits512 => match element {
            ElementWidth::Bits32 => 16,
            ElementWidth::Bits64 => 8,
        },
        RegisterWidth::Bits256 => match element {
            ElementWidth::Bits32 => 8,
            ElementWidth::Bits64 => 4,
        },
        RegisterWidth::Bits128 => match element {
            ElementWidth::Bits32 => 4,
            ElementWidth::Bits64 => 2,
        },
        RegisterWidth::Scalar => 1,
    }
}

/// The lane counts that the arithmetic is laid out for.
pub open spec fn is_supported(lanes: usize) -> bool {
    lanes == 1 || lanes == 2 || lanes == 4 || lanes == 8 || lanes == 16
}

/// The lane count that the arithmetic runs with when an element type asks
/// for `lanes`: the same count where it is supported, one lane otherwise.
pub open spec fn effective_lanes(lanes: usize) -> nat {
    if is_supported(lanes) {
        lanes as nat
    } else {
        1
    }
}

/// The lane count of an element type: how many values of the type one
/// vector register of the target holds. It is fixed for the type and never
/// changes while a program runs.
pub trait LaneCount {
    /// The value of `lanes`. A verified element type defines it; left as it
    /// is, it stands for some count that nothing is known of.
    open spec fn lanes_spec() -> usize {
        arbitrary()
    }

    /// The lane count of this type.
    fn lanes() -> (r: usize)
        ensures
            r == Self::lanes_spec(),
    ;
}

/// Integer elements are laid out for 128-bit registers. Their arithmetic is
/// exact, so the choice has no effect on any result.
impl LaneCount for i32 {
    open spec fn lanes_spec() -> usize {
        lane_count_spec(RegisterWidth::Bits128, ElementWidth::Bits32)
    }

    fn lanes() -> (r: usize) {
        lane_count(RegisterWidth::Bits128, ElementWidth::Bits32)
    }
}

/// Laid out for 128-bit registers, as `i32` is.
impl LaneCount for i64 {
    open spec fn lanes_spec() -> usize {
        lane_count_spec(RegisterWidth::Bits128, ElementWidth::Bits64)
    }

    fn lanes() -> (r: usize) {
        lane_count(RegisterWidth::Bits128, ElementWidth::Bits64)
    }
}

} // verus!
