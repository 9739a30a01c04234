//! The type bit set of a hit object and the shape it classifies to.
use vstd::prelude::*;

verus! {

/// One of the known bits of a hit object's type.
#[derive(Clone, Copy, Debug, PartialEq, Eq, Structural)]
pub enum HitObjectFlag {
    Circle,
    Slider,
    NewCombo,
    Spinner,
}

pub open spec fn flag_bit(f: HitObjectFlag) -> u32 {
    match f {
        HitObjectFlag::Circle => 1,
        HitObjectFlag::Slider => 2,
        HitObjectFlag::NewCombo => 4,
        HitObjectFlag::Spinner => 8,
    }
}

impl HitObjectFlag {
    /// The bit that stands for this flag.
    pub fn bit(self) -> (r: u32)
        ensures
            r == flag_bit(self),
    {
        match self {
            HitObjectFlag::Circle => 1,
            HitObjectFlag::Slider => 2,
            HitObjectFlag::NewCombo => 4,
            HitObjectFlag::Spinner => 8,
        }
    }
}

/// The mask of every known bit.
pub const KNOWN_BITS: u32 = 15;

/// A set of hit-object type flags; only known bits are ever held.
#[derive(Clone, Copy, Debug, PartialEq, Eq, Structural)]
pub struct HitObjectType {
    pub bits: u32,
}

impl HitObjectType {
    pub open spec fn wf(self) -> bool {
        self.bits & !KNOWN_BITS == 0
    }

    pub open spec fn has(self, f: HitObjectFlag) -> bool {
        self.bits & flag_bit(f) != 0
    }

    /// The known bits of `raw`; unknown bits are dropped.
    pub fn from_bits_truncate(raw: u32) -> (r: HitObjectType)
        ensures
            r.bits == raw & KNOWN_BITS,
            r.wf(),
    {
        let bits = raw & KNOWN_BITS;
        assert(bits & !KNOWN_BITS == 0) by (bit_vector)
            requires
                bits == raw & 15u32,
        ;
        HitObjectType { bits }
    }

    /// The empty set.
    pub fn empty() -> (r: HitObjectType)
        ensures
            r.bits == 0,
            r.wf(),
    {
        assert(0u32 & !15u32 == 0) by (bit_vector);
        HitObjectType { bits: 0 }
    }

    /// The raw bits.
    pub fn bits(&self) -> (r: u32)
        ensures
            r == self.bits,
    {
        self.bits
    }

    /// Whether `f` is in the set.
    pub fn contains(&self, f: HitObjectFlag) -> (r: bool)
        ensures
            r == self.has(f),
    {
        self.bits & f.bit() != 0
    }
}

/// The kind of gameplay object a type classifies to.
#[derive(Clone, Copy, Debug, PartialEq, Eq, Structural)]
pub enum HitObjectShape {
    Circle,
    Slider,
    Spinner,
    Unknown,
}

/// Circle wins over slider, slider over spinner; no shape bit gives `Unknown`.
pub open spec fn shape_of(t: HitObjectType) -> HitObjectShape {
    if t.has(HitObjectFlag::Circle) {
        HitObjectShape::Circle
    } else if t.has(HitObjectFlag::Slider) {
        HitObjectShape::Slider
    } else if t.has(HitObjectFlag::Spinner) {
        HitObjectShape::Spinner
    } else {
        HitObjectShape::Unknown
    }
}

/// The shape that the type `t` classifies to.
pub fn classify(t: HitObjectType) -> (r: HitObjectShape)
    ensures
        r == shape_of(t),
{
    if t.contains(HitObjectFlag::Circle) {
        HitObjectShape::Circle
    } else if t.contains(HitObjectFlag::Slider) {
        HitObjectShape::Slider
    } else if t.contains(HitObjectFlag::Spinner) {
        HitObjectShape::Spinner
    } else {
        HitObjectShape::Unknown
    }
}

} // verus!
