use vstd::prelude::*;

verus! {

/// One coded binary decision.
#[derive(Copy, Clone, PartialEq, Eq, Structural, Debug, Hash)]
pub enum Bit {
    Zero,
    One,
}

impl Bit {
    /// The bit as the integer 0 or 1.
    pub open spec fn value(self) -> u32 {
        match self {
            Bit::Zero => 0,
            Bit::One => 1,
        }
    }

    /// `One` for a true flag, `Zero` for a false one.
    pub fn from_bool(flag: bool) -> (r: Bit)
        ensures
            r.value() == (if flag { 1u32 } else { 0u32 }),
    {
        if flag {
            Bit::One
        } else {
            Bit::Zero
        }
    }

    /// The bit that is the lowest bit of `v`.
    pub fn from_low_bit(v: u32) -> (r: Bit)
        ensures
            r.value() == v % 2,
    {
        if v % 2 == 1 {
            Bit::One
        } else {
            Bit::Zero
        }
    }

    /// The bit as 0 or 1.
    pub fn to_u32(self) -> (r: u32)
        ensures
            r == self.value(),
    {
        match self {
            Bit::Zero => 0,
            Bit::One => 1,
        }
    }
}

} // verus!
