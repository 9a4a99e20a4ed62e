use vstd::prelude::*;

verus! {

/// One byte of the data being coded.
#[derive(Copy, Clone, PartialEq, Eq, Structural, Debug, Hash)]
pub struct Byte(pub u8);

impl Byte {
    /// The byte as an index into a table.
    pub fn to_usize(self) -> (r: usize)
        ensures
            r == self.0 as usize,
    {
        self.0 as usize
    }

    /// The byte as a 32-bit word.
    pub fn to_u32(self) -> (r: u32)
        ensures
            r == self.0 as u32,
    {
        self.0 as u32
    }
}

impl From<u8> for Byte {
    fn from(value: u8) -> (r: Byte) {
        Byte(value)
    }
}

impl vstd::std_specs::convert::FromSpecImpl<u8> for Byte {
    open spec fn obeys_from_spec() -> bool {
        true
    }

    open spec fn from_spec(value: u8) -> Byte {
        Byte(value)
    }
}

impl From<Byte> for u8 {
    fn from(value: Byte) -> (r: u8) {
        value.0
    }
}

impl vstd::std_specs::convert::FromSpecImpl<Byte> for u8 {
    open spec fn obeys_from_spec() -> bool {
        true
    }

    open spec fn from_spec(value: Byte) -> u8 {
        value.0
    }
}

} // verus!
