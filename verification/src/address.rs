//! The static part of the device's bus address.

use vstd::prelude::*;
use vstd::std_specs::convert::FromSpecImpl;

verus! {

/// The levels of the two chip-select pins, `Address(a1, a2)`.
pub struct Address(pub u8, pub u8);

impl Address {
    /// The bus address that the pins select: the family's fixed bits `0x50`,
    /// the first pin in bit 1 and the second in bit 2. Bit 0 is left for the
    /// bank selector.
    pub open spec fn bus_address(self) -> u8 {
        0x50u8 | (self.1 << 2u8) | (self.0 << 1u8)
    }

    /// Bit 0 of the base address is clear whatever the pins are.
    pub proof fn lemma_bank_bit_clear(self)
        ensures
            self.bus_address() & 1 == 0,
    {
        let a: u8 = self.0;
        let b: u8 = self.1;
        assert((0x50u8 | (b << 2u8) | (a << 1u8)) & 1 == 0) by (bit_vector);
    }
}

impl From<Address> for u8 {
    fn from(a: Address) -> (r: u8) {
        0x50 | (a.1 << 2) | (a.0 << 1)
    }
}

impl FromSpecImpl<Address> for u8 {
    open spec fn obeys_from_spec() -> bool {
        true
    }

    open spec fn from_spec(a: Address) -> u8 {
        a.bus_address()
    }
}

} // verus!
