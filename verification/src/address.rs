//! Account addresses as the logic reads them: 32 plain bytes.
use vstd::prelude::*;

verus! {

/// Number of bytes in an account address.
pub const ADDRESS_BYTES: usize = 32;

/// The address of an account on the ledger.
#[derive(Clone, Copy, Debug)]
pub struct Address {
    pub bytes: [u8; 32],
}

impl View for Address {
    type V = Seq<u8>;

    open spec fn view(&self) -> Seq<u8> {
        self.bytes@
    }
}

/// The all-zero address, which a freshly allocated account holds in every address field.
pub open spec fn zero_address_view() -> Seq<u8> {
    Seq::new(32, |i: int| 0u8)
}

impl Address {
    /// The address with the given bytes.
    pub fn new(bytes: [u8; 32]) -> (a: Address)
        ensures
            a.bytes == bytes,
    {
        Address { bytes }
    }

    /// The all-zero address (the default of an address field).
    pub fn zero() -> (a: Address)
        ensures
            a@ == zero_address_view(),
    {
        let a = Address { bytes: [0u8; 32] };
        assert(a@ =~= zero_address_view());
        a
    }

    /// Whether two addresses are the same, byte for byte.
    pub fn same_as(&self, other: &Address) -> (r: bool)
        ensures
            r == (self@ == other@),
    {
        let mut i: usize = 0;
        while i < ADDRESS_BYTES
            invariant
                0 <= i <= 32,
                self@.len() == 32,
                other@.len() == 32,
                forall|j: int| 0 <= j < i ==> self@[j] == other@[j],
            decreases 32 - i,
        {
            if self.bytes[i] != other.bytes[i] {
                return false;
            }
            i = i + 1;
        }
        assert(self@ =~= other@);
        true
    }

    /// Whether this is the all-zero address.
    pub fn is_zero(&self) -> (r: bool)
        ensures
            r == (self@ == zero_address_view()),
    {
        let z = Address::zero();
        self.same_as(&z)
    }
}

} // verus!
