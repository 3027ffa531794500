use vstd::prelude::*;

verus! {

/// An account or contract address, held as the bytes of its textual
/// (strkey) form. Two addresses are the same exactly when those bytes are.
#[derive(Debug, PartialEq, Eq)]
pub struct Address {
    bytes: Vec<u8>,
}

impl View for Address {
    type V = Seq<u8>;

    closed spec fn view(&self) -> Seq<u8> {
        self.bytes@
    }
}

impl Address {
    /// The address whose textual form is `bytes`.
    pub fn from_bytes(bytes: Vec<u8>) -> (a: Address)
        ensures
            a@ == bytes@,
    {
        Address { bytes }
    }

    /// The bytes of the textual form of this address.
    pub fn to_bytes(&self) -> (b: Vec<u8>)
        ensures
            b@ == self@,
    {
        let b = self.bytes.clone();
        assert(b@ =~= self.bytes@);
        b
    }

    /// Whether `self` and `other` name the same address.
    pub fn same_as(&self, other: &Address) -> (r: bool)
        ensures
            r == (self@ == other@),
    {
        let r = self.bytes == other.bytes;
        proof {
            if self.bytes@ =~= other.bytes@ {
            }
        }
        r
    }
}

impl Clone for Address {
    fn clone(&self) -> (r: Self)
        ensures
            r@ == self@,
    {
        Address { bytes: self.to_bytes() }
    }
}

} // verus!
