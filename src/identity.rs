use vstd::prelude::*;

verus! {

/// The bytes of the reserved principal that stands for "no owner".
pub open spec fn anonymous_bytes() -> Seq<u8> {
    seq![4u8]
}

/// Relies on candid::Principal::anonymous and Principal::as_slice: the
/// anonymous principal is the single tag byte 4.
#[verifier::external_body]
fn anonymous_principal_bytes() -> (r: Vec<u8>)
    ensures
        r@ == anonymous_bytes(),
{
    candid::Principal::anonymous().as_slice().to_vec()
}

/// A caller or owner identity, held as the raw bytes of its principal.
#[derive(Clone, Debug)]
pub struct Identity {
    bytes: Vec<u8>,
}

impl View for Identity {
    type V = Seq<u8>;

    closed spec fn view(&self) -> Seq<u8> {
        self.bytes@
    }
}

impl Identity {
    pub fn from_bytes(bytes: Vec<u8>) -> (r: Identity)
        ensures
            r@ == bytes@,
    {
        Identity { bytes }
    }

    pub fn to_bytes(&self) -> (r: Vec<u8>)
        ensures
            r@ == self@,
    {
        let r = self.bytes.clone();
        assert(r@ =~= self.bytes@);
        r
    }

    /// The identity that owns burned tokens.
    pub fn anonymous() -> (r: Identity)
        ensures
            r@ == anonymous_bytes(),
    {
        Identity { bytes: anonymous_principal_bytes() }
    }

    pub fn duplicate(&self) -> (r: Identity)
        ensures
            r@ == self@,
    {
        Identity { bytes: self.to_bytes() }
    }

    /// Byte-wise comparison of two identities.
    pub fn same_as(&self, other: &Identity) -> (r: bool)
        ensures
            r == (self@ == other@),
    {
        let n = self.bytes.len();
        if n != other.bytes.len() {
            return false;
        }
        let mut i: usize = 0;
        while i < n
            invariant
                n == self.bytes@.len(),
                n == other.bytes@.len(),
                0 <= i <= n,
                forall|j: int| 0 <= j < i ==> self.bytes@[j] == other.bytes@[j],
            decreases n - i,
        {
            if self.bytes[i] != other.bytes[i] {
                return false;
            }
            i = i + 1;
        }
        assert(self.bytes@ =~= other.bytes@);
        true
    }
}

} // verus!
