//! The 32-byte public identifier that names administrators, holders,
//! asset types and destination accounts.

use vstd::prelude::*;
use vstd::std_specs::cmp::PartialEqSpecImpl;

verus! {

/// A 32-byte public identifier.
///
/// Two identifiers are the same exactly when their 32 bytes are the same;
/// in executable code `==` decides this, and in contracts `==` means it.
#[derive(Clone, Copy, Debug, Eq, Hash)]
pub struct Pubkey {
    pub bytes: [u8; 32],
}

impl View for Pubkey {
    type V = Seq<u8>;

    open spec fn view(&self) -> Seq<u8> {
        self.bytes@
    }
}

impl Pubkey {
    /// Wraps 32 bytes as an identifier.
    pub fn new_from_array(bytes: [u8; 32]) -> (key: Pubkey)
        ensures
            key.bytes == bytes,
            key@ == bytes@,
    {
        Pubkey { bytes }
    }

    /// The 32 bytes of the identifier.
    pub fn to_bytes(self) -> (bytes: [u8; 32])
        ensures
            bytes == self.bytes,
            bytes@ == self@,
    {
        self.bytes
    }

    /// Whether this identifier and `other` are the same, byte for byte.
    pub fn same(&self, other: &Pubkey) -> (same: bool)
        ensures
            same == (*self == *other),
    {
        same_bytes(&self.bytes, &other.bytes)
    }

    /// An identifier is determined by its bytes: equal views mean equal identifiers.
    pub proof fn lemma_view_injective(a: Pubkey, b: Pubkey)
        ensures
            (a@ == b@) <==> (a == b),
            a@.len() == 32,
    {
        if a@ == b@ {
            assert(a.bytes =~= b.bytes);
        }
    }
}

impl Default for Pubkey {
    /// The identifier of 32 zero bytes.
    fn default() -> (key: Pubkey)
        ensures
            key@.len() == 32,
            forall|i: int| 0 <= i < 32 ==> key@[i] == 0,
    {
        Pubkey { bytes: [0u8; 32] }
    }
}

/// Compares two 32-byte arrays position by position.
fn same_bytes(a: &[u8; 32], b: &[u8; 32]) -> (same: bool)
    ensures
        same == (*a === *b),
{
    let mut i: usize = 0;
    while i < 32
        invariant
            i <= 32,
            forall|j: int| 0 <= j < i ==> a[j] == b[j],
        decreases 32 - i,
    {
        if a[i] != b[i] {
            return false;
        }
        i += 1;
    }
    proof {
        assert(*a =~= *b);
    }
    true
}

impl PartialEq for Pubkey {
    fn eq(&self, other: &Pubkey) -> (same: bool) {
        same_bytes(&self.bytes, &other.bytes)
    }
}

impl PartialEqSpecImpl for Pubkey {
    open spec fn obeys_eq_spec() -> bool {
        true
    }

    open spec fn eq_spec(&self, other: &Pubkey) -> bool {
        *self === *other
    }
}

} // verus!
