use vstd::prelude::*;

verus! {

broadcast use vstd::array::group_array_axioms;

/// A 32-byte account identity.
#[derive(Clone, Copy, Debug)]
pub struct Pubkey {
    pub bytes: [u8; 32],
}

impl Pubkey {
    pub fn new_from_array(bytes: [u8; 32]) -> (r: Pubkey)
        ensures
            r.bytes == bytes,
    {
        Pubkey { bytes }
    }

    pub fn to_bytes(&self) -> (r: [u8; 32])
        ensures
            r == self.bytes,
    {
        self.bytes
    }

    /// Identity comparison, byte by byte.
    pub fn same_as(&self, other: &Pubkey) -> (r: bool)
        ensures
            r == (*self == *other),
    {
        let r = same_bytes(&self.bytes, &other.bytes);
        proof {
            if r {
                assert(self.bytes == other.bytes);
            }
        }
        r
    }
}

/// Compares two byte arrays of one length.
pub fn same_bytes<const N: usize>(a: &[u8; N], b: &[u8; N]) -> (r: bool)
    ensures
        r == (*a == *b),
{
    let mut i: usize = 0;
    while i < N
        invariant
            0 <= i <= N,
            a@.len() == N,
            b@.len() == N,
            forall|k: int| 0 <= k < i ==> a[k] == b[k],
        decreases N - i,
    {
        if a[i] != b[i] {
            return false;
        }
        i = i + 1;
    }
    assert(*a =~= *b);
    true
}

/// The storage address of a record: a namespace together with the key fields
/// of that namespace. Two addresses are equal exactly when their namespaces
/// and key fields are, so records never collide unless their keys do.
#[derive(Clone, Copy, Debug)]
pub enum Address {
    /// The control plane created by the given admin.
    Global { admin: Pubkey },
    /// A catalog entry of the control plane of `admin`, under `slug`.
    ActionType { admin: Pubkey, slug: [u8; 16] },
    /// The member record of a participant.
    Member { owner: Pubkey },
    /// The claim of a participant under a client-chosen nonce.
    Submission { owner: Pubkey, nonce: u64 },
}

impl PartialEq for Pubkey {
    fn eq(&self, other: &Pubkey) -> (r: bool) {
        self.same_as(other)
    }
}

impl vstd::std_specs::cmp::PartialEqSpecImpl for Pubkey {
    open spec fn obeys_eq_spec() -> bool {
        true
    }

    open spec fn eq_spec(&self, other: &Pubkey) -> bool {
        *self == *other
    }
}

impl PartialEq for Address {
    fn eq(&self, other: &Address) -> (r: bool) {
        self.same_as(other)
    }
}

impl vstd::std_specs::cmp::PartialEqSpecImpl for Address {
    open spec fn obeys_eq_spec() -> bool {
        true
    }

    open spec fn eq_spec(&self, other: &Address) -> bool {
        *self == *other
    }
}

impl Address {
    /// Whether this is the address of a catalog entry of the control plane
    /// created by `admin`.
    pub open spec fn is_catalog_entry_of(self, admin: Pubkey) -> bool {
        match self {
            Address::ActionType { admin: a, .. } => a == admin,
            _ => false,
        }
    }

    pub fn catalog_entry_of(&self, admin: &Pubkey) -> (r: bool)
        ensures
            r == self.is_catalog_entry_of(*admin),
    {
        match self {
            Address::ActionType { admin: a, .. } => a.same_as(admin),
            _ => false,
        }
    }

    pub fn same_as(&self, other: &Address) -> (r: bool)
        ensures
            r == (*self == *other),
    {
        match (self, other) {
            (Address::Global { admin: a }, Address::Global { admin: b }) => a.same_as(b),
            (
                Address::ActionType { admin: a, slug: s },
                Address::ActionType { admin: b, slug: t },
            ) => a.same_as(b) && same_bytes(s, t),
            (Address::Member { owner: a }, Address::Member { owner: b }) => a.same_as(b),
            (
                Address::Submission { owner: a, nonce: n },
                Address::Submission { owner: b, nonce: m },
            ) => a.same_as(b) && *n == *m,
            _ => false,
        }
    }
}

} // verus!
