//! Identity sets: the collection of typed identity keys a relay is addressed by.
//!
//! A relay may be addressed by several independent identity key types, with at
//! most one value per type.  Two identity sets *overlap* when they share at
//! least one (type, value) pair; one set is *satisfied by* another when every
//! pair of the first also appears in the second.

use vstd::prelude::*;

verus! {

/// The key types a relay identity value can have.
#[derive(Clone, Copy, PartialEq, Eq, Structural, Debug)]
pub enum RelayIdType {
    /// An Ed25519 identity key.
    Ed25519,
    /// A legacy RSA identity key digest.
    Rsa,
}

/// An identity set: at most one identity value per key type, each held as its
/// raw bytes.
#[derive(Debug)]
pub struct RelayIds {
    /// The Ed25519 identity value, if one is present.
    pub ed25519: Option<Vec<u8>>,
    /// The RSA identity value, if one is present.
    pub rsa: Option<Vec<u8>>,
}

/// The mathematical value of an optional identity: the byte sequence, if any.
pub open spec fn opt_bytes_view(o: Option<Vec<u8>>) -> Option<Seq<u8>> {
    match o {
        Some(v) => Some(v@),
        None => None,
    }
}

/// Compare two optional identity values for equality of their byte sequences.
fn opt_bytes_eq(a: &Option<Vec<u8>>, b: &Option<Vec<u8>>) -> (r: bool)
    ensures
        r == (opt_bytes_view(*a) == opt_bytes_view(*b)),
{
    match (a, b) {
        (Some(x), Some(y)) => bytes_eq(x, y),
        (None, None) => true,
        _ => false,
    }
}

/// Compare two byte vectors for equality of their contents.
pub fn bytes_eq(a: &Vec<u8>, b: &Vec<u8>) -> (r: bool)
    ensures
        r == (a@ == b@),
{
    if a.len() != b.len() {
        return false;
    }
    let mut i: usize = 0;
    while i < a.len()
        invariant
            i <= a.len(),
            a.len() == b.len(),
            forall|j: int| 0 <= j < i ==> a@[j] == b@[j],
        decreases a.len() - i,
    {
        if a[i] != b[i] {
            return false;
        }
        i = i + 1;
    }
    proof {
        assert(a@ =~= b@);
    }
    true
}

impl RelayIds {
    /// The Ed25519 identity as a byte sequence, if present.
    pub open spec fn ed_view(&self) -> Option<Seq<u8>> {
        opt_bytes_view(self.ed25519)
    }

    /// The RSA identity as a byte sequence, if present.
    pub open spec fn rsa_view(&self) -> Option<Seq<u8>> {
        opt_bytes_view(self.rsa)
    }

    /// True when both sets hold exactly the same (type, value) pairs.
    pub open spec fn spec_same(&self, other: &RelayIds) -> bool {
        self.ed_view() == other.ed_view() && self.rsa_view() == other.rsa_view()
    }

    /// True when the two sets share at least one (type, value) pair.
    pub open spec fn spec_overlaps(&self, other: &RelayIds) -> bool {
        ||| (self.ed_view() is Some && self.ed_view() == other.ed_view())
        ||| (self.rsa_view() is Some && self.rsa_view() == other.rsa_view())
    }

    /// True when every (type, value) pair of `other` also appears in `self`.
    pub open spec fn spec_contains_all(&self, other: &RelayIds) -> bool {
        &&& (other.ed_view() is Some ==> self.ed_view() == other.ed_view())
        &&& (other.rsa_view() is Some ==> self.rsa_view() == other.rsa_view())
    }

    /// True when the set holds no identity at all.
    pub open spec fn spec_is_empty(&self) -> bool {
        self.ed_view() is None && self.rsa_view() is None
    }

    /// True when the set holds the single given (type, value) pair.
    pub open spec fn spec_has_id(&self, ty: RelayIdType, id: Seq<u8>) -> bool {
        match ty {
            RelayIdType::Ed25519 => self.ed_view() == Some(id),
            RelayIdType::Rsa => self.rsa_view() == Some(id),
        }
    }

    /// An identity set with no identities.  Callers are expected never to use
    /// such a set as a connection target.
    pub fn empty() -> (r: RelayIds)
        ensures
            r.spec_is_empty(),
    {
        RelayIds { ed25519: None, rsa: None }
    }

    /// An identity set holding the given identities.
    pub fn new(ed25519: Option<Vec<u8>>, rsa: Option<Vec<u8>>) -> (r: RelayIds)
        ensures
            r.ed_view() == opt_bytes_view(ed25519),
            r.rsa_view() == opt_bytes_view(rsa),
    {
        RelayIds { ed25519, rsa }
    }

    /// An identity set holding only the given Ed25519 identity.
    pub fn from_ed25519(id: Vec<u8>) -> (r: RelayIds)
        ensures
            r.ed_view() == Some(id@),
            r.rsa_view() is None,
    {
        RelayIds { ed25519: Some(id), rsa: None }
    }

    /// Make an independent copy of this identity set.
    pub fn duplicate(&self) -> (r: RelayIds)
        ensures
            r.ed_view() == self.ed_view(),
            r.rsa_view() == self.rsa_view(),
    {
        let ed25519 = match &self.ed25519 {
            Some(v) => Some(copy_bytes(v)),
            None => None,
        };
        let rsa = match &self.rsa {
            Some(v) => Some(copy_bytes(v)),
            None => None,
        };
        RelayIds { ed25519, rsa }
    }

    /// True iff this set and `other` hold exactly the same identities.
    pub fn same_relay_ids(&self, other: &RelayIds) -> (r: bool)
        ensures
            r == self.spec_same(other),
    {
        opt_bytes_eq(&self.ed25519, &other.ed25519) && opt_bytes_eq(&self.rsa, &other.rsa)
    }

    /// True iff this set and `other` share at least one identity.
    pub fn has_any_relay_id_from(&self, other: &RelayIds) -> (r: bool)
        ensures
            r == self.spec_overlaps(other),
    {
        let ed_shared = match (&self.ed25519, &other.ed25519) {
            (Some(x), Some(y)) => bytes_eq(x, y),
            _ => false,
        };
        let rsa_shared = match (&self.rsa, &other.rsa) {
            (Some(x), Some(y)) => bytes_eq(x, y),
            _ => false,
        };
        ed_shared || rsa_shared
    }

    /// True iff every identity of `other` also appears in this set.
    pub fn has_all_relay_ids_from(&self, other: &RelayIds) -> (r: bool)
        ensures
            r == self.spec_contains_all(other),
    {
        let ed_ok = match (&other.ed25519, &self.ed25519) {
            (Some(want), Some(have)) => bytes_eq(have, want),
            (Some(_), None) => false,
            (None, _) => true,
        };
        let rsa_ok = match (&other.rsa, &self.rsa) {
            (Some(want), Some(have)) => bytes_eq(have, want),
            (Some(_), None) => false,
            (None, _) => true,
        };
        ed_ok && rsa_ok
    }

    /// True iff the set holds no identity.
    pub fn is_empty(&self) -> (r: bool)
        ensures
            r == self.spec_is_empty(),
    {
        self.ed25519.is_none() && self.rsa.is_none()
    }

    /// True iff the set holds exactly the given (type, value) pair.
    pub fn has_id(&self, ty: RelayIdType, id: &Vec<u8>) -> (r: bool)
        ensures
            r == self.spec_has_id(ty, id@),
    {
        match ty {
            RelayIdType::Ed25519 => match &self.ed25519 {
                Some(v) => bytes_eq(v, id),
                None => false,
            },
            RelayIdType::Rsa => match &self.rsa {
                Some(v) => bytes_eq(v, id),
                None => false,
            },
        }
    }
}

/// Copy a byte vector, preserving its contents.
pub fn copy_bytes(v: &Vec<u8>) -> (r: Vec<u8>)
    ensures
        r@ == v@,
{
    let mut out: Vec<u8> = Vec::new();
    let mut i: usize = 0;
    while i < v.len()
        invariant
            i <= v.len(),
            out@ == v@.take(i as int),
        decreases v.len() - i,
    {
        out.push(v[i]);
        proof {
            assert(v@.take(i + 1 as int) =~= v@.take(i as int).push(v@[i as int]));
        }
        i = i + 1;
    }
    proof {
        assert(v@.take(v.len() as int) =~= v@);
    }
    out
}

} // verus!
