//! A persistent, access-controlled content store: named pages (path ->
//! content) behind a per-user, per-path access-control list, plus a dense
//! ordinal index for positional enumeration. The durable maps live in
//! `ic_stable_structures`; the logic around them is verified.

use vstd::prelude::*;

mod backing;
mod codec;
pub mod acl;
pub mod content;
pub mod gateway;
pub mod index;
pub mod laws;

use crate::acl::AccessControlStore;
use crate::content::ContentStore;
use crate::index::ContentIndex;

verus! {

/// Opens the three process-wide stores over the process's one durable
/// memory, each in its own region, each holding whatever a previous process
/// left there (on a first start, nothing). Open them once per process and
/// keep them. The content and access-control stores carry no invariant; the
/// index's — ordinals contiguous from zero — is restored on load.
pub fn open_stores() -> (r: (ContentStore, AccessControlStore, ContentIndex))
    ensures
        r.2.wf(),
{
    let (content, users, index) = crate::backing::maps_open();
    (
        ContentStore::from_map(content),
        AccessControlStore::from_map(users),
        ContentIndex::open(index),
    )
}

/// A page's name: the primary key of the content store. Caller-supplied and
/// unvalidated; the empty string and arbitrary lengths are legal.
pub type ContentPath = String;

/// A page's body: an opaque blob stored verbatim.
pub type Content = String;

/// An access capability for one (user, path) pair. The default for a pair
/// never recorded is `NoAccess`.
#[derive(Clone, Copy, PartialEq, Eq, Structural, Debug)]
pub enum UserAccess {
    NoAccess,
    Read,
    ReadWrite,
}

/// An externally authenticated principal, held as its raw bytes. The core
/// never inspects the bytes; it only compares identities.
pub struct UserId {
    bytes: Vec<u8>,
}

impl View for UserId {
    type V = Seq<u8>;

    closed spec fn view(&self) -> Seq<u8> {
        self.bytes@
    }
}

impl UserId {
    pub fn new(bytes: Vec<u8>) -> (r: UserId)
        ensures
            r@ == bytes@,
    {
        UserId { bytes }
    }

    /// The identity's raw bytes.
    pub fn as_bytes(&self) -> (r: &Vec<u8>)
        ensures
            r@ == self@,
    {
        &self.bytes
    }

    /// An owned copy of the identity.
    pub fn duplicate(&self) -> (r: UserId)
        ensures
            r@ == self@,
    {
        UserId { bytes: self.to_vec() }
    }

    /// An owned copy of the identity's raw bytes.
    pub fn to_vec(&self) -> (r: Vec<u8>)
        ensures
            r@ == self@,
    {
        let mut out: Vec<u8> = Vec::new();
        let mut i: usize = 0;
        while i < self.bytes.len()
            invariant
                0 <= i <= self.bytes.len(),
                out@ == self.bytes@.take(i as int),
            decreases self.bytes.len() - i,
        {
            out.push(self.bytes[i]);
            proof {
                assert(out@ =~= self.bytes@.take(i + 1));
            }
            i += 1;
        }
        proof {
            assert(out@ =~= self@);
        }
        out
    }

    /// Identity comparison: two principals are the same exactly when their
    /// bytes agree.
    pub fn same_as(&self, other: &UserId) -> (r: bool)
        ensures
            r <==> self@ == other@,
    {
        if self.bytes.len() != other.bytes.len() {
            proof {
                assert(self@.len() != other@.len());
            }
            return false;
        }
        let mut i: usize = 0;
        while i < self.bytes.len()
            invariant
                0 <= i <= self.bytes.len(),
                self.bytes.len() == other.bytes.len(),
                forall|j: int| 0 <= j < i ==> self@[j] == other@[j],
            decreases self.bytes.len() - i,
        {
            if self.bytes[i] != other.bytes[i] {
                return false;
            }
            i += 1;
        }
        proof {
            assert(self@ =~= other@);
        }
        true
    }
}

} // verus!
