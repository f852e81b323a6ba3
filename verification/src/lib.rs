//! Flow control for a message-routing mesh: a registry of flows with
//! producers, consumers and spawners, and an enforcer that decides, for
//! every message hop, whether a sender may deliver to a receiver under a
//! given flow identity.
//!
//! `registry` holds the registry, the identifier allocator, the
//! registration and lifecycle operations and the enforcer; `laws` proves
//! the guarantees that span several of them; `codec` decodes the textual
//! artefacts of the management surfaces; `projects` makes the decisions
//! behind the project-management glue.

use vstd::prelude::*;

pub mod codec;
pub mod laws;
pub mod projects;
pub mod registry;

verus! {

/// An opaque, routable endpoint identifier for one worker or hop.
/// Equality is by value.
pub struct Address {
    pub bytes: Vec<u8>,
}

impl View for Address {
    type V = Seq<u8>;

    open spec fn view(&self) -> Seq<u8> {
        self.bytes@
    }
}

impl Address {
    pub fn new(bytes: Vec<u8>) -> (r: Address)
        ensures
            r@ == bytes@,
    {
        Address { bytes }
    }

    /// A second address with the same value.
    pub fn duplicate(&self) -> (r: Address)
        ensures
            r@ == self@,
    {
        let n = self.bytes.len();
        let mut out: Vec<u8> = Vec::new();
        let mut i: usize = 0;
        while i < n
            invariant
                n == self.bytes@.len(),
                i <= n,
                out@ == self.bytes@.subrange(0, i as int),
            decreases n - i,
        {
            out.push(self.bytes[i]);
            proof {
                assert(out@ =~= self.bytes@.subrange(0, i + 1));
            }
            i += 1;
        }
        proof {
            assert(out@ =~= self.bytes@);
        }
        Address { bytes: out }
    }
}

/// Compares two byte strings by value.
pub fn bytes_eq(a: &Vec<u8>, b: &Vec<u8>) -> (r: bool)
    ensures
        r == (a@ == b@),
{
    let n = a.len();
    if n != b.len() {
        assert(a@ != b@);
        return false;
    }
    let mut i: usize = 0;
    while i < n
        invariant
            n == a@.len(),
            n == b@.len(),
            i <= n,
            forall|k: int| 0 <= k < i ==> a@[k] == b@[k],
        decreases n - i,
    {
        if a[i] != b[i] {
            return false;
        }
        i += 1;
    }
    proof {
        assert(a@ =~= b@);
    }
    true
}

/// Compares two addresses by value.
pub fn address_eq(a: &Address, b: &Address) -> (r: bool)
    ensures
        r == (a@ == b@),
{
    bytes_eq(&a.bytes, &b.bytes)
}

} // verus!
