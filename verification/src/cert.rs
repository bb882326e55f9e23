//! Peer certificates, as the security layer records them.
//!
//! Certificate parsing and validation belong to the external security
//! engine; the core only carries the encoded form through.

use vstd::prelude::*;

verus! {

/// An encoded peer certificate. The core never looks inside the
/// encoding; it only stores and hands it back.
pub struct Certificate {
    pub der: Vec<u8>,
}

impl Certificate {
    pub fn new(der: Vec<u8>) -> (r: Certificate)
        ensures
            r.der@ == der@,
    {
        Certificate { der }
    }
}

/// An owned copy of a certificate, byte for byte.
pub fn copy_certificate(c: &Certificate) -> (r: Certificate)
    ensures
        r.der@ == c.der@,
{
    let mut der: Vec<u8> = Vec::new();
    let mut i: usize = 0;
    while i < c.der.len()
        invariant
            i <= c.der@.len(),
            der@ =~= c.der@.take(i as int),
        decreases c.der@.len() - i,
    {
        der.push(c.der[i]);
        i = i + 1;
        proof {
            assert(c.der@.take(i as int) =~= c.der@.take(i - 1).push(c.der@[i - 1]));
        }
    }
    proof {
        assert(c.der@.take(c.der@.len() as int) =~= c.der@);
    }
    Certificate { der }
}

} // verus!
