//! The access policy: a fixed set of permitted upstream hostnames and the
//! single client address allowed to use the proxy.
//!
//! The policy is built once at startup and never changes afterwards; every
//! session consults it read-only. A target is permitted exactly when its
//! hostname equals, byte for byte, one of the configured hostnames; the
//! port plays no part in the decision. A client is permitted exactly when
//! its IPv4 address equals the single configured address (given here as the
//! address's 32-bit big-endian value).

use vstd::prelude::*;

verus! {

/// The fixed allowlist: permitted upstream hostnames and the one permitted
/// client address.
pub struct AllowList {
    hostnames: Vec<Vec<u8>>,
    allowed_client: u32,
}

impl AllowList {
    /// The hostnames of the allowlist, in the order they were given.
    pub closed spec fn spec_hostnames(&self) -> Seq<Seq<u8>> {
        Seq::new(self.hostnames@.len(), |i: int| self.hostnames@[i]@)
    }

    /// The one client address the proxy accepts connections from.
    pub closed spec fn spec_client(&self) -> u32 {
        self.allowed_client
    }

    /// Whether `host` is a permitted tunnel target: exact match against one
    /// of the configured hostnames.
    pub open spec fn spec_allows_target(&self, host: Seq<u8>) -> bool {
        exists|i: int| 0 <= i < self.spec_hostnames().len() && self.spec_hostnames()[i] == host
    }

    /// Builds the allowlist from the configured hostnames and client
    /// address.
    pub fn new(hostnames: Vec<Vec<u8>>, allowed_client: u32) -> (r: AllowList)
        ensures
            r.spec_hostnames().len() == hostnames@.len(),
            forall|i: int|
                0 <= i < hostnames@.len() ==> r.spec_hostnames()[i] == hostnames@[i]@,
            r.spec_client() == allowed_client,
    {
        AllowList { hostnames, allowed_client }
    }

    /// Answers whether a parsed target's hostname is permitted.
    pub fn is_target_allowed(&self, hostname: &Vec<u8>) -> (r: bool)
        ensures
            r == self.spec_allows_target(hostname@),
    {
        let n = self.hostnames.len();
        let mut i: usize = 0;
        while i < n
            invariant
                0 <= i <= n,
                n == self.hostnames@.len(),
                forall|k: int| 0 <= k < i ==> self.spec_hostnames()[k] != hostname@,
            decreases n - i,
        {
            if bytes_eq(&self.hostnames[i], hostname) {
                assert(self.spec_hostnames()[i as int] == hostname@);
                return true;
            }
            i += 1;
        }
        false
    }

    /// Answers whether a connecting client's IPv4 address is permitted.
    pub fn is_client_allowed(&self, remote_ip: u32) -> (r: bool)
        ensures
            r == (remote_ip == self.spec_client()),
    {
        remote_ip == self.allowed_client
    }
}

/// Byte-for-byte equality of two byte strings.
fn bytes_eq(a: &Vec<u8>, b: &Vec<u8>) -> (r: bool)
    ensures
        r == (a@ == b@),
{
    if a.len() != b.len() {
        return false;
    }
    let n = a.len();
    let mut i: usize = 0;
    while i < n
        invariant
            0 <= i <= n,
            n == a@.len() == b@.len(),
            forall|k: int| 0 <= k < i ==> a@[k] == b@[k],
        decreases n - i,
    {
        if a[i] != b[i] {
            return false;
        }
        i += 1;
    }
    assert(a@ =~= b@);
    true
}

} // verus!
