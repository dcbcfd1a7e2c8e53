use vstd::prelude::*;

verus! {

/// Failure categories shared by the broker, the resolver and the proxy.
#[derive(Clone, Copy, Debug, PartialEq, Eq, Structural)]
pub enum ErrorKind {
    /// No job or object exists under the requested key.
    NotFound,
    /// The result was not ready within the caller's patience.
    StillProcessing,
    /// The broker cannot admit or continue work.
    Overloaded,
    /// A single source failed during probing or transfer.
    BackendUnavailable,
    /// The request path or job payload could not be understood.
    MalformedInput,
}

/// Isolation tag attached to every resolution and fetch.
#[derive(Clone, Debug)]
pub enum Scope {
    /// Shared, tenant-independent artifacts.
    Global,
    /// Artifacts private to one tenant.
    Scoped(String),
}

/// Feature flags of a symbolication request.
#[derive(Clone, Copy, Debug, PartialEq, Eq, Structural)]
pub struct RequestOptions {
    /// Include candidate debug files in the response.
    pub dif_candidates: bool,
}

/// Settings of the service that the core logic reads.
#[derive(Clone, Copy, Debug, PartialEq, Eq, Structural)]
pub struct Config {
    /// Let untrusted clients connect to reserved and private networks.
    pub connect_to_reserved_ips: bool,
    /// Serve debug files through the symbol-store proxy.
    pub symstore_proxy: bool,
}

/// Copies a byte buffer so that the copy has the same contents.
pub fn copy_bytes(v: &Vec<u8>) -> (r: Vec<u8>)
    ensures
        r@ == v@,
{
    let mut r: Vec<u8> = Vec::with_capacity(v.len());
    let mut i: usize = 0;
    while i < v.len()
        invariant
            i <= v.len(),
            r@ == v@.subrange(0, i as int),
        decreases v.len() - i,
    {
        r.push(v[i]);
        i += 1;
    }
    assert(r@ =~= v@);
    r
}

} // verus!
