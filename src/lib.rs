use vstd::prelude::*;

pub mod api;
pub mod broker;
pub mod net;
pub mod objects;
pub mod proxy;
pub mod types;

verus! {

/// Body of a successful liveness probe.
pub fn healthcheck() -> (r: &'static str)
    ensures
        r@ == "ok"@,
{
    "ok"
}

} // verus!
