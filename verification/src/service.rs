//! The doubling services that the latency benchmarks call.
use crate::hello::Never;
use vstd::prelude::*;

verus! {

/// The service that answers twice its request.
#[derive(Clone, Copy)]
pub struct Doubler;

impl Doubler {
    /// Twice the request; the request must leave room for the product.
    pub fn call(&self, req: u64) -> (r: u64)
        requires
            req <= u64::MAX / 2,
        ensures
            r == 2 * req,
    {
        req * 2
    }

    /// Twice a signed request; the product must fit in an `i32`.
    pub fn double(&self, i: i32) -> (r: Result<i32, Never>)
        requires
            i32::MIN <= 2 * i <= i32::MAX,
        ensures
            r.is_ok(),
            r.unwrap() == 2 * i,
    {
        Ok(i * 2)
    }
}

/// The RPC service of the latency benchmarks.
#[derive(Clone, Copy)]
pub struct Srv;

impl Srv {
    /// Twice the request; the request must leave room for the product.
    pub fn test(&self, i: u64) -> (r: Result<u64, Never>)
        requires
            i <= u64::MAX / 2,
        ensures
            r.is_ok(),
            r.unwrap() == 2 * i,
    {
        Ok(i * 2)
    }
}

} // verus!
