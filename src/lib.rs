use vstd::prelude::*;

pub mod bar;
pub mod binance;
pub mod chart;
pub mod crypto;
pub mod decimal;
pub mod display;
pub mod domain;
pub mod local;
pub mod monitor;
pub mod number;
pub mod ratelimit;
pub mod services;
pub mod synth;
pub mod text;
pub mod yahoo;

verus! {

/// Sum of two counters.
pub fn add(left: u64, right: u64) -> (r: u64)
    requires
        left + right <= u64::MAX,
    ensures
        r == left + right,
{
    left + right
}

} // verus!
