//! A fixed-rate signal sampling core: a fixed-capacity rolling sample
//! buffer, a paired value/time sampler, and the fixed-period driver loop
//! that advances them together.

pub mod driver;
pub mod sampler;
