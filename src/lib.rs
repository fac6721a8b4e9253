//! Typed columnar arithmetic: a data-type lattice with supertype resolution,
//! and frame-series and frame-frame combinators with null broadcasting.

pub mod aggregate;
pub mod arithmetic;
pub mod dtype;
pub mod frame;
pub mod funcs;
mod parallel;
