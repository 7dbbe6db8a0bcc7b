//! The row logic of the worker's scalar functions: which rows yield NULL and
//! which operands reach the color engine.

pub mod analysis;
pub mod convert;
