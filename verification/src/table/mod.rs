//! Table functions of the color worker.

pub mod named;
