//! A CHIP-8 virtual machine whose behaviour is specified and verified with Verus.
pub mod machine;
pub mod model;
mod rng;
pub mod laws;
pub mod instruction_laws;
