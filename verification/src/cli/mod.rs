//! The commands of the program, without their input and output: what each
//! one is configured with, and what it computes for one row.

pub mod function;
pub mod utils;
