//! Synthesis, mutation, sampling and tabulation of nucleotide sequences.
//!
//! The library computes; the program around it reads and writes the
//! record files.
use vstd::prelude::*;

pub mod generate;
mod rng;
pub mod subsample;
pub mod tabulate;

verus! {

/// The byte of adenine.
pub const BASE_A: u8 = 65;

/// The byte of cytosine.
pub const BASE_C: u8 = 67;

/// The byte of guanine.
pub const BASE_G: u8 = 71;

/// The byte of thymine.
pub const BASE_T: u8 = 84;

/// The byte of an unknown base.
pub const BASE_N: u8 = 78;

} // verus!
