//! A one-shot, single-user, local-disk directory synchronizer.
//!
//! The crate is split into a lazy, prunable filesystem traversal engine
//! (`fs`), a diff-and-replicate executor (`sync`), small command-line
//! helpers (`cli_helper`), and the text-level path model they share
//! (`text`).  All filesystem and console I/O is left to the embedding
//! program: the engine and the executor are step functions from state and
//! event to the next request, so every decision they make is verified.

pub mod cli_helper;
pub mod fs;
pub mod sync;
pub mod text;

use vstd::prelude::*;

verus! {

/// Error raised when a caller hands the library unusable input.
pub enum CustomError {
    InvalidInput(&'static str),
}

impl CustomError {
    /// The human-readable detail carried by the error.
    pub fn detail(&self) -> (r: &'static str)
        ensures
            self matches CustomError::InvalidInput(d) && r == d,
    {
        match self {
            CustomError::InvalidInput(detail) => detail,
        }
    }
}

} // verus!
