//! A tokenizer for a small systems-programming language, with the option,
//! settings and naming rules of the compiler driver built around it.
//!
//! The functions of this crate are verified against the contracts that they
//! carry. What is taken on trust of std and of the `json` crate is marked
//! where it stands: the items without a body, and the one function whose
//! body is not read.

pub mod text;
pub mod compile;
pub mod option;
pub mod setting;
