//! Decoder for the C++ name mangling scheme of the CodeWarrior toolchain.
//!
//! A mangled symbol is turned back into a readable C++ declaration. Every
//! parser of the grammar is an executable function whose result is tied, by
//! its contract, to a specification function over sequences of characters.

pub mod grammar;
pub mod laws;
pub mod options;
pub mod parse;
pub mod scan;
pub mod special;
pub mod symbol;
pub mod text;

pub use crate::options::DemangleOptions;
pub use crate::parse::{
    demangle_arg, demangle_function_args, demangle_name, demangle_qualified_name,
    demangle_template_args,
};
pub use crate::scan::{parse_digits, parse_qualifiers};
pub use crate::special::demangle_special_function;
pub use crate::symbol::{demangle, parse_symbol, render, Signature};
