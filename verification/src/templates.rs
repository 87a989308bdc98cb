//! The texts that a new project is made from.

use vstd::prelude::*;

verus! {

/// The texts of a new project's files, with placeholders in double braces.
#[derive(Debug, Clone, PartialEq, Eq)]
pub struct Templates {
    pub cargo_toml: String,
    pub lib_rs: String,
    pub params_rs: String,
    pub editor_rs: String,
}

} // verus!
