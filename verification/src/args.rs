//! What a caller asks for: the template and, optionally, where the word
//! lists are.

use vstd::prelude::*;

verus! {

/// `std::path::PathBuf`, carried through as an opaque value.
#[verifier::external_type_specification]
#[verifier::external_body]
pub struct ExPathBuf(std::path::PathBuf);

/// The arguments of one render.
pub struct Args {
    /// The template to render.
    pub format: String,
    /// The directory that holds the word lists; `None` asks for the default.
    pub corpus: Option<std::path::PathBuf>,
}

} // verus!
