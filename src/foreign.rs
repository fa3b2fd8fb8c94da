//! Error types of std that the library carries through unchanged. They are
//! opaque here.
use vstd::prelude::*;

verus! {

/// `std::io::Error`, as returned by the process and file operations that
/// surround the library.
#[verifier::external_type_specification]
#[verifier::external_body]
pub struct ExIoError(std::io::Error);

} // verus!
