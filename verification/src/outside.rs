//! Declarations of the outside types that the library's values carry.

use vstd::prelude::*;
use serde_json::Error as JsonError;

verus! {

/// std's I/O error, carried opaquely by [`crate::Error::Io`].
#[verifier::external_type_specification]
#[verifier::external_body]
pub struct ExIoError(std::io::Error);

/// serde_json's error, carried opaquely by [`crate::Error::Json`].
#[verifier::external_type_specification]
#[verifier::external_body]
pub struct ExJsonError(JsonError);

} // verus!
