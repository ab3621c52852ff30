//! Why a record could not be written.

use vstd::prelude::*;

verus! {

/// The reason for which no record was produced. The record is then dropped
/// as a whole: nothing partial is ever handed out.
#[derive(Debug)]
pub enum FormatError {
    /// `serde_json` could not write a key or a value.
    Json(serde_json::Error),
}

} // verus!
