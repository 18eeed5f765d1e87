//! The parties index.

use vstd::prelude::*;

verus! {

/// The index's query parameters: the search text.
pub struct Params {
    pub q: Option<String>,
}

} // verus!
