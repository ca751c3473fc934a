//! Wrapper for a value decoded from a request's query string. The
//! decoding itself belongs to the transport edge, which hands the
//! handlers an already-decoded value.

use vstd::prelude::*;

verus! {

/// A value that arrived in a request's query string.
pub struct QueryString<T>(pub T);

} // verus!
