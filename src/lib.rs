//! Clears the checked checklist items of a block tree held by a remote
//! content API. The library decides: it decodes blocks, walks the tree depth
//! first one remote call at a time, and writes the requests' addresses,
//! headers and bodies. The caller performs each call and reports back.
use vstd::prelude::*;

pub mod config;
pub mod node;
pub mod policy;
pub mod request;
pub mod traversal;
pub mod walker;

verus! {

} // verus!
