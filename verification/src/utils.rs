//! Shared keys of the bot's runtime.
use vstd::prelude::*;

verus! {

/// The key under which the bot keeps its shared HTTP client.
#[derive(Debug)]
pub struct HttpKey;

} // verus!
