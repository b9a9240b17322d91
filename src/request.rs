//! Request and result shapes that callers hand to and get from the client.
use vstd::prelude::*;

verus! {

/// A query: the metrics it reads and its query-language text.
#[derive(Clone, Debug)]
pub struct QueryRequest {
    pub metrics: Vec<String>,
    pub ql: String,
}

/// The outcome of a write: the metrics written and the point counts.
#[derive(Clone, Debug)]
pub struct WriteResult {
    pub metrics: Vec<String>,
    pub success: u32,
    pub failed: u32,
}

} // verus!
