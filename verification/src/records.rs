//! Strongly typed record shapes that callers of the engine work with. They
//! carry no comparison logic of their own: a caller turns them into tree
//! values before comparing.

use vstd::prelude::*;
use std::collections::HashMap;

verus! {

/// A labelled record with a specification part.
#[derive(Debug, Clone)]
pub struct Node {
    pub metadata: Metadata,
    pub spec: Spec,
}

/// Identification and bookkeeping data of a `Node`.
#[derive(Debug, Clone)]
pub struct Metadata {
    pub name: String,
    pub labels: HashMap<String, String>,
    pub expires: String,
    pub id: i64,
}

/// The specification part of a `Node`.
#[derive(Debug, Clone)]
pub struct Spec {
    pub hostname: String,
}

} // verus!
