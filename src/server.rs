//! The registration record of a server and its identifiers.
use std::collections::HashMap;
use std::sync::Arc;
use vstd::prelude::*;

verus! {

/// Opaque unique identifier of a server.
#[derive(Debug)]
pub struct ServerId(pub String);

/// Role tag of a server (for example "room").
#[derive(Debug)]
pub struct ServerKind(pub String);

/// A peer's registration record; immutable once registered.
#[derive(Debug)]
pub struct Server {
    pub id: ServerId,
    pub kind: ServerKind,
    pub hostname: String,
    pub frontend: bool,
    pub metadata: HashMap<String, String>,
}

/// Relies on `Arc::clone`: the new handle points at the same record.
#[verifier::external_body]
pub(crate) fn share(a: &Arc<Server>) -> (r: Arc<Server>)
    ensures
        r == *a,
{
    Arc::clone(a)
}

} // verus!
