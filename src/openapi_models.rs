use vstd::prelude::*;

verus! {

/// One operation of a path in an OpenAPI document.
#[derive(Debug, Clone, Copy, Default, PartialEq, Eq, Structural)]
pub struct Operation {}

/// The operations reachable under one path of an OpenAPI document.
#[derive(Debug, Clone, Copy, Default, PartialEq, Eq, Structural)]
pub struct PathItem {}

/// A path of an OpenAPI document together with its operations.
#[derive(Debug)]
pub struct ApiPath {
    pub path: String,
    pub details: PathItem,
}

/// The title and version of an OpenAPI document.
#[derive(Debug)]
pub struct Info {
    pub title: String,
    pub version: String,
}

} // verus!
