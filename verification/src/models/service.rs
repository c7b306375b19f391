//! Services.

use vstd::prelude::*;

verus! {

/// A microservice or application in the service topology.
#[derive(Debug, Clone)]
pub struct ServiceEntity {
    pub name: String,
    pub repo: String,
    pub deploy_target: Option<String>,
    pub team: Option<String>,
    pub language: Option<String>,
    pub description: Option<String>,
}

} // verus!
