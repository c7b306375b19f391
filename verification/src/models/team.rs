//! Teams.

use vstd::prelude::*;

verus! {

/// A team that owns code or services.
#[derive(Debug, Clone)]
pub struct TeamEntity {
    pub name: String,
    pub slack_channel: Option<String>,
    pub oncall_rotation: Option<String>,
    pub members: Vec<String>,
}

} // verus!
