//! Verified core of a set of agent tools.
use vstd::prelude::*;

pub mod attribution;
mod clock;
pub mod context;
pub mod coordinator;
pub mod elicitation;
pub mod headers;
pub mod ids;
pub mod image_gen;
pub mod json;
pub mod memory;
pub mod mission;
pub mod native_agents;
pub mod patch;
pub mod precision;
pub mod sessions;
pub mod swarm;
pub mod table;
pub mod text;
pub mod tool;
pub mod view_image;
pub mod virtual_tasks;
pub mod web_search;
pub mod workflow;
pub mod x_search;

verus! {

} // verus!
