//! Agent runtime core: a bounded tool-calling turn loop, the tool permission
//! boundary, the filesystem sandbox, provider retry policy and session state.
use vstd::prelude::*;

pub mod registry;
pub mod agent;
pub mod context;
pub mod json;
pub mod persona;
pub mod reliable;
pub mod sandbox;
pub mod session;
pub mod skills;
pub mod text;
pub mod tools;
pub mod types;

verus! {

} // verus!
