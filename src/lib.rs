use vstd::prelude::*;

pub mod commands;
pub mod framing;
pub mod hook;
pub mod lines;
pub mod materialize;
pub mod refs;
pub mod server;
pub mod session;
pub mod stacks;
pub mod text;
pub mod types;
pub mod values;

verus! {

} // verus!
