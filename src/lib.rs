use vstd::prelude::*;

pub mod handlers;
pub mod json;
pub mod laws;
pub mod model;
pub mod request;
pub mod store;
pub mod text;
pub mod wire;

verus! {

} // verus!
