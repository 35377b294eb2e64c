use vstd::prelude::*;

pub mod error;
pub mod quota;
pub mod model;
pub mod text;
pub mod syllable;
pub mod column;
pub mod game;
pub mod response;
pub mod dict;

verus! {

} // verus!
