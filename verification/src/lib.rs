use vstd::prelude::*;

pub mod texture;
pub mod input;
pub mod avec;
pub mod sprite;
pub mod builder;
pub mod target;
pub mod blendmode;
pub mod math;
pub mod backend;
pub mod uniform;
pub mod program;

verus! {

} // verus!
