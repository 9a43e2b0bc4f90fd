use vstd::prelude::*;

pub mod pattern;
pub mod playback;
pub mod run;

verus! {

} // verus!
