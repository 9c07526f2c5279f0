//! Verified core of the Epiphany aquarium: the synth patch-script grammar
//! and its generators, the debug terminal and renderer settings, the
//! raymarcher's body slots and froxel masks, and the operator bridge's
//! decisions.

pub mod text;
pub mod script;
pub mod rng;
pub mod operator;
pub mod json;
pub mod artifacts;
pub mod debug;
pub mod froxel;
pub mod raymarch;
