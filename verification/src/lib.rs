//! Core logic of a family of terminal audio visualizers for PulseAudio and PipeWire:
//! configuration models, source selection, colour handling, layouts and key handling.
use vstd::prelude::*;

pub mod multi;
pub mod order;
pub mod seqs;
pub mod studio;
pub mod text;
pub mod viz;

verus! {

} // verus!
