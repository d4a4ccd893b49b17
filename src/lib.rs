//! The integer side of a terminal spectrum analyser: the layout of raw PCM
//! frames and the samples of the analysed channel, the block averaging that
//! fits a spectrum to a width, and the character grid that a frame is
//! painted into.

pub mod grid;
pub mod scaler;
pub mod spectrum;
