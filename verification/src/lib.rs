//! Core of a live audio spectrogram ("waterfall") display: the sample and
//! frequency queues, the framing rule of the spectral stage, the scanline
//! raster and the shutdown state machine, each with a proved contract.

pub mod lifecycle;
pub mod queue;
pub mod raster;
pub mod spectral;
pub mod waterfall;
