//! Real-time pipeline between an audio capture source, a spectrum analyzer and
//! a renderer: windowing of audio chunks, byte-encoded display buffers, target
//! selection and pause handling, each with a machine-checked contract.
//!
//! The library does no floating-point arithmetic. A magnitude, power, phase
//! or frequency is carried as the bit pattern of its IEEE-754 single-precision
//! value, which is exactly what the display buffers store; audio samples pass
//! through the windower untouched, whatever their type.

pub mod config;
pub mod controls;
pub mod dft_surface;
pub mod display;
pub mod encoding;
pub mod frame;
pub mod handoff;
pub mod pipeline;
pub mod spectrogram_surface;
pub mod windower;
