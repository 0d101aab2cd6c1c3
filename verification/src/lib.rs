//! A terminal audio visualizer core: the per-mode signal processing
//! (oscilloscope triggering, vectorscope stereo pairing, spectroscope
//! FFT preparation with windowing and averaging), the shared graph
//! configuration, and the event routing state machine.
//!
//! Amplitude-like quantities (samples, scale, threshold) are carried as
//! fixed-point integers in milli-units: the integer `1000` stands for an
//! amplitude of one. Floating-point work (the FFT itself, window
//! coefficients, logarithmic axis mapping) happens outside this library,
//! which prepares the inputs for those steps and consumes their results.

pub mod app;
pub mod cfg;
pub mod display;
pub mod input;
pub mod music;
