//! Text refresh pipeline for a 2.9" monochrome e-paper panel.
//!
//! The library turns a received chunk of bytes into laid-out text lines,
//! renders them into the panel's framebuffer, and decides, step by step,
//! what the firmware loop around it must do next: poll for input,
//! acknowledge a chunk, or drive the panel through wake, clear, transfer,
//! display and sleep.

pub mod framebuffer;
pub mod layout;
pub mod orchestrator;
pub mod panel;
pub mod payload;
pub mod transport;
