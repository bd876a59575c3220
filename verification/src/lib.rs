//! Matrix-scan keyboard engine: debounce, layered key-action resolution, and
//! the timer/DMA scan-cycle model, with machine-checked contracts.

pub mod action;
pub mod blinky;
pub mod config;
pub mod debounce;
pub mod dma;
pub mod keys;
pub mod layers;
pub mod mouse;
pub mod pressed;
pub mod scan;
pub mod usb_device;
