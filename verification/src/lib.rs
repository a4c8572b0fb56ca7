//! Verified core of the Echo Mini OS firmware: register programs for the
//! SoC peripherals, the buddy heap allocator, the audio ping-pong buffer,
//! the CS43131 DAC command sequences, the framebuffer and the UI state.
pub mod audio;
pub mod boot;
pub mod clock;
pub mod display;
pub mod hal;
pub mod input;
pub mod mem;
pub mod sim;
pub mod ui;
