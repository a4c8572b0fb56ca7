pub mod framebuffer;
pub mod lcd;
