pub mod allocator;
pub mod dma_buffer;
