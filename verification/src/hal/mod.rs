pub mod dma;
pub mod gpio;
pub mod i2c;
pub mod i2s;
pub mod interrupt;
pub mod mmio;
pub mod spi;
