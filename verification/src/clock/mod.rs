pub mod pll;
