pub mod cli;
pub mod gba;
pub mod harness;
pub mod memory;
pub mod ppu;
pub mod utils;
