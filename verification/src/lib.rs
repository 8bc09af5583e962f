pub mod cpu;
pub mod register;
pub mod cartridge;
pub mod bus;
pub mod interrupts;
pub mod joypad;
pub mod timer;
pub mod io;
pub mod membus;
pub mod ppu;
pub mod emulator;

pub use emulator::Emulator;
pub use membus::cartridge::Cartridge;
