//! Process lifecycle and scheduling core of a small RISC-V kernel.

pub mod elf;
pub mod load;
pub mod manager;
pub mod mem;
pub mod platform;
pub mod proc;
pub mod queue;
pub mod region;
pub mod syscall;
pub mod trap;
