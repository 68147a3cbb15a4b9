use vstd::prelude::*;

pub mod as_bits;
pub mod bitfield;
pub mod rpi3;
pub mod boot;
pub mod boot_protocol;
pub mod bump_allocator;
pub mod cell;
pub mod dma;
pub mod elf;
pub mod emmc;
pub mod exception;
pub mod gpio;
pub mod execution;
pub mod execution_map;
pub mod kernel_vm;
pub mod machine;
pub mod mailbox;
pub mod memory;
pub mod paging;
pub mod svc;
pub mod sync;
pub mod syscalls;
pub mod thread;
pub mod timer;
pub mod uart;
