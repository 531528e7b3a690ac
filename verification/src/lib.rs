//! Verified core of a small x86 hobby kernel: bit fields, ring buffers,
//! port ranges, descriptor encodings, protocol framing and parsing.
#![allow(unused_imports)]

pub mod acpi;
pub mod allocator;
pub mod framebuffer;
pub mod future;
pub mod game;
pub mod gdt;
pub mod http;
pub mod interrupts;
pub mod libc;
pub mod logger;
pub mod io;
pub mod mouse;
pub mod multiboot;
pub mod multiboot2;
pub mod multiprocessing;
pub mod net;
pub mod process;
pub mod rng;
pub mod rtl8139;
pub mod sleep;
pub mod usb;
pub mod util;
pub mod vga;
