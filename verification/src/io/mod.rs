//! Port I/O bookkeeping and the devices behind I/O ports.
pub mod io_allocator;
pub mod pci;
pub mod port_manager;
pub mod ps2;
pub mod rtc;
pub mod serial;
pub mod vga;
