//! Execution and scheduling core of a small bare-metal kernel: process
//! creation, a round-robin preemptive scheduler with register-context
//! switching, and the system-call dispatcher, together with the in-memory
//! collaborators that the dispatcher drives.
pub mod ai_models;
pub mod ahci;
pub mod apic;
pub mod bitmap;
pub mod ethernet;
pub mod filesystem;
pub mod frame_allocator;
pub mod pci;
pub mod process;
pub mod scheduler;
pub mod security;
pub mod syscall;
pub mod text_analyzer;
pub mod usb;
