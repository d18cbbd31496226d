pub mod apic;
pub mod boot;
pub mod font;
pub mod framebuffer;
pub mod harness;
pub mod logger;
pub mod serial;
pub mod sink;
